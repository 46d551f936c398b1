//! Configuration files: `[section]` headers and `key = value` lines.
//!
//! Blank lines and lines that start with `#` are skipped, white space around
//! names and values is ignored, and one pair of double quotes around a value is
//! taken off. A key counts only in the section that was asked for, and its first
//! assignment there wins.
//!
//! A header with white space inside the brackets opens its section all the same.
//! Only where a key was not found, and the question is whether its section is
//! there at all, such a header does not count.
use vstd::prelude::*;

use crate::net::IpAddress;
use crate::{net, text};

verus! {

/// The name in a `[name]` line, as it stands between the brackets.
pub open spec fn bracketed(line: Seq<char>) -> Option<Seq<char>> {
    if line.len() >= 2 && line[0] == '[' && line.last() == ']' {
        Some(line.subrange(1, line.len() - 1))
    } else {
        None
    }
}

/// A value without the pair of double quotes around it.
pub open spec fn unquoted(value: Seq<char>) -> Seq<char> {
    if value.len() >= 2 && value[0] == '"' && value.last() == '"' {
        value.subrange(1, value.len() - 1)
    } else {
        value
    }
}

/// A line that holds neither a header nor an assignment.
pub open spec fn is_skipped(line: Seq<char>) -> bool {
    line.len() == 0 || line[0] == '#'
}

/// The section that a line opens.
pub open spec fn opened_section(raw_line: Seq<char>) -> Option<Seq<char>> {
    let line = text::trimmed(raw_line);
    if is_skipped(line) {
        None
    } else {
        match bracketed(line) {
            Some(name) => Some(text::trimmed(name)),
            None => None,
        }
    }
}

/// The value that a line assigns to `key`.
pub open spec fn assigned(raw_line: Seq<char>, key: Seq<char>) -> Option<Seq<char>> {
    let line = text::trimmed(raw_line);
    let n = text::position(line, '=') as int;
    if is_skipped(line) || bracketed(line) is Some || n >= line.len() || text::trimmed(line.take(n))
        != key {
        None
    } else {
        Some(unquoted(text::trimmed(line.skip(n + 1))))
    }
}

/// The section that is open behind `lines`.
pub open spec fn current_section(lines: Seq<Seq<char>>) -> Option<Seq<char>>
    decreases lines.len(),
{
    if lines.len() == 0 {
        None
    } else if opened_section(lines.last()) is Some {
        opened_section(lines.last())
    } else {
        current_section(lines.drop_last())
    }
}

/// The value of the first assignment to `key` inside `section`.
pub open spec fn value_in(lines: Seq<Seq<char>>, section: Seq<char>, key: Seq<char>) -> Option<
    Seq<char>,
>
    decreases lines.len(),
{
    if lines.len() == 0 {
        None
    } else {
        let front = lines.drop_last();
        match value_in(front, section, key) {
            Some(value) => Some(value),
            None => if current_section(front) == Some(section) {
                assigned(lines.last(), key)
            } else {
                None
            },
        }
    }
}

/// The value of `key` in `section` of a file.
pub open spec fn config_value(contents: Seq<char>, section: Seq<char>, key: Seq<char>) -> Option<
    Seq<char>,
> {
    value_in(text::split(contents, '\n'), section, key)
}

/// Whether some line is the header of `section`, with no white space between the
/// brackets and the name.
pub open spec fn section_present(contents: Seq<char>, section: Seq<char>) -> bool {
    exists|i: int|
        0 <= i < text::split(contents, '\n').len() && bracketed(
            text::trimmed(#[trigger] text::split(contents, '\n')[i]),
        ) == Some(section)
}

/// Takes the brackets off a `[name]` line.
pub fn strip_brackets(line: &[char]) -> (r: Option<&[char]>)
    ensures
        match r {
            Some(name) => bracketed(line@) == Some(name@),
            None => bracketed(line@) is None,
        },
{
    if line.len() >= 2 && line[0] == '[' && line[line.len() - 1] == ']' {
        Some(&line[1..line.len() - 1])
    } else {
        None
    }
}

/// Takes one pair of double quotes off a value.
pub fn strip_quotes(value: &[char]) -> (r: &[char])
    ensures
        r@ == unquoted(value@),
{
    if value.len() >= 2 && value[0] == '"' && value[value.len() - 1] == '"' {
        &value[1..value.len() - 1]
    } else {
        value
    }
}

/// The first assignment wins: what stands behind it changes nothing.
pub proof fn law_first_assignment_wins(
    lines: Seq<Seq<char>>,
    section: Seq<char>,
    key: Seq<char>,
    n: int,
)
    requires
        0 <= n <= lines.len(),
        value_in(lines.take(n), section, key) is Some,
    ensures
        value_in(lines, section, key) == value_in(lines.take(n), section, key),
    decreases lines.len(),
{
    if n < lines.len() {
        assert(lines.drop_last().take(n) =~= lines.take(n));
        law_first_assignment_wins(lines.drop_last(), section, key, n);
    } else {
        assert(lines.take(n) =~= lines);
    }
}

/// Finds the value of `key` in `section`.
pub fn find_value(contents: &str, section: &str, key: &str) -> (r: Option<String>)
    ensures
        match r {
            Some(value) => config_value(contents@, section@, key@) == Some(value@),
            None => config_value(contents@, section@, key@) is None,
        },
{
    let chars = text::chars_of(contents);
    let lines = text::split_at_each(chars.as_slice(), '\n');
    let ghost all = text::pieces(lines@);
    let mut in_section: bool = false;
    let mut i: usize = 0;
    while i < lines.len()
        invariant
            i <= lines@.len(),
            all == text::pieces(lines@),
            all == text::split(contents@, '\n'),
            in_section == (current_section(all.take(i as int)) == Some(section@)),
            value_in(all.take(i as int), section@, key@) is None,
        decreases lines@.len() - i,
    {
        let line = text::trim(lines[i]);
        proof {
            assert(all.take(i + 1).drop_last() =~= all.take(i as int));
            assert(all.take(i + 1).last() == lines@[i as int]@);
        }
        if line.len() != 0 && line[0] != '#' {
            match strip_brackets(line) {
                Some(name) => {
                    in_section = text::equals(text::trim(name), section);
                },
                None => {
                    let n: usize = text::find(line, '=');
                    if in_section && n < line.len() {
                        let name = text::trim(&line[0..n]);
                        let raw = &line[n + 1..line.len()];
                        proof {
                            assert(line@.subrange(0, n as int) =~= line@.take(n as int));
                            assert(raw@ =~= line@.skip(n + 1));
                        }
                        if text::equals(name, key) {
                            let value = strip_quotes(text::trim(raw));
                            proof {
                                assert(value_in(all.take(i + 1), section@, key@) == Some(value@));
                                law_first_assignment_wins(all, section@, key@, i + 1);
                            }
                            return Some(text::string_of(value));
                        }
                    }
                },
            }
        }
        i = i + 1;
    }
    assert(all.take(i as int) =~= all);
    None
}

/// Whether a file has a header of `section`.
pub fn has_section(contents: &str, section: &str) -> (r: bool)
    ensures
        r == section_present(contents@, section@),
{
    let chars = text::chars_of(contents);
    let lines = text::split_at_each(chars.as_slice(), '\n');
    let ghost all = text::split(contents@, '\n');
    let mut i: usize = 0;
    while i < lines.len()
        invariant
            i <= lines@.len(),
            all == text::pieces(lines@),
            all == text::split(contents@, '\n'),
            forall|j: int|
                0 <= j < i ==> bracketed(text::trimmed(#[trigger] all[j])) != Some(section@),
        decreases lines@.len() - i,
    {
        assert(all[i as int] == lines@[i as int]@);
        match strip_brackets(text::trim(lines[i])) {
            Some(name) => if text::equals(name, section) {
                return true;
            },
            None => {},
        }
        i = i + 1;
    }
    false
}

/// Why a configuration cannot be loaded.
#[derive(Debug, Clone, PartialEq, Eq)]
pub enum ConfigError {
    /// The file cannot be read; the text says why.
    Io(String),
    MissingCryptoSection,
    MissingKey,
    /// A `[routing]` value is none of those that its key takes.
    InvalidRoutingValue { key: &'static str, found: String },
    /// The list of routes is not in brackets.
    InvalidRouteList { found: String },
    /// A `[dns]` value is invalid.
    InvalidDnsValue { key: &'static str, found: String },
    /// A `[tunnel]` value is invalid.
    InvalidTunnelValue { key: &'static str, found: String },
}

/// An error as a mathematical value.
pub enum ConfigErrorView {
    Io(Seq<char>),
    MissingCryptoSection,
    MissingKey,
    InvalidRoutingValue { key: Seq<char>, found: Seq<char> },
    InvalidRouteList { found: Seq<char> },
    InvalidDnsValue { key: Seq<char>, found: Seq<char> },
    InvalidTunnelValue { key: Seq<char>, found: Seq<char> },
}

impl View for ConfigError {
    type V = ConfigErrorView;

    open spec fn view(&self) -> ConfigErrorView {
        match *self {
            ConfigError::Io(e) => ConfigErrorView::Io(e@),
            ConfigError::MissingCryptoSection => ConfigErrorView::MissingCryptoSection,
            ConfigError::MissingKey => ConfigErrorView::MissingKey,
            ConfigError::InvalidRoutingValue { key, found } => ConfigErrorView::InvalidRoutingValue {
                key: key@,
                found: found@,
            },
            ConfigError::InvalidRouteList { found } => ConfigErrorView::InvalidRouteList {
                found: found@,
            },
            ConfigError::InvalidDnsValue { key, found } => ConfigErrorView::InvalidDnsValue {
                key: key@,
                found: found@,
            },
            ConfigError::InvalidTunnelValue { key, found } => ConfigErrorView::InvalidTunnelValue {
                key: key@,
                found: found@,
            },
        }
    }
}

/// The text about an invalid value; `quoted` is the value in quotes.
pub open spec fn invalid_value_chars(section: Seq<char>, key: Seq<char>, quoted: Seq<char>) -> Seq<
    char,
> {
    "["@ + section + "] '"@ + key + "' has an invalid value: "@ + quoted
}

/// The text about a list that is not in brackets.
pub open spec fn invalid_list_chars(quoted: Seq<char>) -> Seq<char> {
    "[routing] 'routes' must be a bracketed list like [\"10.20.0.0/24\"], found: "@ + quoted
}

/// Describes an invalid value.
pub fn invalid_value_message(section: &str, key: &str, quoted: &str) -> (m: String)
    ensures
        m@ == invalid_value_chars(section@, key@, quoted@),
{
    let mut m = "[".to_owned();
    m.append(section);
    m.append("] '");
    m.append(key);
    m.append("' has an invalid value: ");
    m.append(quoted);
    m
}

/// Describes a list that is not in brackets.
pub fn invalid_list_message(quoted: &str) -> (m: String)
    ensures
        m@ == invalid_list_chars(quoted@),
{
    let mut m =
        "[routing] 'routes' must be a bracketed list like [\"10.20.0.0/24\"], found: ".to_owned();
    m.append(quoted);
    m
}

impl ConfigErrorView {
    /// The text of the error.
    pub open spec fn message_chars(self) -> Seq<char> {
        match self {
            ConfigErrorView::Io(e) => "could not read config file: "@ + e,
            ConfigErrorView::MissingCryptoSection => "config file has no [crypto] section"@,
            ConfigErrorView::MissingKey => "[crypto] section has no 'key' entry"@,
            ConfigErrorView::InvalidRoutingValue { key, found } => invalid_value_chars(
                "routing"@,
                key,
                text::debug_chars(found),
            ),
            ConfigErrorView::InvalidRouteList { found } => invalid_list_chars(
                text::debug_chars(found),
            ),
            ConfigErrorView::InvalidDnsValue { key, found } => invalid_value_chars(
                "dns"@,
                key,
                text::debug_chars(found),
            ),
            ConfigErrorView::InvalidTunnelValue { key, found } => invalid_value_chars(
                "tunnel"@,
                key,
                text::debug_chars(found),
            ),
        }
    }
}

impl ConfigError {
    /// Describes the error.
    pub fn message(&self) -> (m: String)
        ensures
            m@ == self@.message_chars(),
    {
        match self {
            ConfigError::Io(e) => {
                let mut m = "could not read config file: ".to_owned();
                m.append(e.as_str());
                m
            },
            ConfigError::MissingCryptoSection => "config file has no [crypto] section".to_owned(),
            ConfigError::MissingKey => "[crypto] section has no 'key' entry".to_owned(),
            ConfigError::InvalidRoutingValue { key, found } => invalid_value_message(
                "routing",
                key,
                text::debug_string(found.as_str()).as_str(),
            ),
            ConfigError::InvalidRouteList { found } => invalid_list_message(
                text::debug_string(found.as_str()).as_str(),
            ),
            ConfigError::InvalidDnsValue { key, found } => invalid_value_message(
                "dns",
                key,
                text::debug_string(found.as_str()).as_str(),
            ),
            ConfigError::InvalidTunnelValue { key, found } => invalid_value_message(
                "tunnel",
                key,
                text::debug_string(found.as_str()).as_str(),
            ),
        }
    }
}

/// The `[crypto] key` of a file, or why there is none.
pub open spec fn crypto_key_hex(contents: Seq<char>) -> Result<Seq<char>, ConfigErrorView> {
    match config_value(contents, "crypto"@, "key"@) {
        Some(value) => Ok(value),
        None => if section_present(contents, "crypto"@) {
            Err(ConfigErrorView::MissingKey)
        } else {
            Err(ConfigErrorView::MissingCryptoSection)
        },
    }
}

/// Loads the `[crypto] key` value as it is written.
pub fn load_crypto_key_hex(contents: &str) -> (r: Result<String, ConfigError>)
    ensures
        match r {
            Ok(value) => crypto_key_hex(contents@) == Ok::<Seq<char>, ConfigErrorView>(value@),
            Err(e) => crypto_key_hex(contents@) == Err::<Seq<char>, ConfigErrorView>(e@),
        },
{
    match find_value(contents, "crypto", "key") {
        Some(value) => Ok(value),
        None => if has_section(contents, "crypto") {
            Err(ConfigError::MissingKey)
        } else {
            Err(ConfigError::MissingCryptoSection)
        },
    }
}

/// The server's routing settings.
#[derive(Debug, Clone, PartialEq, Eq)]
pub struct RoutingSettings {
    /// Whether forwarding and address translation are set up at all.
    pub nat_enabled: bool,
    /// The interface to forward through; `None` means the one of the default
    /// route.
    pub outbound_interface: Option<String>,
}

/// Routing settings as a mathematical value.
pub struct RoutingSettingsView {
    pub nat_enabled: bool,
    pub outbound_interface: Option<Seq<char>>,
}

/// The characters behind an optional string.
pub open spec fn optional(s: Option<String>) -> Option<Seq<char>> {
    match s {
        Some(s) => Some(s@),
        None => None,
    }
}

impl View for RoutingSettings {
    type V = RoutingSettingsView;

    open spec fn view(&self) -> RoutingSettingsView {
        RoutingSettingsView {
            nat_enabled: self.nat_enabled,
            outbound_interface: optional(self.outbound_interface),
        }
    }
}

impl Default for RoutingSettings {
    /// Address translation is on, through the interface of the default route.
    fn default() -> (s: Self)
        ensures
            s@ == (RoutingSettingsView { nat_enabled: true, outbound_interface: None }),
    {
        RoutingSettings { nat_enabled: true, outbound_interface: None }
    }
}

/// The routing settings of a server's file. Absent values take their defaults.
pub open spec fn routing_settings(contents: Seq<char>) -> Result<
    RoutingSettingsView,
    ConfigErrorView,
> {
    let outbound_interface = config_value(contents, "routing"@, "outbound_interface"@);
    match config_value(contents, "routing"@, "nat_enabled"@) {
        None => Ok(RoutingSettingsView { nat_enabled: true, outbound_interface }),
        Some(value) => if value == "true"@ {
            Ok(RoutingSettingsView { nat_enabled: true, outbound_interface })
        } else if value == "false"@ {
            Ok(RoutingSettingsView { nat_enabled: false, outbound_interface })
        } else {
            Err(ConfigErrorView::InvalidRoutingValue { key: "nat_enabled"@, found: value })
        },
    }
}

/// Loads the `[routing]` section of a server's file.
pub fn load_routing_settings(contents: &str) -> (r: Result<RoutingSettings, ConfigError>)
    ensures
        match r {
            Ok(settings) => routing_settings(contents@) == Ok::<
                RoutingSettingsView,
                ConfigErrorView,
            >(settings@),
            Err(e) => routing_settings(contents@) == Err::<RoutingSettingsView, ConfigErrorView>(
                e@,
            ),
        },
        match r {
            Ok(settings) => {
                &&& optional(settings.outbound_interface) == config_value(
                    contents@,
                    "routing"@,
                    "outbound_interface"@,
                )
                &&& !settings.nat_enabled <==> config_value(contents@, "routing"@, "nat_enabled"@)
                    == Some("false"@)
            },
            Err(_) => {
                &&& config_value(contents@, "routing"@, "nat_enabled"@) is Some
                &&& config_value(contents@, "routing"@, "nat_enabled"@) != Some("true"@)
                &&& config_value(contents@, "routing"@, "nat_enabled"@) != Some("false"@)
            },
        },
{
    proof {
        law_routing_settings_are_those_of_the_file(contents@);
    }
    let nat_enabled: bool = match find_value(contents, "routing", "nat_enabled") {
        Some(value) => if text::same_str(value.as_str(), "true") {
            true
        } else if text::same_str(value.as_str(), "false") {
            false
        } else {
            return Err(ConfigError::InvalidRoutingValue { key: "nat_enabled", found: value });
        },
        None => RoutingSettings::default().nat_enabled,
    };
    let outbound_interface = find_value(contents, "routing", "outbound_interface");
    Ok(RoutingSettings { nat_enabled, outbound_interface })
}

/// How the client routes, as a file can say it.
#[derive(Debug, Clone, Copy, PartialEq, Eq, Structural)]
pub enum RoutingMode {
    Disabled,
    Split,
    Full,
}

/// The client's routing settings.
#[derive(Debug, Clone, PartialEq, Eq)]
pub struct ClientRoutingSettings {
    pub mode: RoutingMode,
    /// The networks to route in split mode.
    pub routes: Vec<String>,
}

/// Client routing settings as a mathematical value.
pub struct ClientRoutingSettingsView {
    pub mode: RoutingMode,
    pub routes: Seq<Seq<char>>,
}

impl View for ClientRoutingSettings {
    type V = ClientRoutingSettingsView;

    open spec fn view(&self) -> ClientRoutingSettingsView {
        ClientRoutingSettingsView { mode: self.mode, routes: text::strings(self.routes@) }
    }
}

impl Default for ClientRoutingSettings {
    /// Nothing is routed.
    fn default() -> (s: Self)
        ensures
            s@.mode == RoutingMode::Disabled,
            s@.routes == Seq::<Seq<char>>::empty(),
    {
        let s = ClientRoutingSettings { mode: RoutingMode::Disabled, routes: Vec::new() };
        assert(s@.routes =~= Seq::<Seq<char>>::empty());
        s
    }
}

/// The entries of a list: the pieces between commas, trimmed and unquoted, the
/// empty ones left out.
pub open spec fn list_entries(parts: Seq<Seq<char>>) -> Seq<Seq<char>>
    decreases parts.len(),
{
    if parts.len() == 0 {
        Seq::empty()
    } else {
        let entry = unquoted(text::trimmed(parts.last()));
        if entry.len() == 0 {
            list_entries(parts.drop_last())
        } else {
            list_entries(parts.drop_last()).push(entry)
        }
    }
}

/// The entries of a `["a", "b"]` list.
pub open spec fn listed(raw: Seq<char>) -> Result<Seq<Seq<char>>, ConfigErrorView> {
    match bracketed(raw) {
        Some(inner) => Ok(list_entries(text::split(inner, ','))),
        None => Err(ConfigErrorView::InvalidRouteList { found: raw }),
    }
}

/// Reads a `["a", "b"]` list.
pub fn parse_route_list(raw: &str) -> (r: Result<Vec<String>, ConfigError>)
    ensures
        match r {
            Ok(entries) => listed(raw@) == Ok::<Seq<Seq<char>>, ConfigErrorView>(
                text::strings(entries@),
            ),
            Err(e) => listed(raw@) == Err::<Seq<Seq<char>>, ConfigErrorView>(e@),
        },
{
    let chars = text::chars_of(raw);
    let inner = match strip_brackets(chars.as_slice()) {
        Some(inner) => inner,
        None => return Err(ConfigError::InvalidRouteList { found: raw.to_owned() }),
    };
    let parts = text::split_at_each(inner, ',');
    let ghost all = text::pieces(parts@);
    let mut entries: Vec<String> = Vec::new();
    let mut i: usize = 0;
    assert(text::strings(entries@) =~= Seq::<Seq<char>>::empty());
    while i < parts.len()
        invariant
            i <= parts@.len(),
            all == text::pieces(parts@),
            text::strings(entries@) == list_entries(all.take(i as int)),
        decreases parts@.len() - i,
    {
        assert(all.take(i + 1).drop_last() =~= all.take(i as int));
        assert(all.take(i + 1).last() == parts@[i as int]@);
        let entry = strip_quotes(text::trim(parts[i]));
        if entry.len() != 0 {
            let ghost before = entries@;
            entries.push(text::string_of(entry));
            assert(text::strings(entries@) =~= text::strings(before).push(entry@));
        }
        i = i + 1;
    }
    assert(all.take(i as int) =~= all);
    Ok(entries)
}

/// The mode that a value names.
pub open spec fn routing_mode(value: Seq<char>) -> Option<RoutingMode> {
    if value == "disabled"@ {
        Some(RoutingMode::Disabled)
    } else if value == "split"@ {
        Some(RoutingMode::Split)
    } else if value == "full"@ {
        Some(RoutingMode::Full)
    } else {
        None
    }
}

/// The list under `key`, empty if there is none.
pub open spec fn list_value(contents: Seq<char>, section: Seq<char>, key: Seq<char>) -> Result<
    Seq<Seq<char>>,
    ConfigErrorView,
> {
    match config_value(contents, section, key) {
        Some(raw) => listed(raw),
        None => Ok(Seq::empty()),
    }
}

/// The routing settings of a client's file. An invalid mode is reported before an
/// invalid list.
pub open spec fn client_routing_settings(contents: Seq<char>) -> Result<
    ClientRoutingSettingsView,
    ConfigErrorView,
> {
    let value = config_value(contents, "routing"@, "mode"@);
    let mode = match value {
        Some(value) => routing_mode(value),
        None => Some(RoutingMode::Disabled),
    };
    match mode {
        None => Err(ConfigErrorView::InvalidRoutingValue { key: "mode"@, found: value->Some_0 }),
        Some(mode) => match list_value(contents, "routing"@, "routes"@) {
            Ok(routes) => Ok(ClientRoutingSettingsView { mode, routes }),
            Err(e) => Err(e),
        },
    }
}

/// Reads the list under `key`.
fn find_list(contents: &str, section: &str, key: &str) -> (r: Result<Vec<String>, ConfigError>)
    ensures
        match r {
            Ok(entries) => list_value(contents@, section@, key@) == Ok::<
                Seq<Seq<char>>,
                ConfigErrorView,
            >(text::strings(entries@)),
            Err(e) => list_value(contents@, section@, key@) == Err::<
                Seq<Seq<char>>,
                ConfigErrorView,
            >(e@),
        },
{
    match find_value(contents, section, key) {
        Some(raw) => parse_route_list(raw.as_str()),
        None => {
            let none: Vec<String> = Vec::new();
            assert(text::strings(none@) =~= Seq::<Seq<char>>::empty());
            Ok(none)
        },
    }
}

/// Loads the `[routing]` section of a client's file.
pub fn load_client_routing_settings(contents: &str) -> (r: Result<
    ClientRoutingSettings,
    ConfigError,
>)
    ensures
        match r {
            Ok(settings) => client_routing_settings(contents@) == Ok::<
                ClientRoutingSettingsView,
                ConfigErrorView,
            >(settings@),
            Err(e) => client_routing_settings(contents@) == Err::<
                ClientRoutingSettingsView,
                ConfigErrorView,
            >(e@),
        },
        r matches Ok(settings) ==> {
            let mode = config_value(contents@, "routing"@, "mode"@);
            &&& settings.mode == RoutingMode::Disabled <==> mode is None || mode == Some(
                "disabled"@,
            )
            &&& settings.mode == RoutingMode::Split <==> mode == Some("split"@)
            &&& settings.mode == RoutingMode::Full <==> mode == Some("full"@)
        },
        config_value(contents@, "routing"@, "mode"@) matches Some(value) ==> value != "disabled"@
            && value != "split"@ && value != "full"@ ==> r is Err,
{
    proof {
        law_client_routing_mode_is_that_of_the_file(contents@);
    }
    let mode = match find_value(contents, "routing", "mode") {
        Some(value) => if text::same_str(value.as_str(), "disabled") {
            RoutingMode::Disabled
        } else if text::same_str(value.as_str(), "split") {
            RoutingMode::Split
        } else if text::same_str(value.as_str(), "full") {
            RoutingMode::Full
        } else {
            return Err(ConfigError::InvalidRoutingValue { key: "mode", found: value });
        },
        None => ClientRoutingSettings::default().mode,
    };
    match find_list(contents, "routing", "routes") {
        Ok(routes) => Ok(ClientRoutingSettings { mode, routes }),
        Err(e) => Err(e),
    }
}

/// The client's name-server settings.
#[derive(Debug, Clone, PartialEq, Eq)]
pub struct DnsSettings {
    pub enabled: bool,
    pub servers: Vec<IpAddress>,
}

/// Name-server settings as a mathematical value.
pub struct DnsSettingsView {
    pub enabled: bool,
    pub servers: Seq<IpAddress>,
}

impl View for DnsSettings {
    type V = DnsSettingsView;

    open spec fn view(&self) -> DnsSettingsView {
        DnsSettingsView { enabled: self.enabled, servers: self.servers@ }
    }
}

impl Default for DnsSettings {
    /// Name resolution is left alone.
    fn default() -> (s: Self)
        ensures
            s@ == (DnsSettingsView { enabled: false, servers: Seq::empty() }),
    {
        DnsSettings { enabled: false, servers: Vec::new() }
    }
}

/// The addresses that a list names, each once, in the order of their first
/// mention; or the first entry that is no address.
pub open spec fn listed_addresses(entries: Seq<Seq<char>>) -> Result<Seq<IpAddress>, Seq<char>>
    decreases entries.len(),
{
    if entries.len() == 0 {
        Ok(Seq::empty())
    } else {
        match listed_addresses(entries.drop_last()) {
            Err(entry) => Err(entry),
            Ok(front) => match net::parsed_ip(entries.last()) {
                None => Err(entries.last()),
                Some(ip) => if front.contains(ip) {
                    Ok(front)
                } else {
                    Ok(front.push(ip))
                },
            },
        }
    }
}

/// The name-server settings of a file. An invalid switch is reported before an
/// invalid list, a list that is no list before an entry that is no address.
pub open spec fn dns_settings(contents: Seq<char>) -> Result<DnsSettingsView, ConfigErrorView> {
    let value = config_value(contents, "dns"@, "enabled"@);
    if value is Some && value->Some_0 != "true"@ && value->Some_0 != "false"@ {
        Err(ConfigErrorView::InvalidDnsValue { key: "enabled"@, found: value->Some_0 })
    } else {
        match list_value(contents, "dns"@, "servers"@) {
            Err(_) => Err(
                ConfigErrorView::InvalidDnsValue {
                    key: "servers"@,
                    found: config_value(contents, "dns"@, "servers"@)->Some_0,
                },
            ),
            Ok(entries) => match listed_addresses(entries) {
                Err(entry) => Err(
                    ConfigErrorView::InvalidDnsValue {
                        key: "servers"@,
                        found: "Invalid IP address: "@ + entry,
                    },
                ),
                Ok(servers) => Ok(DnsSettingsView { enabled: value == Some("true"@), servers }),
            },
        }
    }
}

/// Whether `ips` holds `ip`.
fn holds(ips: &Vec<IpAddress>, ip: IpAddress) -> (b: bool)
    ensures
        b == ips@.contains(ip),
{
    let mut i: usize = 0;
    while i < ips.len()
        invariant
            i <= ips@.len(),
            forall|j: int| 0 <= j < i ==> ips@[j] != ip,
        decreases ips@.len() - i,
    {
        if ips[i] == ip {
            return true;
        }
        i = i + 1;
    }
    false
}

proof fn lemma_listed_addresses_error(entries: Seq<Seq<char>>, n: int)
    requires
        0 <= n <= entries.len(),
        listed_addresses(entries.take(n)) is Err,
    ensures
        listed_addresses(entries) == listed_addresses(entries.take(n)),
    decreases entries.len(),
{
    if n < entries.len() {
        assert(entries.drop_last().take(n) =~= entries.take(n));
        lemma_listed_addresses_error(entries.drop_last(), n);
    } else {
        assert(entries.take(n) =~= entries);
    }
}

/// Reads a list of addresses, each once; or returns the first entry that is none.
fn read_addresses(entries: &Vec<String>) -> (r: Result<Vec<IpAddress>, String>)
    ensures
        match r {
            Ok(ips) => listed_addresses(text::strings(entries@)) == Ok::<Seq<IpAddress>, Seq<char>>(
                ips@,
            ),
            Err(entry) => listed_addresses(text::strings(entries@)) == Err::<
                Seq<IpAddress>,
                Seq<char>,
            >(entry@),
        },
{
    let mut ips: Vec<IpAddress> = Vec::new();
    let ghost all = text::strings(entries@);
    let mut i: usize = 0;
    while i < entries.len()
        invariant
            i <= entries@.len(),
            all == text::strings(entries@),
            listed_addresses(all.take(i as int)) == Ok::<Seq<IpAddress>, Seq<char>>(ips@),
        decreases entries@.len() - i,
    {
        assert(all.take(i + 1).drop_last() =~= all.take(i as int));
        assert(all.take(i + 1).last() == entries@[i as int]@);
        let chars = text::chars_of(entries[i].as_str());
        match net::parse_ip(chars.as_slice()) {
            Some(ip) => {
                if !holds(&ips, ip) {
                    ips.push(ip);
                }
            },
            None => {
                proof {
                    lemma_listed_addresses_error(all, i + 1);
                }
                return Err(entries[i].clone());
            },
        }
        i = i + 1;
    }
    assert(all.take(i as int) =~= all);
    Ok(ips)
}

/// Loads the `[dns]` section.
pub fn load_dns_settings(contents: &str) -> (r: Result<DnsSettings, ConfigError>)
    ensures
        match r {
            Ok(settings) => dns_settings(contents@) == Ok::<DnsSettingsView, ConfigErrorView>(
                settings@,
            ),
            Err(e) => dns_settings(contents@) == Err::<DnsSettingsView, ConfigErrorView>(e@),
        },
        r matches Ok(settings) ==> (settings.enabled <==> config_value(
            contents@,
            "dns"@,
            "enabled"@,
        ) == Some("true"@)),
{
    let enabled: bool = match find_value(contents, "dns", "enabled") {
        Some(value) => if text::same_str(value.as_str(), "true") {
            true
        } else if text::same_str(value.as_str(), "false") {
            false
        } else {
            return Err(ConfigError::InvalidDnsValue { key: "enabled", found: value });
        },
        None => DnsSettings::default().enabled,
    };
    proof {
        reveal_strlit("true");
        reveal_strlit("false");
    }
    let entries: Vec<String> = match find_value(contents, "dns", "servers") {
        Some(raw) => match parse_route_list(raw.as_str()) {
            Ok(entries) => entries,
            Err(_) => return Err(ConfigError::InvalidDnsValue { key: "servers", found: raw }),
        },
        None => Vec::new(),
    };
    assert(entries@.len() == 0 ==> text::strings(entries@) =~= Seq::<Seq<char>>::empty());
    match read_addresses(&entries) {
        Ok(servers) => Ok(DnsSettings { enabled, servers }),
        Err(entry) => {
            let mut found = "Invalid IP address: ".to_owned();
            found.append(entry.as_str());
            Err(ConfigError::InvalidDnsValue { key: "servers", found })
        },
    }
}

/// Which addresses the tunnel uses.
#[derive(Debug, Clone, Copy, PartialEq, Eq, Structural)]
pub enum Topology {
    Default,
    WindowsIcs,
}

/// The tunnel settings.
#[derive(Debug, Clone, Copy, PartialEq, Eq, Structural)]
pub struct TunnelSettings {
    pub topology: Topology,
}

impl Default for TunnelSettings {
    fn default() -> (s: Self)
        ensures
            s.topology == Topology::Default,
    {
        TunnelSettings { topology: Topology::Default }
    }
}

/// The tunnel settings of a file.
pub open spec fn tunnel_settings(contents: Seq<char>) -> Result<TunnelSettings, ConfigErrorView> {
    match config_value(contents, "tunnel"@, "topology"@) {
        None => Ok(TunnelSettings { topology: Topology::Default }),
        Some(value) => if value == "default"@ {
            Ok(TunnelSettings { topology: Topology::Default })
        } else if value == "windows-ics"@ {
            Ok(TunnelSettings { topology: Topology::WindowsIcs })
        } else {
            Err(ConfigErrorView::InvalidTunnelValue { key: "topology"@, found: value })
        },
    }
}

/// Loads the `[tunnel]` section.
pub fn load_tunnel_settings(contents: &str) -> (r: Result<TunnelSettings, ConfigError>)
    ensures
        match r {
            Ok(settings) => tunnel_settings(contents@) == Ok::<TunnelSettings, ConfigErrorView>(
                settings,
            ),
            Err(e) => tunnel_settings(contents@) == Err::<TunnelSettings, ConfigErrorView>(e@),
        },
        r matches Ok(settings) ==> {
            let topology = config_value(contents@, "tunnel"@, "topology"@);
            &&& settings.topology == Topology::Default <==> topology is None || topology == Some(
                "default"@,
            )
            &&& settings.topology == Topology::WindowsIcs <==> topology == Some("windows-ics"@)
        },
{
    proof {
        law_topology_is_that_of_the_file(contents@);
    }
    let topology = match find_value(contents, "tunnel", "topology") {
        Some(value) => if text::same_str(value.as_str(), "default") {
            Topology::Default
        } else if text::same_str(value.as_str(), "windows-ics") {
            Topology::WindowsIcs
        } else {
            return Err(ConfigError::InvalidTunnelValue { key: "topology", found: value });
        },
        None => TunnelSettings::default().topology,
    };
    Ok(TunnelSettings { topology })
}

/// No line of the file opens `section`.
pub open spec fn never_opened(lines: Seq<Seq<char>>, section: Seq<char>) -> bool {
    forall|i: int| 0 <= i < lines.len() ==> opened_section(#[trigger] lines[i]) != Some(section)
}

proof fn lemma_never_opened(lines: Seq<Seq<char>>, section: Seq<char>, key: Seq<char>)
    requires
        never_opened(lines, section),
    ensures
        current_section(lines) != Some(section),
        value_in(lines, section, key) is None,
    decreases lines.len(),
{
    if lines.len() > 0 {
        assert(opened_section(lines.last()) != Some(section));
        assert forall|i: int| 0 <= i < lines.drop_last().len() implies opened_section(
            #[trigger] lines.drop_last()[i],
        ) != Some(section) by {
            assert(lines.drop_last()[i] == lines[i]);
        }
        lemma_never_opened(lines.drop_last(), section, key);
    }
}

/// A section that no line opens has no values.
pub proof fn law_absent_section_has_no_values(
    contents: Seq<char>,
    section: Seq<char>,
    key: Seq<char>,
)
    requires
        never_opened(text::split(contents, '\n'), section),
    ensures
        config_value(contents, section, key) is None,
{
    lemma_never_opened(text::split(contents, '\n'), section, key);
}

/// Without a `[routing]` section a server translates addresses through the
/// default route's interface, and a client routes nothing.
pub proof fn law_absent_routing_section_means_defaults(contents: Seq<char>)
    requires
        never_opened(text::split(contents, '\n'), "routing"@),
    ensures
        routing_settings(contents) == Ok::<RoutingSettingsView, ConfigErrorView>(
            RoutingSettingsView { nat_enabled: true, outbound_interface: None },
        ),
        client_routing_settings(contents) == Ok::<ClientRoutingSettingsView, ConfigErrorView>(
            ClientRoutingSettingsView { mode: RoutingMode::Disabled, routes: Seq::empty() },
        ),
{
    law_absent_section_has_no_values(contents, "routing"@, "nat_enabled"@);
    law_absent_section_has_no_values(contents, "routing"@, "outbound_interface"@);
    law_absent_section_has_no_values(contents, "routing"@, "mode"@);
    law_absent_section_has_no_values(contents, "routing"@, "routes"@);
}

/// Without a `[dns]` section name resolution is left alone; without a `[tunnel]`
/// section the topology is the default one.
pub proof fn law_absent_dns_and_tunnel_sections_mean_defaults(contents: Seq<char>)
    ensures
        never_opened(text::split(contents, '\n'), "dns"@) ==> dns_settings(contents) == Ok::<
            DnsSettingsView,
            ConfigErrorView,
        >(DnsSettingsView { enabled: false, servers: Seq::empty() }),
        never_opened(text::split(contents, '\n'), "tunnel"@) ==> tunnel_settings(contents) == Ok::<
            TunnelSettings,
            ConfigErrorView,
        >(TunnelSettings { topology: Topology::Default }),
{
    if never_opened(text::split(contents, '\n'), "dns"@) {
        law_absent_section_has_no_values(contents, "dns"@, "enabled"@);
        law_absent_section_has_no_values(contents, "dns"@, "servers"@);
    }
    if never_opened(text::split(contents, '\n'), "tunnel"@) {
        law_absent_section_has_no_values(contents, "tunnel"@, "topology"@);
    }
}

/// Lines in front of a header do not matter unless they open the section
/// themselves: keys outside a section are ignored.
pub proof fn law_lines_outside_the_section_do_not_matter(
    front: Seq<Seq<char>>,
    back: Seq<Seq<char>>,
    section: Seq<char>,
    key: Seq<char>,
)
    requires
        never_opened(front, section),
        back.len() > 0,
        opened_section(back[0]) is Some,
    ensures
        current_section(front + back) == current_section(back),
        value_in(front + back, section, key) == value_in(back, section, key),
    decreases back.len(),
{
    let whole = front + back;
    assert(whole.last() == back.last());
    lemma_never_opened(front, section, key);
    if back.len() == 1 {
        assert(whole.drop_last() =~= front);
        assert(back.drop_last() =~= Seq::<Seq<char>>::empty());
        assert(value_in(back.drop_last(), section, key) is None);
    } else {
        assert(whole.drop_last() =~= front + back.drop_last());
        law_lines_outside_the_section_do_not_matter(front, back.drop_last(), section, key);
    }
}

/// Blank lines and comments do not matter.
pub proof fn law_skipped_lines_do_not_matter(
    front: Seq<Seq<char>>,
    line: Seq<char>,
    back: Seq<Seq<char>>,
    section: Seq<char>,
    key: Seq<char>,
)
    requires
        is_skipped(text::trimmed(line)),
    ensures
        current_section(front.push(line) + back) == current_section(front + back),
        value_in(front.push(line) + back, section, key) == value_in(front + back, section, key),
    decreases back.len(),
{
    let with = front.push(line) + back;
    let without = front + back;
    if back.len() == 0 {
        assert(with =~= front.push(line));
        assert(with.drop_last() =~= front);
        assert(without =~= front);
    } else {
        assert(with.drop_last() =~= front.push(line) + back.drop_last());
        assert(without.drop_last() =~= front + back.drop_last());
        assert(with.last() == without.last());
        law_skipped_lines_do_not_matter(front, line, back.drop_last(), section, key);
    }
}

/// A list of name servers names no address twice.
pub proof fn law_name_servers_are_distinct(entries: Seq<Seq<char>>)
    requires
        listed_addresses(entries) is Ok,
    ensures
        listed_addresses(entries)->Ok_0.no_duplicates(),
        forall|i: int|
            0 <= i < entries.len() ==> net::parsed_ip(#[trigger] entries[i]) is Some
                && listed_addresses(entries)->Ok_0.contains(net::parsed_ip(entries[i])->Some_0),
    decreases entries.len(),
{
    if entries.len() > 0 {
        let front = entries.drop_last();
        law_name_servers_are_distinct(front);
        let before = listed_addresses(front)->Ok_0;
        let after = listed_addresses(entries)->Ok_0;
        assert forall|i: int| 0 <= i < entries.len() implies net::parsed_ip(
            #[trigger] entries[i],
        ) is Some && after.contains(net::parsed_ip(entries[i])->Some_0) by {
            if i < front.len() {
                assert(front[i] == entries[i]);
                let j = before.index_of(net::parsed_ip(entries[i])->Some_0);
                assert(after[j] == before[j]);
            } else {
                assert(entries[i] == entries.last());
                if !before.contains(net::parsed_ip(entries[i])->Some_0) {
                    assert(after.last() == net::parsed_ip(entries[i])->Some_0);
                }
            }
        }
    }
}

/// Nothing but white space.
pub open spec fn blank(s: Seq<char>) -> bool {
    forall|i: int| 0 <= i < s.len() ==> text::is_space(#[trigger] s[i])
}

/// A text that neither begins nor ends with white space.
pub open spec fn tight(s: Seq<char>) -> bool {
    s.len() > 0 ==> !text::is_space(s[0]) && !text::is_space(s.last())
}

/// A word that can be the name of a section or of a key: not empty, tight, with no
/// character that means something else in a line.
pub open spec fn is_name(s: Seq<char>) -> bool {
    &&& s.len() > 0
    &&& tight(s)
    &&& !s.contains('=')
    &&& s[0] != '['
    &&& s[0] != '#'
}

proof fn lemma_trimmed_tight(lead: Seq<char>, s: Seq<char>, trail: Seq<char>)
    requires
        blank(lead),
        blank(trail),
        tight(s),
    ensures
        text::trimmed(lead + s + trail) == s,
{
    if s.len() == 0 {
        let whole = lead + s + trail;
        assert forall|i: int| 0 <= i < whole.len() implies text::is_space(#[trigger] whole[i]) by {
            if i < lead.len() {
                assert(whole[i] == lead[i]);
            } else {
                assert(whole[i] == trail[i - lead.len()]);
            }
        }
        text::law_blank_text_is_trimmed_away(whole);
        assert(s =~= Seq::<char>::empty());
    } else {
        text::lemma_trimmed_padded(lead, s, trail);
    }
}

/// A line `[name]` opens the section, with white space before, behind and inside the
/// brackets or without.
pub proof fn law_header_opens_its_section(
    lead: Seq<char>,
    before: Seq<char>,
    name: Seq<char>,
    behind: Seq<char>,
    trail: Seq<char>,
)
    requires
        blank(lead),
        blank(before),
        blank(behind),
        blank(trail),
        tight(name),
    ensures
        opened_section(lead + (seq!['['] + (before + name + behind) + seq![']']) + trail) == Some(
            name,
        ),
        forall|key: Seq<char>|
            #[trigger] assigned(
                lead + (seq!['['] + (before + name + behind) + seq![']']) + trail,
                key,
            ) is None,
{
    let inner = before + name + behind;
    let line = seq!['['] + inner + seq![']'];
    assert(line[0] == '[' && line.last() == ']');
    lemma_trimmed_tight(lead, line, trail);
    assert(line.subrange(1, line.len() - 1) =~= inner);
    lemma_trimmed_tight(before, name, behind);
}

/// A line `key = value` assigns the value to the key, whatever white space stands
/// around the two, and opens no section. One pair of double quotes around the value
/// is taken off; nothing else of it is changed.
#[verifier::rlimit(40)]
pub proof fn law_assignment_gives_its_value(
    lead: Seq<char>,
    key: Seq<char>,
    before: Seq<char>,
    behind: Seq<char>,
    written: Seq<char>,
    trail: Seq<char>,
)
    requires
        blank(lead),
        blank(before),
        blank(behind),
        blank(trail),
        is_name(key),
        tight(written),
    ensures
        ({
            let line = lead + (key + before + seq!['='] + behind + written) + trail;
            &&& opened_section(line) is None
            &&& forall|value: Seq<char>|
                written == #[trigger] (seq!['"'] + value + seq!['"']) ==> assigned(line, key)
                    == Some(value)
            &&& !(written.len() >= 2 && written[0] == '"' && written.last() == '"') ==> assigned(
                line,
                key,
            ) == Some(written)
            &&& forall|other: Seq<char>|
                other != key ==> #[trigger] assigned(line, other) is None
        }),
{
    let left = key + before;
    let right = behind + written;
    let line = lead + (key + before + seq!['='] + behind + written) + trail;
    let core = text::trimmed(line);
    let none = Seq::<char>::empty();
    // What is left of the line begins with the key and its equals sign.
    let tail = if written.len() > 0 {
        right
    } else {
        none
    };
    assert(core == left + seq!['='] + tail) by {
        let kept = left + seq!['='] + tail;
        assert(kept[0] == key[0]);
        if written.len() > 0 {
            assert(kept.last() == written.last());
            assert(line =~= lead + kept + trail);
            lemma_trimmed_tight(lead, kept, trail);
        } else {
            assert(kept.last() == '=');
            let longer = behind + trail;
            assert forall|i: int| 0 <= i < longer.len() implies text::is_space(
                #[trigger] longer[i],
            ) by {
                if i < behind.len() {
                    assert(longer[i] == behind[i]);
                } else {
                    assert(longer[i] == trail[i - behind.len()]);
                }
            }
            assert(line =~= lead + kept + longer);
            lemma_trimmed_tight(lead, kept, longer);
        }
    }
    let n = left.len();
    assert(core[0] == key[0]);
    assert forall|i: int| 0 <= i < n implies core[i] != '=' by {
        assert(core[i] == left[i]);
        if i < key.len() {
            assert(key.contains(key[i]));
            assert(left[i] == key[i]);
        } else {
            assert(left[i] == before[i - key.len()]);
            assert(text::is_space(before[i - key.len()]));
        }
    }
    assert(core[n as int] == '=');
    text::lemma_position_is(core, '=', n);
    assert(core.take(n as int) =~= left);
    assert(none + key + before =~= left);
    lemma_trimmed_tight(none, key, before);
    assert(core.skip(n as int + 1) =~= tail);
    if written.len() > 0 {
        assert(behind + written + none =~= right);
        lemma_trimmed_tight(behind, written, none);
    } else {
        text::law_blank_text_is_trimmed_away(none);
        assert(written =~= none);
    }
    assert(assigned(line, key) == Some(unquoted(written)));
    assert forall|value: Seq<char>|
        written == #[trigger] (seq!['"'] + value + seq!['"']) implies assigned(line, key) == Some(
        value,
    ) by {
        assert(written.subrange(1, written.len() - 1) =~= value);
    }
}

/// The first assignment behind the header of its section is found: whatever stands
/// in front of the header, as long as it does not open the section, and whatever
/// stands between, as long as it opens no section and does not assign to the key.
pub proof fn law_assigned_value_is_found(
    front: Seq<Seq<char>>,
    header: Seq<char>,
    between: Seq<Seq<char>>,
    line: Seq<char>,
    back: Seq<Seq<char>>,
    section: Seq<char>,
    key: Seq<char>,
    value: Seq<char>,
)
    requires
        never_opened(front, section),
        opened_section(header) == Some(section),
        forall|i: int|
            0 <= i < between.len() ==> opened_section(#[trigger] between[i]) is None && assigned(
                between[i],
                key,
            ) is None,
        assigned(line, key) == Some(value),
    ensures
        value_in(front.push(header) + between + seq![line] + back, section, key) == Some(value),
{
    let opened = front.push(header);
    let read = opened + between;
    let whole = read + seq![line];
    lemma_never_opened(front, section, key);
    assert(opened.drop_last() =~= front);
    assert(current_section(opened) == Some(section));
    assert(value_in(opened, section, key) is None);
    lemma_nothing_between(opened, between, section, key);
    assert(whole.drop_last() =~= read);
    assert(whole.last() == line);
    assert(value_in(whole, section, key) == Some(value));
    assert((whole + back).take(whole.len() as int) =~= whole);
    law_first_assignment_wins(whole + back, section, key, whole.len() as int);
}

proof fn lemma_nothing_between(
    opened: Seq<Seq<char>>,
    between: Seq<Seq<char>>,
    section: Seq<char>,
    key: Seq<char>,
)
    requires
        current_section(opened) == Some(section),
        value_in(opened, section, key) is None,
        forall|i: int|
            0 <= i < between.len() ==> opened_section(#[trigger] between[i]) is None && assigned(
                between[i],
                key,
            ) is None,
    ensures
        current_section(opened + between) == Some(section),
        value_in(opened + between, section, key) is None,
    decreases between.len(),
{
    if between.len() == 0 {
        assert(opened + between =~= opened);
    } else {
        let shorter = between.drop_last();
        assert forall|i: int| 0 <= i < shorter.len() implies opened_section(
            #[trigger] shorter[i],
        ) is None && assigned(shorter[i], key) is None by {
            assert(shorter[i] == between[i]);
        }
        lemma_nothing_between(opened, shorter, section, key);
        assert((opened + between).drop_last() =~= opened + shorter);
        assert((opened + between).last() == between[between.len() - 1]);
    }
}

/// A value is found only where some line assigns it to the key while the section is
/// the one opened last.
pub proof fn law_found_value_is_assigned(lines: Seq<Seq<char>>, section: Seq<char>, key: Seq<char>)
    requires
        value_in(lines, section, key) is Some,
    ensures
        exists|h: int, i: int|
            #![trigger lines[h], lines[i]]
            0 <= h < i < lines.len() && opened_section(lines[h]) == Some(section) && (forall|j: int|
                h < j <= i ==> opened_section(#[trigger] lines[j]) is None) && assigned(
                lines[i],
                key,
            ) == value_in(lines, section, key),
    decreases lines.len(),
{
    let front = lines.drop_last();
    if value_in(front, section, key) is Some {
        law_found_value_is_assigned(front, section, key);
        let (h, i) = choose|h: int, i: int|
            #![trigger front[h], front[i]]
            0 <= h < i < front.len() && opened_section(front[h]) == Some(section) && (forall|j: int|
                h < j <= i ==> opened_section(#[trigger] front[j]) is None) && assigned(
                front[i],
                key,
            ) == value_in(front, section, key);
        assert(front[h] == lines[h] && front[i] == lines[i]);
        assert forall|j: int| h < j <= i implies opened_section(#[trigger] lines[j]) is None by {
            assert(front[j] == lines[j]);
        }
    } else {
        let i = lines.len() - 1;
        assert(assigned(lines[i], key) is Some);
        lemma_current_section_was_opened(front, section);
        let h = choose|h: int|
            0 <= h < front.len() && opened_section(#[trigger] front[h]) == Some(section) && (forall|
                j: int,
            |
                h < j < front.len() ==> opened_section(#[trigger] front[j]) is None);
        assert(front[h] == lines[h]);
        assert forall|j: int| h < j <= i implies opened_section(#[trigger] lines[j]) is None by {
            if j < i {
                assert(front[j] == lines[j]);
            }
        }
    }
}

proof fn lemma_current_section_was_opened(lines: Seq<Seq<char>>, section: Seq<char>)
    requires
        current_section(lines) == Some(section),
    ensures
        exists|h: int|
            0 <= h < lines.len() && opened_section(#[trigger] lines[h]) == Some(section) && (forall|
                j: int,
            |
                h < j < lines.len() ==> opened_section(#[trigger] lines[j]) is None),
    decreases lines.len(),
{
    let front = lines.drop_last();
    if opened_section(lines.last()) is Some {
        assert(opened_section(lines[lines.len() - 1]) == Some(section));
    } else {
        lemma_current_section_was_opened(front, section);
        let h = choose|h: int|
            0 <= h < front.len() && opened_section(#[trigger] front[h]) == Some(section) && (forall|
                j: int,
            |
                h < j < front.len() ==> opened_section(#[trigger] front[j]) is None);
        assert(front[h] == lines[h]);
        assert forall|j: int| h < j < lines.len() implies opened_section(
            #[trigger] lines[j],
        ) is None by {
            if j < front.len() {
                assert(front[j] == lines[j]);
            }
        }
    }
}

/// A header `[section]` and behind it the line `key = "value"` give the key that value,
/// whatever else the file holds before, as long as it does not open the section, and
/// behind.
pub proof fn law_value_is_read_from_text(
    before: Seq<char>,
    section: Seq<char>,
    key: Seq<char>,
    value: Seq<char>,
    after: Seq<char>,
)
    requires
        is_name(section),
        is_name(key),
        !section.contains('\n'),
        !key.contains('\n'),
        !value.contains('\n'),
        never_opened(text::split(before, '\n'), section),
    ensures
        ({
            let header = seq!['['] + section + seq![']'];
            let line = key + " = \""@ + value + "\""@;
            config_value(
                before.push('\n') + (header.push('\n') + (line.push('\n') + after)),
                section,
                key,
            ) == Some(value)
        }),
{
    let header = seq!['['] + section + seq![']'];
    let line = key + " = \""@ + value + "\""@;
    let front = text::split(before, '\n');
    let back = text::split(after, '\n');
    let nothing = Seq::<Seq<char>>::empty();
    lemma_header_line(section);
    lemma_value_line(key, value);
    lemma_two_lines(before, header, line, after);
    assert(front.push(header) + nothing + seq![line] + back =~= front.push(header) + seq![line]
        + back);
    law_assigned_value_is_found(front, header, nothing, line, back, section, key, value);
}

proof fn lemma_header_line(section: Seq<char>)
    requires
        tight(section),
        !section.contains('\n'),
    ensures
        !(seq!['['] + section + seq![']']).contains('\n'),
        opened_section(seq!['['] + section + seq![']']) == Some(section),
{
    let none = Seq::<char>::empty();
    let header = seq!['['] + section + seq![']'];
    if header.contains('\n') {
        let i = choose|i: int| 0 <= i < header.len() && header[i] == '\n';
        assert(section.contains(section[i - 1]));
    }
    assert(none + (seq!['['] + (none + section + none) + seq![']']) + none =~= header);
    law_header_opens_its_section(none, none, section, none, none);
}

proof fn lemma_value_line(key: Seq<char>, value: Seq<char>)
    requires
        is_name(key),
        !key.contains('\n'),
        !value.contains('\n'),
    ensures
        !(key + " = \""@ + value + "\""@).contains('\n'),
        assigned(key + " = \""@ + value + "\""@, key) == Some(value),
{
    let none = Seq::<char>::empty();
    let line = key + " = \""@ + value + "\""@;
    let written = seq!['"'] + value + seq!['"'];
    reveal_strlit(" = \"");
    reveal_strlit("\"");
    if line.contains('\n') {
        let i = choose|i: int| 0 <= i < line.len() && line[i] == '\n';
        if i < key.len() {
            assert(key.contains(key[i]));
        } else if key.len() + 4 <= i < key.len() + 4 + value.len() {
            assert(value.contains(value[i - key.len() - 4]));
        }
    }
    assert(none + (key + seq![' '] + seq!['='] + seq![' '] + written) + none =~= line);
    law_assignment_gives_its_value(none, key, seq![' '], seq![' '], written, none);
}

proof fn lemma_two_lines(before: Seq<char>, header: Seq<char>, line: Seq<char>, after: Seq<char>)
    requires
        !header.contains('\n'),
        !line.contains('\n'),
    ensures
        text::split(before.push('\n') + (header.push('\n') + (line.push('\n') + after)), '\n')
            == text::split(before, '\n').push(header) + seq![line] + text::split(after, '\n'),
{
    let rest = line.push('\n') + after;
    text::law_split_at_separator(line, '\n', after);
    text::law_split_without_separator(line, '\n');
    text::law_split_at_separator(header, '\n', rest);
    text::law_split_without_separator(header, '\n');
    text::law_split_at_separator(before, '\n', header.push('\n') + rest);
    let front = text::split(before, '\n');
    let back = text::split(after, '\n');
    assert(front + (seq![header] + (seq![line] + back)) =~= front.push(header) + seq![line] + back);
}

proof fn lemma_words_differ()
    ensures
        "true"@ != "false"@,
        "disabled"@ != "split"@,
        "disabled"@ != "full"@,
        "split"@ != "full"@,
        "default"@ != "windows-ics"@,
{
    reveal_strlit("true");
    reveal_strlit("false");
    reveal_strlit("disabled");
    reveal_strlit("split");
    reveal_strlit("full");
    reveal_strlit("default");
    reveal_strlit("windows-ics");
    assert("true"@.len() == 4 && "false"@.len() == 5);
    assert("disabled"@.len() == 8 && "split"@.len() == 5 && "full"@.len() == 4);
    assert("default"@.len() == 7 && "windows-ics"@.len() == 11);
}

/// A server's file that loads says what is loaded: the outbound interface is the one
/// that is assigned, whether addresses are translated or not, and they are unless the
/// file says "false". Only another word than "true" or "false" keeps it from loading,
/// and that word is reported.
pub proof fn law_routing_settings_are_those_of_the_file(contents: Seq<char>)
    ensures
        ({
            let switch = config_value(contents, "routing"@, "nat_enabled"@);
            let word = switch is Some && switch != Some("true"@) && switch != Some("false"@);
            &&& routing_settings(contents) is Ok <==> !word
            &&& routing_settings(contents) matches Ok(settings) ==> {
                &&& settings.outbound_interface == config_value(
                    contents,
                    "routing"@,
                    "outbound_interface"@,
                )
                &&& !settings.nat_enabled <==> switch == Some("false"@)
            }
            &&& routing_settings(contents) matches Err(e) ==> e
                == (ConfigErrorView::InvalidRoutingValue {
                key: "nat_enabled"@,
                found: switch->Some_0,
            })
        }),
{
    lemma_words_differ();
}

/// A client's file that loads says what is loaded: nothing is routed if the file gives
/// no mode or "disabled", the listed networks if it gives "split", everything if it
/// gives "full". Every other mode is reported, and is the first thing reported.
pub proof fn law_client_routing_mode_is_that_of_the_file(contents: Seq<char>)
    ensures
        ({
            let mode = config_value(contents, "routing"@, "mode"@);
            let known = mode is None || mode == Some("disabled"@) || mode == Some("split"@) || mode
                == Some("full"@);
            &&& client_routing_settings(contents) matches Ok(settings) ==> {
                &&& known
                &&& settings.mode == RoutingMode::Disabled <==> mode is None || mode == Some(
                    "disabled"@,
                )
                &&& settings.mode == RoutingMode::Split <==> mode == Some("split"@)
                &&& settings.mode == RoutingMode::Full <==> mode == Some("full"@)
            }
            &&& !known ==> client_routing_settings(contents) == Err::<
                ClientRoutingSettingsView,
                ConfigErrorView,
            >(ConfigErrorView::InvalidRoutingValue { key: "mode"@, found: mode->Some_0 })
        }),
{
    lemma_words_differ();
}

/// The networks of a client's file are the entries of its list of routes, in whatever
/// mode; a file without the list names none. A list that is not in brackets is
/// reported as it is written.
#[verifier::rlimit(40)]
pub proof fn law_client_routes_are_those_of_the_file(contents: Seq<char>)
    ensures
        ({
            let routes = config_value(contents, "routing"@, "routes"@);
            &&& client_routing_settings(contents) matches Ok(settings) ==> {
                &&& routes is None ==> settings.routes == Seq::<Seq<char>>::empty()
                &&& routes matches Some(raw) ==> exists|inner: Seq<char>|
                    #![trigger seq!['['] + inner + seq![']']]
                    raw == seq!['['] + inner + seq![']'] && settings.routes == list_entries(
                        text::split(inner, ','),
                    )
            }
            &&& client_routing_settings(contents) matches Err(
                ConfigErrorView::InvalidRouteList { found },
            ) ==> routes == Some(found) && forall|inner: Seq<char>|
                found != #[trigger] (seq!['['] + inner + seq![']'])
            &&& client_routing_settings(contents) is Ok || client_routing_settings(contents)
                == Err::<ClientRoutingSettingsView, ConfigErrorView>(
                ConfigErrorView::InvalidRouteList { found: routes->Some_0 },
            ) || client_routing_settings(contents) == Err::<
                ClientRoutingSettingsView,
                ConfigErrorView,
            >(
                ConfigErrorView::InvalidRoutingValue {
                    key: "mode"@,
                    found: config_value(contents, "routing"@, "mode"@)->Some_0,
                },
            )
        }),
{
    let routes = config_value(contents, "routing"@, "routes"@);
    if routes is Some {
        lemma_bracketed(routes->Some_0);
    }
}

proof fn lemma_bracketed(line: Seq<char>)
    ensures
        bracketed(line) matches Some(inner) ==> line == seq!['['] + inner + seq![']'],
        bracketed(line) is None ==> forall|inner: Seq<char>|
            line != #[trigger] (seq!['['] + inner + seq![']']),
        forall|inner: Seq<char>|
            line == #[trigger] (seq!['['] + inner + seq![']']) ==> bracketed(line) == Some(inner),
{
    if bracketed(line) is Some {
        assert(line =~= seq!['['] + bracketed(line)->Some_0 + seq![']']);
    }
    assert forall|inner: Seq<char>| line == #[trigger] (seq!['['] + inner + seq![']']) implies bracketed(
        line,
    ) == Some(inner) by {
        assert(line[0] == '[' && line.last() == ']');
        assert(line.subrange(1, line.len() - 1) =~= inner);
    }
}

/// The entries of a list in brackets stand between its commas: a comma parts the
/// entries in front of it from those behind it.
pub proof fn law_list_entries_at_comma(front: Seq<char>, back: Seq<char>)
    ensures
        listed(seq!['['] + (front.push(',') + back) + seq![']']) == Ok::<
            Seq<Seq<char>>,
            ConfigErrorView,
        >(list_entries(text::split(front, ',')) + list_entries(text::split(back, ','))),
{
    let inner = front.push(',') + back;
    lemma_bracketed(seq!['['] + inner + seq![']']);
    text::law_split_at_separator(front, ',', back);
    lemma_list_entries_add(text::split(front, ','), text::split(back, ','));
}

proof fn lemma_list_entries_add(front: Seq<Seq<char>>, back: Seq<Seq<char>>)
    ensures
        list_entries(front + back) == list_entries(front) + list_entries(back),
    decreases back.len(),
{
    if back.len() == 0 {
        assert(front + back =~= front);
        assert(list_entries(front) + list_entries(back) =~= list_entries(front));
    } else {
        assert((front + back).drop_last() =~= front + back.drop_last());
        assert((front + back).last() == back.last());
        lemma_list_entries_add(front, back.drop_last());
        assert(list_entries(front + back) =~= list_entries(front) + list_entries(back));
    }
}

/// A list of one entry holds the entry, with or without double quotes and white space
/// around it; a blank list holds none.
#[verifier::rlimit(40)]
pub proof fn law_list_of_one(lead: Seq<char>, entry: Seq<char>, trail: Seq<char>)
    requires
        blank(lead),
        blank(trail),
        tight(entry),
        !entry.contains(','),
    ensures
        entry.len() > 0 ==> listed(
            seq!['['] + (lead + (seq!['"'] + entry + seq!['"']) + trail) + seq![']'],
        ) == Ok::<Seq<Seq<char>>, ConfigErrorView>(seq![entry]),
        entry.len() > 0 && entry[0] != '"' ==> listed(
            seq!['['] + (lead + entry + trail) + seq![']'],
        ) == Ok::<Seq<Seq<char>>, ConfigErrorView>(seq![entry]),
        entry.len() == 0 ==> listed(seq!['['] + (lead + entry + trail) + seq![']']) == Ok::<
            Seq<Seq<char>>,
            ConfigErrorView,
        >(Seq::empty()),
{
    let quoted = seq!['"'] + entry + seq!['"'];
    let nothing = Seq::<Seq<char>>::empty();
    assert(list_entries(nothing) == nothing);
    assert(!quoted.contains(',')) by {
        if quoted.contains(',') {
            let i = choose|i: int| 0 <= i < quoted.len() && quoted[i] == ',';
            assert(entry.contains(entry[i - 1]));
        }
    }
    lemma_no_comma(lead, entry, trail);
    lemma_no_comma(lead, quoted, trail);
    lemma_bracketed(seq!['['] + (lead + entry + trail) + seq![']']);
    lemma_bracketed(seq!['['] + (lead + quoted + trail) + seq![']']);
    text::law_split_without_separator(lead + entry + trail, ',');
    text::law_split_without_separator(lead + quoted + trail, ',');
    lemma_trimmed_tight(lead, entry, trail);
    assert(quoted[0] == '"' && quoted.last() == '"');
    lemma_trimmed_tight(lead, quoted, trail);
    assert(quoted.subrange(1, quoted.len() - 1) =~= entry);
    let plain = seq![lead + entry + trail];
    let covered = seq![lead + quoted + trail];
    assert(plain.drop_last() =~= nothing && covered.drop_last() =~= nothing);
    assert(nothing.push(entry) =~= seq![entry]);
}

proof fn lemma_no_comma(lead: Seq<char>, s: Seq<char>, trail: Seq<char>)
    requires
        blank(lead),
        blank(trail),
        !s.contains(','),
    ensures
        !(lead + s + trail).contains(','),
{
    let whole = lead + s + trail;
    if whole.contains(',') {
        let i = choose|i: int| 0 <= i < whole.len() && whole[i] == ',';
        if i < lead.len() {
            assert(text::is_space(lead[i]));
        } else if i < lead.len() + s.len() {
            assert(s.contains(s[i - lead.len()]));
        } else {
            assert(text::is_space(trail[i - lead.len() - s.len()]));
        }
    }
}

/// Name servers are used exactly if the file says "true"; another word than "true" or
/// "false" is reported, before anything else.
pub proof fn law_dns_switch_is_that_of_the_file(contents: Seq<char>)
    ensures
        ({
            let switch = config_value(contents, "dns"@, "enabled"@);
            let word = switch is Some && switch != Some("true"@) && switch != Some("false"@);
            &&& dns_settings(contents) matches Ok(settings) ==> !word && (settings.enabled <==> switch
                == Some("true"@))
            &&& word ==> dns_settings(contents) == Err::<DnsSettingsView, ConfigErrorView>(
                ConfigErrorView::InvalidDnsValue { key: "enabled"@, found: switch->Some_0 },
            )
        }),
{
}

/// The name servers of a file are the addresses that its list of servers names,
/// whether they are used or not; a file without the list names none. What is no list,
/// and an entry that is no address, is reported.
#[verifier::rlimit(40)]
pub proof fn law_name_servers_are_those_of_the_file(contents: Seq<char>)
    ensures
        ({
            let servers = config_value(contents, "dns"@, "servers"@);
            &&& dns_settings(contents) matches Ok(settings) ==> {
                &&& servers is None ==> settings.servers == Seq::<IpAddress>::empty()
                &&& servers matches Some(raw) ==> exists|inner: Seq<char>|
                    #![trigger seq!['['] + inner + seq![']']]
                    raw == seq!['['] + inner + seq![']'] && listed_addresses(
                        list_entries(text::split(inner, ',')),
                    ) == Ok::<Seq<IpAddress>, Seq<char>>(settings.servers)
            }
            &&& dns_settings(contents) matches Err(e) ==> e matches ConfigErrorView::InvalidDnsValue {
                key,
                found,
            } && (key == "enabled"@ && config_value(contents, "dns"@, "enabled"@) == Some(found)
                || key == "servers"@ && (servers == Some(found) && (forall|inner: Seq<char>|
                found != #[trigger] (seq!['['] + inner + seq![']'])) || exists|entry: Seq<char>|
                found == "Invalid IP address: "@ + entry && #[trigger] net::parsed_ip(
                    entry,
                ) is None))
        }),
{
    let servers = config_value(contents, "dns"@, "servers"@);
    if servers is Some {
        lemma_bracketed(servers->Some_0);
        if listed(servers->Some_0) is Ok {
            let entries = listed(servers->Some_0)->Ok_0;
            law_first_entry_without_address_is_reported(entries);
        }
    }
}

/// A list of name servers fails exactly if some entry is no address; the first such
/// entry is reported.
pub proof fn law_first_entry_without_address_is_reported(entries: Seq<Seq<char>>)
    ensures
        listed_addresses(entries) is Ok <==> forall|i: int|
            0 <= i < entries.len() ==> net::parsed_ip(#[trigger] entries[i]) is Some,
        listed_addresses(entries) matches Err(entry) ==> net::parsed_ip(entry) is None && exists|i:
            int|
            0 <= i < entries.len() && #[trigger] entries[i] == entry && (forall|j: int|
                0 <= j < i ==> net::parsed_ip(#[trigger] entries[j]) is Some),
    decreases entries.len(),
{
    if entries.len() > 0 {
        let front = entries.drop_last();
        law_first_entry_without_address_is_reported(front);
        assert forall|i: int| 0 <= i < front.len() implies front[i] == entries[i] by {}
        assert(entries.last() == entries[entries.len() - 1]);
        if listed_addresses(front) is Err {
            let entry = listed_addresses(front)->Err_0;
            let i = choose|i: int|
                0 <= i < front.len() && #[trigger] front[i] == entry && (forall|j: int|
                    0 <= j < i ==> net::parsed_ip(#[trigger] front[j]) is Some);
            assert(entries[i] == entry);
            assert forall|j: int| 0 <= j < i implies net::parsed_ip(
                #[trigger] entries[j],
            ) is Some by {
                assert(front[j] == entries[j]);
            }
        } else {
            assert forall|j: int| 0 <= j < front.len() implies net::parsed_ip(
                #[trigger] entries[j],
            ) is Some by {
                assert(front[j] == entries[j]);
            }
        }
    }
}

/// Every name server is the address of some entry, and they stand in the order of
/// first mention: what the first entries name comes first.
pub proof fn law_name_servers_keep_their_order(entries: Seq<Seq<char>>, n: int)
    requires
        listed_addresses(entries) is Ok,
        0 <= n <= entries.len(),
    ensures
        listed_addresses(entries.take(n)) is Ok,
        listed_addresses(entries.take(n))->Ok_0.is_prefix_of(listed_addresses(entries)->Ok_0),
        forall|k: int|
            0 <= k < listed_addresses(entries)->Ok_0.len() ==> exists|i: int|
                0 <= i < entries.len() && net::parsed_ip(#[trigger] entries[i]) == Some(
                    #[trigger] listed_addresses(entries)->Ok_0[k],
                ),
    decreases entries.len(),
{
    let all = listed_addresses(entries)->Ok_0;
    if entries.len() == 0 {
        assert(entries.take(n) =~= entries);
    } else {
        let front = entries.drop_last();
        let before = listed_addresses(front)->Ok_0;
        if n < entries.len() {
            law_name_servers_keep_their_order(front, n);
            assert(front.take(n) =~= entries.take(n));
        } else {
            law_name_servers_keep_their_order(front, front.len() as int);
            assert(entries.take(n) =~= entries);
        }
        assert forall|k: int| 0 <= k < all.len() implies exists|i: int|
            0 <= i < entries.len() && net::parsed_ip(#[trigger] entries[i]) == Some(
                #[trigger] all[k],
            ) by {
            if k < before.len() {
                assert(before[k] == all[k]);
                let i = choose|i: int|
                    0 <= i < front.len() && net::parsed_ip(#[trigger] front[i]) == Some(before[k]);
                assert(net::parsed_ip(entries[i]) == Some(all[k]));
            } else {
                assert(net::parsed_ip(entries[entries.len() - 1]) == Some(all[k]));
            }
        }
    }
}

/// The topology is the default one if the file gives none or "default", and the one
/// for connection sharing exactly if it gives "windows-ics". Every other word is
/// reported.
pub proof fn law_topology_is_that_of_the_file(contents: Seq<char>)
    ensures
        ({
            let topology = config_value(contents, "tunnel"@, "topology"@);
            &&& tunnel_settings(contents) matches Ok(settings) ==> {
                &&& settings.topology == Topology::Default <==> topology is None || topology == Some(
                    "default"@,
                )
                &&& settings.topology == Topology::WindowsIcs <==> topology == Some("windows-ics"@)
            }
            &&& tunnel_settings(contents) matches Err(e) ==> {
                &&& topology is Some && topology != Some("default"@) && topology != Some(
                    "windows-ics"@,
                )
                &&& e == (ConfigErrorView::InvalidTunnelValue {
                    key: "topology"@,
                    found: topology->Some_0,
                })
            }
        }),
{
    lemma_words_differ();
}

/// The key is loaded as it is written wherever the file assigns one. If it assigns
/// none, what is missing is the key where a header `[crypto]` stands, and else the
/// section.
pub proof fn law_crypto_key_is_that_of_the_file(contents: Seq<char>)
    ensures
        ({
            let key = config_value(contents, "crypto"@, "key"@);
            let header = exists|i: int|
                0 <= i < text::split(contents, '\n').len() && text::trimmed(
                    #[trigger] text::split(contents, '\n')[i],
                ) == "[crypto]"@;
            &&& key matches Some(hex) ==> crypto_key_hex(contents) == Ok::<
                Seq<char>,
                ConfigErrorView,
            >(hex)
            &&& key is None && header ==> crypto_key_hex(contents) == Err::<
                Seq<char>,
                ConfigErrorView,
            >(ConfigErrorView::MissingKey)
            &&& key is None && !header ==> crypto_key_hex(contents) == Err::<
                Seq<char>,
                ConfigErrorView,
            >(ConfigErrorView::MissingCryptoSection)
        }),
{
    let lines = text::split(contents, '\n');
    reveal_strlit("[crypto]");
    reveal_strlit("crypto");
    assert("[crypto]"@ =~= seq!['['] + "crypto"@ + seq![']']);
    assert forall|i: int| 0 <= i < lines.len() implies (bracketed(text::trimmed(#[trigger] lines[i]))
        == Some("crypto"@) <==> text::trimmed(lines[i]) == "[crypto]"@) by {
        lemma_bracketed(text::trimmed(lines[i]));
    }
}

/// Each error names the section, the key and, quoted, the value that it is about.
pub proof fn law_errors_name_key_and_value(key: Seq<char>, found: Seq<char>)
    ensures
        ({
            let value = "'"@ + " has an invalid value: "@ + text::debug_chars(found);
            &&& ConfigErrorView::Io(found).message_chars() == "could not read config file: "@ + found
            &&& ConfigErrorView::MissingCryptoSection.message_chars()
                == "config file has no [crypto] section"@
            &&& ConfigErrorView::MissingKey.message_chars() == "[crypto] section has no 'key' entry"@
            &&& ConfigErrorView::InvalidRoutingValue { key, found }.message_chars()
                == "[routing] '"@ + key + value
            &&& ConfigErrorView::InvalidDnsValue { key, found }.message_chars() == "[dns] '"@ + key
                + value
            &&& ConfigErrorView::InvalidTunnelValue { key, found }.message_chars() == "[tunnel] '"@
                + key + value
            &&& ConfigErrorView::InvalidRouteList { found }.message_chars()
                == "[routing] 'routes' must be a bracketed list like [\"10.20.0.0/24\"], found: "@
                + text::debug_chars(found)
        }),
{
    reveal_strlit("[");
    reveal_strlit("'");
    reveal_strlit("] '");
    reveal_strlit("routing");
    reveal_strlit("dns");
    reveal_strlit("tunnel");
    reveal_strlit("[routing] '");
    reveal_strlit("[dns] '");
    reveal_strlit("[tunnel] '");
    reveal_strlit("' has an invalid value: ");
    reveal_strlit(" has an invalid value: ");
    let value = "'"@ + " has an invalid value: "@ + text::debug_chars(found);
    assert(invalid_value_chars("routing"@, key, text::debug_chars(found)) =~= "[routing] '"@ + key
        + value);
    assert(invalid_value_chars("dns"@, key, text::debug_chars(found)) =~= "[dns] '"@ + key + value);
    assert(invalid_value_chars("tunnel"@, key, text::debug_chars(found)) =~= "[tunnel] '"@ + key
        + value);
}

/// Blank lines, comments and lines that neither stand in brackets nor hold an equals sign
/// say nothing.
pub proof fn law_lines_that_say_nothing(line: Seq<char>, key: Seq<char>)
    ensures
        text::trimmed(line).len() == 0 || text::trimmed(line)[0] == '#' ==> opened_section(
            line,
        ) is None && assigned(line, key) is None,
        !text::trimmed(line).contains('=') ==> assigned(line, key) is None,
{
    let core = text::trimmed(line);
    text::lemma_position(core, '=');
    if text::position(core, '=') < core.len() {
        assert(core.contains(core[text::position(core, '=') as int]));
    }
}

/// A line assigns a value to a key only if the key is what stands in front of its first
/// equals sign, and the value what stands behind it, each without the white space around
/// it and the value without the double quotes around it.
pub proof fn law_assigned_value_stands_in_the_line(line: Seq<char>, key: Seq<char>)
    requires
        assigned(line, key) is Some,
    ensures
        ({
            let value = assigned(line, key)->Some_0;
            exists|left: Seq<char>, right: Seq<char>|
                #![trigger left.push('=') + right]
                text::trimmed(line) == left.push('=') + right && !left.contains('=')
                    && text::trimmed(left) == key && (text::trimmed(right) == value
                    || text::trimmed(right) == seq!['"'] + value + seq!['"'])
        }),
{
    let core = text::trimmed(line);
    let n = text::position(core, '=') as int;
    text::lemma_position(core, '=');
    let left = core.take(n);
    let right = core.skip(n + 1);
    let value = assigned(line, key)->Some_0;
    let written = text::trimmed(right);
    assert(core =~= left.push('=') + right);
    if left.contains('=') {
        let i = choose|i: int| 0 <= i < left.len() && left[i] == '=';
        assert(core[i] == '=');
    }
    if written != value {
        assert(written =~= seq!['"'] + value + seq!['"']);
    }
}

/// A line opens a section only if it stands in brackets, and the name of the section is
/// what stands between them, without the white space around it.
pub proof fn law_opened_section_stands_in_brackets(line: Seq<char>)
    requires
        opened_section(line) is Some,
    ensures
        exists|inner: Seq<char>|
            #![trigger seq!['['] + inner + seq![']']]
            text::trimmed(line) == seq!['['] + inner + seq![']'] && text::trimmed(inner)
                == opened_section(line)->Some_0,
{
    lemma_bracketed(text::trimmed(line));
    let inner = bracketed(text::trimmed(line))->Some_0;
    assert(text::trimmed(line) == seq!['['] + inner + seq![']']);
}

} // verus!
