//! Linux: forwarding, address translation and client routes.
//!
//! A gateway needs IP forwarding, one `MASQUERADE` rule for the tunnel network,
//! and two `FORWARD` rules for traffic out and its return. Every rule carries the
//! comment "tiny-vpn". The changes form a transaction: forwarding first, then the
//! rules; undoing takes the rules back in reverse order and then restores
//! forwarding to what it was.
use vstd::prelude::*;

use crate::error::{Error, ErrorKind, ErrorView};
use crate::routing::transaction::{
    Change, ChangeView, CommandOutput, HostCommand, HostCommandView, Transaction,
};
use crate::routing::{ClientRoute, ClientRouteView, ClientRoutingPlan, RouteVia, RouteViaView};
use crate::routing::RoutingConfig;
use crate::routing::transaction;
use crate::{error, text};

verus! {

/// The comment of every rule.
pub const RULE_COMMENT: &'static str = "tiny-vpn";

/// The file that switches forwarding.
pub const IP_FORWARD_PATH: &'static str = "/proc/sys/net/ipv4/ip_forward";

/// Appends a copy of `s`.
fn push_word(args: &mut Vec<String>, s: &str)
    ensures
        text::strings(final(args)@) == text::strings(old(args)@).push(s@),
{
    let ghost before = args@;
    args.push(s.to_owned());
    assert(text::strings(args@) =~= text::strings(before).push(s@));
}

/// An empty argument list.
fn no_words() -> (args: Vec<String>)
    ensures
        text::strings(args@) == Seq::<Seq<char>>::empty(),
{
    let args: Vec<String> = Vec::new();
    assert(text::strings(args@) =~= Seq::<Seq<char>>::empty());
    args
}

/// The arguments of the rule that rewrites the source address of outbound
/// traffic; `action` adds or deletes it.
pub open spec fn masquerade_args(
    action: Seq<char>,
    vpn_subnet: Seq<char>,
    outbound_interface: Seq<char>,
) -> Seq<Seq<char>> {
    seq![
        "-t"@,
        "nat"@,
        action,
        "POSTROUTING"@,
        "-s"@,
        vpn_subnet,
        "-o"@,
        outbound_interface,
        "-m"@,
        "comment"@,
        "--comment"@,
        RULE_COMMENT@,
        "-j"@,
        "MASQUERADE"@,
    ]
}

/// The arguments of the rule that lets traffic of the tunnel out.
pub open spec fn outbound_args(
    action: Seq<char>,
    tun_interface: Seq<char>,
    outbound_interface: Seq<char>,
) -> Seq<Seq<char>> {
    seq![
        action,
        "FORWARD"@,
        "-i"@,
        tun_interface,
        "-o"@,
        outbound_interface,
        "-m"@,
        "comment"@,
        "--comment"@,
        RULE_COMMENT@,
        "-j"@,
        "ACCEPT"@,
    ]
}

/// The arguments of the rule that lets established and related traffic back in.
pub open spec fn return_args(
    action: Seq<char>,
    tun_interface: Seq<char>,
    outbound_interface: Seq<char>,
) -> Seq<Seq<char>> {
    seq![
        action,
        "FORWARD"@,
        "-i"@,
        outbound_interface,
        "-o"@,
        tun_interface,
        "-m"@,
        "state"@,
        "--state"@,
        "ESTABLISHED,RELATED"@,
        "-m"@,
        "comment"@,
        "--comment"@,
        RULE_COMMENT@,
        "-j"@,
        "ACCEPT"@,
    ]
}

fn build_masquerade(action: &str, vpn_subnet: &str, outbound_interface: &str) -> (args: Vec<String>)
    ensures
        text::strings(args@) == masquerade_args(action@, vpn_subnet@, outbound_interface@),
{
    let mut args = no_words();
    push_word(&mut args, "-t");
    push_word(&mut args, "nat");
    push_word(&mut args, action);
    push_word(&mut args, "POSTROUTING");
    push_word(&mut args, "-s");
    push_word(&mut args, vpn_subnet);
    push_word(&mut args, "-o");
    push_word(&mut args, outbound_interface);
    push_word(&mut args, "-m");
    push_word(&mut args, "comment");
    push_word(&mut args, "--comment");
    push_word(&mut args, RULE_COMMENT);
    push_word(&mut args, "-j");
    push_word(&mut args, "MASQUERADE");
    assert(text::strings(args@) =~= masquerade_args(action@, vpn_subnet@, outbound_interface@));
    args
}

fn build_outbound(action: &str, tun_interface: &str, outbound_interface: &str) -> (args: Vec<String>)
    ensures
        text::strings(args@) == outbound_args(action@, tun_interface@, outbound_interface@),
{
    let mut args = no_words();
    push_word(&mut args, action);
    push_word(&mut args, "FORWARD");
    push_word(&mut args, "-i");
    push_word(&mut args, tun_interface);
    push_word(&mut args, "-o");
    push_word(&mut args, outbound_interface);
    push_word(&mut args, "-m");
    push_word(&mut args, "comment");
    push_word(&mut args, "--comment");
    push_word(&mut args, RULE_COMMENT);
    push_word(&mut args, "-j");
    push_word(&mut args, "ACCEPT");
    assert(text::strings(args@) =~= outbound_args(action@, tun_interface@, outbound_interface@));
    args
}

fn build_return(action: &str, tun_interface: &str, outbound_interface: &str) -> (args: Vec<String>)
    ensures
        text::strings(args@) == return_args(action@, tun_interface@, outbound_interface@),
{
    let mut args = no_words();
    push_word(&mut args, action);
    push_word(&mut args, "FORWARD");
    push_word(&mut args, "-i");
    push_word(&mut args, outbound_interface);
    push_word(&mut args, "-o");
    push_word(&mut args, tun_interface);
    push_word(&mut args, "-m");
    push_word(&mut args, "state");
    push_word(&mut args, "--state");
    push_word(&mut args, "ESTABLISHED,RELATED");
    push_word(&mut args, "-m");
    push_word(&mut args, "comment");
    push_word(&mut args, "--comment");
    push_word(&mut args, RULE_COMMENT);
    push_word(&mut args, "-j");
    push_word(&mut args, "ACCEPT");
    assert(text::strings(args@) =~= return_args(action@, tun_interface@, outbound_interface@));
    args
}

/// The arguments that add the address translation rule, and those that delete it.
pub fn nat_masquerade_rule(vpn_subnet: &str, outbound_interface: &str) -> (rule: (
    Vec<String>,
    Vec<String>,
))
    ensures
        text::strings(rule.0@) == masquerade_args("-A"@, vpn_subnet@, outbound_interface@),
        text::strings(rule.1@) == masquerade_args("-D"@, vpn_subnet@, outbound_interface@),
{
    (
        build_masquerade("-A", vpn_subnet, outbound_interface),
        build_masquerade("-D", vpn_subnet, outbound_interface),
    )
}

/// The arguments that add the rule for traffic out, and those that delete it.
pub fn forward_outbound_rule(tun_interface: &str, outbound_interface: &str) -> (rule: (
    Vec<String>,
    Vec<String>,
))
    ensures
        text::strings(rule.0@) == outbound_args("-A"@, tun_interface@, outbound_interface@),
        text::strings(rule.1@) == outbound_args("-D"@, tun_interface@, outbound_interface@),
{
    (
        build_outbound("-A", tun_interface, outbound_interface),
        build_outbound("-D", tun_interface, outbound_interface),
    )
}

/// The arguments that add the rule for return traffic, and those that delete it.
pub fn forward_return_rule(tun_interface: &str, outbound_interface: &str) -> (rule: (
    Vec<String>,
    Vec<String>,
))
    ensures
        text::strings(rule.0@) == return_args("-A"@, tun_interface@, outbound_interface@),
        text::strings(rule.1@) == return_args("-D"@, tun_interface@, outbound_interface@),
{
    (
        build_return("-A", tun_interface, outbound_interface),
        build_return("-D", tun_interface, outbound_interface),
    )
}

/// A run of `iptables`.
pub open spec fn iptables(args: Seq<Seq<char>>) -> HostCommandView {
    HostCommandView::Run { program: "iptables"@, args }
}

/// The command that switches forwarding.
pub open spec fn forwarding_command(enabled: bool) -> HostCommandView {
    HostCommandView::WriteFile {
        path: IP_FORWARD_PATH@,
        contents: if enabled {
            "1"@
        } else {
            "0"@
        },
    }
}

/// A rule as a change.
pub open spec fn rule_change(add: Seq<Seq<char>>, delete: Seq<Seq<char>>) -> ChangeView {
    ChangeView { make: Some(iptables(add)), undo: iptables(delete) }
}

/// The changes that make a gateway. Forwarding that is on already is left on, and
/// restored to that all the same.
pub open spec fn gateway_changes(
    vpn_subnet: Seq<char>,
    tun_interface: Seq<char>,
    outbound_interface: Seq<char>,
    forwarding_was_enabled: bool,
) -> Seq<ChangeView> {
    seq![
        ChangeView {
            make: if forwarding_was_enabled {
                None
            } else {
                Some(forwarding_command(true))
            },
            undo: forwarding_command(forwarding_was_enabled),
        },
        rule_change(
            masquerade_args("-A"@, vpn_subnet, outbound_interface),
            masquerade_args("-D"@, vpn_subnet, outbound_interface),
        ),
        rule_change(
            outbound_args("-A"@, tun_interface, outbound_interface),
            outbound_args("-D"@, tun_interface, outbound_interface),
        ),
        rule_change(
            return_args("-A"@, tun_interface, outbound_interface),
            return_args("-D"@, tun_interface, outbound_interface),
        ),
    ]
}

/// The command that switches forwarding.
pub fn write_ip_forward(enabled: bool) -> (c: HostCommand)
    ensures
        c@ == forwarding_command(enabled),
{
    HostCommand::WriteFile {
        path: IP_FORWARD_PATH.to_owned(),
        contents: if enabled {
            "1".to_owned()
        } else {
            "0".to_owned()
        },
    }
}

/// Whether the contents of the forwarding file say that forwarding is on.
pub fn read_ip_forward(contents: &str) -> (enabled: bool)
    ensures
        enabled == (text::trimmed(contents@) == "1"@),
{
    let chars = text::chars_of(contents);
    text::equals(text::trim(chars.as_slice()), "1")
}

fn rule(add: Vec<String>, delete: Vec<String>) -> (change: Change)
    ensures
        change@ == rule_change(text::strings(add@), text::strings(delete@)),
{
    Change {
        make: Some(HostCommand::Run { program: "iptables".to_owned(), args: add }),
        undo: HostCommand::Run { program: "iptables".to_owned(), args: delete },
    }
}

/// The changes that make a gateway.
pub fn server_changes(
    config: &RoutingConfig,
    outbound_interface: &str,
    forwarding_was_enabled: bool,
) -> (changes: Vec<Change>)
    ensures
        transaction::changes_view(changes@) == gateway_changes(
            config.vpn_subnet@,
            config.tun_interface@,
            outbound_interface@,
            forwarding_was_enabled,
        ),
{
    let tun_interface = config.tun_interface.as_str();
    let masquerade = nat_masquerade_rule(config.vpn_subnet.as_str(), outbound_interface);
    let outbound = forward_outbound_rule(tun_interface, outbound_interface);
    let back = forward_return_rule(tun_interface, outbound_interface);
    let mut changes: Vec<Change> = Vec::new();
    let make = if forwarding_was_enabled {
        None
    } else {
        Some(write_ip_forward(true))
    };
    changes.push(Change { make, undo: write_ip_forward(forwarding_was_enabled) });
    changes.push(rule(masquerade.0, masquerade.1));
    changes.push(rule(outbound.0, outbound.1));
    changes.push(rule(back.0, back.1));
    assert(transaction::changes_view(changes@) =~= gateway_changes(
        config.vpn_subnet@,
        config.tun_interface@,
        outbound_interface@,
        forwarding_was_enabled,
    ));
    changes
}

/// The text about a default route without an interface; `quoted` is the output in
/// quotes.
pub open spec fn no_interface_chars(quoted: Seq<char>) -> Seq<char> {
    "could not find an outbound interface in the default route (is there one? output was: "@
        + quoted
        + "). Set [routing] outbound_interface in the server config to specify it explicitly."@
}

/// Describes a default route without an interface.
pub fn no_interface_message(quoted: &str) -> (m: String)
    ensures
        m@ == no_interface_chars(quoted@),
{
    let mut m =
        "could not find an outbound interface in the default route (is there one? output was: ".to_owned();
    m.append(quoted);
    m.append(
        "). Set [routing] outbound_interface in the server config to specify it explicitly.",
    );
    m
}

/// The interface in the output of `ip route show default`: the word behind "dev".
pub open spec fn outbound_interface_in(output: Seq<char>) -> Result<Seq<char>, ErrorView> {
    match text::word_after(text::words(output), "dev"@) {
        Some(interface) => Ok(interface),
        None => Err(
            ErrorView {
                kind: ErrorKind::NotFound,
                message: no_interface_chars(text::debug_chars(output)),
            },
        ),
    }
}

/// Reads the outbound interface out of the default route.
pub fn detect_outbound_interface(output: &str) -> (r: Result<String, Error>)
    ensures
        error::text_outcome(r) == outbound_interface_in(output@),
{
    match text::find_word_after(output, "dev") {
        Some(interface) => Ok(interface),
        None => Err(
            Error {
                kind: ErrorKind::NotFound,
                message: no_interface_message(text::debug_string(output).as_str()),
            },
        ),
    }
}

/// The outbound interface: the configured one, or the one of the default route.
pub open spec fn chosen_interface(
    configured: Option<Seq<char>>,
    default_route: Result<Seq<char>, ErrorView>,
) -> Result<Seq<char>, ErrorView> {
    match configured {
        Some(interface) => Ok(interface),
        None => match default_route {
            Ok(output) => outbound_interface_in(output),
            Err(e) => Err(e),
        },
    }
}

/// Prepares the changes that make the host a gateway. `default_route` is the
/// output of `ip route show default`, which is looked at only if no interface is
/// configured; `ip_forward` is what the forwarding file holds.
pub fn apply(
    config: &RoutingConfig,
    default_route: Result<String, Error>,
    ip_forward: Result<String, Error>,
) -> (r: Result<Transaction, Error>)
    ensures
        match r {
            Ok(t) => {
                let interface = chosen_interface(
                    crate::config::optional(config.outbound_interface),
                    error::text_outcome(default_route),
                );
                &&& interface is Ok
                &&& ip_forward is Ok
                &&& t@ == transaction::TransactionView::begun(
                    gateway_changes(
                        config.vpn_subnet@,
                        config.tun_interface@,
                        interface->Ok_0,
                        text::trimmed(ip_forward->Ok_0@) == "1"@,
                    ),
                )
            },
            Err(e) => match chosen_interface(
                crate::config::optional(config.outbound_interface),
                error::text_outcome(default_route),
            ) {
                Err(missing) => e@ == missing,
                Ok(_) => ip_forward matches Err(unreadable) && e@ == unreadable@,
            },
        },
{
    let outbound_interface = match &config.outbound_interface {
        Some(interface) => interface.clone(),
        None => match default_route {
            Ok(output) => match detect_outbound_interface(output.as_str()) {
                Ok(interface) => interface,
                Err(e) => return Err(e),
            },
            Err(e) => return Err(e),
        },
    };
    let forwarding_was_enabled: bool = match ip_forward {
        Ok(contents) => read_ip_forward(contents.as_str()),
        Err(e) => return Err(e),
    };
    Ok(
        Transaction::begin(
            server_changes(config, outbound_interface.as_str(), forwarding_was_enabled),
        ),
    )
}

/// Strings as `{:?}` writes them, separated by commas.
pub open spec fn debug_items(list: Seq<Seq<char>>) -> Seq<char>
    decreases list.len(),
{
    if list.len() == 0 {
        Seq::empty()
    } else if list.len() == 1 {
        text::debug_chars(list[0])
    } else {
        debug_items(list.drop_last()) + ", "@ + text::debug_chars(list.last())
    }
}

/// Writes strings as `{:?}` does, separated by commas.
fn format_items(list: &Vec<String>) -> (s: String)
    ensures
        s@ == debug_items(text::strings(list@)),
{
    let mut s = String::new();
    let ghost all = text::strings(list@);
    let mut i: usize = 0;
    while i < list.len()
        invariant
            i <= list@.len(),
            all == text::strings(list@),
            s@ == debug_items(all.take(i as int)),
        decreases list@.len() - i,
    {
        if i > 0 {
            s.append(", ");
        }
        s.append(text::debug_string(list[i].as_str()).as_str());
        assert(all.take(i + 1).drop_last() =~= all.take(i as int));
        assert(s@ =~= debug_items(all.take(i + 1)));
        i = i + 1;
    }
    assert(all.take(i as int) =~= all);
    s
}

/// The failure of a program that could not be run.
pub open spec fn launch_failure(program: Seq<char>, e: ErrorView) -> ErrorView {
    ErrorView {
        kind: e.kind,
        message: "failed to run "@ + program + " (is it installed, and are you root?): "@
            + e.message,
    }
}

/// The failure that a program reported; `items` are its arguments in quotes.
pub open spec fn reported_failure(program: Seq<char>, items: Seq<char>, stderr: Seq<char>) -> ErrorView {
    ErrorView {
        kind: ErrorKind::Other,
        message: program + " ["@ + items + "] failed: "@ + text::trimmed(stderr),
    }
}

/// Describes the failure that a program reported.
pub fn program_failure(program: &str, items: &str, stderr: &str) -> (e: Error)
    ensures
        e@ == reported_failure(program@, items@, stderr@),
{
    let chars = text::chars_of(stderr);
    let reason = text::string_of(text::trim(chars.as_slice()));
    let mut m = program.to_owned();
    m.append(" [");
    m.append(items);
    m.append("] failed: ");
    m.append(reason.as_str());
    Error { kind: ErrorKind::Other, message: m }
}

/// What a run of a program came to: its output, or a failure that says whether it
/// could not be run or what it complained about.
pub fn program_outcome(
    program: &str,
    args: &Vec<String>,
    output: Result<CommandOutput, Error>,
) -> (r: Result<String, Error>)
    ensures
        error::text_outcome(r) == (match output {
            Err(e) => Err::<Seq<char>, ErrorView>(launch_failure(program@, e@)),
            Ok(out) => if out.success {
                Ok(out.stdout@)
            } else {
                Err(
                    reported_failure(
                        program@,
                        debug_items(text::strings(args@)),
                        out.stderr@,
                    ),
                )
            },
        }),
{
    match output {
        Err(e) => {
            let mut m = "failed to run ".to_owned();
            m.append(program);
            m.append(" (is it installed, and are you root?): ");
            m.append(e.message.as_str());
            Err(Error { kind: e.kind, message: m })
        },
        Ok(out) => if out.success {
            Ok(out.stdout)
        } else {
            let items = format_items(args);
            Err(program_failure(program, items.as_str(), out.stderr.as_str()))
        },
    }
}

/// What `ip route show default` came to.
pub fn default_route_outcome(output: Result<CommandOutput, Error>) -> (r: Result<String, Error>)
    ensures
        error::text_outcome(r) == (match output {
            Err(e) => Err::<Seq<char>, ErrorView>(
                ErrorView {
                    kind: e.kind,
                    message: "failed to run 'ip route show default': "@ + e.message@,
                },
            ),
            Ok(out) => if out.success {
                Ok(out.stdout@)
            } else {
                Err(
                    ErrorView {
                        kind: ErrorKind::Other,
                        message: "'ip route show default' failed: "@ + text::trimmed(out.stderr@),
                    },
                )
            },
        }),
{
    match output {
        Err(e) => {
            let mut m = "failed to run 'ip route show default': ".to_owned();
            m.append(e.message.as_str());
            Err(Error { kind: e.kind, message: m })
        },
        Ok(out) => if out.success {
            Ok(out.stdout)
        } else {
            let chars = text::chars_of(out.stderr.as_str());
            let reason = text::string_of(text::trim(chars.as_slice()));
            let mut m = "'ip route show default' failed: ".to_owned();
            m.append(reason.as_str());
            Err(Error { kind: ErrorKind::Other, message: m })
        },
    }
}

/// The way in the output of `ip route get`: the gateway behind "via", if there is
/// one, and the device behind "dev".
pub open spec fn route_in(ip: Seq<char>, output: Seq<char>) -> Result<RouteViaView, ErrorView> {
    match text::word_after(text::words(output), "dev"@) {
        None => Err(
            ErrorView {
                kind: ErrorKind::NotFound,
                message: "could not find a route to "@ + ip,
            },
        ),
        Some(device) => match text::word_after(text::words(output), "via"@) {
            Some(gateway) => Ok(RouteViaView::Gateway { gateway, device }),
            None => Ok(RouteViaView::Device(device)),
        },
    }
}

/// Reads how the host reaches `ip` out of the output of `ip route get`.
pub fn current_route_to(ip: &str, output: &str) -> (r: Result<RouteVia, Error>)
    ensures
        match r {
            Ok(route) => route_in(ip@, output@) == Ok::<RouteViaView, ErrorView>(route@),
            Err(e) => route_in(ip@, output@) == Err::<RouteViaView, ErrorView>(e@),
        },
{
    match text::find_word_after(output, "dev") {
        None => {
            let mut m = "could not find a route to ".to_owned();
            m.append(ip);
            Err(Error { kind: ErrorKind::NotFound, message: m })
        },
        Some(device) => match text::find_word_after(output, "via") {
            Some(gateway) => Ok(RouteVia::Gateway { gateway, device }),
            None => Ok(RouteVia::Device(device)),
        },
    }
}

/// The arguments of `ip` that add or delete a route.
pub open spec fn route_args(action: Seq<char>, route: ClientRouteView) -> Seq<Seq<char>> {
    match route.via {
        RouteViaView::Device(device) => seq![
            "route"@,
            action,
            route.destination,
            "dev"@,
            device,
        ],
        RouteViaView::Gateway { gateway, device } => seq![
            "route"@,
            action,
            route.destination,
            "via"@,
            gateway,
            "dev"@,
            device,
        ],
    }
}

/// A run of `ip`.
pub open spec fn ip_command(args: Seq<Seq<char>>) -> HostCommandView {
    HostCommandView::Run { program: "ip"@, args }
}

/// A route as a change.
pub open spec fn route_change(route: ClientRouteView) -> ChangeView {
    ChangeView {
        make: Some(ip_command(route_args("add"@, route))),
        undo: ip_command(route_args("del"@, route)),
    }
}

/// The changes that add the routes of a plan.
pub open spec fn route_changes(plan: Seq<ClientRouteView>) -> Seq<ChangeView> {
    Seq::new(plan.len(), |i: int| route_change(plan[i]))
}

fn build_route(action: &str, route: &ClientRoute) -> (c: HostCommand)
    ensures
        c@ == ip_command(route_args(action@, route@)),
{
    let mut args = no_words();
    push_word(&mut args, "route");
    push_word(&mut args, action);
    push_word(&mut args, route.destination.as_str());
    match &route.via {
        RouteVia::Device(device) => {
            push_word(&mut args, "dev");
            push_word(&mut args, device.as_str());
        },
        RouteVia::Gateway { gateway, device } => {
            push_word(&mut args, "via");
            push_word(&mut args, gateway.as_str());
            push_word(&mut args, "dev");
            push_word(&mut args, device.as_str());
        },
    }
    assert(text::strings(args@) =~= route_args(action@, route@));
    HostCommand::Run { program: "ip".to_owned(), args }
}

/// The query for how the host reaches `ip`.
pub fn route_query(ip: &str) -> (c: HostCommand)
    ensures
        c@ == ip_command(seq!["route"@, "get"@, ip@]),
{
    let mut args = no_words();
    push_word(&mut args, "route");
    push_word(&mut args, "get");
    push_word(&mut args, ip);
    assert(text::strings(args@) =~= seq!["route"@, "get"@, ip@]);
    HostCommand::Run { program: "ip".to_owned(), args }
}

/// Prepares the changes that add the routes of a plan.
pub fn apply_client_routes(plan: &ClientRoutingPlan) -> (t: Transaction)
    ensures
        t@ == transaction::TransactionView::begun(route_changes(plan@)),
{
    let mut changes: Vec<Change> = Vec::new();
    let mut i: usize = 0;
    while i < plan.routes.len()
        invariant
            i <= plan.routes@.len(),
            transaction::changes_view(changes@) == route_changes(plan@.take(i as int)),
        decreases plan.routes@.len() - i,
    {
        let ghost before = changes@;
        let route = &plan.routes[i];
        changes.push(
            Change {
                make: Some(build_route("add", route)),
                undo: build_route("del", route),
            },
        );
        assert(plan@[i as int] == route@);
        assert(transaction::changes_view(changes@) =~= transaction::changes_view(before).push(
            route_change(route@),
        ));
        assert(transaction::changes_view(changes@) =~= route_changes(plan@.take(i + 1)));
        i = i + 1;
    }
    assert(plan@.take(i as int) =~= plan@);
    Transaction::begin(changes)
}

/// Whether the process was asked to stop: an interrupt was received.
pub fn shutdown_requested(interrupted: bool) -> (b: bool)
    ensures
        b == interrupted,
{
    interrupted
}

/// Deleting a rule takes the arguments that added it, but for the action.
pub proof fn law_rules_are_symmetric(
    vpn_subnet: Seq<char>,
    tun_interface: Seq<char>,
    outbound_interface: Seq<char>,
)
    ensures
        masquerade_args("-D"@, vpn_subnet, outbound_interface) == masquerade_args(
            "-A"@,
            vpn_subnet,
            outbound_interface,
        ).update(2, "-D"@),
        outbound_args("-D"@, tun_interface, outbound_interface) == outbound_args(
            "-A"@,
            tun_interface,
            outbound_interface,
        ).update(0, "-D"@),
        return_args("-D"@, tun_interface, outbound_interface) == return_args(
            "-A"@,
            tun_interface,
            outbound_interface,
        ).update(0, "-D"@),
{
    assert(masquerade_args("-D"@, vpn_subnet, outbound_interface) =~= masquerade_args(
        "-A"@,
        vpn_subnet,
        outbound_interface,
    ).update(2, "-D"@));
    assert(outbound_args("-D"@, tun_interface, outbound_interface) =~= outbound_args(
        "-A"@,
        tun_interface,
        outbound_interface,
    ).update(0, "-D"@));
    assert(return_args("-D"@, tun_interface, outbound_interface) =~= return_args(
        "-A"@,
        tun_interface,
        outbound_interface,
    ).update(0, "-D"@));
}

/// Every rule carries the comment by which it is told from the rules of others.
pub proof fn law_rules_carry_the_comment(
    action: Seq<char>,
    vpn_subnet: Seq<char>,
    tun_interface: Seq<char>,
    outbound_interface: Seq<char>,
)
    ensures
        masquerade_args(action, vpn_subnet, outbound_interface).contains(RULE_COMMENT@),
        outbound_args(action, tun_interface, outbound_interface).contains(RULE_COMMENT@),
        return_args(action, tun_interface, outbound_interface).contains(RULE_COMMENT@),
{
    assert(masquerade_args(action, vpn_subnet, outbound_interface)[11] == RULE_COMMENT@);
    assert(outbound_args(action, tun_interface, outbound_interface)[9] == RULE_COMMENT@);
    assert(return_args(action, tun_interface, outbound_interface)[13] == RULE_COMMENT@);
}

/// Making a gateway can be undone on every host on which deleting a rule takes
/// back adding it, and on which writing the previous value to the forwarding file
/// takes back what was written over it.
pub proof fn law_gateway_is_reversible<H>(
    effect: spec_fn(H, HostCommandView) -> H,
    start: H,
    vpn_subnet: Seq<char>,
    tun_interface: Seq<char>,
    outbound_interface: Seq<char>,
    forwarding_was_enabled: bool,
)
    requires
        transaction::undoes(
            effect,
            iptables(masquerade_args("-A"@, vpn_subnet, outbound_interface)),
            iptables(masquerade_args("-D"@, vpn_subnet, outbound_interface)),
        ),
        transaction::undoes(
            effect,
            iptables(outbound_args("-A"@, tun_interface, outbound_interface)),
            iptables(outbound_args("-D"@, tun_interface, outbound_interface)),
        ),
        transaction::undoes(
            effect,
            iptables(return_args("-A"@, tun_interface, outbound_interface)),
            iptables(return_args("-D"@, tun_interface, outbound_interface)),
        ),
        forwarding_was_enabled ==> effect(start, forwarding_command(true)) == start,
        !forwarding_was_enabled ==> effect(
            effect(start, forwarding_command(true)),
            forwarding_command(false),
        ) == start,
    ensures
        transaction::reversible(
            effect,
            start,
            gateway_changes(vpn_subnet, tun_interface, outbound_interface, forwarding_was_enabled),
        ),
{
    let changes = gateway_changes(
        vpn_subnet,
        tun_interface,
        outbound_interface,
        forwarding_was_enabled,
    );
    assert forall|n: nat| n < changes.len() implies #[trigger] effect(
        transaction::host_with(effect, start, changes, n + 1),
        changes[n as int].undo,
    ) == transaction::host_with(effect, start, changes, n) by {
        let before = transaction::host_with(effect, start, changes, n);
        if n == 0 {
            assert(before == start);
        } else if n == 1 {
            assert(changes[1].make is Some);
        } else if n == 2 {
            assert(changes[2].make is Some);
        } else {
            assert(changes[3].make is Some);
        }
    }
}

/// Adding routes can be undone on every host on which deleting a route takes back
/// adding it.
pub proof fn law_routes_are_reversible<H>(
    effect: spec_fn(H, HostCommandView) -> H,
    start: H,
    plan: Seq<ClientRouteView>,
)
    requires
        forall|i: int|
            0 <= i < plan.len() ==> transaction::undoes(
                effect,
                ip_command(route_args("add"@, #[trigger] plan[i])),
                ip_command(route_args("del"@, plan[i])),
            ),
    ensures
        transaction::reversible(effect, start, route_changes(plan)),
{
    let changes = route_changes(plan);
    assert forall|i: int| 0 <= i < changes.len() implies transaction::undoable(
        effect,
        #[trigger] changes[i],
    ) by {
        assert(changes[i] == route_change(plan[i]));
    }
    transaction::law_undoable_changes_are_reversible(effect, start, changes);
}

/// The route that is read goes through the gateway named behind the first "via", on the
/// device named behind the first "dev", whatever other words the host prints.
pub proof fn law_gateway_of_the_route_is_kept(
    ip: Seq<char>,
    output: Seq<char>,
    via: int,
    dev: int,
)
    requires
        0 <= via < text::words(output).len() - 1,
        text::words(output)[via] == "via"@,
        forall|j: int| 0 <= j < via ==> text::words(output)[j] != "via"@,
        0 <= dev < text::words(output).len() - 1,
        text::words(output)[dev] == "dev"@,
        forall|j: int| 0 <= j < dev ==> text::words(output)[j] != "dev"@,
    ensures
        route_in(ip, output) == Ok::<RouteViaView, ErrorView>(
            RouteViaView::Gateway {
                gateway: text::words(output)[via + 1],
                device: text::words(output)[dev + 1],
            },
        ),
{
    text::law_word_behind_first_marker(text::words(output), "via"@, via);
    text::law_word_behind_first_marker(text::words(output), "dev"@, dev);
}

/// The route that is read goes through a device alone exactly if the host names a
/// device and no gateway, and it is the device that the host names first.
pub proof fn law_device_route_has_no_gateway(ip: Seq<char>, output: Seq<char>)
    ensures
        ({
            let words = text::words(output);
            let gateway = exists|i: int| 0 <= i < words.len() - 1 && #[trigger] words[i] == "via"@;
            let device = exists|i: int| 0 <= i < words.len() - 1 && #[trigger] words[i] == "dev"@;
            &&& route_in(ip, output) is Ok <==> device
            &&& route_in(ip, output) matches Ok(route) ==> (route is Gateway <==> gateway)
            &&& forall|i: int|
                0 <= i < words.len() - 1 && #[trigger] words[i] == "dev"@ && (forall|j: int|
                    0 <= j < i ==> words[j] != "dev"@) && !gateway ==> route_in(ip, output) == Ok::<
                    RouteViaView,
                    ErrorView,
                >(RouteViaView::Device(words[i + 1]))
            &&& !device ==> route_in(ip, output) == Err::<RouteViaView, ErrorView>(
                ErrorView {
                    kind: ErrorKind::NotFound,
                    message: "could not find a route to "@ + ip,
                },
            )
        }),
{
    let words = text::words(output);
    lemma_marker(words, "via"@);
    lemma_marker(words, "dev"@);
    assert forall|i: int|
        0 <= i < words.len() - 1 && #[trigger] words[i] == "dev"@ && (forall|j: int|
            0 <= j < i ==> words[j] != "dev"@) implies text::word_after(words, "dev"@) == Some(
        words[i + 1],
    ) by {
        text::law_word_behind_first_marker(words, "dev"@, i);
    }
}

proof fn lemma_marker(words: Seq<Seq<char>>, marker: Seq<char>)
    ensures
        text::word_after(words, marker) is Some <==> exists|i: int|
            0 <= i < words.len() - 1 && #[trigger] words[i] == marker,
    decreases words.len(),
{
    if text::word_after(words, marker) is Some {
        text::law_no_word_without_marker(words, marker);
    } else if exists|i: int| 0 <= i < words.len() - 1 && #[trigger] words[i] == marker {
        let i = choose|i: int| 0 <= i < words.len() - 1 && #[trigger] words[i] == marker;
        let rest = words.skip(1);
        assert(words[0] != marker);
        lemma_marker(rest, marker);
        assert(rest[i - 1] == marker);
    }
}

/// A gateway goes out through the interface that is configured, whatever the default
/// route is; without one it goes out through the interface that the default route
/// names first.
pub proof fn law_outbound_interface(
    configured: Option<Seq<char>>,
    default_route: Result<Seq<char>, ErrorView>,
)
    ensures
        configured matches Some(interface) ==> chosen_interface(configured, default_route) == Ok::<
            Seq<char>,
            ErrorView,
        >(interface),
        configured is None ==> (default_route matches Err(e) ==> chosen_interface(
            configured,
            default_route,
        ) == Err::<Seq<char>, ErrorView>(e)),
        configured is None ==> (default_route matches Ok(output) ==> {
            let words = text::words(output);
            &&& forall|i: int|
                0 <= i < words.len() - 1 && #[trigger] words[i] == "dev"@ && (forall|j: int|
                    0 <= j < i ==> words[j] != "dev"@) ==> chosen_interface(
                    configured,
                    default_route,
                ) == Ok::<Seq<char>, ErrorView>(words[i + 1])
            &&& (forall|i: int| 0 <= i < words.len() - 1 ==> #[trigger] words[i] != "dev"@)
                ==> chosen_interface(configured, default_route) == Err::<Seq<char>, ErrorView>(
                ErrorView {
                    kind: ErrorKind::NotFound,
                    message: no_interface_chars(text::debug_chars(output)),
                },
            )
        }),
{
    if default_route is Ok {
        let words = text::words(default_route->Ok_0);
        lemma_marker(words, "dev"@);
        assert forall|i: int|
            0 <= i < words.len() - 1 && #[trigger] words[i] == "dev"@ && (forall|j: int|
                0 <= j < i ==> words[j] != "dev"@) implies text::word_after(words, "dev"@) == Some(
            words[i + 1],
        ) by {
            text::law_word_behind_first_marker(words, "dev"@, i);
        }
    }
}

/// Whether a program is given `option`, followed by `value`.
pub open spec fn gives(args: Seq<Seq<char>>, option: Seq<char>, value: Seq<char>) -> bool {
    exists|i: int| 0 <= i < args.len() - 1 && #[trigger] args[i] == option && args[i + 1] == value
}

proof fn lemma_gives(args: Seq<Seq<char>>, i: int)
    requires
        0 <= i < args.len() - 1,
    ensures
        gives(args, args[i], args[i + 1]),
{
}

/// What a gateway changes on the host: forwarding is switched on unless it is on, and
/// afterwards set to what it was; the sources of packets of the tunnel network that
/// leave through the outbound interface are rewritten; packets of the tunnel device are
/// let out through that interface; and only answers are let back in.
#[verifier::rlimit(40)]
pub proof fn law_gateway_translates_the_tunnel_network(
    vpn_subnet: Seq<char>,
    tun_interface: Seq<char>,
    outbound_interface: Seq<char>,
    forwarding_was_enabled: bool,
)
    ensures
        ({
            let changes = gateway_changes(
                vpn_subnet,
                tun_interface,
                outbound_interface,
                forwarding_was_enabled,
            );
            let switch = |on: bool|
                HostCommandView::WriteFile {
                    path: "/proc/sys/net/ipv4/ip_forward"@,
                    contents: if on {
                        "1"@
                    } else {
                        "0"@
                    },
                };
            let added = |i: int| changes[i].make->Some_0->args;
            &&& changes.len() == 4
            &&& changes[0].make is None <==> forwarding_was_enabled
            &&& changes[0].make is Some ==> changes[0].make->Some_0 == switch(true)
            &&& changes[0].undo == switch(forwarding_was_enabled)
            &&& forall|i: int|
                1 <= i < 4 ==> {
                    &&& (#[trigger] changes[i]).make is Some
                    &&& changes[i].make->Some_0 is Run
                    &&& changes[i].make->Some_0->program == "iptables"@
                    &&& changes[i].undo is Run
                    &&& changes[i].undo->program == "iptables"@
                    &&& gives(added(i), "--comment"@, "tiny-vpn"@)
                    &&& gives(added(i), "-m"@, "comment"@)
                    &&& undoes_rule(added(i), changes[i].undo->args)
                }
            &&& added(1).len() == 14
            &&& gives(added(1), "-t"@, "nat"@)
            &&& gives(added(1), "-A"@, "POSTROUTING"@)
            &&& gives(added(1), "-s"@, vpn_subnet)
            &&& gives(added(1), "-o"@, outbound_interface)
            &&& gives(added(1), "-j"@, "MASQUERADE"@)
            &&& added(2).len() == 12
            &&& gives(added(2), "-A"@, "FORWARD"@)
            &&& gives(added(2), "-i"@, tun_interface)
            &&& gives(added(2), "-o"@, outbound_interface)
            &&& gives(added(2), "-j"@, "ACCEPT"@)
            &&& added(3).len() == 16
            &&& gives(added(3), "-A"@, "FORWARD"@)
            &&& gives(added(3), "-i"@, outbound_interface)
            &&& gives(added(3), "-o"@, tun_interface)
            &&& gives(added(3), "-m"@, "state"@)
            &&& gives(added(3), "--state"@, "ESTABLISHED,RELATED"@)
            &&& gives(added(3), "-j"@, "ACCEPT"@)
        }),
{
    let a = masquerade_args("-A"@, vpn_subnet, outbound_interface);
    let b = outbound_args("-A"@, tun_interface, outbound_interface);
    let c = return_args("-A"@, tun_interface, outbound_interface);
    law_rules_are_symmetric(vpn_subnet, tun_interface, outbound_interface);
    lemma_gives(a, 0);
    lemma_gives(a, 2);
    lemma_gives(a, 4);
    lemma_gives(a, 6);
    lemma_gives(a, 8);
    lemma_gives(a, 10);
    lemma_gives(a, 12);
    lemma_gives(b, 0);
    lemma_gives(b, 2);
    lemma_gives(b, 4);
    lemma_gives(b, 6);
    lemma_gives(b, 8);
    lemma_gives(b, 10);
    lemma_gives(c, 0);
    lemma_gives(c, 2);
    lemma_gives(c, 4);
    lemma_gives(c, 6);
    lemma_gives(c, 8);
    lemma_gives(c, 10);
    lemma_gives(c, 12);
    lemma_gives(c, 14);
    assert(a[2] == "-A"@ && b[0] == "-A"@ && c[0] == "-A"@);
    assert(undoes_rule(a, a.update(2, "-D"@)));
    assert(undoes_rule(b, b.update(0, "-D"@)));
    assert(undoes_rule(c, c.update(0, "-D"@)));
}

/// Whether `delete` is `add` with the deleting action in place of the adding one.
pub open spec fn undoes_rule(add: Seq<Seq<char>>, delete: Seq<Seq<char>>) -> bool {
    exists|i: int|
        0 <= i < add.len() && #[trigger] add[i] == "-A"@ && delete == add.update(i, "-D"@)
}

/// Adding a client's route names its destination, its device and, if it has one, its
/// gateway; removing it names the same. The routes are added in the order of the plan.
pub proof fn law_routes_are_added_as_planned(plan: Seq<ClientRouteView>, i: int)
    requires
        0 <= i < plan.len(),
    ensures
        ({
            let changes = route_changes(plan);
            let add = changes[i].make->Some_0->args;
            let device = match plan[i].via {
                RouteViaView::Device(device) => device,
                RouteViaView::Gateway { device, .. } => device,
            };
            &&& changes.len() == plan.len()
            &&& changes[i].make is Some
            &&& changes[i].make->Some_0 is Run
            &&& changes[i].make->Some_0->program == "ip"@
            &&& add[0] == "route"@
            &&& add[1] == "add"@
            &&& gives(add, "add"@, plan[i].destination)
            &&& gives(add, "dev"@, device)
            &&& plan[i].via matches RouteViaView::Gateway { gateway, .. } ==> gives(
                add,
                "via"@,
                gateway,
            ) && add.len() == 7
            &&& plan[i].via is Device ==> add.len() == 5
            &&& changes[i].undo == (HostCommandView::Run {
                program: "ip"@,
                args: add.update(1, "del"@),
            })
        }),
{
    let add = route_args("add"@, plan[i]);
    lemma_gives(add, 1);
    lemma_gives(add, 3);
    if plan[i].via is Gateway {
        lemma_gives(add, 5);
    }
    assert(route_args("del"@, plan[i]) =~= add.update(1, "del"@));
}

/// The arguments of a program that failed are shown in the order in which they were given,
/// each in quotes, with commas between them.
pub proof fn law_arguments_are_shown_in_order(front: Seq<Seq<char>>, last: Seq<char>)
    ensures
        debug_items(seq![last]) == text::debug_chars(last),
        front.len() > 0 ==> debug_items(front.push(last)) == debug_items(front) + ", "@
            + text::debug_chars(last),
{
    assert(front.push(last).drop_last() =~= front);
}

/// A program that cannot be run and one that fails are told apart: the first keeps its
/// kind of failure, the second shows what it was run with and what it complained about.
pub proof fn law_failures_of_programs(
    program: Seq<char>,
    items: Seq<char>,
    stderr: Seq<char>,
    e: ErrorView,
)
    ensures
        launch_failure(program, e) == (ErrorView {
            kind: e.kind,
            message: "failed to run "@ + program + " (is it installed, and are you root?): "@
                + e.message,
        }),
        reported_failure(program, items, stderr) == (ErrorView {
            kind: ErrorKind::Other,
            message: program + " ["@ + items + "] failed: "@ + text::trimmed(stderr),
        }),
        no_interface_chars(items)
            == "could not find an outbound interface in the default route (is there one? output was: "@
            + items
            + "). Set [routing] outbound_interface in the server config to specify it explicitly."@,
{
}

} // verus!
