//! Windows: forwarding, address translation and client routes, by PowerShell.
//!
//! A gateway forwards on its tunnel device and translates addresses with a NetNat
//! object. Where the host has no NetNat class, Internet Connection Sharing takes
//! its place: two registry values are set to the server's tunnel address, sharing
//! is enabled, and the address that the tunnel device then has is checked. What
//! has been changed is taken back when a later step fails.
use vstd::prelude::*;

use crate::error::{Error, ErrorKind, ErrorView};
use crate::routing::transaction::{
    Change, ChangeView, CommandOutput, HostCommand, HostCommandView, Transaction,
};
use crate::routing::transaction;
use crate::routing::{ClientRoute, ClientRouteView, ClientRoutingPlan, RouteVia, RouteViaView};
use crate::routing::RoutingConfig;
use crate::{error, text};

verus! {

/// A run of PowerShell.
pub open spec fn powershell(command: Seq<char>) -> HostCommandView {
    HostCommandView::Run {
        program: "powershell"@,
        args: seq!["-NoProfile"@, "-NonInteractive"@, "-Command"@, command],
    }
}

/// The run of PowerShell that carries out a command.
pub fn run_powershell(command: &str) -> (c: HostCommand)
    ensures
        c@ == powershell(command@),
{
    let mut args: Vec<String> = Vec::new();
    args.push("-NoProfile".to_owned());
    args.push("-NonInteractive".to_owned());
    args.push("-Command".to_owned());
    args.push(command.to_owned());
    assert(text::strings(args@) =~= seq![
        "-NoProfile"@,
        "-NonInteractive"@,
        "-Command"@,
        command@,
    ]);
    HostCommand::Run { program: "powershell".to_owned(), args }
}

/// What a run of PowerShell came to: its output without white space around it, or
/// a failure.
pub open spec fn powershell_reply(output: Result<CommandOutput, Error>) -> Result<
    Seq<char>,
    ErrorView,
> {
    match output {
        Err(e) => Err(
            ErrorView {
                kind: e.kind,
                message: "failed to launch powershell: "@ + e.message@,
            },
        ),
        Ok(out) => if out.success {
            Ok(text::trimmed(out.stdout@))
        } else {
            Err(
                ErrorView {
                    kind: ErrorKind::Other,
                    message: "powershell command failed (status "@ + out.status@
                        + "). Requires Administrator privileges? stderr: "@ + text::trimmed(
                        out.stderr@,
                    ) + ", stdout: "@ + text::trimmed(out.stdout@),
                },
            )
        },
    }
}

fn trim_text(s: &str) -> (t: String)
    ensures
        t@ == text::trimmed(s@),
{
    let chars = text::chars_of(s);
    text::string_of(text::trim(chars.as_slice()))
}

/// Tells what a run of PowerShell came to.
pub fn powershell_outcome(output: Result<CommandOutput, Error>) -> (r: Result<String, Error>)
    ensures
        error::text_outcome(r) == powershell_reply(output),
{
    match output {
        Err(e) => {
            let mut m = "failed to launch powershell: ".to_owned();
            m.append(e.message.as_str());
            Err(Error { kind: e.kind, message: m })
        },
        Ok(out) => if out.success {
            Ok(trim_text(out.stdout.as_str()))
        } else {
            let mut m = "powershell command failed (status ".to_owned();
            m.append(out.status.as_str());
            m.append("). Requires Administrator privileges? stderr: ");
            m.append(trim_text(out.stderr.as_str()).as_str());
            m.append(", stdout: ");
            m.append(trim_text(out.stdout.as_str()).as_str());
            Err(Error { kind: ErrorKind::Other, message: m })
        },
    }
}

/// The command that adds a route.
pub open spec fn add_route(route: ClientRouteView) -> Seq<char> {
    match route.via {
        RouteViaView::Device(device) => "New-NetRoute -DestinationPrefix '"@ + route.destination
            + "' -InterfaceAlias '"@ + device + "' -PolicyStore ActiveStore -ErrorAction Stop"@,
        RouteViaView::Gateway { gateway, device } => "New-NetRoute -DestinationPrefix '"@
            + route.destination + "' -NextHop '"@ + gateway + "' -InterfaceAlias '"@ + device
            + "' -PolicyStore ActiveStore -ErrorAction Stop"@,
    }
}

/// The command that removes a route.
pub open spec fn remove_route(route: ClientRouteView) -> Seq<char> {
    match route.via {
        RouteViaView::Device(device) => "Remove-NetRoute -DestinationPrefix '"@ + route.destination
            + "' -InterfaceAlias '"@ + device + "' -Confirm:$false -ErrorAction Continue"@,
        RouteViaView::Gateway { gateway, device } => "Remove-NetRoute -DestinationPrefix '"@
            + route.destination + "' -NextHop '"@ + gateway + "' -InterfaceAlias '"@ + device
            + "' -Confirm:$false -ErrorAction Continue"@,
    }
}

fn build_add_route(route: &ClientRoute) -> (s: String)
    ensures
        s@ == add_route(route@),
{
    let mut s = "New-NetRoute -DestinationPrefix '".to_owned();
    s.append(route.destination.as_str());
    match &route.via {
        RouteVia::Device(device) => {
            s.append("' -InterfaceAlias '");
            s.append(device.as_str());
        },
        RouteVia::Gateway { gateway, device } => {
            s.append("' -NextHop '");
            s.append(gateway.as_str());
            s.append("' -InterfaceAlias '");
            s.append(device.as_str());
        },
    }
    s.append("' -PolicyStore ActiveStore -ErrorAction Stop");
    s
}

fn build_remove_route(route: &ClientRoute) -> (s: String)
    ensures
        s@ == remove_route(route@),
{
    let mut s = "Remove-NetRoute -DestinationPrefix '".to_owned();
    s.append(route.destination.as_str());
    match &route.via {
        RouteVia::Device(device) => {
            s.append("' -InterfaceAlias '");
            s.append(device.as_str());
        },
        RouteVia::Gateway { gateway, device } => {
            s.append("' -NextHop '");
            s.append(gateway.as_str());
            s.append("' -InterfaceAlias '");
            s.append(device.as_str());
        },
    }
    s.append("' -Confirm:$false -ErrorAction Continue");
    s
}

/// A route as a change.
pub open spec fn route_change(route: ClientRouteView) -> ChangeView {
    ChangeView {
        make: Some(powershell(add_route(route))),
        undo: powershell(remove_route(route)),
    }
}

/// The changes that add the routes of a plan.
pub open spec fn route_changes(plan: Seq<ClientRouteView>) -> Seq<ChangeView> {
    Seq::new(plan.len(), |i: int| route_change(plan[i]))
}

/// Prepares the changes that add the routes of a plan.
pub fn apply_client_routes(plan: &ClientRoutingPlan) -> (t: Transaction)
    ensures
        t@ == transaction::TransactionView::begun(route_changes(plan@)),
{
    let mut changes: Vec<Change> = Vec::new();
    let mut i: usize = 0;
    while i < plan.routes.len()
        invariant
            i <= plan.routes@.len(),
            transaction::changes_view(changes@) == route_changes(plan@.take(i as int)),
        decreases plan.routes@.len() - i,
    {
        let ghost before = changes@;
        let route = &plan.routes[i];
        changes.push(
            Change {
                make: Some(run_powershell(build_add_route(route).as_str())),
                undo: run_powershell(build_remove_route(route).as_str()),
            },
        );
        assert(plan@[i as int] == route@);
        assert(transaction::changes_view(changes@) =~= transaction::changes_view(before).push(
            route_change(route@),
        ));
        assert(transaction::changes_view(changes@) =~= route_changes(plan@.take(i + 1)));
        i = i + 1;
    }
    assert(plan@.take(i as int) =~= plan@);
    Transaction::begin(changes)
}

/// The failure to add a route.
pub open spec fn route_failure(destination: Seq<char>, reason: ErrorView) -> ErrorView {
    ErrorView {
        kind: ErrorKind::Other,
        message: "Failed to add route "@ + destination + ": "@ + reason.message,
    }
}

/// An outcome with the route named that could not be added.
pub open spec fn named_outcome(
    progress: transaction::ProgressView,
    plan: Seq<ClientRouteView>,
    outcome: Result<(), ErrorView>,
) -> Result<(), ErrorView> {
    match (progress, outcome) {
        (transaction::ProgressView::Making(i), Err(e)) => if i < plan.len() {
            Err(route_failure(plan[i as int].destination, e))
        } else {
            Err(e)
        },
        (_, other) => other,
    }
}

/// Takes note of the outcome of the pending command of a plan; a failure names the
/// route that could not be added.
pub fn report_route(t: &mut Transaction, plan: &ClientRoutingPlan, outcome: Result<(), Error>)
    ensures
        final(t)@ == old(t)@.after(
            named_outcome(old(t)@.progress, plan@, transaction::outcome_view(outcome)),
        ),
{
    let named: Result<(), Error> = match (t.making(), outcome) {
        (Some(i), Err(e)) => if i < plan.routes.len() {
            assert(plan@[i as int] == plan.routes@[i as int]@);
            let mut m = "Failed to add route ".to_owned();
            m.append(plan.routes[i].destination.as_str());
            m.append(": ");
            m.append(e.message.as_str());
            Err(Error { kind: ErrorKind::Other, message: m })
        } else {
            Err(e)
        },
        (_, other) => other,
    };
    t.report(named);
}

/// The command that asks how the host reaches `ip`.
pub open spec fn find_route(ip: Seq<char>) -> Seq<char> {
    "Find-NetRoute -RemoteIPAddress '"@ + ip
        + "' -ErrorAction Stop | Select-Object -First 1 | ForEach-Object { $_.NextHop + '|' + $_.InterfaceAlias }"@
}

/// The query for how the host reaches `ip`.
pub fn route_query(ip: &str) -> (c: HostCommand)
    ensures
        c@ == powershell(find_route(ip@)),
{
    let mut s = "Find-NetRoute -RemoteIPAddress '".to_owned();
    s.append(ip);
    s.append(
        "' -ErrorAction Stop | Select-Object -First 1 | ForEach-Object { $_.NextHop + '|' + $_.InterfaceAlias }",
    );
    run_powershell(s.as_str())
}

/// The way in the reply to the query: next hop and device, separated by a bar. An
/// empty or all-zero next hop stands for a directly connected network.
pub open spec fn route_in(ip: Seq<char>, reply: Seq<char>) -> Result<RouteViaView, ErrorView> {
    let parts = text::split(reply, '|');
    if reply.len() == 0 {
        Err(ErrorView { kind: ErrorKind::NotFound, message: "No route found to "@ + ip })
    } else if parts.len() != 2 {
        Err(
            ErrorView {
                kind: ErrorKind::InvalidData,
                message: "Unexpected output from Find-NetRoute: "@ + reply,
            },
        )
    } else {
        let hop = text::trimmed(parts[0]);
        let device = text::trimmed(parts[1]);
        if hop.len() == 0 || hop == "0.0.0.0"@ || hop == "::"@ {
            Ok(RouteViaView::Device(device))
        } else {
            Ok(RouteViaView::Gateway { gateway: hop, device })
        }
    }
}

/// Reads how the host reaches `ip` out of the reply to the query.
pub fn current_route_to(ip: &str, reply: &str) -> (r: Result<RouteVia, Error>)
    ensures
        match r {
            Ok(route) => route_in(ip@, reply@) == Ok::<RouteViaView, ErrorView>(route@),
            Err(e) => route_in(ip@, reply@) == Err::<RouteViaView, ErrorView>(e@),
        },
{
    if reply.is_empty() {
        let mut m = "No route found to ".to_owned();
        m.append(ip);
        return Err(Error { kind: ErrorKind::NotFound, message: m });
    }
    let chars = text::chars_of(reply);
    let parts = text::split_at_each(chars.as_slice(), '|');
    assert(text::pieces(parts@).len() == parts@.len());
    if parts.len() != 2 {
        let mut m = "Unexpected output from Find-NetRoute: ".to_owned();
        m.append(reply);
        return Err(Error { kind: ErrorKind::InvalidData, message: m });
    }
    assert(text::pieces(parts@)[0] == parts@[0]@);
    assert(text::pieces(parts@)[1] == parts@[1]@);
    let hop = text::trim(parts[0]);
    let device = text::string_of(text::trim(parts[1]));
    if hop.len() == 0 || text::equals(hop, "0.0.0.0") || text::equals(hop, "::") {
        Ok(RouteVia::Device(device))
    } else {
        Ok(RouteVia::Gateway { gateway: text::string_of(hop), device })
    }
}

/// Whether the process was asked to stop: a console event was received.
pub fn shutdown_requested(signalled: bool) -> (b: bool)
    ensures
        b == signalled,
{
    signalled
}

/// The command that finds the outbound interface.
pub const DETECT_OUTBOUND: &'static str =
    "Get-NetRoute -DestinationPrefix '0.0.0.0/0' -ErrorAction Stop | Sort-Object RouteMetric | Select-Object -First 1 -ExpandProperty InterfaceAlias";

/// Where the settings of Internet Connection Sharing are kept.
pub const SHARED_ACCESS_PATH: &'static str =
    "HKLM:\\System\\CurrentControlSet\\Services\\SharedAccess\\Parameters";

/// The command that asks whether a device forwards.
pub open spec fn query_forwarding(device: Seq<char>) -> Seq<char> {
    "Get-NetIPInterface -InterfaceAlias '"@ + device
        + "' -ErrorAction Stop | Select-Object -ExpandProperty Forwarding"@
}

/// The command that switches forwarding on a device; `on_error` says what becomes
/// of an error.
pub open spec fn set_forwarding(device: Seq<char>, state: Seq<char>, on_error: Seq<char>) -> Seq<char> {
    "Set-NetIPInterface -InterfaceAlias '"@ + device + "' -Forwarding "@ + state + " -ErrorAction "@
        + on_error
}

/// The command that looks for a NetNat object.
pub open spec fn get_nat(name: Seq<char>) -> Seq<char> {
    "Get-NetNat -Name '"@ + name + "' -ErrorAction SilentlyContinue"@
}

/// The command that creates a NetNat object for a network.
pub open spec fn new_nat(name: Seq<char>, subnet: Seq<char>) -> Seq<char> {
    "New-NetNat -Name '"@ + name + "' -InternalIPInterfaceAddressPrefix '"@ + subnet
        + "' -ErrorAction Stop"@
}

/// The command that removes a NetNat object.
pub open spec fn remove_nat(name: Seq<char>) -> Seq<char> {
    "Remove-NetNat -Name '"@ + name + "' -Confirm:$false -ErrorAction Continue"@
}

/// The command that reads a setting of Internet Connection Sharing.
pub open spec fn read_setting(name: Seq<char>) -> Seq<char> {
    "Get-ItemPropertyValue -Path '"@ + SHARED_ACCESS_PATH@ + "' -Name '"@ + name
        + "' -ErrorAction SilentlyContinue"@
}

/// The command that writes a setting of Internet Connection Sharing.
pub open spec fn write_setting(name: Seq<char>, value: Seq<char>, on_error: Seq<char>) -> Seq<char> {
    "Set-ItemProperty -Path '"@ + SHARED_ACCESS_PATH@ + "' -Name '"@ + name + "' -Value '"@ + value
        + "' -ErrorAction "@ + on_error
}

/// The command that gives a setting its previous value, or removes it if it had
/// none.
pub open spec fn restore_setting(name: Seq<char>, previous: Option<Seq<char>>) -> Seq<char> {
    match previous {
        Some(value) => write_setting(name, value, "Continue"@),
        None => "Remove-ItemProperty -Path '"@ + SHARED_ACCESS_PATH@ + "' -Name '"@ + name
            + "' -ErrorAction SilentlyContinue"@,
    }
}

/// The sharing check, up to the public interface.
pub const CHECK_HEAD: &'static str = r#"
$netShare = New-Object -ComObject HNetCfg.HNetShare
foreach ($c in $netShare.EnumEveryConnection) {
    $name = $netShare.NetConnectionProps($c).Name
    $conf = $netShare.INetSharingConfigurationForINetConnection($c)
    if ($conf -and $conf.SharingEnabled) {
        if ($name -ne '"#;

/// The sharing check, behind the private interface.
pub const CHECK_TAIL: &'static str = r#"') {
            Write-Output "ALREADY_SHARED_$name"
            exit
        }
    }
}
"#;

/// Enabling sharing, up to the public interface.
pub const ENABLE_HEAD: &'static str = r#"
$ErrorActionPreference = 'Stop'
$netShare = New-Object -ComObject HNetCfg.HNetShare
$pubConf = $null
$privConf = $null
foreach ($c in $netShare.EnumEveryConnection) {
    $name = $netShare.NetConnectionProps($c).Name
    $conf = $netShare.INetSharingConfigurationForINetConnection($c)
    if ($name -eq '"#;

/// Enabling sharing, between the interfaces.
pub const ENABLE_MIDDLE: &'static str = r#"') { $pubConf = $conf }
    if ($name -eq '"#;

/// Enabling sharing, behind the private interface.
pub const ENABLE_TAIL: &'static str = r#"') { $privConf = $conf }
}
if ($null -eq $pubConf -or $null -eq $privConf) {
    throw "Required interfaces not found for ICS."
}
$pubConf.EnableSharing(0)
$privConf.EnableSharing(1)
"#;

/// Disabling sharing, up to the public interface.
pub const DISABLE_HEAD: &'static str = r#"
$netShare = New-Object -ComObject HNetCfg.HNetShare -ErrorAction SilentlyContinue
if ($netShare) {
    foreach ($c in $netShare.EnumEveryConnection) {
        $name = $netShare.NetConnectionProps($c).Name
        if ($name -eq '"#;

/// Disabling sharing, behind the private interface.
pub const DISABLE_TAIL: &'static str = r#"') {
            $netShare.INetSharingConfigurationForINetConnection($c).DisableSharing()
        }
    }
}
"#;

/// Waiting for an address, up to the device.
pub const POLL_HEAD: &'static str =
    "for ($i=0; $i -lt 10; $i++) { $ip = Get-NetIPAddress -InterfaceAlias '";

/// Waiting for an address, behind the device.
pub const POLL_TAIL: &'static str =
    "' -AddressFamily IPv4 -ErrorAction SilentlyContinue | Select-Object -ExpandProperty IPAddress; if ($ip) { Write-Output $ip; exit }; Start-Sleep -Milliseconds 500 }; Write-Output 'NONE'";

/// The script that looks for sharing on other interfaces than the two.
pub open spec fn check_sharing(public: Seq<char>, private: Seq<char>) -> Seq<char> {
    CHECK_HEAD@ + public + "' -and $name -ne '"@ + private + CHECK_TAIL@
}

/// The script that shares the public interface with the private one.
pub open spec fn enable_sharing(public: Seq<char>, private: Seq<char>) -> Seq<char> {
    ENABLE_HEAD@ + public + ENABLE_MIDDLE@ + private + ENABLE_TAIL@
}

/// The script that ends sharing on the two interfaces.
pub open spec fn disable_sharing(public: Seq<char>, private: Seq<char>) -> Seq<char> {
    DISABLE_HEAD@ + public + "' -or $name -eq '"@ + private + DISABLE_TAIL@
}

/// The script that waits for the address of the device.
pub open spec fn poll_address(device: Seq<char>) -> Seq<char> {
    POLL_HEAD@ + device + POLL_TAIL@
}

fn build_query_forwarding(device: &str) -> (s: String)
    ensures
        s@ == query_forwarding(device@),
{
    let mut s = "Get-NetIPInterface -InterfaceAlias '".to_owned();
    s.append(device);
    s.append("' -ErrorAction Stop | Select-Object -ExpandProperty Forwarding");
    s
}

fn build_set_forwarding(device: &str, state: &str, on_error: &str) -> (s: String)
    ensures
        s@ == set_forwarding(device@, state@, on_error@),
{
    let mut s = "Set-NetIPInterface -InterfaceAlias '".to_owned();
    s.append(device);
    s.append("' -Forwarding ");
    s.append(state);
    s.append(" -ErrorAction ");
    s.append(on_error);
    s
}

fn build_get_nat(name: &str) -> (s: String)
    ensures
        s@ == get_nat(name@),
{
    let mut s = "Get-NetNat -Name '".to_owned();
    s.append(name);
    s.append("' -ErrorAction SilentlyContinue");
    s
}

fn build_new_nat(name: &str, subnet: &str) -> (s: String)
    ensures
        s@ == new_nat(name@, subnet@),
{
    let mut s = "New-NetNat -Name '".to_owned();
    s.append(name);
    s.append("' -InternalIPInterfaceAddressPrefix '");
    s.append(subnet);
    s.append("' -ErrorAction Stop");
    s
}

fn build_remove_nat(name: &str) -> (s: String)
    ensures
        s@ == remove_nat(name@),
{
    let mut s = "Remove-NetNat -Name '".to_owned();
    s.append(name);
    s.append("' -Confirm:$false -ErrorAction Continue");
    s
}

fn build_read_setting(name: &str) -> (s: String)
    ensures
        s@ == read_setting(name@),
{
    let mut s = "Get-ItemPropertyValue -Path '".to_owned();
    s.append(SHARED_ACCESS_PATH);
    s.append("' -Name '");
    s.append(name);
    s.append("' -ErrorAction SilentlyContinue");
    s
}

fn build_write_setting(name: &str, value: &str, on_error: &str) -> (s: String)
    ensures
        s@ == write_setting(name@, value@, on_error@),
{
    let mut s = "Set-ItemProperty -Path '".to_owned();
    s.append(SHARED_ACCESS_PATH);
    s.append("' -Name '");
    s.append(name);
    s.append("' -Value '");
    s.append(value);
    s.append("' -ErrorAction ");
    s.append(on_error);
    s
}

fn build_restore_setting(name: &str, previous: &Option<String>) -> (s: String)
    ensures
        s@ == restore_setting(name@, crate::config::optional(*previous)),
{
    match previous {
        Some(value) => build_write_setting(name, value.as_str(), "Continue"),
        None => {
            let mut s = "Remove-ItemProperty -Path '".to_owned();
            s.append(SHARED_ACCESS_PATH);
            s.append("' -Name '");
            s.append(name);
            s.append("' -ErrorAction SilentlyContinue");
            s
        },
    }
}

fn build_check_sharing(public: &str, private: &str) -> (s: String)
    ensures
        s@ == check_sharing(public@, private@),
{
    let mut s = CHECK_HEAD.to_owned();
    s.append(public);
    s.append("' -and $name -ne '");
    s.append(private);
    s.append(CHECK_TAIL);
    s
}

fn build_enable_sharing(public: &str, private: &str) -> (s: String)
    ensures
        s@ == enable_sharing(public@, private@),
{
    let mut s = ENABLE_HEAD.to_owned();
    s.append(public);
    s.append(ENABLE_MIDDLE);
    s.append(private);
    s.append(ENABLE_TAIL);
    s
}

fn build_disable_sharing(public: &str, private: &str) -> (s: String)
    ensures
        s@ == disable_sharing(public@, private@),
{
    let mut s = DISABLE_HEAD.to_owned();
    s.append(public);
    s.append("' -or $name -eq '");
    s.append(private);
    s.append(DISABLE_TAIL);
    s
}

fn build_poll_address(device: &str) -> (s: String)
    ensures
        s@ == poll_address(device@),
{
    let mut s = POLL_HEAD.to_owned();
    s.append(device);
    s.append(POLL_TAIL);
    s
}

/// The step that a gateway's setup is at. Each but the last three has a command
/// pending.
#[derive(Debug, Clone, Copy, PartialEq, Eq, Structural)]
pub enum Stage {
    DetectOutbound,
    QueryForwarding,
    EnableForwarding,
    CheckNat,
    CreateNat,
    ReadScopeAddress,
    ReadDhcpAddress,
    CheckSharing,
    SetScopeAddress,
    SetDhcpAddress,
    EnableSharing,
    PollAddress,
    /// Taking back: sharing.
    DisableSharing,
    /// Taking back: the first setting.
    RestoreScopeAddress,
    /// Taking back: the second setting.
    RestoreDhcpAddress,
    /// Taking back: forwarding.
    RestoreForwarding,
    /// Addresses are translated by a NetNat object.
    AppliedNat,
    /// Addresses are translated by Internet Connection Sharing.
    AppliedSharing,
    Failed,
}

/// A gateway's setup as a mathematical value.
pub struct SetupView {
    pub vpn_subnet: Seq<char>,
    pub tun_interface: Seq<char>,
    /// The address that the tunnel device is to have.
    pub server_ip: Seq<char>,
    pub nat_name: Seq<char>,
    pub outbound_interface: Seq<char>,
    pub forwarding_was_enabled: bool,
    pub scope_address: Option<Seq<char>>,
    pub dhcp_address: Option<Seq<char>>,
    pub stage: Stage,
    pub failure: Option<ErrorView>,
}

/// The failure of the part that translates addresses.
pub open spec fn backend_failure(e: ErrorView) -> ErrorView {
    ErrorView {
        kind: ErrorKind::Other,
        message: "Failed to configure NAT backend: "@ + e.message,
    }
}

/// The failure when the tunnel device ends up with another address.
pub open spec fn unexpected_address(found: Seq<char>, expected: Seq<char>) -> ErrorView {
    ErrorView {
        kind: ErrorKind::Other,
        message: "Outcome B/C: ICS assigned unexpected IP "@ + found
            + " to the private interface. We expected "@ + expected
            + ", this is likely a topology mismatch. Try setting `topology = \"windows-ics\"` in your `[tunnel]` config section."@,
    }
}

/// A reply that holds a value.
pub open spec fn setting_in(reply: Result<Seq<char>, ErrorView>) -> Option<Seq<char>> {
    match reply {
        Ok(value) => if value.len() > 0 {
            Some(value)
        } else {
            None
        },
        Err(_) => None,
    }
}

impl SetupView {
    /// The same setup at another stage.
    pub open spec fn at(self, stage: Stage) -> SetupView {
        SetupView { stage, ..self }
    }

    /// The setup once nothing is left to take back.
    pub open spec fn failed(self, e: ErrorView) -> SetupView {
        SetupView { stage: Stage::Failed, failure: Some(e), ..self }
    }

    /// The setup when only forwarding may be left to take back.
    pub open spec fn backing_out(self, e: ErrorView) -> SetupView {
        if self.forwarding_was_enabled {
            self.failed(e)
        } else {
            SetupView { stage: Stage::RestoreForwarding, failure: Some(e), ..self }
        }
    }

    /// The setup when sharing failed: sharing, if the script that enables it was
    /// handed out, and the settings are taken back first. The script works in steps
    /// and may fail between them, so it is taken back when it fails too.
    pub open spec fn unsharing(self, e: ErrorView) -> SetupView {
        SetupView {
            stage: if self.stage == Stage::EnableSharing || self.stage == Stage::PollAddress {
                Stage::DisableSharing
            } else {
                Stage::RestoreScopeAddress
            },
            failure: Some(backend_failure(e)),
            ..self
        }
    }

    /// The PowerShell command that is pending.
    pub open spec fn command(self) -> Option<Seq<char>> {
        match self.stage {
            Stage::DetectOutbound => Some(DETECT_OUTBOUND@),
            Stage::QueryForwarding => Some(query_forwarding(self.tun_interface)),
            Stage::EnableForwarding => Some(
                set_forwarding(self.tun_interface, "Enabled"@, "Stop"@),
            ),
            Stage::CheckNat => Some(get_nat(self.nat_name)),
            Stage::CreateNat => Some(new_nat(self.nat_name, self.vpn_subnet)),
            Stage::ReadScopeAddress => Some(read_setting("ScopeAddress"@)),
            Stage::ReadDhcpAddress => Some(read_setting("StandaloneDhcpAddress"@)),
            Stage::CheckSharing => Some(
                check_sharing(self.outbound_interface, self.tun_interface),
            ),
            Stage::SetScopeAddress => Some(
                write_setting("ScopeAddress"@, self.server_ip, "Stop"@),
            ),
            Stage::SetDhcpAddress => Some(
                write_setting("StandaloneDhcpAddress"@, self.server_ip, "Stop"@),
            ),
            Stage::EnableSharing => Some(
                enable_sharing(self.outbound_interface, self.tun_interface),
            ),
            Stage::PollAddress => Some(poll_address(self.tun_interface)),
            Stage::DisableSharing => Some(
                disable_sharing(self.outbound_interface, self.tun_interface),
            ),
            Stage::RestoreScopeAddress => Some(
                restore_setting("ScopeAddress"@, self.scope_address),
            ),
            Stage::RestoreDhcpAddress => Some(
                restore_setting("StandaloneDhcpAddress"@, self.dhcp_address),
            ),
            Stage::RestoreForwarding => Some(
                set_forwarding(self.tun_interface, "Disabled"@, "SilentlyContinue"@),
            ),
            Stage::AppliedNat => None,
            Stage::AppliedSharing => None,
            Stage::Failed => None,
        }
    }

    /// The setup after the reply to the pending command.
    pub open spec fn after(self, reply: Result<Seq<char>, ErrorView>) -> SetupView {
        match self.stage {
            Stage::DetectOutbound => match reply {
                Err(e) => self.failed(e),
                Ok(interface) => if interface.len() == 0 {
                    self.failed(
                        ErrorView {
                            kind: ErrorKind::NotFound,
                            message: "Could not find default outbound interface"@,
                        },
                    )
                } else {
                    SetupView {
                        outbound_interface: interface,
                        stage: Stage::QueryForwarding,
                        ..self
                    }
                },
            },
            Stage::QueryForwarding => match reply {
                Err(e) => self.failed(e),
                Ok(status) => if text::equal_ignoring_case(status, "Enabled"@) {
                    SetupView { forwarding_was_enabled: true, stage: Stage::CheckNat, ..self }
                } else {
                    SetupView {
                        forwarding_was_enabled: false,
                        stage: Stage::EnableForwarding,
                        ..self
                    }
                },
            },
            Stage::EnableForwarding => match reply {
                Err(e) => self.failed(
                    ErrorView {
                        kind: ErrorKind::Other,
                        message: "Failed to enable IP forwarding on "@ + self.tun_interface + ": "@
                            + e.message,
                    },
                ),
                Ok(_) => self.at(Stage::CheckNat),
            },
            Stage::CheckNat => if reply is Ok && text::trimmed(reply->Ok_0).len() > 0 {
                self.backing_out(
                    ErrorView {
                        kind: ErrorKind::AlreadyExists,
                        message: "NAT object '"@ + self.nat_name + "' already exists"@,
                    },
                )
            } else {
                self.at(Stage::CreateNat)
            },
            Stage::CreateNat => match reply {
                Ok(_) => self.at(Stage::AppliedNat),
                Err(e) => if text::includes(e.message, "Invalid class"@) && text::includes(
                    e.message,
                    "MSFT_NetNat"@,
                ) {
                    self.at(Stage::ReadScopeAddress)
                } else {
                    self.backing_out(backend_failure(e))
                },
            },
            Stage::ReadScopeAddress => SetupView {
                scope_address: setting_in(reply),
                stage: Stage::ReadDhcpAddress,
                ..self
            },
            Stage::ReadDhcpAddress => SetupView {
                dhcp_address: setting_in(reply),
                stage: Stage::CheckSharing,
                ..self
            },
            Stage::CheckSharing => match reply {
                Err(e) => self.unsharing(e),
                Ok(output) => if text::includes(output, "ALREADY_SHARED"@) {
                    self.unsharing(
                        ErrorView {
                            kind: ErrorKind::AlreadyExists,
                            message: "Another interface is already natively shared: "@ + output,
                        },
                    )
                } else {
                    self.at(Stage::SetScopeAddress)
                },
            },
            Stage::SetScopeAddress => match reply {
                Err(e) => self.unsharing(e),
                Ok(_) => self.at(Stage::SetDhcpAddress),
            },
            Stage::SetDhcpAddress => match reply {
                Err(e) => self.unsharing(e),
                Ok(_) => self.at(Stage::EnableSharing),
            },
            Stage::EnableSharing => match reply {
                Err(e) => self.unsharing(e),
                Ok(_) => self.at(Stage::PollAddress),
            },
            Stage::PollAddress => match reply {
                Err(e) => self.unsharing(e),
                Ok(address) => if text::includes(address, "NONE"@) || address.len() == 0 {
                    self.unsharing(
                        ErrorView {
                            kind: ErrorKind::Other,
                            message: "Outcome C: ICS left the interface without an IPv4 address."@,
                        },
                    )
                } else if text::trimmed(address) == self.server_ip {
                    self.at(Stage::AppliedSharing)
                } else {
                    self.unsharing(unexpected_address(text::trimmed(address), self.server_ip))
                },
            },
            Stage::DisableSharing => self.at(Stage::RestoreScopeAddress),
            Stage::RestoreScopeAddress => self.at(Stage::RestoreDhcpAddress),
            Stage::RestoreDhcpAddress => if self.forwarding_was_enabled {
                self.at(Stage::Failed)
            } else {
                self.at(Stage::RestoreForwarding)
            },
            Stage::RestoreForwarding => self.at(Stage::Failed),
            Stage::AppliedNat => self,
            Stage::AppliedSharing => self,
            Stage::Failed => self,
        }
    }

    /// The PowerShell commands that take back what was applied.
    pub open spec fn cleanup(self) -> Seq<Seq<char>> {
        let translation = match self.stage {
            Stage::AppliedNat => seq![remove_nat(self.nat_name)],
            Stage::AppliedSharing => seq![
                disable_sharing(self.outbound_interface, self.tun_interface),
                restore_setting("ScopeAddress"@, self.scope_address),
                restore_setting("StandaloneDhcpAddress"@, self.dhcp_address),
            ],
            _ => Seq::empty(),
        };
        let forwarding = if self.forwarding_was_enabled {
            Seq::empty()
        } else {
            seq![set_forwarding(self.tun_interface, "Disabled"@, "Continue"@)]
        };
        if self.stage == Stage::AppliedNat || self.stage == Stage::AppliedSharing {
            translation + forwarding
        } else {
            Seq::empty()
        }
    }
}

/// The setup of a gateway. The program runs the pending command and reports its
/// reply until nothing is pending.
#[derive(Debug)]
pub struct ServerSetup {
    vpn_subnet: String,
    tun_interface: String,
    server_ip: String,
    nat_name: String,
    outbound_interface: String,
    forwarding_was_enabled: bool,
    scope_address: Option<String>,
    dhcp_address: Option<String>,
    stage: Stage,
    failure: Option<Error>,
}

impl View for ServerSetup {
    type V = SetupView;

    closed spec fn view(&self) -> SetupView {
        SetupView {
            vpn_subnet: self.vpn_subnet@,
            tun_interface: self.tun_interface@,
            server_ip: self.server_ip@,
            nat_name: self.nat_name@,
            outbound_interface: self.outbound_interface@,
            forwarding_was_enabled: self.forwarding_was_enabled,
            scope_address: crate::config::optional(self.scope_address),
            dhcp_address: crate::config::optional(self.dhcp_address),
            stage: self.stage,
            failure: match self.failure {
                Some(e) => Some(e@),
                None => None,
            },
        }
    }
}

/// An address as a dotted quad.
pub open spec fn quad_chars(address: (u8, u8, u8, u8)) -> Seq<char> {
    text::decimal_chars(address.0 as nat) + "."@ + text::decimal_chars(address.1 as nat) + "."@
        + text::decimal_chars(address.2 as nat) + "."@ + text::decimal_chars(address.3 as nat)
}

/// Writes an address as a dotted quad.
pub fn format_quad(address: (u8, u8, u8, u8)) -> (s: String)
    ensures
        s@ == quad_chars(address),
{
    let mut s = text::decimal(address.0 as u64);
    s.append(".");
    s.append(text::decimal(address.1 as u64).as_str());
    s.append(".");
    s.append(text::decimal(address.2 as u64).as_str());
    s.append(".");
    s.append(text::decimal(address.3 as u64).as_str());
    s
}

/// The setup before anything is done: the outbound interface is looked for only if
/// none is configured.
pub open spec fn setup_begun(config: RoutingConfig, process_id: u32) -> SetupView {
    SetupView {
        vpn_subnet: config.vpn_subnet@,
        tun_interface: config.tun_interface@,
        server_ip: quad_chars(config.address_plan.server_address),
        nat_name: "tiny-vpn-nat-"@ + text::decimal_chars(process_id as nat),
        outbound_interface: match config.outbound_interface {
            Some(interface) => interface@,
            None => ""@,
        },
        forwarding_was_enabled: false,
        scope_address: None,
        dhcp_address: None,
        stage: if config.outbound_interface is Some {
            Stage::QueryForwarding
        } else {
            Stage::DetectOutbound
        },
        failure: None,
    }
}

/// Begins to make the host a gateway. The process number makes the name of the
/// NetNat object unique.
pub fn apply(config: &RoutingConfig, process_id: u32) -> (setup: ServerSetup)
    ensures
        setup@ == setup_begun(*config, process_id),
{
    let mut nat_name = "tiny-vpn-nat-".to_owned();
    nat_name.append(text::decimal(process_id as u64).as_str());
    let (outbound_interface, stage) = match &config.outbound_interface {
        Some(interface) => (interface.clone(), Stage::QueryForwarding),
        None => ("".to_owned(), Stage::DetectOutbound),
    };
    ServerSetup {
        vpn_subnet: config.vpn_subnet.clone(),
        tun_interface: config.tun_interface.clone(),
        server_ip: format_quad(config.address_plan.server_address),
        nat_name,
        outbound_interface,
        forwarding_was_enabled: false,
        scope_address: None,
        dhcp_address: None,
        stage,
        failure: None,
    }
}

/// The value in a reply to a query for a setting.
fn read_reply(reply: Result<String, Error>) -> (value: Option<String>)
    ensures
        crate::config::optional(value) == setting_in(error::text_outcome(reply)),
{
    match reply {
        Ok(value) => if value.as_str().is_empty() {
            None
        } else {
            Some(value)
        },
        Err(_) => None,
    }
}

impl ServerSetup {
    /// The PowerShell command that is pending; `None` once the setup is over.
    pub fn command(&self) -> (c: Option<String>)
        ensures
            crate::config::optional(c) == self@.command(),
    {
        let device = self.tun_interface.as_str();
        let outbound = self.outbound_interface.as_str();
        let server_ip = self.server_ip.as_str();
        match self.stage {
            Stage::DetectOutbound => Some(DETECT_OUTBOUND.to_owned()),
            Stage::QueryForwarding => Some(build_query_forwarding(device)),
            Stage::EnableForwarding => Some(build_set_forwarding(device, "Enabled", "Stop")),
            Stage::CheckNat => Some(build_get_nat(self.nat_name.as_str())),
            Stage::CreateNat => Some(
                build_new_nat(self.nat_name.as_str(), self.vpn_subnet.as_str()),
            ),
            Stage::ReadScopeAddress => Some(build_read_setting("ScopeAddress")),
            Stage::ReadDhcpAddress => Some(build_read_setting("StandaloneDhcpAddress")),
            Stage::CheckSharing => Some(build_check_sharing(outbound, device)),
            Stage::SetScopeAddress => Some(
                build_write_setting("ScopeAddress", server_ip, "Stop"),
            ),
            Stage::SetDhcpAddress => Some(
                build_write_setting("StandaloneDhcpAddress", server_ip, "Stop"),
            ),
            Stage::EnableSharing => Some(build_enable_sharing(outbound, device)),
            Stage::PollAddress => Some(build_poll_address(device)),
            Stage::DisableSharing => Some(build_disable_sharing(outbound, device)),
            Stage::RestoreScopeAddress => Some(
                build_restore_setting("ScopeAddress", &self.scope_address),
            ),
            Stage::RestoreDhcpAddress => Some(
                build_restore_setting("StandaloneDhcpAddress", &self.dhcp_address),
            ),
            Stage::RestoreForwarding => Some(
                build_set_forwarding(device, "Disabled", "SilentlyContinue"),
            ),
            Stage::AppliedNat => None,
            Stage::AppliedSharing => None,
            Stage::Failed => None,
        }
    }

    fn fail(&mut self, e: Error)
        ensures
            final(self)@ == old(self)@.failed(e@),
    {
        self.failure = Some(e);
        self.stage = Stage::Failed;
    }

    fn back_out(&mut self, e: Error)
        ensures
            final(self)@ == old(self)@.backing_out(e@),
    {
        if self.forwarding_was_enabled {
            self.fail(e);
        } else {
            self.failure = Some(e);
            self.stage = Stage::RestoreForwarding;
        }
    }

    fn unshare(&mut self, e: Error)
        ensures
            final(self)@ == old(self)@.unsharing(e@),
    {
        self.failure = Some(wrap_backend_failure(&e));
        self.stage = match self.stage {
            Stage::EnableSharing | Stage::PollAddress => Stage::DisableSharing,
            _ => Stage::RestoreScopeAddress,
        };
    }

    /// Goes on with the reply to the pending command.
    pub fn report(&mut self, reply: Result<String, Error>)
        ensures
            final(self)@ == old(self)@.after(error::text_outcome(reply)),
    {
        match self.stage {
            Stage::DetectOutbound => self.on_outbound(reply),
            Stage::QueryForwarding => match reply {
                Err(e) => self.fail(e),
                Ok(status) => {
                    if text::same_ignoring_case(status.as_str(), "Enabled") {
                        self.forwarding_was_enabled = true;
                        self.stage = Stage::CheckNat;
                    } else {
                        self.forwarding_was_enabled = false;
                        self.stage = Stage::EnableForwarding;
                    }
                },
            },
            Stage::EnableForwarding => match reply {
                Err(e) => {
                    let mut m = "Failed to enable IP forwarding on ".to_owned();
                    m.append(self.tun_interface.as_str());
                    m.append(": ");
                    m.append(e.message.as_str());
                    self.fail(Error { kind: ErrorKind::Other, message: m });
                },
                Ok(_) => {
                    self.stage = Stage::CheckNat;
                },
            },
            Stage::CheckNat => self.on_nat_checked(reply),
            Stage::CreateNat => match reply {
                Ok(_) => {
                    self.stage = Stage::AppliedNat;
                },
                Err(e) => {
                    if text::contains(e.message.as_str(), "Invalid class") && text::contains(
                        e.message.as_str(),
                        "MSFT_NetNat",
                    ) {
                        self.stage = Stage::ReadScopeAddress;
                    } else {
                        self.back_out(wrap_backend_failure(&e));
                    }
                },
            },
            Stage::ReadScopeAddress => {
                self.scope_address = read_reply(reply);
                self.stage = Stage::ReadDhcpAddress;
            },
            Stage::ReadDhcpAddress => {
                self.dhcp_address = read_reply(reply);
                self.stage = Stage::CheckSharing;
            },
            Stage::CheckSharing => self.on_sharing_checked(reply),
            Stage::SetScopeAddress => match reply {
                Err(e) => self.unshare(e),
                Ok(_) => {
                    self.stage = Stage::SetDhcpAddress;
                },
            },
            Stage::SetDhcpAddress => match reply {
                Err(e) => self.unshare(e),
                Ok(_) => {
                    self.stage = Stage::EnableSharing;
                },
            },
            Stage::EnableSharing => match reply {
                Err(e) => self.unshare(e),
                Ok(_) => {
                    self.stage = Stage::PollAddress;
                },
            },
            Stage::PollAddress => self.on_address(reply),
            Stage::DisableSharing => {
                self.stage = Stage::RestoreScopeAddress;
            },
            Stage::RestoreScopeAddress => {
                self.stage = Stage::RestoreDhcpAddress;
            },
            Stage::RestoreDhcpAddress => {
                self.stage = if self.forwarding_was_enabled {
                    Stage::Failed
                } else {
                    Stage::RestoreForwarding
                };
            },
            Stage::RestoreForwarding => {
                self.stage = Stage::Failed;
            },
            Stage::AppliedNat => {},
            Stage::AppliedSharing => {},
            Stage::Failed => {},
        }
    }

    fn on_outbound(&mut self, reply: Result<String, Error>)
        requires
            old(self)@.stage == Stage::DetectOutbound,
        ensures
            final(self)@ == old(self)@.after(error::text_outcome(reply)),
    {
        match reply {
            Err(e) => self.fail(e),
            Ok(interface) => {
                if interface.as_str().is_empty() {
                    self.fail(
                        Error::new(
                            ErrorKind::NotFound,
                            "Could not find default outbound interface",
                        ),
                    );
                } else {
                    self.outbound_interface = interface;
                    self.stage = Stage::QueryForwarding;
                }
            },
        }
    }

    fn on_nat_checked(&mut self, reply: Result<String, Error>)
        requires
            old(self)@.stage == Stage::CheckNat,
        ensures
            final(self)@ == old(self)@.after(error::text_outcome(reply)),
    {
        let found: bool = match &reply {
            Ok(output) => !trim_text(output.as_str()).as_str().is_empty(),
            Err(_) => false,
        };
        if found {
            let mut m = "NAT object '".to_owned();
            m.append(self.nat_name.as_str());
            m.append("' already exists");
            self.back_out(Error { kind: ErrorKind::AlreadyExists, message: m });
        } else {
            self.stage = Stage::CreateNat;
        }
    }

    fn on_sharing_checked(&mut self, reply: Result<String, Error>)
        requires
            old(self)@.stage == Stage::CheckSharing,
        ensures
            final(self)@ == old(self)@.after(error::text_outcome(reply)),
    {
        match reply {
            Err(e) => self.unshare(e),
            Ok(output) => {
                if text::contains(output.as_str(), "ALREADY_SHARED") {
                    let mut m = "Another interface is already natively shared: ".to_owned();
                    m.append(output.as_str());
                    self.unshare(Error { kind: ErrorKind::AlreadyExists, message: m });
                } else {
                    self.stage = Stage::SetScopeAddress;
                }
            },
        }
    }

    fn on_address(&mut self, reply: Result<String, Error>)
        requires
            old(self)@.stage == Stage::PollAddress,
        ensures
            final(self)@ == old(self)@.after(error::text_outcome(reply)),
    {
        match reply {
            Err(e) => self.unshare(e),
            Ok(reported) => {
                if text::contains(reported.as_str(), "NONE") || reported.as_str().is_empty() {
                    self.unshare(
                        Error::new(
                            ErrorKind::Other,
                            "Outcome C: ICS left the interface without an IPv4 address.",
                        ),
                    );
                } else {
                    let address = trim_text(reported.as_str());
                    if text::same_str(address.as_str(), self.server_ip.as_str()) {
                        self.stage = Stage::AppliedSharing;
                    } else {
                        let e = describe_unexpected_address(
                            address.as_str(),
                            self.server_ip.as_str(),
                        );
                        self.unshare(e);
                    }
                }
            },
        }
    }

    /// The stage that the setup is at.
    pub fn stage(&self) -> (stage: Stage)
        ensures
            stage == self@.stage,
    {
        self.stage
    }

    /// The failure, once everything is taken back.
    pub fn failure(&self) -> (e: Option<Error>)
        ensures
            match e {
                Some(e) => self@.stage == Stage::Failed && self@.failure == Some(e@),
                None => self@.stage != Stage::Failed || self@.failure is None,
            },
    {
        match (&self.stage, &self.failure) {
            (Stage::Failed, Some(e)) => Some(e.copy()),
            _ => None,
        }
    }

    /// The PowerShell commands that take back what was applied, in order.
    pub fn cleanup(&self) -> (commands: Vec<String>)
        ensures
            text::strings(commands@) == self@.cleanup(),
    {
        let device = self.tun_interface.as_str();
        let mut commands: Vec<String> = Vec::new();
        match self.stage {
            Stage::AppliedNat => {
                commands.push(build_remove_nat(self.nat_name.as_str()));
            },
            Stage::AppliedSharing => {
                commands.push(build_disable_sharing(self.outbound_interface.as_str(), device));
                commands.push(build_restore_setting("ScopeAddress", &self.scope_address));
                commands.push(build_restore_setting("StandaloneDhcpAddress", &self.dhcp_address));
            },
            _ => {
                assert(text::strings(commands@) =~= self@.cleanup());
                return commands;
            },
        }
        if !self.forwarding_was_enabled {
            commands.push(build_set_forwarding(device, "Disabled", "Continue"));
        }
        assert(text::strings(commands@) =~= self@.cleanup());
        commands
    }
}

fn wrap_backend_failure(e: &Error) -> (wrapped: Error)
    ensures
        wrapped@ == backend_failure(e@),
{
    let mut m = "Failed to configure NAT backend: ".to_owned();
    m.append(e.message.as_str());
    Error { kind: ErrorKind::Other, message: m }
}

fn describe_unexpected_address(found: &str, expected: &str) -> (e: Error)
    ensures
        e@ == unexpected_address(found@, expected@),
{
    let mut m = "Outcome B/C: ICS assigned unexpected IP ".to_owned();
    m.append(found);
    m.append(" to the private interface. We expected ");
    m.append(expected);
    m.append(
        ", this is likely a topology mismatch. Try setting `topology = \"windows-ics\"` in your `[tunnel]` config section.",
    );
    Error { kind: ErrorKind::Other, message: m }
}

/// What the setup of a gateway changes on a host.
pub struct HostState {
    /// Whether the tunnel device forwards.
    pub forwarding: bool,
    /// Whether the setup's NetNat object exists.
    pub nat: bool,
    pub scope_address: Option<Seq<char>>,
    pub dhcp_address: Option<Seq<char>>,
    /// Whether the two interfaces are shared.
    pub sharing: bool,
}

/// What the pending command does to the host when it succeeds.
pub open spec fn command_effect(setup: SetupView, host: HostState) -> HostState {
    match setup.stage {
        Stage::EnableForwarding => HostState { forwarding: true, ..host },
        Stage::CreateNat => HostState { nat: true, ..host },
        Stage::SetScopeAddress => HostState { scope_address: Some(setup.server_ip), ..host },
        Stage::SetDhcpAddress => HostState { dhcp_address: Some(setup.server_ip), ..host },
        Stage::EnableSharing => HostState { sharing: true, ..host },
        Stage::DisableSharing => HostState { sharing: false, ..host },
        Stage::RestoreScopeAddress => HostState { scope_address: setup.scope_address, ..host },
        Stage::RestoreDhcpAddress => HostState { dhcp_address: setup.dhcp_address, ..host },
        Stage::RestoreForwarding => HostState { forwarding: false, ..host },
        _ => host,
    }
}

/// What comes of a command.
pub struct Outcome {
    pub reply: Result<Seq<char>, ErrorView>,
    /// Whether the script that enables sharing, where it fails, leaves the two
    /// interfaces shared.
    pub left_shared: bool,
}

/// What the pending command does to the host. One that fails does nothing, but for
/// the script that enables sharing: it may fail after sharing was enabled.
pub open spec fn outcome_effect(setup: SetupView, host: HostState, outcome: Outcome) -> HostState {
    if outcome.reply is Ok {
        command_effect(setup, host)
    } else if setup.stage == Stage::EnableSharing {
        HostState { sharing: outcome.left_shared, ..host }
    } else {
        host
    }
}

/// The stages that take something back.
pub open spec fn takes_back(stage: Stage) -> bool {
    stage == Stage::DisableSharing || stage == Stage::RestoreScopeAddress || stage
        == Stage::RestoreDhcpAddress || stage == Stage::RestoreForwarding
}

/// The stages that come after the settings of sharing were read.
pub open spec fn settings_known(stage: Stage) -> bool {
    stage == Stage::CheckSharing || stage == Stage::SetScopeAddress || stage
        == Stage::SetDhcpAddress || stage == Stage::EnableSharing || stage == Stage::PollAddress
        || stage == Stage::DisableSharing || stage == Stage::RestoreScopeAddress || stage
        == Stage::RestoreDhcpAddress || stage == Stage::AppliedSharing
}

/// A reply that tells the truth about the host, where a query asks for something
/// that the setup later takes back; and no command that takes something back
/// fails.
pub open spec fn truthful(setup: SetupView, host: HostState, reply: Result<Seq<char>, ErrorView>) -> bool {
    match setup.stage {
        Stage::QueryForwarding => reply is Ok ==> text::equal_ignoring_case(
            reply->Ok_0,
            "Enabled"@,
        ) == host.forwarding,
        Stage::ReadScopeAddress => setting_in(reply) == host.scope_address,
        Stage::ReadDhcpAddress => setting_in(reply) == host.dhcp_address,
        _ => takes_back(setup.stage) ==> reply is Ok,
    }
}

/// The host that a setup at this stage has made out of `start`.
pub open spec fn in_step(setup: SetupView, start: HostState, host: HostState) -> bool {
    let stage = setup.stage;
    let early = stage == Stage::DetectOutbound || stage == Stage::QueryForwarding;
    &&& !early && stage != Stage::Failed ==> setup.forwarding_was_enabled == start.forwarding
    &&& host.forwarding == (if early || stage == Stage::EnableForwarding || stage
        == Stage::Failed {
        start.forwarding
    } else {
        true
    })
    &&& stage == Stage::EnableForwarding ==> !setup.forwarding_was_enabled
    &&& stage == Stage::RestoreForwarding ==> !setup.forwarding_was_enabled
    &&& host.nat == (start.nat || stage == Stage::AppliedNat)
    &&& stage == Stage::DisableSharing || host.sharing == (stage == Stage::PollAddress || stage
        == Stage::AppliedSharing)
    &&& settings_known(stage) || stage == Stage::ReadDhcpAddress ==> setup.scope_address
        == start.scope_address
    &&& settings_known(stage) ==> setup.dhcp_address == start.dhcp_address
    &&& if stage == Stage::SetDhcpAddress || stage == Stage::EnableSharing || stage
        == Stage::PollAddress || stage == Stage::AppliedSharing {
        host.scope_address == Some(setup.server_ip)
    } else if stage == Stage::DisableSharing || stage == Stage::RestoreScopeAddress {
        true
    } else {
        host.scope_address == start.scope_address
    }
    &&& if stage == Stage::EnableSharing || stage == Stage::PollAddress || stage
        == Stage::AppliedSharing {
        host.dhcp_address == Some(setup.server_ip)
    } else if stage == Stage::DisableSharing || stage == Stage::RestoreScopeAddress || stage
        == Stage::RestoreDhcpAddress {
        true
    } else {
        host.dhcp_address == start.dhcp_address
    }
}

/// One step of a setup keeps it in step with the host: whatever fails, what was
/// changed is known and taken back in time.
pub proof fn law_setup_stays_in_step(
    setup: SetupView,
    start: HostState,
    host: HostState,
    outcome: Outcome,
)
    requires
        !start.sharing,
        in_step(setup, start, host),
        truthful(setup, host, outcome.reply),
    ensures
        in_step(setup.after(outcome.reply), start, outcome_effect(setup, host, outcome)),
{
}

/// The setup after a run of commands.
pub open spec fn after_run(setup: SetupView, outcomes: Seq<Outcome>) -> SetupView
    decreases outcomes.len(),
{
    if outcomes.len() == 0 {
        setup
    } else {
        after_run(setup, outcomes.drop_last()).after(outcomes.last().reply)
    }
}

/// The host after a run of commands.
pub open spec fn host_after_run(
    setup: SetupView,
    host: HostState,
    outcomes: Seq<Outcome>,
) -> HostState
    decreases outcomes.len(),
{
    if outcomes.len() == 0 {
        host
    } else {
        let front = outcomes.drop_last();
        outcome_effect(
            after_run(setup, front),
            host_after_run(setup, host, front),
            outcomes.last(),
        )
    }
}

/// Every reply of a run tells the truth.
pub open spec fn truthful_run(
    setup: SetupView,
    host: HostState,
    outcomes: Seq<Outcome>,
) -> bool {
    forall|k: int|
        0 <= k < outcomes.len() ==> truthful(
            after_run(setup, outcomes.take(k)),
            host_after_run(setup, host, outcomes.take(k)),
            (#[trigger] outcomes[k]).reply,
        )
}

proof fn lemma_run_stays_in_step(
    config: RoutingConfig,
    process_id: u32,
    start: HostState,
    outcomes: Seq<Outcome>,
)
    requires
        !start.sharing,
        truthful_run(setup_begun(config, process_id), start, outcomes),
    ensures
        in_step(
            after_run(setup_begun(config, process_id), outcomes),
            start,
            host_after_run(setup_begun(config, process_id), start, outcomes),
        ),
    decreases outcomes.len(),
{
    let begun = setup_begun(config, process_id);
    if outcomes.len() > 0 {
        let front = outcomes.drop_last();
        let last = outcomes.len() - 1;
        assert forall|k: int| 0 <= k < front.len() implies truthful(
            after_run(begun, front.take(k)),
            host_after_run(begun, start, front.take(k)),
            (#[trigger] front[k]).reply,
        ) by {
            assert(front.take(k) =~= outcomes.take(k));
            assert(front[k] == outcomes[k]);
        }
        lemma_run_stays_in_step(config, process_id, start, front);
        assert(outcomes.take(last) =~= front);
        assert(truthful(
            after_run(begun, outcomes.take(last)),
            host_after_run(begun, start, outcomes.take(last)),
            outcomes[last].reply,
        ));
        law_setup_stays_in_step(
            after_run(begun, front),
            start,
            host_after_run(begun, start, front),
            outcomes.last(),
        );
    }
}

/// A setup that fails leaves the host as it found it, whichever commands fail and
/// wherever the script that enables sharing fails, as long as
///
/// * the two interfaces were not shared before,
/// * both settings of sharing are read as they are (a read that fails counts as
///   one that finds no value), and so is forwarding,
/// * every other command that fails changes nothing, and
/// * the commands that take something back succeed.
pub proof fn law_failed_setup_changes_nothing(
    config: RoutingConfig,
    process_id: u32,
    start: HostState,
    outcomes: Seq<Outcome>,
)
    requires
        !start.sharing,
        truthful_run(setup_begun(config, process_id), start, outcomes),
        after_run(setup_begun(config, process_id), outcomes).stage == Stage::Failed,
    ensures
        host_after_run(setup_begun(config, process_id), start, outcomes) == start,
{
    lemma_run_stays_in_step(config, process_id, start, outcomes);
}

/// The cleanup commands of a setup do what they are for: each takes back one part,
/// and no other.
pub open spec fn cleanup_works(
    effect: spec_fn(HostState, Seq<char>) -> HostState,
    setup: SetupView,
) -> bool {
    &&& forall|h: HostState| #[trigger]
        effect(h, remove_nat(setup.nat_name)) == (HostState { nat: false, ..h })
    &&& forall|h: HostState| #[trigger]
        effect(h, disable_sharing(setup.outbound_interface, setup.tun_interface)) == (HostState {
            sharing: false,
            ..h
        })
    &&& forall|h: HostState| #[trigger]
        effect(h, restore_setting("ScopeAddress"@, setup.scope_address)) == (HostState {
            scope_address: setup.scope_address,
            ..h
        })
    &&& forall|h: HostState| #[trigger]
        effect(h, restore_setting("StandaloneDhcpAddress"@, setup.dhcp_address)) == (HostState {
            dhcp_address: setup.dhcp_address,
            ..h
        })
    &&& forall|h: HostState| #[trigger]
        effect(h, set_forwarding(setup.tun_interface, "Disabled"@, "Continue"@)) == (HostState {
            forwarding: false,
            ..h
        })
}

/// The host after some commands that all succeed.
pub open spec fn host_after_commands(
    effect: spec_fn(HostState, Seq<char>) -> HostState,
    host: HostState,
    commands: Seq<Seq<char>>,
) -> HostState
    decreases commands.len(),
{
    if commands.len() == 0 {
        host
    } else {
        effect(host_after_commands(effect, host, commands.drop_last()), commands.last())
    }
}

/// Cleaning up after a setup that was applied takes the host back to where it was
/// before, as long as the two interfaces were not shared and no NetNat object had
/// the setup's name before, forwarding and both settings of sharing were read as
/// they were, and the commands of the cleanup work.
pub proof fn law_cleanup_restores(
    effect: spec_fn(HostState, Seq<char>) -> HostState,
    config: RoutingConfig,
    process_id: u32,
    start: HostState,
    outcomes: Seq<Outcome>,
)
    requires
        !start.sharing,
        !start.nat,
        truthful_run(setup_begun(config, process_id), start, outcomes),
        cleanup_works(effect, after_run(setup_begun(config, process_id), outcomes)),
        ({
            let stage = after_run(setup_begun(config, process_id), outcomes).stage;
            stage == Stage::AppliedNat || stage == Stage::AppliedSharing
        }),
    ensures
        host_after_commands(
            effect,
            host_after_run(setup_begun(config, process_id), start, outcomes),
            after_run(setup_begun(config, process_id), outcomes).cleanup(),
        ) == start,
{
    lemma_run_stays_in_step(config, process_id, start, outcomes);
    reveal_with_fuel(host_after_commands, 5);
}

/// Adding routes can be undone on every host on which removing a route takes back
/// adding it.
pub proof fn law_routes_are_reversible<H>(
    effect: spec_fn(H, HostCommandView) -> H,
    start: H,
    plan: Seq<ClientRouteView>,
)
    requires
        forall|i: int|
            0 <= i < plan.len() ==> transaction::undoes(
                effect,
                powershell(add_route(#[trigger] plan[i])),
                powershell(remove_route(plan[i])),
            ),
    ensures
        transaction::reversible(effect, start, route_changes(plan)),
{
    let changes = route_changes(plan);
    assert forall|i: int| 0 <= i < changes.len() implies transaction::undoable(
        effect,
        #[trigger] changes[i],
    ) by {
        assert(changes[i] == route_change(plan[i]));
    }
    transaction::law_undoable_changes_are_reversible(effect, start, changes);
}

/// The way to the server is read from a reply of two parts around a bar: the next hop and
/// the device, each without the white space around it. No hop, and a hop of zeros, stand
/// for the device alone.
pub proof fn law_way_is_read_from_the_reply(
    ip: Seq<char>,
    hop: Seq<char>,
    device: Seq<char>,
)
    requires
        !hop.contains('|'),
        !device.contains('|'),
    ensures
        ({
            let read = route_in(ip, hop.push('|') + device);
            let gateway = text::trimmed(hop);
            &&& gateway.len() == 0 || gateway == "0.0.0.0"@ || gateway == "::"@ ==> read == Ok::<
                RouteViaView,
                ErrorView,
            >(RouteViaView::Device(text::trimmed(device)))
            &&& gateway.len() > 0 && gateway != "0.0.0.0"@ && gateway != "::"@ ==> read == Ok::<
                RouteViaView,
                ErrorView,
            >(RouteViaView::Gateway { gateway, device: text::trimmed(device) })
        }),
{
    text::law_split_at_separator(hop, '|', device);
    text::law_split_without_separator(hop, '|');
    text::law_split_without_separator(device, '|');
    assert(text::split(hop.push('|') + device, '|') =~= seq![hop, device]);
}

/// A reply without a bar, or with more than one, names no way; an empty one says that
/// there is none.
pub proof fn law_replies_that_name_no_way(ip: Seq<char>, reply: Seq<char>)
    ensures
        reply.len() == 0 ==> route_in(ip, reply) == Err::<RouteViaView, ErrorView>(
            ErrorView { kind: ErrorKind::NotFound, message: "No route found to "@ + ip },
        ),
        reply.len() > 0 && !reply.contains('|') ==> route_in(ip, reply) == Err::<
            RouteViaView,
            ErrorView,
        >(
            ErrorView {
                kind: ErrorKind::InvalidData,
                message: "Unexpected output from Find-NetRoute: "@ + reply,
            },
        ),
        forall|a: Seq<char>, b: Seq<char>, c: Seq<char>|
            reply == #[trigger] (a.push('|') + (b.push('|') + c)) ==> route_in(ip, reply) == Err::<
                RouteViaView,
                ErrorView,
            >(
                ErrorView {
                    kind: ErrorKind::InvalidData,
                    message: "Unexpected output from Find-NetRoute: "@ + reply,
                },
            ),
{
    if !reply.contains('|') {
        text::law_split_without_separator(reply, '|');
    }
    assert forall|a: Seq<char>, b: Seq<char>, c: Seq<char>|
        reply == #[trigger] (a.push('|') + (b.push('|') + c)) implies text::split(reply, '|').len()
        > 2 && reply.len() > 0 by {
        text::law_split_at_separator(a, '|', b.push('|') + c);
        text::law_split_at_separator(b, '|', c);
        lemma_some_piece(a);
        lemma_some_piece(b);
        lemma_some_piece(c);
    }
}

proof fn lemma_some_piece(s: Seq<char>)
    ensures
        text::split(s, '|').len() > 0,
{
}

/// A parameter of a PowerShell command with its quoted value.
pub open spec fn parameter(name: Seq<char>, value: Seq<char>) -> Seq<char> {
    " -"@ + name + " '"@ + value + "'"@
}

/// Adding a route names its destination, its gateway if it has one, and its device, and
/// holds until the host restarts; removing it names the same.
#[verifier::rlimit(40)]
pub proof fn law_route_commands(route: ClientRouteView)
    ensures
        ({
            let way = match route.via {
                RouteViaView::Device(device) => parameter("InterfaceAlias"@, device),
                RouteViaView::Gateway { gateway, device } => parameter("NextHop"@, gateway)
                    + parameter("InterfaceAlias"@, device),
            };
            let named = parameter("DestinationPrefix"@, route.destination) + way;
            &&& add_route(route) == "New-NetRoute"@ + named
                + " -PolicyStore ActiveStore -ErrorAction Stop"@
            &&& remove_route(route) == "Remove-NetRoute"@ + named
                + " -Confirm:$false -ErrorAction Continue"@
        }),
{
    reveal_strlit(" -");
    reveal_strlit(" '");
    reveal_strlit("'");
    reveal_strlit("InterfaceAlias");
    reveal_strlit("NextHop");
    reveal_strlit("DestinationPrefix");
    reveal_strlit("New-NetRoute");
    reveal_strlit("Remove-NetRoute");
    reveal_strlit("New-NetRoute -DestinationPrefix '");
    reveal_strlit("Remove-NetRoute -DestinationPrefix '");
    reveal_strlit("' -InterfaceAlias '");
    reveal_strlit("' -NextHop '");
    reveal_strlit("' -PolicyStore ActiveStore -ErrorAction Stop");
    reveal_strlit(" -PolicyStore ActiveStore -ErrorAction Stop");
    reveal_strlit("' -Confirm:$false -ErrorAction Continue");
    reveal_strlit(" -Confirm:$false -ErrorAction Continue");
    let way = match route.via {
        RouteViaView::Device(device) => parameter("InterfaceAlias"@, device),
        RouteViaView::Gateway { gateway, device } => parameter("NextHop"@, gateway) + parameter(
            "InterfaceAlias"@,
            device,
        ),
    };
    let named = parameter("DestinationPrefix"@, route.destination) + way;
    assert(add_route(route) =~= "New-NetRoute"@ + named
        + " -PolicyStore ActiveStore -ErrorAction Stop"@);
    assert(remove_route(route) =~= "Remove-NetRoute"@ + named
        + " -Confirm:$false -ErrorAction Continue"@);
}

/// Each route of a plan is added, in order, by its own command, and undone by removing
/// the same route.
pub proof fn law_routes_are_added_as_planned(plan: Seq<ClientRouteView>, i: int)
    requires
        0 <= i < plan.len(),
    ensures
        route_changes(plan).len() == plan.len(),
        route_changes(plan)[i].make == Some(
            HostCommandView::Run {
                program: "powershell"@,
                args: seq![
                    "-NoProfile"@,
                    "-NonInteractive"@,
                    "-Command"@,
                    add_route(plan[i]),
                ],
            },
        ),
        route_changes(plan)[i].undo == (HostCommandView::Run {
            program: "powershell"@,
            args: seq![
                "-NoProfile"@,
                "-NonInteractive"@,
                "-Command"@,
                remove_route(plan[i]),
            ],
        }),
{
}

/// The commands around forwarding and the NetNat object name the device, the object and
/// the network that they are about.
#[verifier::rlimit(40)]
pub proof fn law_gateway_commands(
    device: Seq<char>,
    state: Seq<char>,
    on_error: Seq<char>,
    name: Seq<char>,
    subnet: Seq<char>,
)
    ensures
        query_forwarding(device) == "Get-NetIPInterface"@ + parameter("InterfaceAlias"@, device)
            + " -ErrorAction Stop | Select-Object -ExpandProperty Forwarding"@,
        set_forwarding(device, state, on_error) == "Set-NetIPInterface"@ + parameter(
            "InterfaceAlias"@,
            device,
        ) + " -Forwarding "@ + state + " -ErrorAction "@ + on_error,
        get_nat(name) == "Get-NetNat"@ + parameter("Name"@, name)
            + " -ErrorAction SilentlyContinue"@,
        new_nat(name, subnet) == "New-NetNat"@ + parameter("Name"@, name) + parameter(
            "InternalIPInterfaceAddressPrefix"@,
            subnet,
        ) + " -ErrorAction Stop"@,
        remove_nat(name) == "Remove-NetNat"@ + parameter("Name"@, name)
            + " -Confirm:$false -ErrorAction Continue"@,
{
    reveal_strlit(" -");
    reveal_strlit(" '");
    reveal_strlit("'");
    reveal_strlit("Name");
    reveal_strlit("InterfaceAlias");
    reveal_strlit("InternalIPInterfaceAddressPrefix");
    assert(query_forwarding(device) =~= "Get-NetIPInterface"@ + parameter("InterfaceAlias"@, device)
        + " -ErrorAction Stop | Select-Object -ExpandProperty Forwarding"@) by {
        reveal_strlit("Get-NetIPInterface");
        reveal_strlit("Get-NetIPInterface -InterfaceAlias '");
        reveal_strlit(" -ErrorAction Stop | Select-Object -ExpandProperty Forwarding");
        reveal_strlit("' -ErrorAction Stop | Select-Object -ExpandProperty Forwarding");
    }
    assert(set_forwarding(device, state, on_error) =~= "Set-NetIPInterface"@ + parameter(
        "InterfaceAlias"@,
        device,
    ) + " -Forwarding "@ + state + " -ErrorAction "@ + on_error) by {
        reveal_strlit("Set-NetIPInterface");
        reveal_strlit("Set-NetIPInterface -InterfaceAlias '");
        reveal_strlit("' -Forwarding ");
        reveal_strlit(" -Forwarding ");
        reveal_strlit(" -ErrorAction ");
    }
    assert(get_nat(name) =~= "Get-NetNat"@ + parameter("Name"@, name)
        + " -ErrorAction SilentlyContinue"@) by {
        reveal_strlit("Get-NetNat");
        reveal_strlit("Get-NetNat -Name '");
        reveal_strlit("' -ErrorAction SilentlyContinue");
        reveal_strlit(" -ErrorAction SilentlyContinue");
    }
    assert(new_nat(name, subnet) =~= "New-NetNat"@ + parameter("Name"@, name) + parameter(
        "InternalIPInterfaceAddressPrefix"@,
        subnet,
    ) + " -ErrorAction Stop"@) by {
        reveal_strlit("New-NetNat");
        reveal_strlit("New-NetNat -Name '");
        reveal_strlit("' -InternalIPInterfaceAddressPrefix '");
        reveal_strlit("' -ErrorAction Stop");
        reveal_strlit(" -ErrorAction Stop");
    }
    assert(remove_nat(name) =~= "Remove-NetNat"@ + parameter("Name"@, name)
        + " -Confirm:$false -ErrorAction Continue"@) by {
        reveal_strlit("Remove-NetNat");
        reveal_strlit("Remove-NetNat -Name '");
        reveal_strlit("' -Confirm:$false -ErrorAction Continue");
        reveal_strlit(" -Confirm:$false -ErrorAction Continue");
    }
}

/// The commands around the settings of sharing all name the same place, the setting and,
/// where there is one, the value; restoring a setting writes its previous value, or
/// removes it.
#[verifier::rlimit(40)]
pub proof fn law_setting_commands(name: Seq<char>, value: Seq<char>, on_error: Seq<char>)
    ensures
        read_setting(name) == "Get-ItemPropertyValue"@ + parameter("Path"@, SHARED_ACCESS_PATH@)
            + parameter("Name"@, name) + " -ErrorAction SilentlyContinue"@,
        write_setting(name, value, on_error) == "Set-ItemProperty"@ + parameter(
            "Path"@,
            SHARED_ACCESS_PATH@,
        ) + parameter("Name"@, name) + parameter("Value"@, value) + " -ErrorAction "@ + on_error,
        restore_setting(name, Some(value)) == write_setting(name, value, "Continue"@),
        restore_setting(name, None) == "Remove-ItemProperty"@ + parameter(
            "Path"@,
            SHARED_ACCESS_PATH@,
        ) + parameter("Name"@, name) + " -ErrorAction SilentlyContinue"@,
{
    reveal_strlit(" -");
    reveal_strlit(" '");
    reveal_strlit("'");
    reveal_strlit("Name");
    reveal_strlit("Path");
    reveal_strlit("Value");
    reveal_strlit("' -Name '");
    assert(read_setting(name) =~= "Get-ItemPropertyValue"@ + parameter(
        "Path"@,
        SHARED_ACCESS_PATH@,
    ) + parameter("Name"@, name) + " -ErrorAction SilentlyContinue"@) by {
        reveal_strlit("Get-ItemPropertyValue");
        reveal_strlit("Get-ItemPropertyValue -Path '");
        reveal_strlit("' -ErrorAction SilentlyContinue");
        reveal_strlit(" -ErrorAction SilentlyContinue");
    }
    assert(write_setting(name, value, on_error) =~= "Set-ItemProperty"@ + parameter(
        "Path"@,
        SHARED_ACCESS_PATH@,
    ) + parameter("Name"@, name) + parameter("Value"@, value) + " -ErrorAction "@ + on_error) by {
        reveal_strlit("Set-ItemProperty");
        reveal_strlit("Set-ItemProperty -Path '");
        reveal_strlit("' -Value '");
        reveal_strlit("' -ErrorAction ");
        reveal_strlit(" -ErrorAction ");
    }
    assert(restore_setting(name, None) =~= "Remove-ItemProperty"@ + parameter(
        "Path"@,
        SHARED_ACCESS_PATH@,
    ) + parameter("Name"@, name) + " -ErrorAction SilentlyContinue"@) by {
        reveal_strlit("Remove-ItemProperty");
        reveal_strlit("Remove-ItemProperty -Path '");
        reveal_strlit("' -ErrorAction SilentlyContinue");
        reveal_strlit(" -ErrorAction SilentlyContinue");
    }
}

proof fn lemma_includes(front: Seq<char>, part: Seq<char>, back: Seq<char>)
    ensures
        text::includes(front + part + back, part),
{
    let whole = front + part + back;
    let i = front.len() as int;
    assert(whole.subrange(i, i + part.len()) =~= part);
}

/// The script that enables sharing takes the outbound interface for the public side and
/// the tunnel device for the private one.
#[verifier::rlimit(40)]
pub proof fn law_sharing_takes_the_right_sides(public: Seq<char>, private: Seq<char>)
    ensures
        text::includes(enable_sharing(public, private), public + "') { $pubConf = $conf }"@),
        text::includes(enable_sharing(public, private), private + "') { $privConf = $conf }"@),
        text::includes(check_sharing(public, private), public + "' -and $name -ne '"@ + private),
        text::includes(disable_sharing(public, private), public + "' -or $name -eq '"@ + private),
        text::includes(poll_address(private), "-InterfaceAlias '"@ + private + "' "@),
{
    reveal_strlit("') { $pubConf = $conf }");
    reveal_strlit("') { $privConf = $conf }");
    reveal_strlit("-InterfaceAlias '");
    reveal_strlit("' ");
    let pub_part = public + "') { $pubConf = $conf }"@;
    let priv_part = private + "') { $privConf = $conf }"@;
    assert(ENABLE_MIDDLE@.len() >= 23 && ENABLE_MIDDLE@.take(23) =~= "') { $pubConf = $conf }"@) by {
        reveal_strlit(
            r#"') { $pubConf = $conf }
    if ($name -eq '"#,
        );
    }
    let rest = ENABLE_MIDDLE@.skip(23) + private + ENABLE_TAIL@;
    assert(ENABLE_MIDDLE@ =~= ENABLE_MIDDLE@.take(23) + ENABLE_MIDDLE@.skip(23));
    assert(enable_sharing(public, private) =~= ENABLE_HEAD@ + pub_part + rest);
    lemma_includes(ENABLE_HEAD@, pub_part, rest);
    assert(ENABLE_TAIL@.len() >= 24 && ENABLE_TAIL@.take(24) =~= "') { $privConf = $conf }"@) by {
        reveal_strlit(
            r#"') { $privConf = $conf }
}
if ($null -eq $pubConf -or $null -eq $privConf) {
    throw "Required interfaces not found for ICS."
}
$pubConf.EnableSharing(0)
$privConf.EnableSharing(1)
"#,
        );
    }
    let front = ENABLE_HEAD@ + public + ENABLE_MIDDLE@;
    assert(ENABLE_TAIL@ =~= ENABLE_TAIL@.take(24) + ENABLE_TAIL@.skip(24));
    assert(enable_sharing(public, private) =~= front + priv_part + ENABLE_TAIL@.skip(24));
    lemma_includes(front, priv_part, ENABLE_TAIL@.skip(24));
    let both = public + "' -and $name -ne '"@ + private;
    assert(check_sharing(public, private) =~= CHECK_HEAD@ + both + CHECK_TAIL@);
    lemma_includes(CHECK_HEAD@, both, CHECK_TAIL@);
    let either = public + "' -or $name -eq '"@ + private;
    assert(disable_sharing(public, private) =~= DISABLE_HEAD@ + either + DISABLE_TAIL@);
    lemma_includes(DISABLE_HEAD@, either, DISABLE_TAIL@);
    let asked = "-InterfaceAlias '"@ + private + "' "@;
    let n = POLL_HEAD@.len() - 17;
    assert(n >= 0 && POLL_TAIL@.len() >= 2 && POLL_HEAD@.skip(n) =~= "-InterfaceAlias '"@ && POLL_TAIL@.take(2) =~= "' "@) by {
        reveal_strlit("for ($i=0; $i -lt 10; $i++) { $ip = Get-NetIPAddress -InterfaceAlias '");
        reveal_strlit(
            "' -AddressFamily IPv4 -ErrorAction SilentlyContinue | Select-Object -ExpandProperty IPAddress; if ($ip) { Write-Output $ip; exit }; Start-Sleep -Milliseconds 500 }; Write-Output 'NONE'",
        );
    }
    assert(POLL_HEAD@ =~= POLL_HEAD@.take(n) + POLL_HEAD@.skip(n));
    assert(POLL_TAIL@ =~= POLL_TAIL@.take(2) + POLL_TAIL@.skip(2));
    assert(poll_address(private) =~= POLL_HEAD@.take(n) + asked + POLL_TAIL@.skip(2));
    lemma_includes(POLL_HEAD@.take(n), asked, POLL_TAIL@.skip(2));
}

/// A gateway's setup begins with what is configured, and keeps it: only an outbound
/// interface that is not configured is taken from the host's reply.
pub proof fn law_setup_keeps_what_is_configured(
    config: RoutingConfig,
    process_id: u32,
    setup: SetupView,
    reply: Result<Seq<char>, ErrorView>,
)
    ensures
        ({
            let begun = setup_begun(config, process_id);
            let (a, b, c, d) = config.address_plan.server_address;
            &&& begun.vpn_subnet == config.vpn_subnet@
            &&& begun.tun_interface == config.tun_interface@
            &&& begun.server_ip == text::decimal_chars(a as nat) + "."@ + text::decimal_chars(
                b as nat,
            ) + "."@ + text::decimal_chars(c as nat) + "."@ + text::decimal_chars(d as nat)
            &&& begun.nat_name == "tiny-vpn-nat-"@ + text::decimal_chars(process_id as nat)
            &&& begun.failure is None
            &&& config.outbound_interface matches Some(interface) ==> begun.outbound_interface
                == interface@ && begun.stage == Stage::QueryForwarding
            &&& config.outbound_interface is None ==> begun.stage == Stage::DetectOutbound
        }),
        setup.after(reply).vpn_subnet == setup.vpn_subnet,
        setup.after(reply).tun_interface == setup.tun_interface,
        setup.after(reply).server_ip == setup.server_ip,
        setup.after(reply).nat_name == setup.nat_name,
        setup.stage != Stage::DetectOutbound ==> setup.after(reply).outbound_interface
            == setup.outbound_interface,
        setup.stage == Stage::DetectOutbound ==> {
            &&& reply matches Ok(interface) ==> interface.len() > 0 ==> setup.after(
                reply,
            ).outbound_interface == interface && setup.after(reply).stage == Stage::QueryForwarding
            &&& reply matches Ok(interface) ==> interface.len() == 0 ==> setup.after(reply).stage
                == Stage::Failed
            &&& reply is Err ==> setup.after(reply).stage == Stage::Failed
        },
{
}

/// When a gateway is applied: with a NetNat object once the host has created it, and with
/// sharing once the tunnel device has the server's address. Sharing is turned to only if
/// the host has no NetNat class.
pub proof fn law_when_a_gateway_is_applied(setup: SetupView, reply: Result<Seq<char>, ErrorView>)
    ensures
        setup.after(reply).stage == Stage::AppliedNat <==> setup.stage == Stage::AppliedNat || (
        setup.stage == Stage::CreateNat && reply is Ok),
        setup.after(reply).stage == Stage::AppliedSharing <==> setup.stage == Stage::AppliedSharing
            || (setup.stage == Stage::PollAddress && reply is Ok && reply->Ok_0.len() > 0
            && !text::includes(reply->Ok_0, "NONE"@) && text::trimmed(reply->Ok_0)
            == setup.server_ip),
        setup.after(reply).stage == Stage::ReadScopeAddress <==> setup.stage == Stage::CreateNat
            && reply is Err && text::includes(reply->Err_0.message, "Invalid class"@)
            && text::includes(reply->Err_0.message, "MSFT_NetNat"@),
        setup.after(reply).stage == Stage::CreateNat <==> setup.stage == Stage::CheckNat && (
        reply is Err || text::trimmed(reply->Ok_0).len() == 0),
        setup.after(reply).stage == Stage::CheckNat <==> (setup.stage == Stage::QueryForwarding
            && reply is Ok && text::equal_ignoring_case(reply->Ok_0, "Enabled"@)) || (setup.stage
            == Stage::EnableForwarding && reply is Ok),
        setup.after(reply).stage == Stage::SetScopeAddress <==> setup.stage == Stage::CheckSharing
            && reply is Ok && !text::includes(reply->Ok_0, "ALREADY_SHARED"@),
{
}

/// The failure of a gateway is the first one, and it says what failed: it stays as it is
/// while what was done is taken back.
pub proof fn law_failure_of_a_gateway(
    setup: SetupView,
    e: ErrorView,
    reply: Result<Seq<char>, ErrorView>,
)
    ensures
        setup.stage == Stage::DisableSharing || setup.stage == Stage::RestoreScopeAddress
            || setup.stage == Stage::RestoreDhcpAddress || setup.stage == Stage::RestoreForwarding
            || setup.stage == Stage::Failed ==> setup.after(reply).failure == setup.failure,
        setup.stage == Stage::DetectOutbound || setup.stage == Stage::QueryForwarding ==> setup.after(
            Err(e),
        ).failure == Some(e) && setup.after(Err(e)).stage == Stage::Failed,
        setup.stage == Stage::EnableForwarding ==> setup.after(Err(e)).failure == Some(
            ErrorView {
                kind: ErrorKind::Other,
                message: "Failed to enable IP forwarding on "@ + setup.tun_interface + ": "@
                    + e.message,
            },
        ) && setup.after(Err(e)).stage == Stage::Failed,
        setup.stage == Stage::CheckNat ==> (reply matches Ok(found) ==> text::trimmed(found).len()
            > 0 ==> setup.after(reply).failure == Some(
            ErrorView {
                kind: ErrorKind::AlreadyExists,
                message: "NAT object '"@ + setup.nat_name + "' already exists"@,
            },
        )),
        setup.stage == Stage::SetScopeAddress || setup.stage == Stage::SetDhcpAddress || setup.stage
            == Stage::EnableSharing || setup.stage == Stage::PollAddress || setup.stage
            == Stage::CheckSharing ==> setup.after(Err(e)).failure == Some(
            ErrorView {
                kind: ErrorKind::Other,
                message: "Failed to configure NAT backend: "@ + e.message,
            },
        ),
        setup.stage == Stage::EnableSharing || setup.stage == Stage::PollAddress ==> setup.after(
            Err(e),
        ).stage == Stage::DisableSharing,
        setup.stage == Stage::CheckSharing || setup.stage == Stage::SetScopeAddress || setup.stage
            == Stage::SetDhcpAddress ==> setup.after(Err(e)).stage == Stage::RestoreScopeAddress,
        setup.stage == Stage::DisableSharing ==> setup.after(reply).stage
            == Stage::RestoreScopeAddress,
        setup.stage == Stage::RestoreScopeAddress ==> setup.after(reply).stage
            == Stage::RestoreDhcpAddress,
        setup.stage == Stage::RestoreDhcpAddress ==> setup.after(reply).stage == (
        if setup.forwarding_was_enabled {
            Stage::Failed
        } else {
            Stage::RestoreForwarding
        }),
        setup.stage == Stage::RestoreForwarding ==> setup.after(reply).stage == Stage::Failed,
{
}

/// What PowerShell replies is its output without the white space around it; a run that
/// fails is told from one that could not be made.
pub proof fn law_powershell_replies(output: Result<CommandOutput, Error>)
    ensures
        output matches Ok(out) ==> out.success ==> powershell_reply(output) == Ok::<
            Seq<char>,
            ErrorView,
        >(text::trimmed(out.stdout@)),
        output matches Ok(out) ==> !out.success ==> powershell_reply(output) is Err
            && powershell_reply(output)->Err_0.kind == ErrorKind::Other,
        output matches Err(e) ==> powershell_reply(output) == Err::<Seq<char>, ErrorView>(
            ErrorView {
                kind: e.kind,
                message: "failed to launch powershell: "@ + e.message@,
            },
        ),
{
}

/// The failure to add a route names the route; nothing else of an outcome is changed.
pub proof fn law_failed_route_is_named(
    progress: transaction::ProgressView,
    plan: Seq<ClientRouteView>,
    outcome: Result<(), ErrorView>,
)
    ensures
        outcome is Ok ==> named_outcome(progress, plan, outcome) == outcome,
        !(progress is Making) ==> named_outcome(progress, plan, outcome) == outcome,
        progress matches transaction::ProgressView::Making(i) ==> (outcome matches Err(e) ==> i
            < plan.len() ==> named_outcome(progress, plan, outcome) == Err::<(), ErrorView>(
            ErrorView {
                kind: ErrorKind::Other,
                message: "Failed to add route "@ + plan[i as int].destination + ": "@ + e.message,
            },
        )),
{
}

/// What is run at each stage of a gateway's setup: each command is about the device, the
/// interface, the network and the settings that the setup holds.
pub proof fn law_commands_of_the_stages(setup: SetupView)
    ensures
        ({
            let command = setup.command();
            let scope = "ScopeAddress"@;
            let dhcp = "StandaloneDhcpAddress"@;
            let device = setup.tun_interface;
            let outbound = setup.outbound_interface;
            match setup.stage {
                Stage::DetectOutbound => command == Some(DETECT_OUTBOUND@),
                Stage::QueryForwarding => command == Some(query_forwarding(device)),
                Stage::EnableForwarding => command == Some(
                    set_forwarding(device, "Enabled"@, "Stop"@),
                ),
                Stage::CheckNat => command == Some(get_nat(setup.nat_name)),
                Stage::CreateNat => command == Some(new_nat(setup.nat_name, setup.vpn_subnet)),
                Stage::ReadScopeAddress => command == Some(read_setting(scope)),
                Stage::ReadDhcpAddress => command == Some(read_setting(dhcp)),
                Stage::CheckSharing => command == Some(check_sharing(outbound, device)),
                Stage::SetScopeAddress => command == Some(
                    write_setting(scope, setup.server_ip, "Stop"@),
                ),
                Stage::SetDhcpAddress => command == Some(
                    write_setting(dhcp, setup.server_ip, "Stop"@),
                ),
                Stage::EnableSharing => command == Some(enable_sharing(outbound, device)),
                Stage::PollAddress => command == Some(poll_address(device)),
                Stage::DisableSharing => command == Some(disable_sharing(outbound, device)),
                Stage::RestoreScopeAddress => command == Some(
                    restore_setting(scope, setup.scope_address),
                ),
                Stage::RestoreDhcpAddress => command == Some(
                    restore_setting(dhcp, setup.dhcp_address),
                ),
                Stage::RestoreForwarding => command == Some(
                    set_forwarding(device, "Disabled"@, "SilentlyContinue"@),
                ),
                Stage::AppliedNat | Stage::AppliedSharing | Stage::Failed => command is None,
            }
        }),
{
}

/// What cleaning up runs: it removes the NetNat object, or ends sharing and restores both
/// settings, and then switches forwarding off unless it was on before. A setup that was
/// not applied has nothing to clean up.
pub proof fn law_cleanup_commands(setup: SetupView)
    ensures
        ({
            let commands = setup.cleanup();
            let translation: int = if setup.stage == Stage::AppliedNat {
                1
            } else if setup.stage == Stage::AppliedSharing {
                3
            } else {
                0
            };
            let applied = setup.stage == Stage::AppliedNat || setup.stage == Stage::AppliedSharing;
            &&& commands.len() == (if applied && !setup.forwarding_was_enabled {
                translation + 1
            } else {
                translation
            })
            &&& setup.stage == Stage::AppliedNat ==> commands[0] == remove_nat(setup.nat_name)
            &&& setup.stage == Stage::AppliedSharing ==> commands[0] == disable_sharing(
                setup.outbound_interface,
                setup.tun_interface,
            ) && commands[1] == restore_setting("ScopeAddress"@, setup.scope_address) && commands[2]
                == restore_setting("StandaloneDhcpAddress"@, setup.dhcp_address)
            &&& applied && !setup.forwarding_was_enabled ==> commands.last() == set_forwarding(
                setup.tun_interface,
                "Disabled"@,
                "Continue"@,
            )
        }),
{
}

/// What the setup remembers of the host: whether forwarding was on, and the value of each
/// setting if it had one. It forgets none of it later.
pub proof fn law_setup_remembers_the_host(setup: SetupView, reply: Result<Seq<char>, ErrorView>)
    ensures
        ({
            let next = setup.after(reply);
            let value = if reply is Ok && reply->Ok_0.len() > 0 {
                Some(reply->Ok_0)
            } else {
                None
            };
            &&& setup.stage == Stage::QueryForwarding && reply is Ok ==> (
            next.forwarding_was_enabled <==> text::equal_ignoring_case(reply->Ok_0, "Enabled"@))
            &&& setup.stage != Stage::QueryForwarding ==> next.forwarding_was_enabled
                == setup.forwarding_was_enabled
            &&& setup.stage == Stage::ReadScopeAddress ==> next.scope_address == value && next.stage
                == Stage::ReadDhcpAddress
            &&& setup.stage != Stage::ReadScopeAddress ==> next.scope_address == setup.scope_address
            &&& setup.stage == Stage::ReadDhcpAddress ==> next.dhcp_address == value && next.stage
                == Stage::CheckSharing
            &&& setup.stage != Stage::ReadDhcpAddress ==> next.dhcp_address == setup.dhcp_address
        }),
{
}

/// Sharing that is in use elsewhere, and an address that is missing or another than the
/// server's, are failures that say so.
pub proof fn law_failures_of_sharing(setup: SetupView, reply: Seq<char>)
    ensures
        setup.stage == Stage::CheckSharing && text::includes(reply, "ALREADY_SHARED"@)
            ==> setup.after(Ok(reply)).failure == Some(
            ErrorView {
                kind: ErrorKind::Other,
                message: "Failed to configure NAT backend: "@ + (
                "Another interface is already natively shared: "@ + reply),
            },
        ) && setup.after(Ok(reply)).stage == Stage::RestoreScopeAddress,
        setup.stage == Stage::PollAddress && (reply.len() == 0 || text::includes(reply, "NONE"@))
            ==> setup.after(Ok(reply)).failure == Some(
            ErrorView {
                kind: ErrorKind::Other,
                message: "Failed to configure NAT backend: "@
                    + "Outcome C: ICS left the interface without an IPv4 address."@,
            },
        ) && setup.after(Ok(reply)).stage == Stage::DisableSharing,
        setup.stage == Stage::PollAddress && reply.len() > 0 && !text::includes(reply, "NONE"@)
            && text::trimmed(reply) != setup.server_ip ==> setup.after(Ok(reply)).failure == Some(
            ErrorView {
                kind: ErrorKind::Other,
                message: "Failed to configure NAT backend: "@ + (
                "Outcome B/C: ICS assigned unexpected IP "@ + text::trimmed(reply)
                    + " to the private interface. We expected "@ + setup.server_ip
                    + ", this is likely a topology mismatch. Try setting `topology = \"windows-ics\"` in your `[tunnel]` config section."@),
            },
        ) && setup.after(Ok(reply)).stage == Stage::DisableSharing,
{
}

/// The queries that find the outbound interface and the way to the server: the route to
/// everywhere with the smallest metric, and the route to that address.
pub proof fn law_route_queries(ip: Seq<char>)
    ensures
        DETECT_OUTBOUND@ == "Get-NetRoute"@ + parameter("DestinationPrefix"@, "0.0.0.0/0"@)
            + " -ErrorAction Stop | Sort-Object RouteMetric | Select-Object -First 1 -ExpandProperty InterfaceAlias"@,
        find_route(ip) == "Find-NetRoute"@ + parameter("RemoteIPAddress"@, ip)
            + " -ErrorAction Stop | Select-Object -First 1 | ForEach-Object { $_.NextHop + '|' + $_.InterfaceAlias }"@,
{
    reveal_strlit(" -");
    reveal_strlit(" '");
    reveal_strlit("'");
    assert(DETECT_OUTBOUND@ =~= "Get-NetRoute"@ + parameter("DestinationPrefix"@, "0.0.0.0/0"@)
        + " -ErrorAction Stop | Sort-Object RouteMetric | Select-Object -First 1 -ExpandProperty InterfaceAlias"@) by {
        reveal_strlit("Get-NetRoute");
        reveal_strlit("DestinationPrefix");
        reveal_strlit("0.0.0.0/0");
        reveal_strlit(
            "Get-NetRoute -DestinationPrefix '0.0.0.0/0' -ErrorAction Stop | Sort-Object RouteMetric | Select-Object -First 1 -ExpandProperty InterfaceAlias",
        );
        reveal_strlit(
            " -ErrorAction Stop | Sort-Object RouteMetric | Select-Object -First 1 -ExpandProperty InterfaceAlias",
        );
    }
    assert(find_route(ip) =~= "Find-NetRoute"@ + parameter("RemoteIPAddress"@, ip)
        + " -ErrorAction Stop | Select-Object -First 1 | ForEach-Object { $_.NextHop + '|' + $_.InterfaceAlias }"@) by {
        reveal_strlit("Find-NetRoute");
        reveal_strlit("RemoteIPAddress");
        reveal_strlit("Find-NetRoute -RemoteIPAddress '");
        reveal_strlit(
            "' -ErrorAction Stop | Select-Object -First 1 | ForEach-Object { $_.NextHop + '|' + $_.InterfaceAlias }",
        );
        reveal_strlit(
            " -ErrorAction Stop | Select-Object -First 1 | ForEach-Object { $_.NextHop + '|' + $_.InterfaceAlias }",
        );
    }
}

/// A NetNat object that is there already, or that cannot be created, ends the setup:
/// forwarding is taken back first, unless it was on before.
pub proof fn law_failures_of_the_nat_object(setup: SetupView, e: ErrorView, found: Seq<char>)
    ensures
        ({
            let next = if setup.forwarding_was_enabled {
                Stage::Failed
            } else {
                Stage::RestoreForwarding
            };
            &&& setup.stage == Stage::CheckNat && text::trimmed(found).len() > 0 ==> setup.after(
                Ok(found),
            ).stage == next
            &&& setup.stage == Stage::CreateNat && !(text::includes(e.message, "Invalid class"@)
                && text::includes(e.message, "MSFT_NetNat"@)) ==> setup.after(Err(e)).stage == next
                && setup.after(Err(e)).failure == Some(
                ErrorView {
                    kind: ErrorKind::Other,
                    message: "Failed to configure NAT backend: "@ + e.message,
                },
            )
        }),
{
}

} // verus!
