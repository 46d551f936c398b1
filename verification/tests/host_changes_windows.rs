use tinyvpn::config::Topology;
use tinyvpn::error::{Error, ErrorKind};
use tinyvpn::routing::transaction::{CommandOutput, HostCommand, Transaction};
use tinyvpn::routing::windows::{
    format_quad, powershell_outcome, report_route, run_powershell, ServerSetup, Stage,
    DETECT_OUTBOUND,
};
use tinyvpn::routing::{
    self, ClientRoute, ClientRoutingPlan, GatewaySetup, HostFacts, Platform, RouteVia,
    RoutingConfig, RoutingGuard,
};
use tinyvpn::tun::TunnelAddressPlan;

fn begin(outbound_interface: Option<&str>) -> ServerSetup {
    let config = RoutingConfig {
        vpn_subnet: "192.168.137.0/24".to_string(),
        tun_interface: "tun0".to_string(),
        outbound_interface: outbound_interface.map(str::to_string),
        address_plan: TunnelAddressPlan::from_topology(&Topology::WindowsIcs),
    };
    let facts = HostFacts {
        default_route: Ok(String::new()),
        ip_forward: Ok(String::new()),
        process_id: 42,
    };
    match routing::apply(Platform::Windows, &config, facts) {
        Ok(GatewaySetup::Windows(setup)) => setup,
        other => panic!("expected a setup, got {other:?}"),
    }
}

fn reply(text: &str) -> Result<String, Error> {
    Ok(text.to_string())
}

fn failure(text: &str) -> Result<String, Error> {
    Err(Error::new(ErrorKind::PermissionDenied, text))
}

/// Steps through a setup: each pending command must start as given.
fn steps(setup: &mut ServerSetup, script: &[(&str, Result<String, Error>)]) {
    for (start, reply) in script {
        let command = setup.command().unwrap();
        assert!(command.trim_start().starts_with(start), "{command}");
        setup.report(reply.clone());
    }
}

fn powershell(command: &str) -> HostCommand {
    HostCommand::Run {
        program: "powershell".to_string(),
        args: ["-NoProfile", "-NonInteractive", "-Command", command]
            .iter()
            .map(|s| s.to_string())
            .collect(),
    }
}

const ENABLE: &str = "Set-NetIPInterface -InterfaceAlias 'tun0' -Forwarding Enabled -ErrorAction Stop";
const DISABLE: &str =
    "Set-NetIPInterface -InterfaceAlias 'tun0' -Forwarding Disabled -ErrorAction SilentlyContinue";
const NO_CLASS: &str = "New-NetNat : Invalid class MSFT_NetNat";

#[test]
fn windows_gateway_with_a_nat_object() {
    let mut setup = begin(None);
    steps(
        &mut setup,
        &[
            (DETECT_OUTBOUND, reply("Ethernet")),
            (
                "Get-NetIPInterface -InterfaceAlias 'tun0' -ErrorAction Stop | Select-Object -ExpandProperty Forwarding",
                reply("Disabled"),
            ),
            (ENABLE, reply("")),
            ("Get-NetNat -Name 'tiny-vpn-nat-42' -ErrorAction SilentlyContinue", reply("")),
            (
                "New-NetNat -Name 'tiny-vpn-nat-42' -InternalIPInterfaceAddressPrefix '192.168.137.0/24' -ErrorAction Stop",
                reply("Name : x"),
            ),
        ],
    );
    assert_eq!(setup.command(), None);
    assert_eq!(setup.stage(), Stage::AppliedNat);
    assert_eq!(setup.failure(), None);
    let guard = RoutingGuard::new(GatewaySetup::Windows(setup)).unwrap();
    assert_eq!(
        guard.cleanup(),
        vec![
            powershell(
                "Remove-NetNat -Name 'tiny-vpn-nat-42' -Confirm:$false -ErrorAction Continue"
            ),
            powershell(
                "Set-NetIPInterface -InterfaceAlias 'tun0' -Forwarding Disabled -ErrorAction Continue"
            ),
        ]
    );
}

#[test]
fn windows_forwarding_that_was_on_stays_on() {
    let mut setup = begin(Some("Ethernet"));
    steps(
        &mut setup,
        &[
            ("Get-NetIPInterface", reply("eNABLED")),
            ("Get-NetNat", failure("no such class")),
            ("New-NetNat", reply("")),
        ],
    );
    assert_eq!(setup.stage(), Stage::AppliedNat);
    assert_eq!(setup.cleanup().len(), 1);
}

/// A setup that has fallen back on sharing, up to the check for other shares.
fn sharing(scope: Result<String, Error>) -> ServerSetup {
    let mut setup = begin(Some("Ethernet"));
    steps(
        &mut setup,
        &[
            ("Get-NetIPInterface", reply("Disabled")),
            (ENABLE, reply("")),
            ("Get-NetNat", reply("")),
            ("New-NetNat", failure(NO_CLASS)),
            (
                "Get-ItemPropertyValue -Path 'HKLM:\\System\\CurrentControlSet\\Services\\SharedAccess\\Parameters' -Name 'ScopeAddress' -ErrorAction SilentlyContinue",
                scope,
            ),
            (
                "Get-ItemPropertyValue -Path 'HKLM:\\System\\CurrentControlSet\\Services\\SharedAccess\\Parameters' -Name 'StandaloneDhcpAddress' -ErrorAction SilentlyContinue",
                reply(""),
            ),
        ],
    );
    setup
}

const SHARES: [(&str, &str); 4] = [
    ("$netShare = New-Object -ComObject HNetCfg.HNetShare", ""),
    (
        "Set-ItemProperty -Path 'HKLM:\\System\\CurrentControlSet\\Services\\SharedAccess\\Parameters' -Name 'ScopeAddress' -Value '192.168.137.1' -ErrorAction Stop",
        "",
    ),
    (
        "Set-ItemProperty -Path 'HKLM:\\System\\CurrentControlSet\\Services\\SharedAccess\\Parameters' -Name 'StandaloneDhcpAddress' -Value '192.168.137.1' -ErrorAction Stop",
        "",
    ),
    ("$ErrorActionPreference = 'Stop'", ""),
];

fn shared(scope: Result<String, Error>) -> ServerSetup {
    let mut setup = sharing(scope);
    for (start, text) in SHARES {
        steps(&mut setup, &[(start, reply(text))]);
    }
    assert_eq!(setup.stage(), Stage::PollAddress);
    setup
}

const RESTORE: [&str; 3] = [
    "Set-ItemProperty -Path 'HKLM:\\System\\CurrentControlSet\\Services\\SharedAccess\\Parameters' -Name 'ScopeAddress' -Value '10.0.0.1' -ErrorAction Continue",
    "Remove-ItemProperty -Path 'HKLM:\\System\\CurrentControlSet\\Services\\SharedAccess\\Parameters' -Name 'StandaloneDhcpAddress' -ErrorAction SilentlyContinue",
    DISABLE,
];

#[test]
fn windows_gateway_with_connection_sharing() {
    let mut setup = shared(reply("10.0.0.1"));
    let poll = setup.command().unwrap();
    assert!(poll.starts_with("for ($i=0; $i -lt 10; $i++) { $ip = Get-NetIPAddress -InterfaceAlias 'tun0' -AddressFamily IPv4"));
    setup.report(reply(" 192.168.137.1 "));
    assert_eq!(setup.stage(), Stage::AppliedSharing);
    let commands = setup.cleanup();
    assert_eq!(commands.len(), 4);
    assert!(commands[0].contains("if ($name -eq 'Ethernet' -or $name -eq 'tun0') {"));
    assert!(commands[0].contains(".DisableSharing()"));
    assert_eq!(commands[1], RESTORE[0]);
    assert_eq!(commands[2], RESTORE[1]);
    assert!(commands[3].ends_with("-Forwarding Disabled -ErrorAction Continue"));
}

#[test]
fn sharing_scripts_name_the_interfaces() {
    let mut setup = sharing(reply(""));
    let check = setup.command().unwrap();
    assert!(check.contains("if ($name -ne 'Ethernet' -and $name -ne 'tun0') {"));
    assert!(check.contains("Write-Output \"ALREADY_SHARED_$name\""));
    for _ in 0..3 {
        setup.report(reply(""));
    }
    let enable = setup.command().unwrap();
    assert!(enable.contains("if ($name -eq 'Ethernet') { $pubConf = $conf }"));
    assert!(enable.contains("if ($name -eq 'tun0') { $privConf = $conf }"));
    assert!(enable.contains("$pubConf.EnableSharing(0)\n$privConf.EnableSharing(1)\n"));
}

#[test]
fn sharing_that_fails_is_taken_back() {
    for (reported, message) in [
        (
            reply("NONE"),
            "Failed to configure NAT backend: Outcome C: ICS left the interface without an IPv4 address.",
        ),
        (
            reply(""),
            "Failed to configure NAT backend: Outcome C: ICS left the interface without an IPv4 address.",
        ),
        (
            reply("10.9.9.9"),
            "Failed to configure NAT backend: Outcome B/C: ICS assigned unexpected IP 10.9.9.9 to the private interface. We expected 192.168.137.1, this is likely a topology mismatch. Try setting `topology = \"windows-ics\"` in your `[tunnel]` config section.",
        ),
        (failure("gone"), "Failed to configure NAT backend: gone"),
    ] {
        let mut setup = shared(reply("10.0.0.1"));
        steps(&mut setup, &[("for ($i=0;", reported)]);
        assert_eq!(setup.failure(), None);
        steps(
            &mut setup,
            &[
                (
                    "$netShare = New-Object -ComObject HNetCfg.HNetShare -ErrorAction SilentlyContinue",
                    failure("passed over"),
                ),
                (RESTORE[0], reply("")),
                (RESTORE[1], reply("")),
                (RESTORE[2], reply("")),
            ],
        );
        assert_eq!(setup.failure(), Some(Error::new(ErrorKind::Other, message)));
        assert_eq!(setup.cleanup().len(), 0);
        assert!(RoutingGuard::new(GatewaySetup::Windows(setup)).is_none());
    }
}

#[test]
fn sharing_that_was_not_enabled_is_not_disabled() {
    for done in 0..3 {
        let mut setup = sharing(failure("unreadable"));
        for (start, text) in SHARES.iter().take(done) {
            steps(&mut setup, &[(start, reply(text))]);
        }
        setup.report(failure("denied"));
        assert!(setup.command().unwrap().starts_with("Remove-ItemProperty"));
        for _ in 0..3 {
            setup.report(reply(""));
        }
        assert_eq!(
            setup.failure().unwrap().message,
            "Failed to configure NAT backend: denied"
        );
    }
}

#[test]
fn script_that_fails_to_enable_sharing_is_taken_back() {
    let mut setup = sharing(reply("10.0.0.1"));
    for (start, text) in SHARES.iter().take(3) {
        steps(&mut setup, &[(start, reply(text))]);
    }
    setup.report(failure("denied"));
    assert_eq!(setup.failure(), None);
    steps(
        &mut setup,
        &[
            (
                "$netShare = New-Object -ComObject HNetCfg.HNetShare -ErrorAction SilentlyContinue",
                reply(""),
            ),
            (RESTORE[0], reply("")),
            (RESTORE[1], reply("")),
            (RESTORE[2], reply("")),
        ],
    );
    assert_eq!(
        setup.failure(),
        Some(Error::new(ErrorKind::Other, "Failed to configure NAT backend: denied"))
    );
    assert_eq!(setup.command(), None);
    assert_eq!(setup.cleanup().len(), 0);
}

#[test]
fn other_shares_are_respected() {
    let mut setup = sharing(reply(""));
    setup.report(reply("ALREADY_SHARED_Wi-Fi"));
    for _ in 0..3 {
        assert!(setup.command().is_some());
        setup.report(reply(""));
    }
    assert_eq!(
        setup.failure().unwrap().message,
        "Failed to configure NAT backend: Another interface is already natively shared: ALREADY_SHARED_Wi-Fi"
    );
}

#[test]
fn windows_gateway_fails_early() {
    let mut setup = begin(None);
    setup.report(failure("no route"));
    assert_eq!(setup.failure(), Some(Error::new(ErrorKind::PermissionDenied, "no route")));

    let mut setup = begin(None);
    setup.report(reply(""));
    assert_eq!(
        setup.failure(),
        Some(Error::new(ErrorKind::NotFound, "Could not find default outbound interface"))
    );

    let mut setup = begin(Some("Ethernet"));
    setup.report(failure("no device"));
    assert_eq!(setup.failure(), Some(Error::new(ErrorKind::PermissionDenied, "no device")));

    let mut setup = begin(Some("Ethernet"));
    setup.report(reply("Disabled"));
    setup.report(failure("denied"));
    assert_eq!(
        setup.failure(),
        Some(Error::new(ErrorKind::Other, "Failed to enable IP forwarding on tun0: denied"))
    );
}

#[test]
fn windows_forwarding_is_taken_back() {
    let mut setup = begin(Some("Ethernet"));
    steps(
        &mut setup,
        &[
            ("Get-NetIPInterface", reply("Disabled")),
            (ENABLE, reply("")),
            ("Get-NetNat", reply("tiny-vpn-nat-42")),
            (DISABLE, reply("")),
        ],
    );
    assert_eq!(
        setup.failure(),
        Some(Error::new(
            ErrorKind::AlreadyExists,
            "NAT object 'tiny-vpn-nat-42' already exists"
        ))
    );

    let mut setup = begin(Some("Ethernet"));
    steps(
        &mut setup,
        &[
            ("Get-NetIPInterface", reply("Enabled")),
            ("Get-NetNat", reply("")),
            ("New-NetNat", failure("Invalid class")),
        ],
    );
    assert_eq!(
        setup.failure(),
        Some(Error::new(ErrorKind::Other, "Failed to configure NAT backend: Invalid class"))
    );
}

#[test]
fn powershell_has_an_outcome() {
    let output = |success| CommandOutput {
        success,
        status: "exit code: 1".to_string(),
        stdout: " out \n".to_string(),
        stderr: " err \n".to_string(),
    };
    assert_eq!(powershell_outcome(Ok(output(true))), Ok("out".to_string()));
    assert_eq!(
        powershell_outcome(Ok(output(false))),
        Err(Error::new(
            ErrorKind::Other,
            "powershell command failed (status exit code: 1). Requires Administrator privileges? stderr: err, stdout: out"
        ))
    );
    assert_eq!(
        powershell_outcome(Err(Error::new(ErrorKind::NotFound, "gone"))),
        Err(Error::new(ErrorKind::NotFound, "failed to launch powershell: gone"))
    );
    assert_eq!(run_powershell("x"), powershell("x"));
    assert_eq!(format_quad((192, 168, 137, 1)), "192.168.137.1");
}

#[test]
fn windows_routes_are_read() {
    let ask = |output: &str| {
        routing::current_route_to(Platform::Windows, "203.0.113.10", Ok(output.to_string()))
    };
    assert_eq!(
        ask("192.0.2.1 | Ethernet "),
        Ok(RouteVia::Gateway { gateway: "192.0.2.1".into(), device: "Ethernet".into() })
    );
    for direct in ["0.0.0.0|Wi-Fi", "::|Wi-Fi", "|Wi-Fi", " |Wi-Fi"] {
        assert_eq!(ask(direct), Ok(RouteVia::Device("Wi-Fi".into())));
    }
    assert_eq!(
        ask(""),
        Err(Error::new(ErrorKind::NotFound, "No route found to 203.0.113.10"))
    );
    assert_eq!(
        ask("a|b|c"),
        Err(Error::new(
            ErrorKind::InvalidData,
            "Unexpected output from Find-NetRoute: a|b|c"
        ))
    );
    assert_eq!(
        routing::route_query(Platform::Windows, "203.0.113.10"),
        Some(powershell(
            "Find-NetRoute -RemoteIPAddress '203.0.113.10' -ErrorAction Stop | Select-Object -First 1 | ForEach-Object { $_.NextHop + '|' + $_.InterfaceAlias }"
        ))
    );
}

fn plan() -> ClientRoutingPlan {
    ClientRoutingPlan {
        routes: vec![
            ClientRoute {
                destination: "203.0.113.10/32".to_string(),
                via: RouteVia::Gateway {
                    gateway: "192.0.2.1".to_string(),
                    device: "Ethernet".to_string(),
                },
            },
            ClientRoute {
                destination: "0.0.0.0/1".to_string(),
                via: RouteVia::Device("tun0".to_string()),
            },
        ],
    }
}

fn begin_routes() -> Transaction {
    routing::apply_client_routes(Platform::Windows, &plan()).unwrap().unwrap()
}

#[test]
fn windows_routes_are_added_and_removed() {
    let mut t = begin_routes();
    assert_eq!(
        t.pending(),
        Some(powershell(
            "New-NetRoute -DestinationPrefix '203.0.113.10/32' -NextHop '192.0.2.1' -InterfaceAlias 'Ethernet' -PolicyStore ActiveStore -ErrorAction Stop"
        ))
    );
    report_route(&mut t, &plan(), Ok(()));
    assert_eq!(
        t.pending(),
        Some(powershell(
            "New-NetRoute -DestinationPrefix '0.0.0.0/1' -InterfaceAlias 'tun0' -PolicyStore ActiveStore -ErrorAction Stop"
        ))
    );
    report_route(&mut t, &plan(), Ok(()));
    assert_eq!(
        t.cleanup(),
        vec![
            powershell(
                "Remove-NetRoute -DestinationPrefix '0.0.0.0/1' -InterfaceAlias 'tun0' -Confirm:$false -ErrorAction Continue"
            ),
            powershell(
                "Remove-NetRoute -DestinationPrefix '203.0.113.10/32' -NextHop '192.0.2.1' -InterfaceAlias 'Ethernet' -Confirm:$false -ErrorAction Continue"
            ),
        ]
    );
}

#[test]
fn windows_route_failures_name_the_route() {
    let mut t = begin_routes();
    report_route(&mut t, &plan(), Ok(()));
    report_route(&mut t, &plan(), Err(Error::new(ErrorKind::NotFound, "no")));
    report_route(&mut t, &plan(), Err(Error::new(ErrorKind::NotFound, "passed over")));
    assert_eq!(
        t.failure(),
        Some(Error::new(ErrorKind::Other, "Failed to add route 0.0.0.0/1: no"))
    );
}
