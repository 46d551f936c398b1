//! Transactions, and the changes that make a gateway or add client routes.
use tinyvpn::client::{configure_client_routing, routed_endpoint};
use tinyvpn::config::{ClientRoutingSettings, DnsSettings, RoutingMode, Topology};
use tinyvpn::error::{Error, ErrorKind};
use tinyvpn::net::IpAddress;
use tinyvpn::routing::transaction::{
    copy_strings, Change, CommandOutput, HostCommand, Transaction,
};
use tinyvpn::routing::{
    self, android, contains_string, invalid_cidr_message, linux, route_name_servers, unsupported,
    ClientRoute, ClientRouteGuard, ClientRoutingPlan, GatewaySetup, HostFacts, Platform, RouteVia,
    RoutingConfig, RoutingGuard, RoutingPlanError, ShutdownHandler,
};
use tinyvpn::tun::TunnelAddressPlan;

fn run(program: &str, line: &str) -> HostCommand {
    HostCommand::Run {
        program: program.to_string(),
        args: line.split(' ').map(str::to_string).collect(),
    }
}

fn change(n: usize) -> Change {
    Change { make: Some(run("make", &n.to_string())), undo: run("undo", &n.to_string()) }
}

fn failure() -> Error {
    Error::new(ErrorKind::Other, "no")
}

fn write(contents: &str) -> HostCommand {
    HostCommand::WriteFile {
        path: "/proc/sys/net/ipv4/ip_forward".to_string(),
        contents: contents.to_string(),
    }
}

#[test]
fn changes_are_made_in_order() {
    let mut t = Transaction::begin(vec![change(0), change(1)]);
    for n in 0..2 {
        assert_eq!(t.making(), Some(n));
        assert!(!t.is_made());
        assert_eq!(t.pending(), change(n).make);
        t.report(Ok(()));
    }
    assert!(t.is_made());
    assert_eq!(t.pending(), None);
    assert_eq!(t.making(), None);
    assert_eq!(t.failure(), None);
    assert_eq!(t.cleanup(), vec![change(1).undo, change(0).undo]);
    t.report(Err(failure()));
    assert!(t.is_made());
}

#[test]
fn failed_change_undoes_those_before_it() {
    let mut t = Transaction::begin(vec![change(0), change(1), change(2)]);
    t.report(Ok(()));
    t.report(Ok(()));
    t.report(Err(failure()));
    assert_eq!(t.failure(), None);
    assert_eq!(t.pending(), Some(change(1).undo));
    // A failure while undoing is passed over.
    t.report(Err(Error::new(ErrorKind::Other, "another")));
    assert_eq!(t.pending(), Some(change(0).undo));
    t.report(Ok(()));
    assert_eq!(t.pending(), None);
    assert_eq!(t.failure(), Some(failure()));
    assert!(!t.is_made());
    t.report(Ok(()));
    assert_eq!(t.failure(), Some(failure()));
}

#[test]
fn first_change_that_fails_leaves_nothing_to_undo() {
    let mut t = Transaction::begin(vec![change(0), change(1)]);
    t.report(Err(failure()));
    assert_eq!(t.pending(), None);
    assert_eq!(t.failure(), Some(failure()));
}

#[test]
fn changes_in_place_are_passed_over_but_undone() {
    let idle = Change { make: None, undo: run("undo", "idle") };
    let mut t = Transaction::begin(vec![idle.clone(), change(1)]);
    assert_eq!(t.making(), Some(1));
    t.report(Err(failure()));
    assert_eq!(t.pending(), Some(run("undo", "idle")));
    let t = Transaction::begin(vec![idle]);
    assert!(t.is_made());
    assert_eq!(t.cleanup(), vec![run("undo", "idle")]);
    assert!(Transaction::begin(vec![]).is_made());
}

#[test]
fn copies_are_the_same() {
    let list = vec!["a".to_string(), "b".to_string()];
    assert_eq!(copy_strings(&list), list);
    assert_eq!(write("1").copy(), write("1"));
    assert_eq!(run("a", "b c").copy(), run("a", "b c"));
}

fn gateway() -> RoutingConfig {
    RoutingConfig {
        vpn_subnet: "10.13.13.0/24".to_string(),
        tun_interface: "tun0".to_string(),
        outbound_interface: None,
        address_plan: TunnelAddressPlan::from_topology(&Topology::Default),
    }
}

fn facts(default_route: &str, ip_forward: &str) -> HostFacts {
    HostFacts {
        default_route: Ok(default_route.to_string()),
        ip_forward: Ok(ip_forward.to_string()),
        process_id: 7,
    }
}

fn begin_linux(config: &RoutingConfig, facts: HostFacts) -> Transaction {
    match routing::apply(Platform::Linux, config, facts) {
        Ok(GatewaySetup::Linux(t)) => t,
        other => panic!("expected a transaction, got {other:?}"),
    }
}

const RULES: [&str; 3] = [
    "-t nat -A POSTROUTING -s 10.13.13.0/24 -o eth0 -m comment --comment tiny-vpn -j MASQUERADE",
    "-A FORWARD -i tun0 -o eth0 -m comment --comment tiny-vpn -j ACCEPT",
    "-A FORWARD -i eth0 -o tun0 -m state --state ESTABLISHED,RELATED -m comment --comment tiny-vpn -j ACCEPT",
];

fn deleted(rule: &str) -> HostCommand {
    run("iptables", &rule.replace("-A ", "-D "))
}

#[test]
fn linux_gateway_is_set_up_and_taken_back() {
    let mut t = begin_linux(&gateway(), facts("default via 10.0.0.1 dev eth0\n", "0\n"));
    assert_eq!(t.pending(), Some(write("1")));
    t.report(Ok(()));
    for rule in RULES {
        assert_eq!(t.pending(), Some(run("iptables", rule)));
        t.report(Ok(()));
    }
    let guard = RoutingGuard::new(GatewaySetup::Linux(t)).unwrap();
    assert_eq!(
        guard.cleanup(),
        vec![deleted(RULES[2]), deleted(RULES[1]), deleted(RULES[0]), write("0")]
    );
}

#[test]
fn linux_gateway_rolls_back() {
    let mut t = begin_linux(&gateway(), facts("default dev eth0", "0"));
    for _ in 0..3 {
        t.report(Ok(()));
    }
    t.report(Err(failure()));
    for expected in [deleted(RULES[1]), deleted(RULES[0]), write("0")] {
        assert_eq!(t.pending(), Some(expected));
        t.report(Ok(()));
    }
    assert_eq!(t.failure(), Some(failure()));
    assert!(RoutingGuard::new(GatewaySetup::Linux(t)).is_none());
}

#[test]
fn forwarding_that_was_on_stays_on() {
    let t = begin_linux(&gateway(), facts("default dev eth0", " 1 \n"));
    assert_eq!(t.making(), Some(1));
    assert_eq!(t.cleanup().last(), Some(&write("1")));
}

#[test]
fn configured_interface_needs_no_default_route() {
    let mut config = gateway();
    config.outbound_interface = Some("wan0".to_string());
    let facts = HostFacts {
        default_route: Err(failure()),
        ip_forward: Ok("1".to_string()),
        process_id: 7,
    };
    let t = begin_linux(&config, facts);
    assert_eq!(t.pending(), Some(run("iptables", &RULES[0].replace("eth0", "wan0"))));
}

#[test]
fn linux_gateway_needs_its_facts() {
    let no_route = HostFacts {
        default_route: Err(failure()),
        ip_forward: Err(Error::new(ErrorKind::NotFound, "")),
        process_id: 7,
    };
    assert_eq!(
        routing::apply(Platform::Linux, &gateway(), no_route).err(),
        Some(failure())
    );
    let no_file = HostFacts {
        default_route: Ok("default dev eth0".to_string()),
        ip_forward: Err(failure()),
        process_id: 7,
    };
    assert_eq!(routing::apply(Platform::Linux, &gateway(), no_file).err(), Some(failure()));
    let e = routing::apply(Platform::Linux, &gateway(), facts("", "0")).err().unwrap();
    assert_eq!(e.kind, ErrorKind::NotFound);
    assert_eq!(
        e.message,
        "could not find an outbound interface in the default route (is there one? output was: \"\"). Set [routing] outbound_interface in the server config to specify it explicitly."
    );
}

#[test]
fn forwarding_file_is_read() {
    assert!(linux::read_ip_forward("1\n"));
    assert!(!linux::read_ip_forward("0\n"));
    assert!(!linux::read_ip_forward("11"));
    assert!(!linux::read_ip_forward(""));
    assert_eq!(linux::write_ip_forward(true), write("1"));
}

fn output(success: bool) -> CommandOutput {
    CommandOutput {
        success,
        status: "exit status: 2".to_string(),
        stdout: " out\n".to_string(),
        stderr: " bad rule \n".to_string(),
    }
}

#[test]
fn linux_programs_have_an_outcome() {
    let args = vec!["-A".to_string(), "x\"y".to_string()];
    assert_eq!(
        linux::program_outcome("iptables", &args, Ok(output(true))),
        Ok(" out\n".to_string())
    );
    assert_eq!(
        linux::program_outcome("iptables", &args, Ok(output(false))),
        Err(Error::new(ErrorKind::Other, "iptables [\"-A\", \"x\\\"y\"] failed: bad rule"))
    );
    assert_eq!(
        linux::program_outcome("ip", &vec![], Ok(output(false))),
        Err(Error::new(ErrorKind::Other, "ip [] failed: bad rule"))
    );
    assert_eq!(
        linux::program_outcome("ip", &args, Err(Error::new(ErrorKind::NotFound, "gone"))),
        Err(Error::new(
            ErrorKind::NotFound,
            "failed to run ip (is it installed, and are you root?): gone"
        ))
    );
}

#[test]
fn default_route_query_has_an_outcome() {
    assert_eq!(linux::default_route_outcome(Ok(output(true))), Ok(" out\n".to_string()));
    assert_eq!(
        linux::default_route_outcome(Ok(output(false))),
        Err(Error::new(ErrorKind::Other, "'ip route show default' failed: bad rule"))
    );
    assert_eq!(
        linux::default_route_outcome(Err(Error::new(ErrorKind::NotFound, "gone"))),
        Err(Error::new(ErrorKind::NotFound, "failed to run 'ip route show default': gone"))
    );
}

fn by_gateway() -> RouteVia {
    RouteVia::Gateway { gateway: "192.0.2.1".to_string(), device: "eth0".to_string() }
}

#[test]
fn linux_routes_are_read() {
    let ask = |output: &str| {
        routing::current_route_to(Platform::Linux, "203.0.113.10", Ok(output.to_string()))
    };
    assert_eq!(
        ask("203.0.113.10 via 192.0.2.1 dev eth0 src 192.0.2.7 uid 0"),
        Ok(by_gateway())
    );
    assert_eq!(ask("203.0.113.10 dev eth1 src 203.0.113.7"), Ok(RouteVia::Device("eth1".into())));
    assert_eq!(
        ask("unreachable"),
        Err(Error::new(ErrorKind::NotFound, "could not find a route to 203.0.113.10"))
    );
    assert_eq!(
        routing::current_route_to(Platform::Linux, "203.0.113.10", Err(failure())),
        Err(failure())
    );
    assert_eq!(
        routing::route_query(Platform::Linux, "203.0.113.10"),
        Some(run("ip", "route get 203.0.113.10"))
    );
}

fn plan() -> ClientRoutingPlan {
    ClientRoutingPlan {
        routes: vec![
            ClientRoute { destination: "203.0.113.10/32".to_string(), via: by_gateway() },
            ClientRoute {
                destination: "0.0.0.0/1".to_string(),
                via: RouteVia::Device("tun0".to_string()),
            },
        ],
    }
}

#[test]
fn linux_routes_are_added_and_removed() {
    let mut t = routing::apply_client_routes(Platform::Linux, &plan()).unwrap().unwrap();
    assert_eq!(
        t.pending(),
        Some(run("ip", "route add 203.0.113.10/32 via 192.0.2.1 dev eth0"))
    );
    t.report(Ok(()));
    assert_eq!(t.pending(), Some(run("ip", "route add 0.0.0.0/1 dev tun0")));
    t.report(Ok(()));
    let guard = ClientRouteGuard::new(Some(t)).unwrap();
    assert_eq!(
        guard.cleanup(),
        vec![
            run("ip", "route del 0.0.0.0/1 dev tun0"),
            run("ip", "route del 203.0.113.10/32 via 192.0.2.1 dev eth0"),
        ]
    );
}

#[test]
fn routes_that_are_not_all_added_have_no_guard() {
    let t = routing::apply_client_routes(Platform::Linux, &plan()).unwrap();
    assert!(ClientRouteGuard::new(t).is_none());
    assert_eq!(ClientRouteGuard::new(None).unwrap().cleanup(), vec![]);
}

#[test]
fn platforms_without_a_backend_say_so() {
    let unsupported_error = |message: &str| Error::new(ErrorKind::Unsupported, message);
    let no_gateway = unsupported_error("Routing/NAT backend not implemented for this platform");
    let no_android = unsupported_error("Cannot apply server NAT routes internally on Android.");
    let no_routes = unsupported_error("Client routing backend not implemented for this platform");
    let no_query = unsupported_error("Routing not implemented for this platform");
    assert_eq!(
        routing::apply(Platform::Unsupported, &gateway(), facts("", "")).err(),
        Some(no_gateway.copy())
    );
    assert_eq!(
        routing::apply(Platform::Android, &gateway(), facts("", "")).err(),
        Some(no_android.copy())
    );
    assert_eq!(
        routing::apply_client_routes(Platform::Unsupported, &plan()).err(),
        Some(no_routes.copy())
    );
    assert!(routing::apply_client_routes(Platform::Android, &plan()).unwrap().is_none());
    assert_eq!(
        routing::current_route_to(Platform::Unsupported, "x", Err(failure())),
        Err(no_query.copy())
    );
    assert_eq!(
        routing::current_route_to(Platform::Android, "x", Err(failure())),
        Ok(RouteVia::Gateway { gateway: "Android-VpnService".into(), device: "rmnet".into() })
    );
    assert_eq!(routing::route_query(Platform::Android, "x"), None);
    assert_eq!(routing::route_query(Platform::Unsupported, "x"), None);
    assert_eq!(unsupported::apply(&gateway()).err(), Some(no_gateway));
    assert_eq!(android::apply(&gateway()).err(), Some(no_android));
    assert_eq!(unsupported::apply_client_routes(&plan()).err(), Some(no_routes));
    assert!(android::apply_client_routes(&plan()).is_ok());
    assert_eq!(unsupported::current_route_to("x"), Err(no_query));
}

#[test]
fn shutdown_is_noticed_where_a_handler_is() {
    for (platform, handler) in [
        (Platform::Linux, ShutdownHandler::InterruptSignal),
        (Platform::Windows, ShutdownHandler::ConsoleEvents),
        (Platform::Android, ShutdownHandler::Nothing),
        (Platform::Unsupported, ShutdownHandler::Nothing),
    ] {
        assert_eq!(routing::install_shutdown_handler(platform), handler);
        assert!(!routing::shutdown_requested(platform, false));
        assert_eq!(
            routing::shutdown_requested(platform, true),
            handler != ShutdownHandler::Nothing
        );
    }
}

#[test]
fn name_servers_are_routed_in_split_mode() {
    let dns = DnsSettings {
        enabled: true,
        servers: vec![IpAddress::V4(0x0101_0101), IpAddress::V4(0x0808_0808), IpAddress::V6(1)],
    };
    let mut settings = ClientRoutingSettings {
        mode: RoutingMode::Split,
        routes: vec!["8.8.8.8/32".to_string()],
    };
    route_name_servers(&mut settings, &dns);
    assert_eq!(settings.routes, vec!["8.8.8.8/32", "1.1.1.1/32", "::1/32"]);
    for (mode, enabled) in [(RoutingMode::Full, true), (RoutingMode::Split, false)] {
        let mut settings = ClientRoutingSettings { mode, routes: vec![] };
        let dns = DnsSettings { enabled, servers: dns.servers.clone() };
        route_name_servers(&mut settings, &dns);
        assert!(settings.routes.is_empty());
    }
}

#[test]
fn settings_become_a_plan() {
    let settings = |mode, routes: &[&str]| ClientRoutingSettings {
        mode,
        routes: routes.iter().map(|r| r.to_string()).collect(),
    };
    let full = settings(RoutingMode::Full, &["ignored"]);
    let plan = configure_client_routing(&full, "203.0.113.10", &by_gateway()).unwrap();
    let destinations: Vec<&str> = plan.routes.iter().map(|r| r.destination.as_str()).collect();
    assert_eq!(destinations, vec!["203.0.113.10/32", "0.0.0.0/1", "128.0.0.0/1"]);
    assert_eq!(plan.routes[0].via, by_gateway());
    assert_eq!(plan.routes[1].via, RouteVia::Device("tiny-tun-client".to_string()));

    let split = settings(RoutingMode::Split, &["10.20.0.0/24", "10.20.0.0/24"]);
    let plan = configure_client_routing(&split, "203.0.113.10", &by_gateway()).unwrap();
    assert_eq!(plan.routes.len(), 1);

    let off = settings(RoutingMode::Disabled, &["ignored"]);
    let plan = configure_client_routing(&off, "203.0.113.10", &by_gateway()).unwrap();
    assert!(plan.routes.is_empty());

    let wrong = settings(RoutingMode::Split, &["10.20.0.0/24", "::1/32"]);
    assert_eq!(
        configure_client_routing(&wrong, "203.0.113.10", &by_gateway()),
        Err(Error::new(ErrorKind::InvalidInput, "invalid IPv4 CIDR: \"::1/32\""))
    );
    assert_eq!(
        RoutingPlanError::InvalidCidr("x".to_string()).message(),
        invalid_cidr_message("\"x\"")
    );
}

#[test]
fn routed_servers_are_reached_by_ipv4() {
    let settings = |mode| ClientRoutingSettings { mode, routes: vec![] };
    let v4 = IpAddress::V4(0xCB00_710A);
    assert_eq!(routed_endpoint(&settings(RoutingMode::Disabled), IpAddress::V6(1)), Ok(None));
    for mode in [RoutingMode::Split, RoutingMode::Full] {
        assert_eq!(
            routed_endpoint(&settings(mode), v4),
            Ok(Some("203.0.113.10".to_string()))
        );
        let e = routed_endpoint(&settings(mode), IpAddress::V6(1)).err().unwrap();
        assert_eq!(e.kind, ErrorKind::Unsupported);
        assert!(e.message.ends_with("the resolved server address is IPv6"));
    }
}

#[test]
fn networks_are_recognised() {
    for good in ["10.0.0.0/24", "10.0.0.0/024", "10.0.0.1/0", "1.2.3.4/32"] {
        assert!(routing::is_valid_ipv4_cidr(good), "{good}");
    }
    for bad in [
        "10.20.0.0/+24",
        "10.20.0.0/-0",
        "10.0.0.0/",
        "/24",
        "10.0.0.0/24/1",
        "10.0.0.0/33",
        "10.0.0.0/256",
        "::1/32",
        "010.0.0.0/8",
    ] {
        assert!(!routing::is_valid_ipv4_cidr(bad), "{bad}");
    }
    assert_eq!(
        routing::cidr_from_address_and_netmask((255, 255, 255, 255), (255, 255, 255, 255)),
        "255.255.255.255/32"
    );
    assert_eq!(
        routing::cidr_from_address_and_netmask((1, 2, 3, 4), (0, 0, 0, 0)),
        "0.0.0.0/0"
    );
    assert!(contains_string(&vec!["a".to_string()], "a"));
    assert!(!contains_string(&vec!["a".to_string()], "b"));
    assert_eq!(by_gateway().copy(), by_gateway());
}

#[test]
fn computed_networks_are_networks() {
    for (address, netmask) in [
        ((10, 13, 13, 2), (255, 255, 255, 0)),
        ((192, 168, 137, 1), (255, 255, 255, 0)),
        ((255, 255, 255, 255), (255, 255, 255, 255)),
        ((1, 2, 3, 4), (0, 0, 0, 0)),
    ] {
        let network = routing::cidr_from_address_and_netmask(address, netmask);
        assert!(routing::is_valid_ipv4_cidr(&network), "{network}");
    }
}

#[test]
fn deleting_a_rule_repeats_its_arguments() {
    for (add, delete) in [
        linux::nat_masquerade_rule("10.13.13.0/24", "eth0"),
        linux::forward_outbound_rule("tun0", "eth0"),
        linux::forward_return_rule("tun0", "eth0"),
    ] {
        assert_eq!(add.len(), delete.len());
        for (a, d) in add.iter().zip(&delete) {
            assert!(a == d || (a == "-A" && d == "-D"));
        }
        assert!(add.contains(&"tiny-vpn".to_string()));
    }
}
