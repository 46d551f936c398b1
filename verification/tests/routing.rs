use tinyvpn::routing::{
    build_client_routing_plan, cidr_from_address_and_netmask, is_valid_ipv4_cidr, ClientRoutingMode,
    RouteVia, RoutingPlanError,
};

#[test]
fn cidr_from_address_and_netmask_computes_network_address() {
    assert_eq!(
        cidr_from_address_and_netmask((10, 13, 13, 2), (255, 255, 255, 0)),
        "10.13.13.0/24"
    );
}

#[test]
fn cidr_from_address_and_netmask_masks_off_host_bits() {
    // Even if given a "dirty" address with host bits set, the network
    // address in the result should have them masked off.
    assert_eq!(
        cidr_from_address_and_netmask((192, 168, 1, 200), (255, 255, 255, 128)),
        "192.168.1.128/25"
    );
}

#[test]
fn cidr_from_address_and_netmask_handles_slash_16() {
    assert_eq!(
        cidr_from_address_and_netmask((172, 16, 5, 9), (255, 255, 0, 0)),
        "172.16.0.0/16"
    );
}

fn dummy_server_route() -> RouteVia {
    RouteVia::Gateway {
        gateway: "192.0.2.1".to_string(),
        device: "eth0".to_string(),
    }
}

#[test]
fn cidr_validation_accepts_valid_cidrs() {
    assert!(is_valid_ipv4_cidr("10.20.0.0/24"));
    assert!(is_valid_ipv4_cidr("0.0.0.0/0"));
    assert!(is_valid_ipv4_cidr("255.255.255.255/32"));
}

#[test]
fn cidr_validation_rejects_invalid_cidrs() {
    assert!(!is_valid_ipv4_cidr("10.20.0.0")); // no prefix
    assert!(!is_valid_ipv4_cidr("10.20.0.0/33")); // prefix too large
    assert!(!is_valid_ipv4_cidr("10.20.0.0/-1")); // negative
    assert!(!is_valid_ipv4_cidr("not.an.ip.addr/24"));
    assert!(!is_valid_ipv4_cidr("10.20.0/24")); // too few octets
    assert!(!is_valid_ipv4_cidr("10.20.0.0.1/24")); // too many octets
    assert!(!is_valid_ipv4_cidr(""));
}

#[test]
fn disabled_mode_produces_an_empty_plan() {
    let plan = build_client_routing_plan(
        &ClientRoutingMode::Disabled,
        "tiny-tun-client",
        "203.0.113.10",
        &dummy_server_route(),
    )
    .unwrap();
    assert!(plan.routes.is_empty());
}

#[test]
fn split_mode_does_not_replace_the_default_route() {
    let plan = build_client_routing_plan(
        &ClientRoutingMode::Split(vec!["10.20.0.0/24".to_string()]),
        "tiny-tun-client",
        "203.0.113.10",
        &dummy_server_route(),
    )
    .unwrap();
    assert!(!plan.routes.iter().any(|r| r.destination == "0.0.0.0/0"));
    assert!(!plan.routes.iter().any(|r| r.destination == "0.0.0.0/1"));
    assert_eq!(plan.routes.len(), 1);
    assert_eq!(plan.routes[0].destination, "10.20.0.0/24");
    assert_eq!(
        plan.routes[0].via,
        RouteVia::Device("tiny-tun-client".to_string())
    );
}

#[test]
fn split_mode_handles_empty_route_list() {
    let plan = build_client_routing_plan(
        &ClientRoutingMode::Split(vec![]),
        "tiny-tun-client",
        "203.0.113.10",
        &dummy_server_route(),
    )
    .unwrap();
    assert!(plan.routes.is_empty());
}

#[test]
fn split_mode_deduplicates_routes() {
    let plan = build_client_routing_plan(
        &ClientRoutingMode::Split(vec![
            "10.20.0.0/24".to_string(),
            "10.20.0.0/24".to_string(),
            "10.30.0.0/16".to_string(),
        ]),
        "tiny-tun-client",
        "203.0.113.10",
        &dummy_server_route(),
    )
    .unwrap();
    assert_eq!(plan.routes.len(), 2);
}

#[test]
fn split_mode_rejects_invalid_cidr() {
    let result = build_client_routing_plan(
        &ClientRoutingMode::Split(vec!["not-a-cidr".to_string()]),
        "tiny-tun-client",
        "203.0.113.10",
        &dummy_server_route(),
    );
    assert!(matches!(result, Err(RoutingPlanError::InvalidCidr(_))));
}

#[test]
fn full_mode_contains_server_endpoint_exception() {
    let plan = build_client_routing_plan(
        &ClientRoutingMode::Full,
        "tiny-tun-client",
        "203.0.113.10",
        &dummy_server_route(),
    )
    .unwrap();
    let exception = plan
        .routes
        .iter()
        .find(|r| r.destination == "203.0.113.10/32")
        .expect("server endpoint exception must be present");
    // And it must use the pre-VPN route, NOT the TUN device -- this
    // is the whole point of the exception.
    assert_eq!(exception.via, dummy_server_route());
    assert_ne!(exception.via, RouteVia::Device("tiny-tun-client".to_string()));
}

#[test]
fn full_mode_contains_default_vpn_route_as_two_halves() {
    let plan = build_client_routing_plan(
        &ClientRoutingMode::Full,
        "tiny-tun-client",
        "203.0.113.10",
        &dummy_server_route(),
    )
    .unwrap();
    // 0.0.0.0/1 + 128.0.0.0/1 together cover all of IPv4 without
    // ever touching the real 0.0.0.0/0 default route.
    assert!(plan.routes.iter().any(|r| r.destination == "0.0.0.0/1"
        && r.via == RouteVia::Device("tiny-tun-client".to_string())));
    assert!(plan.routes.iter().any(|r| r.destination == "128.0.0.0/1"
        && r.via == RouteVia::Device("tiny-tun-client".to_string())));
    // Never a literal 0.0.0.0/0 -- we don't touch/replace it.
    assert!(!plan.routes.iter().any(|r| r.destination == "0.0.0.0/0"));
}

#[test]
fn full_mode_plan_has_exactly_three_routes() {
    let plan = build_client_routing_plan(
        &ClientRoutingMode::Full,
        "tiny-tun-client",
        "203.0.113.10",
        &dummy_server_route(),
    )
    .unwrap();
    assert_eq!(plan.routes.len(), 3);
}
