use tinyvpn::config::{
    load_client_routing_settings, load_crypto_key_hex, load_dns_settings, load_routing_settings,
    ClientRoutingSettings, ConfigError, RoutingMode, RoutingSettings,
};
use tinyvpn::net::IpAddress;

#[test]
fn loads_key_from_crypto_section() {
    let contents =
        "[server]\naddress = \"127.0.0.1:8080\"\n\n[crypto]\nkey = \"deadbeef\"\n";
    let hex = load_crypto_key_hex(contents).unwrap();
    assert_eq!(hex, "deadbeef");
}

#[test]
fn ignores_keys_outside_crypto_section() {
    let contents =
        "key = \"not-this-one\"\n[server]\nkey = \"also-not-this-one\"\n[crypto]\nkey = \"the-real-one\"\n";
    let hex = load_crypto_key_hex(contents).unwrap();
    assert_eq!(hex, "the-real-one");
}

#[test]
fn missing_section_is_reported() {
    let contents = "[server]\naddress = \"127.0.0.1:8080\"\n";
    match load_crypto_key_hex(contents) {
        Err(ConfigError::MissingCryptoSection) => {}
        other => panic!("expected MissingCryptoSection, got {other:?}"),
    }
}

#[test]
fn missing_key_in_section_is_reported() {
    let contents = "[crypto]\n# no key here\n";
    match load_crypto_key_hex(contents) {
        Err(ConfigError::MissingKey) => {}
        other => panic!("expected MissingKey, got {other:?}"),
    }
}

#[test]
fn routing_settings_default_when_section_absent() {
    let contents = "[crypto]\nkey = \"deadbeef\"\n";
    let settings = load_routing_settings(contents).unwrap();
    assert_eq!(settings, RoutingSettings::default());
}

#[test]
fn routing_settings_parses_explicit_values() {
    let contents =
        "[routing]\nnat_enabled = false\noutbound_interface = \"eth0\"\n";
    let settings = load_routing_settings(contents).unwrap();
    assert_eq!(
        settings,
        RoutingSettings {
            nat_enabled: false,
            outbound_interface: Some("eth0".to_string()),
        }
    );
}

#[test]
fn routing_settings_nat_enabled_defaults_true_when_key_absent() {
    let contents = "[routing]\noutbound_interface = \"eth0\"\n";
    let settings = load_routing_settings(contents).unwrap();
    assert!(settings.nat_enabled);
}

#[test]
fn routing_settings_outbound_interface_defaults_none_when_absent() {
    let contents = "[routing]\nnat_enabled = true\n";
    let settings = load_routing_settings(contents).unwrap();
    assert_eq!(settings.outbound_interface, None);
}

#[test]
fn routing_settings_invalid_nat_enabled_value_is_rejected() {
    let contents = "[routing]\nnat_enabled = maybe\n";
    match load_routing_settings(contents) {
        Err(ConfigError::InvalidRoutingValue { key: "nat_enabled", .. }) => {}
        other => panic!("expected InvalidRoutingValue, got {other:?}"),
    }
}

#[test]
fn client_routing_settings_default_when_section_absent() {
    let contents = "[crypto]\nkey = \"deadbeef\"\n";
    let settings = load_client_routing_settings(contents).unwrap();
    assert_eq!(settings, ClientRoutingSettings::default());
    assert_eq!(settings.mode, RoutingMode::Disabled);
}

#[test]
fn client_routing_settings_parses_split_mode_with_routes() {
    let contents =
        "[routing]\nmode = \"split\"\nroutes = [\"10.20.0.0/24\", \"10.30.0.0/16\"]\n";
    let settings = load_client_routing_settings(contents).unwrap();
    assert_eq!(settings.mode, RoutingMode::Split);
    assert_eq!(
        settings.routes,
        vec!["10.20.0.0/24".to_string(), "10.30.0.0/16".to_string()]
    );
}

#[test]
fn client_routing_settings_parses_full_mode() {
    let contents = "[routing]\nmode = \"full\"\n";
    let settings = load_client_routing_settings(contents).unwrap();
    assert_eq!(settings.mode, RoutingMode::Full);
    assert!(settings.routes.is_empty());
}

#[test]
fn client_routing_settings_invalid_mode_is_rejected() {
    let contents = "[routing]\nmode = \"turbo\"\n";
    match load_client_routing_settings(contents) {
        Err(ConfigError::InvalidRoutingValue { key: "mode", .. }) => {}
        other => panic!("expected InvalidRoutingValue, got {other:?}"),
    }
}

#[test]
fn client_routing_settings_empty_route_list_parses_as_empty_vec() {
    let contents = "[routing]\nmode = \"split\"\nroutes = []\n";
    let settings = load_client_routing_settings(contents).unwrap();
    assert!(settings.routes.is_empty());
}

#[test]
fn client_routing_settings_malformed_route_list_is_rejected() {
    let contents = "[routing]\nmode = \"split\"\nroutes = \"not-a-list\"\n";
    match load_client_routing_settings(contents) {
        Err(ConfigError::InvalidRouteList { .. }) => {}
        other => panic!("expected InvalidRouteList, got {other:?}"),
    }
}

#[test]
fn client_routing_settings_routes_ignored_in_full_mode_but_still_parsed() {
    let contents =
        "[routing]\nmode = \"full\"\nroutes = [\"10.20.0.0/24\"]\n";
    let settings = load_client_routing_settings(contents).unwrap();
    assert_eq!(settings.mode, RoutingMode::Full);
    // Parsed all the same, though the plan of full mode does not use it.
    assert_eq!(settings.routes, vec!["10.20.0.0/24".to_string()]);
}

#[test]
fn dns_settings_default_when_absent() {
    let contents = "[client]\n";
    let settings = load_dns_settings(contents).unwrap();
    assert_eq!(settings.enabled, false);
    assert!(settings.servers.is_empty());
}

#[test]
fn dns_settings_enabled_one_server() {
    let contents = "[dns]\nenabled = true\nservers = [\"10.13.13.2\"]\n";
    let settings = load_dns_settings(contents).unwrap();
    assert_eq!(settings.enabled, true);
    assert_eq!(settings.servers, vec![IpAddress::V4(0x0a0d_0d02)]);
}

#[test]
fn dns_settings_enabled_multiple_servers_and_duplicates() {
    let contents = "[dns]\nenabled = true\nservers = [\"10.13.13.2\", \"1.1.1.1\", \"10.13.13.2\"]\n";
    let settings = load_dns_settings(contents).unwrap();
    assert_eq!(settings.enabled, true);
    assert_eq!(settings.servers.len(), 2);
    assert_eq!(settings.servers[0], IpAddress::V4(0x0a0d_0d02));
    assert_eq!(settings.servers[1], IpAddress::V4(0x0101_0101));
}

#[test]
fn dns_settings_invalid_ip() {
    let contents = "[dns]\nservers = [\"not.an.ip\"]\n";
    match load_dns_settings(contents) {
        Err(ConfigError::InvalidDnsValue { key: "servers", .. }) => {}
        other => panic!("expected InvalidDnsValue, got {other:?}"),
    }
}

#[test]
fn dns_settings_empty_list() {
    let contents = "[dns]\nenabled = true\nservers = []\n";
    let settings = load_dns_settings(contents).unwrap();
    assert_eq!(settings.enabled, true);
    assert!(settings.servers.is_empty());
}

#[test]
fn dns_settings_ipv6_support() {
    let contents = "[dns]\nservers = [\"2606:4700:4700::1111\"]\n";
    let settings = load_dns_settings(contents).unwrap();
    assert_eq!(settings.servers[0], IpAddress::V6(0x2606_4700_4700_0000_0000_0000_0000_1111));
}
