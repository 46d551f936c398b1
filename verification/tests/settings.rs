use tinyvpn::config::{
    find_value, has_section, invalid_list_message, invalid_value_message,
    load_client_routing_settings, load_crypto_key_hex, load_dns_settings, load_routing_settings,
    load_tunnel_settings, parse_route_list, strip_brackets, strip_quotes, ClientRoutingSettings,
    ConfigError, DnsSettings, RoutingMode, Topology, TunnelSettings,
};
use tinyvpn::net::IpAddress;
use tinyvpn::options::{load_client_options, load_server_options};
use tinyvpn::tun::TunnelAddressPlan;

fn value(contents: &str) -> Option<String> {
    find_value(contents, "s", "k")
}

#[test]
fn first_assignment_wins() {
    assert_eq!(value("[s]\nk = 1\nk = 2\n"), Some("1".to_string()));
    assert_eq!(value("[s]\nj = 0\n[t]\nk = 3\n[s]\nk = 4\n"), Some("4".to_string()));
}

#[test]
fn lines_of_other_sections_do_not_matter() {
    let plain = "[s]\nk = 1\n";
    let busy = "k = 0\n[t]\nk = 9\n[s]\nkk = 7\nk = 1\n[t]\nk = 8\n";
    assert_eq!(value(plain), value(busy));
    assert_eq!(value("k = 1\n"), None);
    assert_eq!(value("[t]\nk = 1\n"), None);
}

#[test]
fn blank_lines_and_comments_do_not_matter() {
    assert_eq!(value("\n[s]\n\n# k = 0\n   # k = 2\n k = 1\n"), Some("1".to_string()));
    assert_eq!(value("[s]\r\nk = 1\r\n"), Some("1".to_string()));
    assert_eq!(value("#[s]\nk = 1"), None);
}

#[test]
fn values_keep_what_is_inside() {
    assert_eq!(value("[s]\nk = \"a b\""), Some("a b".to_string()));
    assert_eq!(value("[s]\nk=a=b"), Some("a=b".to_string()));
    assert_eq!(value("[s]\nk = \"a"), Some("\"a".to_string()));
    assert_eq!(value("[s]\nk = \""), Some("\"".to_string()));
    assert_eq!(value("[s]\nk = \"\""), Some("".to_string()));
    assert_eq!(value("[s]\nk ="), Some("".to_string()));
    assert_eq!(value("[s]\nk = \"\"a\"\""), Some("\"a\"".to_string()));
    assert_eq!(value("[s]\nk = 1 # one"), Some("1 # one".to_string()));
    assert_eq!(value("[s]\nk\n"), None);
}

#[test]
fn headers_may_hold_white_space_but_then_do_not_show_the_section() {
    assert_eq!(value("[ s ]\nk = 1"), Some("1".to_string()));
    assert!(!has_section("[ s ]\n", "s"));
    assert!(has_section("[ s ]\n", " s "));
    assert!(has_section("  [s]  \n", "s"));
    assert!(!has_section("# [s]\n", "s"));
    assert!(!has_section("", "s"));
    assert!(has_section("[]", ""));
    assert_eq!(load_crypto_key_hex("[ crypto ]\n"), Err(ConfigError::MissingCryptoSection));
    assert_eq!(load_crypto_key_hex("  [crypto]  \n"), Err(ConfigError::MissingKey));
    assert_eq!(load_crypto_key_hex("[ crypto ]\nkey = k\n"), Ok("k".to_string()));
}

#[test]
fn brackets_and_quotes_come_off_in_pairs() {
    let brackets = |s: &str| {
        let chars: Vec<char> = s.chars().collect();
        strip_brackets(&chars).map(|r| r.iter().collect::<String>())
    };
    assert_eq!(brackets("[a]"), Some("a".to_string()));
    assert_eq!(brackets("[]"), Some("".to_string()));
    assert_eq!(brackets("["), None);
    assert_eq!(brackets("[a"), None);
    assert_eq!(brackets("a]"), None);
    let quotes = |s: &str| {
        let chars: Vec<char> = s.chars().collect();
        strip_quotes(&chars).iter().collect::<String>()
    };
    assert_eq!(quotes("\"a\""), "a");
    assert_eq!(quotes("\"a"), "\"a");
    assert_eq!(quotes("\""), "\"");
}

#[test]
fn lists_leave_out_empty_entries() {
    assert_eq!(parse_route_list("[ \"a\" , b,, \"\" ,]"), Ok(vec!["a".into(), "b".into()]));
    assert_eq!(parse_route_list("[]"), Ok(vec![]));
    assert_eq!(parse_route_list("[ ]"), Ok(vec![]));
    assert_eq!(
        parse_route_list("a, b"),
        Err(ConfigError::InvalidRouteList { found: "a, b".to_string() })
    );
}

#[test]
fn invalid_modes_come_before_invalid_lists() {
    assert_eq!(
        load_client_routing_settings("[routing]\nmode = x\nroutes = y\n"),
        Err(ConfigError::InvalidRoutingValue { key: "mode", found: "x".to_string() })
    );
    assert_eq!(
        load_client_routing_settings("[routing]\nroutes = y\n"),
        Err(ConfigError::InvalidRouteList { found: "y".to_string() })
    );
    assert_eq!(
        load_client_routing_settings("[routing]\nroutes = [y]\n"),
        Ok(ClientRoutingSettings { mode: RoutingMode::Disabled, routes: vec!["y".into()] })
    );
}

#[test]
fn booleans_are_spelled_exactly() {
    assert_eq!(
        load_routing_settings("[routing]\nnat_enabled = True\n"),
        Err(ConfigError::InvalidRoutingValue { key: "nat_enabled", found: "True".to_string() })
    );
    assert!(load_routing_settings("[routing]\nnat_enabled = \"true\"\n").unwrap().nat_enabled);
    assert_eq!(
        load_dns_settings("[dns]\nenabled = 1\nservers = x\n"),
        Err(ConfigError::InvalidDnsValue { key: "enabled", found: "1".to_string() })
    );
}

#[test]
fn name_servers_stand_in_a_list() {
    for (raw, found) in [("\"1.1.1.1\"", "1.1.1.1"), ("1.1.1.1", "1.1.1.1"), ("[::1", "[::1")] {
        let e = load_dns_settings(&format!("[dns]\nservers = {raw}\n")).err().unwrap();
        assert_eq!(e, ConfigError::InvalidDnsValue { key: "servers", found: found.to_string() });
        assert_eq!(e.message(), format!("[dns] 'servers' has an invalid value: {found:?}"));
    }
    assert_eq!(
        load_dns_settings("[dns]\nservers = [1.1.1.1, x]\n"),
        Err(ConfigError::InvalidDnsValue {
            key: "servers",
            found: "Invalid IP address: x".to_string()
        })
    );
}

#[test]
fn name_servers_are_distinct() {
    let settings =
        load_dns_settings("[dns]\nservers = [1.1.1.1, ::1, \"1.1.1.1\", 0:0::1, 8.8.8.8]\n");
    assert_eq!(
        settings,
        Ok(DnsSettings {
            enabled: false,
            servers: vec![
                IpAddress::V4(0x0101_0101),
                IpAddress::V6(1),
                IpAddress::V4(0x0808_0808)
            ],
        })
    );
    assert_eq!(load_dns_settings(""), Ok(DnsSettings::default()));
}

#[test]
fn topologies_are_named() {
    assert_eq!(load_tunnel_settings(""), Ok(TunnelSettings::default()));
    assert_eq!(TunnelSettings::default().topology, Topology::Default);
    assert_eq!(
        load_tunnel_settings("[tunnel]\ntopology = default\n"),
        Ok(TunnelSettings { topology: Topology::Default })
    );
    assert_eq!(
        load_tunnel_settings("[tunnel]\ntopology = \"windows-ics\"\n"),
        Ok(TunnelSettings { topology: Topology::WindowsIcs })
    );
    assert_eq!(
        load_tunnel_settings("[tunnel]\ntopology = mesh\n"),
        Err(ConfigError::InvalidTunnelValue { key: "topology", found: "mesh".to_string() })
    );
}

#[test]
fn problems_are_described() {
    let found = "a\"b".to_string();
    for (error, text) in [
        (ConfigError::Io("no such file".to_string()), "could not read config file: no such file"),
        (ConfigError::MissingCryptoSection, "config file has no [crypto] section"),
        (ConfigError::MissingKey, "[crypto] section has no 'key' entry"),
        (
            ConfigError::InvalidRoutingValue { key: "mode", found: found.clone() },
            "[routing] 'mode' has an invalid value: \"a\\\"b\"",
        ),
        (
            ConfigError::InvalidRouteList { found: found.clone() },
            "[routing] 'routes' must be a bracketed list like [\"10.20.0.0/24\"], found: \"a\\\"b\"",
        ),
        (
            ConfigError::InvalidDnsValue { key: "servers", found: found.clone() },
            "[dns] 'servers' has an invalid value: \"a\\\"b\"",
        ),
        (
            ConfigError::InvalidTunnelValue { key: "topology", found },
            "[tunnel] 'topology' has an invalid value: \"a\\\"b\"",
        ),
    ] {
        assert_eq!(error.message(), text);
    }
    assert_eq!(invalid_value_message("s", "k", "v"), "[s] 'k' has an invalid value: v");
    assert!(invalid_list_message("v").ends_with(", found: v"));
}

fn with_key(rest: &str) -> String {
    format!("[crypto]\nkey = \"{}\"\n{rest}", "11".repeat(32))
}

#[test]
fn servers_take_their_options_from_the_file() {
    let options = load_server_options(&with_key("[tunnel]\ntopology = windows-ics\n")).unwrap();
    assert_eq!(options.psk, [0x11; 32]);
    assert!(options.routing.nat_enabled);
    assert_eq!(options.plan, TunnelAddressPlan::from_topology(&Topology::WindowsIcs));

    let problem = |contents: &str| load_server_options(contents).err().unwrap().message;
    assert_eq!(problem(""), "config file has no [crypto] section");
    assert_eq!(
        problem(&with_key("[routing]\nnat_enabled = x\n[tunnel]\ntopology = y\n")),
        "[routing] 'nat_enabled' has an invalid value: \"x\""
    );
    assert_eq!(
        problem(&with_key("[tunnel]\ntopology = y\n")),
        "[tunnel] 'topology' has an invalid value: \"y\""
    );
}

#[test]
fn clients_take_their_options_from_the_file() {
    let rest = "[routing]\nmode = split\nroutes = [10.20.0.0/24]\n[dns]\nenabled = true\nservers = [1.1.1.1]\n";
    let options = load_client_options(&with_key(rest)).unwrap();
    assert_eq!(options.psk, [0x11; 32]);
    assert_eq!(options.routing.routes, vec!["10.20.0.0/24", "1.1.1.1/32"]);
    assert!(options.dns.enabled);
    assert_eq!(options.dns.servers, vec![IpAddress::V4(0x0101_0101)]);
    assert_eq!(options.plan, TunnelAddressPlan::from_topology(&Topology::Default));

    let full = "[routing]\nmode = full\nroutes = [10.20.0.0/24]\n[dns]\nenabled = true\nservers = [1.1.1.1]\n";
    let options = load_client_options(&with_key(full)).unwrap();
    assert_eq!(options.routing.routes, vec!["10.20.0.0/24"]);

    let unused = "[routing]\nmode = split\n[dns]\nservers = [1.1.1.1]\n";
    assert!(load_client_options(&with_key(unused)).unwrap().routing.routes.is_empty());

    let problem = |contents: &str| load_client_options(contents).err().unwrap().message;
    assert_eq!(problem("[crypto]\nkey = zz\n"), "invalid key length: expected 64 hex characters, found 2");
    assert_eq!(
        problem(&with_key("[routing]\nmode = x\n[dns]\nenabled = y\n")),
        "[routing] 'mode' has an invalid value: \"x\""
    );
    assert_eq!(
        problem(&with_key("[dns]\nenabled = y\n[tunnel]\ntopology = z\n")),
        "[dns] 'enabled' has an invalid value: \"y\""
    );
    assert_eq!(
        problem(&with_key("[tunnel]\ntopology = z\n")),
        "[tunnel] 'topology' has an invalid value: \"z\""
    );
}

#[test]
fn values_are_quoted_with_escapes() {
    let message = |found: &str| {
        ConfigError::InvalidDnsValue { key: "k", found: found.to_string() }.message()
    };
    assert_eq!(message("a \"b\"\n\\"), "[dns] 'k' has an invalid value: \"a \\\"b\\\"\\n\\\\\"");
    assert_eq!(message(""), "[dns] 'k' has an invalid value: \"\"");
}
