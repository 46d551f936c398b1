use tinyvpn::cli::{
    optional_config_path, parse_args, require_address, require_udp_address, usage, Invocation,
};

fn words(line: &str) -> Vec<String> {
    line.split_whitespace().map(str::to_string).collect()
}

fn asked(line: &str) -> Invocation {
    parse_args(&words(line)).unwrap()
}

fn told(line: &str) -> Vec<String> {
    parse_args(&words(line)).err().unwrap()
}

#[test]
fn every_mode_is_understood() {
    let address = "127.0.0.1:9001".to_string();
    assert_eq!(
        asked("vpn server 127.0.0.1:9001"),
        Invocation::Server { address: address.clone() }
    );
    assert_eq!(
        asked("vpn client 127.0.0.1:9001"),
        Invocation::Client { address: address.clone() }
    );
    assert_eq!(asked("vpn tun"), Invocation::Tun);
    assert_eq!(
        asked("vpn vpn-server 127.0.0.1:9001"),
        Invocation::VpnServer { address: address.clone() }
    );
    assert_eq!(
        asked("vpn vpn-client 127.0.0.1:9001"),
        Invocation::VpnClient { address: address.clone() }
    );
    assert_eq!(
        asked("vpn udp-server 127.0.0.1:9001"),
        Invocation::UdpServer {
            address: address.clone(),
            config_path: "config/server.toml".to_string(),
        }
    );
    assert_eq!(
        asked("vpn udp-client 127.0.0.1:9001"),
        Invocation::UdpClient {
            address: address.clone(),
            config_path: "config/client.toml".to_string(),
        }
    );
    assert_eq!(
        asked("vpn udp-client 127.0.0.1:9001 other.toml"),
        Invocation::UdpClient { address, config_path: "other.toml".to_string() }
    );
}

#[test]
fn wrong_counts_show_the_usage_of_the_mode() {
    for mode in ["server", "client", "vpn-server", "vpn-client"] {
        assert_eq!(told(&format!("vpn {mode}")), vec![format!("Usage: vpn {mode} <address>")]);
        assert_eq!(told(&format!("vpn {mode} a b")).len(), 1);
    }
    assert_eq!(told("vpn tun x"), vec!["Usage: vpn tun"]);
    for mode in ["udp-server", "udp-client"] {
        let expected = vec![format!("Usage: vpn {mode} <address> [config-path]")];
        assert_eq!(told(&format!("vpn {mode}")), expected);
        assert_eq!(told(&format!("vpn {mode} a b c")), expected);
    }
}

#[test]
fn no_mode_shows_all_modes() {
    assert_eq!(told("vpn"), usage("vpn"));
    assert_eq!(told(""), usage("tiny-vpn"));
    let lines = usage("vpn");
    assert_eq!(lines.len(), 8);
    assert_eq!(lines[0], "Usage:");
    assert_eq!(
        lines[3],
        "  vpn tun                                     (v0.2: standalone TUN packet dump)"
    );
}

#[test]
fn unknown_modes_are_named() {
    let lines = told("vpn Server a");
    assert_eq!(
        lines[0],
        "Unknown mode 'Server'. Expected 'server', 'client', 'tun', 'vpn-server', 'vpn-client', 'udp-server', or 'udp-client'."
    );
    assert_eq!(lines[1..], usage("vpn")[..]);
}

#[test]
fn addresses_and_files_are_picked_by_position() {
    assert_eq!(require_address("p", &words("p m a"), "m"), Ok("a".to_string()));
    assert!(require_address("p", &words("p m a b"), "m").is_err());
    assert_eq!(require_udp_address("p", &words("p m a b"), "m"), Ok("a".to_string()));
    assert!(require_udp_address("p", &words("p m"), "m").is_err());
    assert_eq!(optional_config_path(&words("p m a b"), "d"), "b");
    assert_eq!(optional_config_path(&words("p m a"), "d"), "d");
}
