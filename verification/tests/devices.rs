//! Resolver setup, tunnel addresses and the rules around packets.
use tinyvpn::config::Topology;
use tinyvpn::dns::{self, DnsConfig, DnsGuard};
use tinyvpn::error::{Error, ErrorKind};
use tinyvpn::net::IpAddress;
use tinyvpn::routing::Platform;
use tinyvpn::tun::linux::{echoes_back, poll_outcome, PollOutcome};
use tinyvpn::tun::{
    android, describe_packet, relay_reader_to_tun, relay_tun_to_writer, unsupported, windows,
    StreamStep, TunError, TunnelAddressPlan,
};

fn config() -> DnsConfig {
    DnsConfig { enabled: true, servers: vec![IpAddress::V4(0x0101_0101), IpAddress::V6(1)] }
}

fn begun() -> dns::linux::DnsSetup {
    dns::apply(Platform::Linux, &config(), "tun0").unwrap().unwrap()
}

fn unreachable_program() -> Error {
    Error::new(ErrorKind::NotFound, "no such program")
}

#[test]
fn resolver_is_configured_step_by_step() {
    assert!(DnsGuard::new(begun()).is_none());
    let mut setup = begun();
    assert_eq!(setup.args().unwrap(), vec!["--version"]);
    setup.report(Ok(true));
    assert_eq!(setup.args().unwrap(), vec!["dns", "tun0", "1.1.1.1", "::1"]);
    setup.report(Ok(true));
    assert_eq!(setup.args().unwrap(), vec!["domain", "tun0", "~."]);
    setup.report(Ok(true));
    assert_eq!(setup.args(), None);
    assert_eq!(setup.failure(), None);
    assert_eq!(DnsGuard::new(setup).unwrap().cleanup(), vec!["revert", "tun0"]);
}

#[test]
fn resolver_must_be_there() {
    for outcome in [Ok(false), Err(unreachable_program())] {
        let mut setup = begun();
        setup.report(outcome);
        assert_eq!(setup.args(), None);
        assert_eq!(
            setup.failure(),
            Some(Error::new(
                ErrorKind::Unsupported,
                "Linux resolvectl required for temporary non-destructive DNS bindings but missing."
            ))
        );
        assert!(DnsGuard::new(setup).is_none());
    }
}

#[test]
fn name_servers_that_cannot_be_set_need_no_reverting() {
    let mut setup = begun();
    setup.report(Ok(true));
    setup.report(Ok(false));
    assert_eq!(setup.args(), None);
    assert_eq!(
        setup.failure(),
        Some(Error::new(ErrorKind::Other, "Failed to configure resolvectl dns servers"))
    );
    let mut setup = begun();
    setup.report(Ok(true));
    setup.report(Err(unreachable_program()));
    assert_eq!(setup.failure(), Some(unreachable_program()));
}

#[test]
fn name_servers_are_reverted_when_the_domain_is_refused() {
    let mut setup = begun();
    setup.report(Ok(true));
    setup.report(Ok(true));
    setup.report(Ok(false));
    assert_eq!(setup.args().unwrap(), vec!["revert", "tun0"]);
    assert_eq!(setup.failure(), None);
    setup.report(Ok(false));
    assert_eq!(setup.args(), None);
    assert_eq!(
        setup.failure(),
        Some(Error::new(ErrorKind::Other, "Failed to configure resolvectl domain ~."))
    );

    let mut setup = begun();
    setup.report(Ok(true));
    setup.report(Ok(true));
    setup.report(Err(unreachable_program()));
    assert_eq!(setup.args(), None);
    assert_eq!(setup.failure(), Some(unreachable_program()));
}

#[test]
fn resolver_is_left_alone_unless_enabled() {
    let off = DnsConfig { enabled: false, servers: config().servers };
    for platform in [Platform::Linux, Platform::Windows] {
        assert!(dns::apply(platform, &off, "tun0").unwrap().is_none());
    }
    let empty = DnsConfig { enabled: true, servers: vec![] };
    let error = Error::new(
        ErrorKind::InvalidInput,
        "Cannot apply inherently empty or disabled DNS definitions payload",
    );
    assert_eq!(dns::apply(Platform::Linux, &empty, "tun0").err(), Some(error.copy()));
    assert_eq!(dns::linux::apply(&off, "tun0").err(), Some(error));
    for platform in [Platform::Windows, Platform::Android, Platform::Unsupported] {
        assert_eq!(
            dns::apply(platform, &config(), "tun0").err(),
            Some(Error::new(
                ErrorKind::Unsupported,
                "DNS configuration is not supported on this platform."
            ))
        );
    }
    assert!(dns::unsupported::apply(&config(), "tun0").is_err());
}

#[test]
fn topologies_give_addresses() {
    let plan = TunnelAddressPlan::from_topology(&Topology::Default);
    assert_eq!(plan.server_address, (10, 13, 13, 2));
    assert_eq!(plan.client_address, (10, 13, 13, 1));
    let plan = TunnelAddressPlan::from_topology(&Topology::WindowsIcs);
    assert_eq!(plan.server_address, (192, 168, 137, 1));
    assert_eq!(plan.client_address, (192, 168, 137, 2));
}

#[test]
fn packets_are_described() {
    assert_eq!(
        describe_packet(&[0x45, 0x00, 0xFF]),
        vec![
            "Received packet: 3 bytes",
            "  45 00 ff",
            "  (IP version nibble indicates IPv4)",
            "",
        ]
    );
    assert_eq!(describe_packet(&[0x60])[2], "  (IP version nibble indicates IPv6)");
    assert_eq!(describe_packet(&[0xF4])[2], "  (unrecognized IP version nibble: 15)");
    assert_eq!(describe_packet(&[]), vec!["Received packet: 0 bytes", "  ", ""]);
    let long = describe_packet(&[0xAB; 40]);
    assert_eq!(long[0], "Received packet: 40 bytes");
    assert_eq!(long[1], format!("  {}", ["ab"; 32].join(" ")));
}

#[test]
fn stream_relays_pass_bytes_on() {
    assert_eq!(relay_tun_to_writer(&[]), StreamStep::Skip);
    assert_eq!(relay_tun_to_writer(b"p"), StreamStep::Write(b"p".to_vec()));
    assert_eq!(relay_reader_to_tun(&[]), StreamStep::End);
    assert_eq!(relay_reader_to_tun(b"p"), StreamStep::Write(b"p".to_vec()));
}

#[test]
fn polls_have_an_outcome() {
    assert_eq!(poll_outcome(-1, true), PollOutcome::SystemError);
    assert_eq!(
        poll_outcome(0, true),
        PollOutcome::NotYet(Error::new(ErrorKind::WouldBlock, "timeout"))
    );
    assert_eq!(
        poll_outcome(1, false),
        PollOutcome::NotYet(Error::new(ErrorKind::WouldBlock, "not ready"))
    );
    assert_eq!(poll_outcome(1, true), PollOutcome::Readable);
}

#[test]
fn echo_is_asked_for_by_one() {
    assert!(echoes_back(Some("1")));
    assert!(!echoes_back(Some("true")));
    assert!(!echoes_back(None));
}

#[test]
fn received_packets_must_fit() {
    let mut buf = [9u8; 4];
    assert_eq!(windows::read_packet(b"abc", &mut buf), Ok(3));
    assert_eq!(&buf, b"abc\x09");
    assert_eq!(
        windows::read_packet(b"abcde", &mut buf),
        Err(Error::new(ErrorKind::InvalidData, "packet larger than buffer"))
    );
    assert_eq!(&buf, b"abc\x09");
}

#[test]
fn sent_packets_must_fit() {
    assert_eq!(windows::write_packet(&[0; 65535]), Ok(65535));
    assert_eq!(
        windows::write_packet(&[0; 65536]),
        Err(Error::new(ErrorKind::InvalidInput, "packet too big for wintun"))
    );
    assert_eq!(windows::write_packet(&[]), Ok(0));
}

#[test]
fn failed_receives_are_told_apart() {
    assert_eq!(
        windows::receive_failure(true, "x"),
        Error::new(ErrorKind::Interrupted, "session shutting down")
    );
    assert_eq!(
        windows::receive_failure(false, "x"),
        Error::new(ErrorKind::Other, "Wintun receive error: x")
    );
}

#[test]
fn missing_backends_say_so() {
    let none = Error::new(
        ErrorKind::Unsupported,
        "virtual network interface backend not implemented for this platform",
    );
    assert_eq!(
        unsupported::create_raw_device("t", (0, 0, 0, 0), (0, 0, 0, 0)).err(),
        Some(none.copy())
    );
    let mut buf = [1u8, 2];
    assert_eq!(unsupported::Reader.read_packet(&mut buf), Err(none.copy()));
    assert_eq!(buf, [1, 2]);
    assert_eq!(unsupported::Writer.write_packet(&buf), Err(none.copy()));
    assert_eq!(unsupported::run(), Err(none));
    assert_eq!(
        android::run(),
        Err(Error::new(
            ErrorKind::Unsupported,
            "Standalone tun test not implemented for Android"
        ))
    );
    assert_eq!(
        windows::run(),
        Err(Error::new(
            ErrorKind::Unsupported,
            "Standalone tun test not implemented for Windows"
        ))
    );
}

#[test]
fn descriptors_are_not_negative() {
    assert!(android::descriptors_valid(0, 3));
    assert!(!android::descriptors_valid(-1, 3));
    assert!(!android::descriptors_valid(3, -1));
}

#[test]
fn device_failures_are_described() {
    let e = TunError::new("no driver");
    assert_eq!(e.message(), "virtual network interface error: no driver");
    assert_eq!(
        e.into_error(),
        Error::new(ErrorKind::Other, "virtual network interface error: no driver")
    );
}
