use tinyvpn::client::{handle_response, start_handshake};
use tinyvpn::config::{RoutingSettings, Topology};
use tinyvpn::crypto::Direction;
use tinyvpn::error::{Error, ErrorKind};
use tinyvpn::net::SocketAddress;
use tinyvpn::server::{gateway_config, receive_failure, ReceiveFailure};
use tinyvpn::server_loop::{LoopAction, ServerLoop};
use tinyvpn::transport::seal_packet;
use tinyvpn::tun::TunnelAddressPlan;

const PSK: [u8; 32] = [0x42; 32];

fn peer() -> SocketAddress {
    SocketAddress::V4 { ip: 0x0A00_0001, port: 40000 }
}

fn settings(nat_enabled: bool) -> RoutingSettings {
    RoutingSettings { nat_enabled, outbound_interface: Some("eth0".to_string()) }
}

fn plan() -> TunnelAddressPlan {
    TunnelAddressPlan::from_topology(&Topology::Default)
}

/// Runs the handshake up to the publication of the peer.
fn established(server_loop: &mut ServerLoop) -> tinyvpn::client::Handshaken {
    let init = start_handshake([1; 32]);
    let response = match server_loop.received_with_random(peer(), &init, &PSK, [2; 32]) {
        LoopAction::Send(to, bytes) => {
            assert_eq!(to, peer());
            bytes
        }
        _ => panic!("expected Send"),
    };
    assert!(matches!(server_loop.succeeded(), LoopAction::Receive));
    let done = handle_response(&response, &PSK, &[1; 32]).ok().unwrap();
    match server_loop.received(peer(), &done.confirm, &PSK) {
        LoopAction::Publish(to, _) => assert_eq!(to, peer()),
        _ => panic!("expected Publish"),
    }
    done
}

#[test]
fn gateway_comes_after_the_device_and_before_the_upload() {
    let mut server_loop = ServerLoop::new(settings(true), plan());
    let mut done = established(&mut server_loop);
    assert!(matches!(server_loop.succeeded(), LoopAction::CreateDevice((10, 13, 13, 2))));
    match server_loop.succeeded() {
        LoopAction::SetUpGateway(gateway) => {
            assert_eq!(gateway.vpn_subnet, "10.13.13.0/24");
            assert_eq!(gateway.tun_interface, "tiny-tun-server");
            assert_eq!(gateway.outbound_interface, Some("eth0".to_string()));
            assert_eq!(gateway.address_plan, plan());
        }
        _ => panic!("expected SetUpGateway"),
    }
    assert!(matches!(server_loop.succeeded(), LoopAction::StartUpload));
    assert!(matches!(server_loop.succeeded(), LoopAction::Receive));

    let datagram = seal_packet(
        &mut done.session_ciphers.client_to_server,
        Direction::ClientToServer,
        b"packet",
    )
    .unwrap();
    match server_loop.received(peer(), &datagram, &PSK) {
        LoopAction::Write(packet) => assert_eq!(packet, b"packet"),
        _ => panic!("expected Write"),
    }
    assert!(matches!(server_loop.succeeded(), LoopAction::Receive));

    let interrupted = Error::new(ErrorKind::Interrupted, "");
    assert!(matches!(
        server_loop.receive_failed(interrupted.copy(), false),
        LoopAction::Receive
    ));
    assert!(matches!(
        server_loop.receive_failed(interrupted, true),
        LoopAction::End { failure: None, joins_upload: false, has_gateway: true }
    ));
}

#[test]
fn without_translation_there_is_no_gateway() {
    let mut server_loop = ServerLoop::new(settings(false), plan());
    established(&mut server_loop);
    assert!(matches!(server_loop.succeeded(), LoopAction::CreateDevice(_)));
    assert!(matches!(server_loop.succeeded(), LoopAction::StartUpload));
    assert!(matches!(server_loop.succeeded(), LoopAction::Receive));
    let broken = Error::new(ErrorKind::Other, "network is down");
    match server_loop.receive_failed(broken.copy(), true) {
        LoopAction::End { failure, joins_upload, has_gateway } => {
            assert_eq!(failure, Some(broken));
            assert!(joins_upload);
            assert!(!has_gateway);
        }
        _ => panic!("expected End"),
    }
}

#[test]
fn failures_end_the_loop() {
    let mut server_loop = ServerLoop::new(settings(true), plan());
    established(&mut server_loop);
    assert!(matches!(server_loop.succeeded(), LoopAction::CreateDevice(_)));
    match server_loop.failed(Error::new(ErrorKind::PermissionDenied, "not root")) {
        LoopAction::End { failure, joins_upload, has_gateway } => {
            assert_eq!(failure, Some(Error::new(ErrorKind::PermissionDenied, "not root")));
            assert!(!joins_upload);
            assert!(!has_gateway);
        }
        _ => panic!("expected End"),
    }
}

#[test]
fn junk_is_passed_over() {
    let mut server_loop = ServerLoop::new(settings(true), plan());
    assert!(matches!(server_loop.received(peer(), &[], &PSK), LoopAction::Receive));
    assert!(matches!(server_loop.received(peer(), &[4, 0, 0], &PSK), LoopAction::Receive));
}

#[test]
fn receive_failures_are_told_apart() {
    let interrupted = Error::new(ErrorKind::Interrupted, "");
    let other = Error::new(ErrorKind::Other, "");
    assert_eq!(receive_failure(&interrupted, true), ReceiveFailure::Stop);
    assert_eq!(receive_failure(&interrupted, false), ReceiveFailure::Retry);
    assert_eq!(receive_failure(&other, true), ReceiveFailure::Fail);
    assert_eq!(receive_failure(&other, false), ReceiveFailure::Fail);
}

#[test]
fn gateways_are_configured_from_settings() {
    assert_eq!(gateway_config(&settings(false), &plan()), None);
    let ics = TunnelAddressPlan::from_topology(&Topology::WindowsIcs);
    let gateway = gateway_config(&RoutingSettings::default(), &ics).unwrap();
    assert_eq!(gateway.vpn_subnet, "192.168.137.0/24");
    assert_eq!(gateway.outbound_interface, None);
}
