use tinyvpn::crypto::{Cipher, CryptoError, Direction};
use tinyvpn::net::SocketAddress;
use tinyvpn::protocol::{
    encode_encrypted_data, HandshakeError, HandshakeMessage, ProtocolError,
};
use tinyvpn::transport::{
    open_packet, relay_tun_to_udp_established, relay_tun_to_udp_session, relay_udp_to_tun_session,
    seal_packet, unframe, DropReason, Inbound, Outbound, TUN_READ_BUFFER_SIZE,
    UDP_RECV_BUFFER_SIZE,
};

fn peer() -> SocketAddress {
    SocketAddress::V4 { ip: 0xC000_0201, port: 9001 }
}

#[test]
fn buffer_sizes() {
    assert_eq!(TUN_READ_BUFFER_SIZE, 1500);
    assert_eq!(UDP_RECV_BUFFER_SIZE, 1531);
}

#[test]
fn packets_cross_the_session_unchanged() {
    let mut sender = Cipher::new([1; 32]);
    let receiver = Cipher::new([1; 32]);
    for len in [1usize, 20, 1499, 1500] {
        let packet: Vec<u8> = (0..len).map(|i| (i % 251) as u8).collect();
        let datagram =
            match relay_tun_to_udp_session(&mut sender, Direction::ClientToServer, &packet) {
                Outbound::Send(datagram) => datagram,
                other => panic!("expected Send, got {other:?}"),
            };
        assert_eq!(datagram[0], 4);
        assert_eq!(datagram.len(), 1 + 8 + 6 + len + 16);
        assert!(datagram.len() <= UDP_RECV_BUFFER_SIZE);
        assert_eq!(
            relay_udp_to_tun_session(&receiver, Direction::ClientToServer, &datagram),
            Inbound::Deliver(packet)
        );
    }
}

#[test]
fn empty_reads_are_skipped() {
    let mut cipher = Cipher::new([2; 32]);
    assert_eq!(
        relay_tun_to_udp_session(&mut cipher, Direction::ClientToServer, &[]),
        Outbound::Skip
    );
    assert_eq!(
        relay_udp_to_tun_session(&cipher, Direction::ServerToClient, &[]),
        Inbound::Skip
    );
    let mut none = None;
    assert_eq!(
        relay_tun_to_udp_established(&mut none, Direction::ServerToClient, &[]),
        Outbound::Skip
    );
}

#[test]
fn oversized_packets_use_no_counter() {
    let mut cipher = Cipher::new([3; 32]);
    let oversized = ProtocolError::PayloadTooLarge { len: 1501, max: 1500 };
    assert_eq!(
        relay_tun_to_udp_session(&mut cipher, Direction::ClientToServer, &[0; 1501]),
        Outbound::Oversized(oversized.clone())
    );
    assert_eq!(
        seal_packet(&mut cipher, Direction::ClientToServer, &[0; 1501]),
        Err(oversized)
    );
    let datagram = seal_packet(&mut cipher, Direction::ClientToServer, &[1]).unwrap();
    assert_eq!(&datagram[1..9], &[0; 8]);
}

#[test]
fn server_sends_only_in_a_session() {
    let mut established = None;
    assert_eq!(
        relay_tun_to_udp_established(&mut established, Direction::ServerToClient, &[0; 2000]),
        Outbound::NoSession
    );
    established = Some((peer(), Cipher::new([4; 32])));
    assert_eq!(
        relay_tun_to_udp_established(&mut established, Direction::ServerToClient, &[0; 2000]),
        Outbound::Oversized(ProtocolError::PayloadTooLarge { len: 2000, max: 1500 })
    );
    let receiver = Cipher::new([4; 32]);
    for counter in 0..3u64 {
        match relay_tun_to_udp_established(&mut established, Direction::ServerToClient, b"reply") {
            Outbound::SendTo(to, datagram) => {
                assert_eq!(to, peer());
                assert_eq!(&datagram[1..9], &counter.to_be_bytes());
                assert_eq!(
                    relay_udp_to_tun_session(&receiver, Direction::ServerToClient, &datagram),
                    Inbound::Deliver(b"reply".to_vec())
                );
            }
            other => panic!("expected SendTo, got {other:?}"),
        }
    }
}

#[test]
fn every_drop_reason_has_a_datagram() {
    let mut cipher = Cipher::new([5; 32]);
    let direction = Direction::ServerToClient;
    assert_eq!(
        relay_udp_to_tun_session(&cipher, direction, &[0xFF]),
        Inbound::Drop(DropReason::Malformed(HandshakeError::UnknownMessageType { found: 0xFF }))
    );
    let late = HandshakeMessage::Confirm { tag: [0; 32] }.encode();
    assert_eq!(
        relay_udp_to_tun_session(&cipher, direction, &late),
        Inbound::Drop(DropReason::UnexpectedHandshake)
    );
    assert_eq!(
        relay_udp_to_tun_session(&cipher, direction, &encode_encrypted_data(&[0; 30])),
        Inbound::Drop(DropReason::Undecryptable(CryptoError::AuthenticationFailed))
    );
    assert_eq!(
        relay_udp_to_tun_session(&cipher, direction, &[4, 1, 2]),
        Inbound::Drop(DropReason::Undecryptable(CryptoError::TruncatedEnvelope {
            have: 2,
            need: 24,
        }))
    );
    let no_frame = cipher.encrypt(direction, b"no frame");
    assert_eq!(
        relay_udp_to_tun_session(&cipher, direction, &encode_encrypted_data(&no_frame)),
        Inbound::Drop(DropReason::BadFrame(ProtocolError::InvalidMagic { found: *b"no" }))
    );
}

#[test]
fn plaintexts_are_unframed() {
    assert_eq!(unframe(Ok(vec![0x54, 0x56, 1, 1, 0, 1, 42])), Ok(vec![42]));
    assert_eq!(
        unframe(Ok(vec![])),
        Err(DropReason::BadFrame(ProtocolError::TruncatedFrame { have: 0, need: 6 }))
    );
    assert_eq!(
        unframe(Err(CryptoError::AuthenticationFailed)),
        Err(DropReason::Undecryptable(CryptoError::AuthenticationFailed))
    );
}

#[test]
fn bodies_are_opened() {
    let mut cipher = Cipher::new([6; 32]);
    let datagram = seal_packet(&mut cipher, Direction::ClientToServer, b"abc").unwrap();
    assert_eq!(
        open_packet(&cipher, Direction::ClientToServer, &datagram[1..]),
        Ok(b"abc".to_vec())
    );
    assert_eq!(
        open_packet(&cipher, Direction::ServerToClient, &datagram[1..]),
        Err(DropReason::Undecryptable(CryptoError::AuthenticationFailed))
    );
}
