use tinyvpn::net::SocketAddress;
use tinyvpn::server::{handle_incoming_datagram, ServerAction, ServerSession};
use tinyvpn::{crypto, protocol};


fn test_psk(byte: u8) -> [u8; crypto::KEY_SIZE] {
    [byte; crypto::KEY_SIZE]
}

fn addr(port: u16) -> SocketAddress {
    SocketAddress::V4 { ip: 0x7f00_0001, port }
}

/// Drive a full, valid handshake against a fresh `ServerSession`,
/// returning the session (now `Established`) and the derived
/// `client_to_server`/`server_to_client` ciphers the client would have
/// computed for itself.
fn run_valid_handshake(psk: &[u8; crypto::KEY_SIZE], peer: SocketAddress) -> (ServerSession, crypto::SessionCiphers) {
    let mut session = ServerSession::NoSession;
    let client_random = crypto::generate_random();

    let init = protocol::HandshakeMessage::Init {
        version: protocol::HANDSHAKE_VERSION,
        client_random,
    }
    .encode();
    let action = handle_incoming_datagram(&mut session, peer, &init, psk);
    let server_random = match action {
        ServerAction::Reply(addr, bytes) => {
            assert_eq!(addr, peer);
            match protocol::HandshakeMessage::decode(&bytes).unwrap() {
                protocol::HandshakeMessage::Response { server_random, .. } => server_random,
                other => panic!("expected Response, got {other:?}"),
            }
        }
        _ => panic!("expected Reply"),
    };

    let client_tag = crypto::handshake_tag(
        protocol::MSG_TYPE_HANDSHAKE_CONFIRM,
        protocol::HANDSHAKE_VERSION,
        psk,
        &client_random,
        &server_random,
    );
    let confirm = protocol::HandshakeMessage::Confirm { tag: client_tag }.encode();
    let action = handle_incoming_datagram(&mut session, peer, &confirm, psk);
    assert!(matches!(action, ServerAction::EstablishSession(p, _) if p == peer));
    assert!(matches!(session, ServerSession::Established { .. }));

    let session_ciphers = crypto::derive_session_ciphers(psk, &client_random, &server_random);
    (session, session_ciphers)
}

#[test]
fn valid_handshake_succeeds_with_matching_psk() {
    let psk = test_psk(0x01);
    let (session, _) = run_valid_handshake(&psk, addr(1));
    assert!(matches!(session, ServerSession::Established { .. }));
}

#[test]
fn wrong_psk_fails_authentication() {
    let server_psk = test_psk(0x01);
    let client_psk = test_psk(0x02);
    let peer = addr(2);
    let mut session = ServerSession::NoSession;

    let client_random = crypto::generate_random();
    let init = protocol::HandshakeMessage::Init {
        version: protocol::HANDSHAKE_VERSION,
        client_random,
    }
    .encode();
    let action = handle_incoming_datagram(&mut session, peer, &init, &server_psk);
    let server_random = match action {
        ServerAction::Reply(_, bytes) => match protocol::HandshakeMessage::decode(&bytes).unwrap() {
            protocol::HandshakeMessage::Response { server_random, .. } => server_random,
            other => panic!("expected Response, got {other:?}"),
        },
        _ => panic!("expected Reply"),
    };

    // Client (wrongly) uses its own, different PSK to compute the tag.
    let bad_tag = crypto::handshake_tag(
        protocol::MSG_TYPE_HANDSHAKE_CONFIRM,
        protocol::HANDSHAKE_VERSION,
        &client_psk,
        &client_random,
        &server_random,
    );
    let confirm = protocol::HandshakeMessage::Confirm { tag: bad_tag }.encode();
    let action = handle_incoming_datagram(&mut session, peer, &confirm, &server_psk);
    assert!(matches!(action, ServerAction::Drop));
    assert!(matches!(session, ServerSession::NoSession));
}

#[test]
fn modified_client_random_is_rejected() {
    // The server computed its Response tag over the client_random it
    // actually received; if an attacker changes the client_random
    // used to compute the Confirm tag, authentication must fail.
    let psk = test_psk(0x03);
    let peer = addr(3);
    let mut session = ServerSession::NoSession;

    let real_client_random = crypto::generate_random();
    let init = protocol::HandshakeMessage::Init {
        version: protocol::HANDSHAKE_VERSION,
        client_random: real_client_random,
    }
    .encode();
    let server_random = match handle_incoming_datagram(&mut session, peer, &init, &psk) {
        ServerAction::Reply(_, bytes) => match protocol::HandshakeMessage::decode(&bytes).unwrap() {
            protocol::HandshakeMessage::Response { server_random, .. } => server_random,
            other => panic!("expected Response, got {other:?}"),
        },
        _ => panic!("expected Reply"),
    };

    let wrong_client_random = crypto::generate_random();
    let forged_tag = crypto::handshake_tag(
        protocol::MSG_TYPE_HANDSHAKE_CONFIRM,
        protocol::HANDSHAKE_VERSION,
        &psk,
        &wrong_client_random, // does not match what the server stored
        &server_random,
    );
    let confirm = protocol::HandshakeMessage::Confirm { tag: forged_tag }.encode();
    let action = handle_incoming_datagram(&mut session, peer, &confirm, &psk);
    assert!(matches!(action, ServerAction::Drop));
}

#[test]
fn modified_server_random_is_rejected() {
    let psk = test_psk(0x04);
    let peer = addr(4);
    let mut session = ServerSession::NoSession;

    let client_random = crypto::generate_random();
    let init = protocol::HandshakeMessage::Init {
        version: protocol::HANDSHAKE_VERSION,
        client_random,
    }
    .encode();
    let _ = handle_incoming_datagram(&mut session, peer, &init, &psk);

    // Attacker guesses/uses a different server_random than the one
    // actually sent.
    let wrong_server_random = crypto::generate_random();
    let forged_tag = crypto::handshake_tag(
        protocol::MSG_TYPE_HANDSHAKE_CONFIRM,
        protocol::HANDSHAKE_VERSION,
        &psk,
        &client_random,
        &wrong_server_random,
    );
    let confirm = protocol::HandshakeMessage::Confirm { tag: forged_tag }.encode();
    let action = handle_incoming_datagram(&mut session, peer, &confirm, &psk);
    assert!(matches!(action, ServerAction::Drop));
}

#[test]
fn modified_authentication_data_is_rejected() {
    let psk = test_psk(0x05);
    let peer = addr(5);
    let mut session = ServerSession::NoSession;

    let client_random = crypto::generate_random();
    let init = protocol::HandshakeMessage::Init {
        version: protocol::HANDSHAKE_VERSION,
        client_random,
    }
    .encode();
    let _ = handle_incoming_datagram(&mut session, peer, &init, &psk);

    let mut tag = [0u8; crypto::HANDSHAKE_TAG_SIZE];
    tag[0] ^= 0xFF; // garbage tag, definitely wrong
    let confirm = protocol::HandshakeMessage::Confirm { tag }.encode();
    let action = handle_incoming_datagram(&mut session, peer, &confirm, &psk);
    assert!(matches!(action, ServerAction::Drop));
}

#[test]
fn modified_protocol_version_is_rejected() {
    let psk = test_psk(0x06);
    let peer = addr(6);
    let mut session = ServerSession::NoSession;

    let init = protocol::HandshakeMessage::Init {
        version: protocol::HANDSHAKE_VERSION + 1, // unsupported
        client_random: crypto::generate_random(),
    }
    .encode();
    let action = handle_incoming_datagram(&mut session, peer, &init, &psk);
    assert!(matches!(action, ServerAction::Drop));
    assert!(matches!(session, ServerSession::NoSession));
}

#[test]
fn truncated_handshake_is_rejected() {
    let psk = test_psk(0x07);
    let peer = addr(7);
    let mut session = ServerSession::NoSession;

    let full = protocol::HandshakeMessage::Init {
        version: protocol::HANDSHAKE_VERSION,
        client_random: crypto::generate_random(),
    }
    .encode();
    let truncated = &full[..full.len() - 5];
    let action = handle_incoming_datagram(&mut session, peer, truncated, &psk);
    assert!(matches!(action, ServerAction::Drop));
}

#[test]
fn malformed_handshake_is_rejected_without_panic() {
    let psk = test_psk(0x08);
    let peer = addr(8);
    let mut session = ServerSession::NoSession;

    // Random garbage, including an empty message and an unknown type.
    assert!(matches!(
        handle_incoming_datagram(&mut session, peer, &[], &psk),
        ServerAction::Drop
    ));
    assert!(matches!(
        handle_incoming_datagram(&mut session, peer, &[0xFF, 0x01, 0x02], &psk),
        ServerAction::Drop
    ));
}

#[test]
fn data_before_handshake_completion_is_rejected() {
    let psk = test_psk(0x09);
    let peer = addr(9);
    let mut session = ServerSession::NoSession;

    // Fabricate a plausible-looking EncryptedData datagram; its
    // contents don't matter because there's no session to decrypt it
    // under yet.
    let fake_envelope = vec![0u8; crypto::COUNTER_SIZE + 32];
    let datagram = protocol::encode_encrypted_data(&fake_envelope);
    let action = handle_incoming_datagram(&mut session, peer, &datagram, &psk);
    assert!(matches!(action, ServerAction::Drop));

    // Also rejected while a handshake is merely in progress (not yet
    // Established).
    let init = protocol::HandshakeMessage::Init {
        version: protocol::HANDSHAKE_VERSION,
        client_random: crypto::generate_random(),
    }
    .encode();
    let _ = handle_incoming_datagram(&mut session, peer, &init, &psk);
    assert!(matches!(session, ServerSession::HandshakeInProgress { .. }));
    let action = handle_incoming_datagram(&mut session, peer, &datagram, &psk);
    assert!(matches!(action, ServerAction::Drop));
}

#[test]
fn old_session_data_is_rejected_after_a_new_session_starts() {
    // Establish session A, then start (but don't finish) a brand new
    // handshake attempt from a NEW peer while restarting the whole
    // state (simulating a server restart between sessions, which is
    // really just a fresh `ServerSession::NoSession`). Data encrypted
    // under session A's key must not be accepted by session B.
    let psk = test_psk(0x0A);
    let peer_a = addr(10);
    let (_, mut session_a_ciphers) = run_valid_handshake(&psk, peer_a);

    let old_envelope = session_a_ciphers
        .client_to_server
        .encrypt(crypto::Direction::ClientToServer, b"session A data");
    let old_datagram = protocol::encode_encrypted_data(&old_envelope);

    // Fresh session (as if the server restarted).
    let peer_b = addr(11);
    let (mut session_b, _) = run_valid_handshake(&psk, peer_b);

    // Session A's peer address is different from session B's, so
    // this is already rejected on the peer check; from the same address,
    // the key would differ.
    let action = handle_incoming_datagram(&mut session_b, peer_a, &old_datagram, &psk);
    assert!(matches!(action, ServerAction::Drop));
}

#[test]
fn unauthenticated_udp_traffic_cannot_establish_the_peer() {
    let psk = test_psk(0x0B);
    let attacker = addr(12);
    let mut session = ServerSession::NoSession;

    // A bare EncryptedData datagram, or a Confirm with no preceding
    // Init, must never move the session into Established.
    let fake_envelope = vec![0u8; crypto::COUNTER_SIZE + 32];
    let datagram = protocol::encode_encrypted_data(&fake_envelope);
    let _ = handle_incoming_datagram(&mut session, attacker, &datagram, &psk);
    assert!(matches!(session, ServerSession::NoSession));

    let random_tag = [0u8; crypto::HANDSHAKE_TAG_SIZE];
    let confirm = protocol::HandshakeMessage::Confirm { tag: random_tag }.encode();
    let _ = handle_incoming_datagram(&mut session, attacker, &confirm, &psk);
    assert!(matches!(session, ServerSession::NoSession));
}

#[test]
fn confirm_from_different_address_than_init_is_rejected() {
    let psk = test_psk(0x0C);
    let real_peer = addr(13);
    let attacker = addr(14);
    let mut session = ServerSession::NoSession;

    let client_random = crypto::generate_random();
    let init = protocol::HandshakeMessage::Init {
        version: protocol::HANDSHAKE_VERSION,
        client_random,
    }
    .encode();
    let server_random = match handle_incoming_datagram(&mut session, real_peer, &init, &psk) {
        ServerAction::Reply(_, bytes) => match protocol::HandshakeMessage::decode(&bytes).unwrap() {
            protocol::HandshakeMessage::Response { server_random, .. } => server_random,
            other => panic!("expected Response, got {other:?}"),
        },
        _ => panic!("expected Reply"),
    };

    let tag = crypto::handshake_tag(
        protocol::MSG_TYPE_HANDSHAKE_CONFIRM,
        protocol::HANDSHAKE_VERSION,
        &psk,
        &client_random,
        &server_random,
    );
    let confirm = protocol::HandshakeMessage::Confirm { tag }.encode();
    // The (valid!) confirm arrives from a different address than the
    // one that sent Init -- must be rejected.
    let action = handle_incoming_datagram(&mut session, attacker, &confirm, &psk);
    assert!(matches!(action, ServerAction::Drop));
    assert!(matches!(session, ServerSession::HandshakeInProgress { .. }));
}

#[test]
fn new_handshake_init_while_established_is_rejected() {
    let psk = test_psk(0x0D);
    let peer = addr(15);
    let (mut session, _) = run_valid_handshake(&psk, peer);

    let new_peer = addr(16);
    let init = protocol::HandshakeMessage::Init {
        version: protocol::HANDSHAKE_VERSION,
        client_random: crypto::generate_random(),
    }
    .encode();
    let action = handle_incoming_datagram(&mut session, new_peer, &init, &psk);
    assert!(matches!(action, ServerAction::Drop));
    // The existing session must remain untouched.
    assert!(matches!(session, ServerSession::Established { peer: p, .. } if p == peer));
}

/// The tunnel device is created when a session is established:
/// `EstablishSession` is the action that calls for it, and no
/// `WriteToTun` is produced before that has happened.
#[test]
fn establish_session_action_precedes_any_write_to_tun_action() {
    let psk = test_psk(0x0E);
    let peer = addr(17);
    let mut session = ServerSession::NoSession;

    // Before any handshake at all: a plausible EncryptedData datagram
    // must never produce WriteToTun (there is no session, so no TUN
    // should exist yet in the real caller either).
    let fake_envelope = vec![0u8; crypto::COUNTER_SIZE + 32];
    let datagram = protocol::encode_encrypted_data(&fake_envelope);
    assert!(!matches!(
        handle_incoming_datagram(&mut session, peer, &datagram, &psk),
        ServerAction::WriteToTun(_) | ServerAction::EstablishSession(..)
    ));

    // Drive Init -> Response.
    let client_random = crypto::generate_random();
    let init = protocol::HandshakeMessage::Init {
        version: protocol::HANDSHAKE_VERSION,
        client_random,
    }
    .encode();
    let server_random = match handle_incoming_datagram(&mut session, peer, &init, &psk) {
        ServerAction::Reply(_, bytes) => match protocol::HandshakeMessage::decode(&bytes).unwrap() {
            protocol::HandshakeMessage::Response { server_random, .. } => server_random,
            other => panic!("expected Response, got {other:?}"),
        },
        _ => panic!("expected Reply"),
    };

    // Still mid-handshake: still no WriteToTun/EstablishSession yet.
    assert!(!matches!(
        handle_incoming_datagram(&mut session, peer, &datagram, &psk),
        ServerAction::WriteToTun(_) | ServerAction::EstablishSession(..)
    ));

    // Complete the handshake: THIS is the one and only point where
    // EstablishSession is produced -- the real server creates the
    // TUN device and spawns the upload thread exactly here.
    let client_tag = crypto::handshake_tag(
        protocol::MSG_TYPE_HANDSHAKE_CONFIRM,
        protocol::HANDSHAKE_VERSION,
        &psk,
        &client_random,
        &server_random,
    );
    let confirm = protocol::HandshakeMessage::Confirm { tag: client_tag }.encode();
    let action = handle_incoming_datagram(&mut session, peer, &confirm, &psk);
    assert!(matches!(action, ServerAction::EstablishSession(p, _) if p == peer));

    // Only now, after EstablishSession, can a real EncryptedData
    // packet from the established peer produce WriteToTun.
    let mut session_ciphers = crypto::derive_session_ciphers(&psk, &client_random, &server_random);
    let frame = protocol::Frame::data(vec![0xAB; 10]).unwrap();
    let envelope = session_ciphers
        .client_to_server
        .encrypt(crypto::Direction::ClientToServer, &frame.encode());
    let data_datagram = protocol::encode_encrypted_data(&envelope);
    let action = handle_incoming_datagram(&mut session, peer, &data_datagram, &psk);
    assert!(matches!(action, ServerAction::WriteToTun(ref payload) if *payload == vec![0xAB; 10]));
}
