//! Client and server together, and each of their decisions on given values.
use tinyvpn::client::{
    begin_handshake, conclude, handle_response, load_psk, read_response, receive_failure,
    relay_end, start_handshake, AuthenticatedClient, HandshakeFailure, RelayEnd,
    HANDSHAKE_TIMEOUT_SECS,
};
use tinyvpn::crypto::{derive_session_ciphers, handshake_tag, SessionCiphers};
use tinyvpn::error::{Error, ErrorKind};
use tinyvpn::net::{IpAddress, SocketAddress};
use tinyvpn::protocol::{encode_encrypted_data, HandshakeError, HandshakeMessage};
use tinyvpn::psk::PskError;
use tinyvpn::server::{
    accept_data, answer_init, answers_init, check_confirm, confirm_handshake, establish,
    handle_datagram_with_random, handle_incoming_datagram, needs_response, ServerAction,
    ServerSession,
};
use tinyvpn::transport::{relay_tun_to_udp_session, relay_udp_to_tun_session, Inbound, Outbound};
use tinyvpn::{config, crypto, server};

const PSK: [u8; 32] = [0x42; 32];

fn client_address() -> SocketAddress {
    SocketAddress::V4 { ip: 0x0A00_0001, port: 40000 }
}

fn in_progress() -> ServerSession {
    ServerSession::HandshakeInProgress {
        peer: client_address(),
        client_random: [1; 32],
        server_random: [2; 32],
    }
}

#[test]
fn handshake_completes_and_carries_packets_both_ways() {
    let mut session = ServerSession::NoSession;
    let (client_random, init) = begin_handshake();
    assert_eq!(init, start_handshake(client_random));
    let response = match handle_incoming_datagram(&mut session, client_address(), &init, &PSK) {
        ServerAction::Reply(to, response) => {
            assert_eq!(to, client_address());
            response
        }
        _ => panic!("expected Reply"),
    };
    let mut done = handle_response(&response, &PSK, &client_random).ok().unwrap();
    let mut server_to_client =
        match handle_incoming_datagram(&mut session, client_address(), &done.confirm, &PSK) {
            ServerAction::EstablishSession(to, cipher) => {
                assert_eq!(to, client_address());
                cipher
            }
            _ => panic!("expected EstablishSession"),
        };

    let upload = relay_tun_to_udp_session(
        &mut done.session_ciphers.client_to_server,
        crypto::Direction::ClientToServer,
        b"to the server",
    );
    let Outbound::Send(datagram) = upload else { panic!("expected Send") };
    match handle_incoming_datagram(&mut session, client_address(), &datagram, &PSK) {
        ServerAction::WriteToTun(packet) => assert_eq!(packet, b"to the server"),
        _ => panic!("expected WriteToTun"),
    }

    let download = relay_tun_to_udp_session(
        &mut server_to_client,
        crypto::Direction::ServerToClient,
        b"to the client",
    );
    let Outbound::Send(datagram) = download else { panic!("expected Send") };
    assert_eq!(
        relay_udp_to_tun_session(
            &done.session_ciphers.server_to_client,
            crypto::Direction::ServerToClient,
            &datagram
        ),
        Inbound::Deliver(b"to the client".to_vec())
    );
}

#[test]
fn handshake_with_given_random_values_is_exact() {
    let mut session = ServerSession::NoSession;
    let init = start_handshake([1; 32]);
    let action =
        handle_datagram_with_random(&mut session, client_address(), &init, &PSK, [2; 32]);
    let tag = handshake_tag(2, 1, &PSK, &[1; 32], &[2; 32]);
    match action {
        ServerAction::Reply(_, response) => assert_eq!(
            response,
            HandshakeMessage::Response { version: 1, server_random: [2; 32], tag }.encode()
        ),
        _ => panic!("expected Reply"),
    }
    assert!(matches!(
        session,
        ServerSession::HandshakeInProgress { peer, client_random, server_random }
            if peer == client_address() && client_random == [1; 32] && server_random == [2; 32]
    ));
}

#[test]
fn a_new_init_replaces_an_unfinished_handshake() {
    let mut session = in_progress();
    let other = SocketAddress::V6 { ip: 1, port: 1, flowinfo: 0, scope_id: 0 };
    let init = start_handshake([7; 32]);
    assert!(needs_response(&session, &init));
    let action = handle_datagram_with_random(&mut session, other, &init, &PSK, [8; 32]);
    assert!(matches!(action, ServerAction::Reply(to, _) if to == other));
    assert!(matches!(session, ServerSession::HandshakeInProgress { peer, .. } if peer == other));
}

#[test]
fn inits_are_answered_unless_established_or_of_another_version() {
    let mut session = ServerSession::NoSession;
    assert!(answers_init(&session, 1));
    assert!(!answers_init(&session, 2));
    assert!(answers_init(&in_progress(), 1));
    let ciphers = derive_session_ciphers(&PSK, &[1; 32], &[2; 32]);
    let action = establish(&mut session, client_address(), ciphers);
    assert!(matches!(action, ServerAction::EstablishSession(to, _) if to == client_address()));
    assert!(!answers_init(&session, 1));
    assert!(!needs_response(&session, &start_handshake([1; 32])));
    let dropped =
        answer_init(&mut session, client_address(), 1, [1; 32], [2; 32], [3; 32]);
    assert!(matches!(dropped, ServerAction::Drop));
    assert!(matches!(session, ServerSession::Established { .. }));
}

#[test]
fn answered_init_carries_the_given_tag() {
    let mut session = ServerSession::NoSession;
    let action = answer_init(&mut session, client_address(), 1, [1; 32], [2; 32], [3; 32]);
    match action {
        ServerAction::Reply(_, bytes) => assert_eq!(
            bytes,
            HandshakeMessage::Response { version: 1, server_random: [2; 32], tag: [3; 32] }
                .encode()
        ),
        _ => panic!("expected Reply"),
    }
}

#[test]
fn confirmations_are_held_against_the_expected_tag() {
    let mut session = in_progress();
    assert!(check_confirm(&mut session, client_address(), &[9; 32], &[9; 32]));
    assert!(matches!(session, ServerSession::HandshakeInProgress { .. }));

    let stranger = SocketAddress::V4 { ip: 0x0A00_0001, port: 40001 };
    assert!(!check_confirm(&mut session, stranger, &[9; 32], &[9; 32]));
    assert!(matches!(session, ServerSession::HandshakeInProgress { .. }));

    assert!(!check_confirm(&mut session, client_address(), &[9; 32], &[8; 32]));
    assert!(matches!(session, ServerSession::NoSession));
    assert!(!check_confirm(&mut session, client_address(), &[9; 32], &[9; 32]));
    assert!(matches!(session, ServerSession::NoSession));
}

#[test]
fn wrong_confirmation_resets_and_the_right_one_comes_too_late() {
    let mut session = in_progress();
    let tag = handshake_tag(3, 1, &PSK, &[1; 32], &[2; 32]);
    let mut wrong = tag;
    wrong[31] ^= 1;
    assert!(matches!(
        confirm_handshake(&mut session, client_address(), &wrong, &PSK),
        ServerAction::Drop
    ));
    assert!(matches!(session, ServerSession::NoSession));
    assert!(matches!(
        confirm_handshake(&mut session, client_address(), &tag, &PSK),
        ServerAction::Drop
    ));
    assert!(matches!(session, ServerSession::NoSession));
}

#[test]
fn a_response_is_nothing_to_a_server() {
    let mut session = in_progress();
    let response =
        HandshakeMessage::Response { version: 1, server_random: [0; 32], tag: [0; 32] }.encode();
    assert!(matches!(
        handle_incoming_datagram(&mut session, client_address(), &response, &PSK),
        ServerAction::Drop
    ));
    assert!(matches!(session, ServerSession::HandshakeInProgress { .. }));
}

#[test]
fn data_is_accepted_from_the_peer_only() {
    let mut session = ServerSession::NoSession;
    let mut ciphers = derive_session_ciphers(&PSK, &[1; 32], &[2; 32]);
    let upload = relay_tun_to_udp_session(
        &mut ciphers.client_to_server,
        crypto::Direction::ClientToServer,
        b"packet",
    );
    let Outbound::Send(datagram) = upload else { panic!("expected Send") };
    assert!(matches!(
        accept_data(&session, client_address(), &datagram[1..]),
        ServerAction::Drop
    ));
    establish(&mut session, client_address(), derive_session_ciphers(&PSK, &[1; 32], &[2; 32]));
    assert!(matches!(
        accept_data(&session, client_address(), &datagram[1..]),
        ServerAction::WriteToTun(packet) if packet == b"packet"
    ));
    let stranger = SocketAddress::V4 { ip: 0x0A00_0002, port: 40000 };
    assert!(matches!(accept_data(&session, stranger, &datagram[1..]), ServerAction::Drop));
    // Replaying a packet within the session is not detected.
    assert!(matches!(
        accept_data(&session, client_address(), &datagram[1..]),
        ServerAction::WriteToTun(_)
    ));
}

#[test]
fn the_stored_cipher_keeps_its_counter() {
    let next_counter = |session: ServerSession| match session {
        ServerSession::Established { mut client_to_server, .. } => {
            client_to_server.encrypt(crypto::Direction::ClientToServer, b"")[..8].to_vec()
        }
        _ => panic!("expected an established session"),
    };

    let mut session = ServerSession::NoSession;
    let mut ciphers = derive_session_ciphers(&PSK, &[1; 32], &[2; 32]);
    ciphers.client_to_server.encrypt(crypto::Direction::ClientToServer, b"");
    ciphers.client_to_server.encrypt(crypto::Direction::ClientToServer, b"");
    establish(&mut session, client_address(), ciphers);
    let init = start_handshake([3; 32]);
    assert!(matches!(
        handle_incoming_datagram(&mut session, client_address(), &init, &PSK),
        ServerAction::Drop
    ));
    assert_eq!(next_counter(session), 2u64.to_be_bytes());

    let mut session = in_progress();
    let tag = handshake_tag(3, 1, &PSK, &[1; 32], &[2; 32]);
    confirm_handshake(&mut session, client_address(), &tag, &PSK);
    assert_eq!(next_counter(session), 0u64.to_be_bytes());
}

#[test]
fn responses_are_read() {
    let response =
        HandshakeMessage::Response { version: 1, server_random: [5; 32], tag: [6; 32] }.encode();
    assert_eq!(read_response(&response), Ok(([5; 32], [6; 32])));
    assert_eq!(
        read_response(&[]),
        Err(HandshakeFailure::Malformed(HandshakeError::TooShort { have: 0, need: 1 }))
    );
    assert_eq!(
        read_response(&encode_encrypted_data(b"data")),
        Err(HandshakeFailure::NotAResponse)
    );
    assert_eq!(
        read_response(&start_handshake([0; 32])),
        Err(HandshakeFailure::NotAResponse)
    );
    let newer =
        HandshakeMessage::Response { version: 2, server_random: [5; 32], tag: [6; 32] }.encode();
    assert_eq!(read_response(&newer), Err(HandshakeFailure::UnsupportedVersion(2)));
}

#[test]
fn a_wrong_tag_fails_the_handshake() {
    let tag = handshake_tag(2, 1, &[0x43; 32], &[1; 32], &[2; 32]);
    let response =
        HandshakeMessage::Response { version: 1, server_random: [2; 32], tag }.encode();
    assert_eq!(
        handle_response(&response, &PSK, &[1; 32]).err(),
        Some(HandshakeFailure::AuthenticationFailed)
    );
    // A confirmation tag is no response tag.
    let tag = handshake_tag(3, 1, &PSK, &[1; 32], &[2; 32]);
    let response =
        HandshakeMessage::Response { version: 1, server_random: [2; 32], tag }.encode();
    assert_eq!(
        handle_response(&response, &PSK, &[1; 32]).err(),
        Some(HandshakeFailure::AuthenticationFailed)
    );
}

#[test]
fn concluding_compares_tags_and_makes_the_confirmation() {
    let ciphers = || SessionCiphers::from_keys([1; 32], [2; 32]);
    let done = conclude(&[7; 32], &[7; 32], [9; 32], ciphers()).ok().unwrap();
    assert_eq!(done.confirm, HandshakeMessage::Confirm { tag: [9; 32] }.encode());
    assert_eq!(
        done.session_ciphers.client_to_server_fingerprint,
        ciphers().client_to_server_fingerprint
    );
    assert_eq!(
        conclude(&[7; 32], &[8; 32], [9; 32], ciphers()).err(),
        Some(HandshakeFailure::AuthenticationFailed)
    );
}

#[test]
fn handshake_failures_are_described() {
    let described = |f: HandshakeFailure| {
        let e = f.describe();
        (e.kind, e.message)
    };
    assert_eq!(
        described(HandshakeFailure::TimedOut),
        (ErrorKind::TimedOut, "timed out waiting for handshake response".to_string())
    );
    assert_eq!(
        described(HandshakeFailure::Malformed(HandshakeError::UnknownMessageType { found: 9 })),
        (
            ErrorKind::InvalidData,
            "malformed handshake response: unknown message type: 9".to_string()
        )
    );
    assert_eq!(
        described(HandshakeFailure::NotAResponse),
        (ErrorKind::InvalidData, "expected a HandshakeResponse".to_string())
    );
    assert_eq!(
        described(HandshakeFailure::UnsupportedVersion(3)),
        (ErrorKind::InvalidData, "unsupported handshake version 3".to_string())
    );
    assert_eq!(
        described(HandshakeFailure::AuthenticationFailed),
        (ErrorKind::PermissionDenied, "handshake authentication failed".to_string())
    );
}

#[test]
fn waits_that_ran_out_look_alike() {
    assert_eq!(HANDSHAKE_TIMEOUT_SECS, 5);
    for kind in [ErrorKind::WouldBlock, ErrorKind::TimedOut] {
        let e = receive_failure(Error::new(kind, "resource temporarily unavailable"));
        assert_eq!(e, Error::new(ErrorKind::TimedOut, "timed out waiting for handshake response"));
    }
    let e = receive_failure(Error::new(ErrorKind::Other, "connection refused"));
    assert_eq!(e, Error::new(ErrorKind::Other, "connection refused"));
}

#[test]
fn relays_end_cleanly_on_request_only() {
    let interrupted = Error::new(ErrorKind::Interrupted, "");
    let other = Error::new(ErrorKind::Other, "");
    assert_eq!(relay_end(&interrupted, true), RelayEnd::Shutdown);
    assert_eq!(relay_end(&interrupted, false), RelayEnd::Failure);
    assert_eq!(relay_end(&other, true), RelayEnd::Failure);
}

#[test]
fn authenticated_clients_know_their_server() {
    let client = AuthenticatedClient {
        server: SocketAddress::V4 { ip: 0xCB00_710A, port: 9001 },
        session_ciphers: SessionCiphers::from_keys([1; 32], [2; 32]),
    };
    assert_eq!(client.server_ip(), IpAddress::V4(0xCB00_710A));
    let v6 = SocketAddress::V6 { ip: 5, port: 1, flowinfo: 2, scope_id: 3 };
    assert_eq!(v6.ip(), IpAddress::V6(5));
}

#[test]
fn pre_shared_keys_are_loaded() {
    let contents = format!("[crypto]\nkey = \"{}\"\n", "0a".repeat(32));
    assert_eq!(load_psk(&contents), Ok([0x0a; 32]));
    assert_eq!(server::load_psk(&contents), Ok([0x0a; 32]));
    assert_eq!(
        load_psk("[crypto]\nkey = \"0a\"\n"),
        Err(PskError::Crypto(crypto::CryptoError::InvalidKeyLength { expected: 64, found: 2 }))
    );
    let missing = load_psk("[crypto]\n").err().unwrap();
    assert_eq!(missing, PskError::Config(config::ConfigError::MissingKey));
    assert_eq!(missing.message(), "[crypto] section has no 'key' entry");
    assert_eq!(
        PskError::Crypto(crypto::CryptoError::InvalidKeyHex).message(),
        "key is not valid hex"
    );
}
