//! Exact values of nonces, envelopes, tags and keys.
use tinyvpn::crypto::{
    authenticated, build_nonce, derive_session_ciphers, fingerprint_of_digest, handshake_tag,
    handshake_tag_info, join_envelope, key_fingerprint, parse_key_hex, session_info, verify_tag,
    Cipher, CryptoError, Direction, SessionCiphers, CLIENT_TO_SERVER_LABEL, HKDF_CONTEXT_PREFIX,
    SERVER_TO_CLIENT_LABEL, SESSION_LABEL,
};
use tinyvpn::text::hex_string;

fn hex(bytes: &[u8]) -> String {
    bytes.iter().map(|b| format!("{b:02x}")).collect()
}

#[test]
fn nonces_are_exact() {
    assert_eq!(
        build_nonce(Direction::ClientToServer, 0x0102_0304_0506_0708),
        [0, 0, 0, 0, 1, 2, 3, 4, 5, 6, 7, 8]
    );
    assert_eq!(
        build_nonce(Direction::ServerToClient, u64::MAX),
        [1, 0, 0, 0, 255, 255, 255, 255, 255, 255, 255, 255]
    );
    assert_eq!(Direction::ClientToServer.tag_byte(), 0);
    assert_eq!(Direction::ServerToClient.tag_byte(), 1);
}

#[test]
fn envelopes_are_exact() {
    let mut cipher = Cipher::new([0x11; 32]);
    assert_eq!(
        hex(&cipher.encrypt(Direction::ClientToServer, b"hello")),
        "0000000000000000cdd9fbfa167d2b7eba52faad59dabeefba9f087b50"
    );
    assert_eq!(
        hex(&cipher.encrypt(Direction::ClientToServer, b"hello")),
        "00000000000000018d4dcf023a1141acf4d9f2678f5b5786fbd88b0026"
    );
    let mut cipher = Cipher::new([0x11; 32]);
    assert_eq!(
        hex(&cipher.encrypt(Direction::ServerToClient, b"hello")),
        "0000000000000000c0e3d845f0804af8f58d90d438f3e8ac1618e3ded5"
    );
}

#[test]
fn counters_advance_by_one() {
    let mut cipher = Cipher::new([0x12; 32]);
    for expected in 0..300u64 {
        let envelope = cipher.encrypt(Direction::ClientToServer, b"x");
        assert_eq!(&envelope[..8], &expected.to_be_bytes());
        assert_eq!(cipher.decrypt(Direction::ClientToServer, &envelope).unwrap(), b"x");
    }
}

#[test]
fn envelope_lengths() {
    let mut cipher = Cipher::new([0x13; 32]);
    for len in [0usize, 1, 63, 64, 65, 1506] {
        let plaintext = vec![0x5A; len];
        let envelope = cipher.encrypt(Direction::ServerToClient, &plaintext);
        assert_eq!(envelope.len(), len + 24);
        assert_eq!(cipher.decrypt(Direction::ServerToClient, &envelope), Ok(plaintext));
    }
}

#[test]
fn truncated_envelopes_name_their_length() {
    let cipher = Cipher::new([0x14; 32]);
    assert_eq!(
        cipher.decrypt(Direction::ClientToServer, &[0; 23]),
        Err(CryptoError::TruncatedEnvelope { have: 23, need: 24 })
    );
    assert_eq!(
        cipher.decrypt(Direction::ClientToServer, &[0; 24]),
        Err(CryptoError::AuthenticationFailed)
    );
}

#[test]
fn envelope_is_counter_and_ciphertext() {
    assert_eq!(join_envelope(258, &[9, 8]), vec![0, 0, 0, 0, 0, 0, 1, 2, 9, 8]);
    assert_eq!(authenticated(Some(vec![1])), Ok(vec![1]));
    assert_eq!(authenticated(None), Err(CryptoError::AuthenticationFailed));
}

#[test]
fn labels_spell_their_texts() {
    assert_eq!(&HKDF_CONTEXT_PREFIX, b"tiny-vpn-v0.7");
    assert_eq!(&SESSION_LABEL, b"-session-");
    assert_eq!(&CLIENT_TO_SERVER_LABEL, b"client-to-server");
    assert_eq!(&SERVER_TO_CLIENT_LABEL, b"server-to-client");
}

#[test]
fn contexts_are_exact() {
    let mut expected = b"tiny-vpn-v0.7".to_vec();
    expected.extend_from_slice(&[2, 1]);
    expected.extend_from_slice(&[0xAA; 32]);
    expected.extend_from_slice(&[0xBB; 32]);
    assert_eq!(handshake_tag_info(2, 1, &[0xAA; 32], &[0xBB; 32]), expected);

    let mut expected = b"tiny-vpn-v0.7-session-client-to-server".to_vec();
    expected.extend_from_slice(&[0xAA; 32]);
    expected.extend_from_slice(&[0xBB; 32]);
    assert_eq!(session_info(b"client-to-server", &[0xAA; 32], &[0xBB; 32]), expected);
}

#[test]
fn tags_are_exact() {
    let response = handshake_tag(2, 1, &[1; 32], &[0xAA; 32], &[0xBB; 32]);
    assert_eq!(
        hex(&response),
        "44fc9072a6c62e39ec57c65895910fddca8db2bd209f8f2a713665dd0ba9615d"
    );
    let confirm = handshake_tag(3, 1, &[1; 32], &[0xAA; 32], &[0xBB; 32]);
    assert_eq!(
        hex(&confirm),
        "5f2cf94d54051cf923afc1419ede58c2ce0832b29f84cab5c7ab63cc10afcd10"
    );
    assert!(!verify_tag(&response, &confirm));
    assert!(verify_tag(&response, &response));
}

#[test]
fn tags_differing_in_the_last_byte_are_told_apart() {
    let mut other = [0u8; 32];
    other[31] = 1;
    assert!(!verify_tag(&[0; 32], &other));
}

#[test]
fn session_material_is_exact() {
    let mut session = derive_session_ciphers(&[1; 32], &[0xAA; 32], &[0xBB; 32]);
    assert_eq!(session.client_to_server_fingerprint, "6a22bcec03fe76d1");
    assert_eq!(session.server_to_client_fingerprint, "ddf7a663b9f86d20");

    let key = parse_key_hex("7578c3440eb3e6d9d98e37d176a93cf67aadf4912bea3a02f50920a293be52e9");
    let same = Cipher::new(key.unwrap());
    let envelope = session.client_to_server.encrypt(Direction::ClientToServer, b"packet");
    assert_eq!(&envelope[..8], &[0; 8]);
    assert_eq!(same.decrypt(Direction::ClientToServer, &envelope), Ok(b"packet".to_vec()));
}

#[test]
fn sessions_are_made_from_keys() {
    let session = SessionCiphers::from_keys([7; 32], [8; 32]);
    assert_eq!(session.client_to_server_fingerprint, key_fingerprint(&[7; 32]));
    assert_eq!(session.server_to_client_fingerprint, key_fingerprint(&[8; 32]));
}

#[test]
fn fingerprints_show_eight_bytes() {
    let mut digest = [0xFFu8; 32];
    digest[0] = 0x01;
    digest[7] = 0xA0;
    assert_eq!(fingerprint_of_digest(&digest), "01ffffffffffffa0");
    // SHA-256 of 32 zero bytes starts 66687aadf862bd77.
    assert_eq!(key_fingerprint(&[0; 32]), "66687aadf862bd77");
}

#[test]
fn both_sides_derive_the_same_session() {
    let mut client = derive_session_ciphers(&[9; 32], &[1; 32], &[2; 32]);
    let mut server = derive_session_ciphers(&[9; 32], &[1; 32], &[2; 32]);
    let up = client.client_to_server.encrypt(Direction::ClientToServer, b"up");
    assert_eq!(server.client_to_server.decrypt(Direction::ClientToServer, &up).unwrap(), b"up");
    let down = server.server_to_client.encrypt(Direction::ServerToClient, b"down");
    assert_eq!(
        client.server_to_client.decrypt(Direction::ServerToClient, &down).unwrap(),
        b"down"
    );
}

#[test]
fn keys_are_read_in_either_case_and_trimmed() {
    let text = "  \t00ff7F80aBcDeF0123456789abcdef00112233445566778899AABBCCDDEEFF00\n ";
    let key = parse_key_hex(text).unwrap();
    assert_eq!(key[..8], [0x00, 0xff, 0x7f, 0x80, 0xab, 0xcd, 0xef, 0x01]);
    assert_eq!(key[31], 0x00);
    assert_eq!(
        hex_string(&key),
        "00ff7f80abcdef0123456789abcdef00112233445566778899aabbccddeeff00"
    );
}

#[test]
fn key_lengths_count_bytes() {
    assert_eq!(
        parse_key_hex(""),
        Err(CryptoError::InvalidKeyLength { expected: 64, found: 0 })
    );
    assert_eq!(
        parse_key_hex(&"a".repeat(65)),
        Err(CryptoError::InvalidKeyLength { expected: 64, found: 65 })
    );
    // Thirty-two characters of two bytes each.
    assert_eq!(parse_key_hex(&"\u{e9}".repeat(32)), Err(CryptoError::InvalidKeyHex));
    assert_eq!(
        parse_key_hex(&"\u{e9}".repeat(31)),
        Err(CryptoError::InvalidKeyLength { expected: 64, found: 62 })
    );
}

#[test]
fn signs_are_no_hex_digits() {
    assert_eq!(parse_key_hex(&"+f".repeat(32)), Err(CryptoError::InvalidKeyHex));
}

#[test]
fn crypto_error_texts() {
    assert_eq!(
        CryptoError::InvalidKeyLength { expected: 64, found: 4 }.message(),
        "invalid key length: expected 64 hex characters, found 4"
    );
    assert_eq!(CryptoError::InvalidKeyHex.message(), "key is not valid hex");
    assert_eq!(CryptoError::AuthenticationFailed.message(), "authentication failed");
    assert_eq!(
        CryptoError::TruncatedEnvelope { have: 8, need: 24 }.message(),
        "truncated encrypted packet: have 8 bytes, need at least 24"
    );
}

#[test]
fn nonces_of_successive_packets_differ() {
    let mut nonces = Vec::new();
    for counter in 0..4u64 {
        nonces.push(build_nonce(Direction::ClientToServer, counter));
        nonces.push(build_nonce(Direction::ServerToClient, counter));
    }
    for i in 0..nonces.len() {
        for j in 0..i {
            assert_ne!(nonces[i], nonces[j]);
        }
    }
}

#[test]
fn contexts_are_told_apart() {
    let (c, s) = ([1u8; 32], [2u8; 32]);
    let response = handshake_tag_info(2, 1, &c, &s);
    let confirm = handshake_tag_info(3, 1, &c, &s);
    let up = session_info(b"client-to-server", &c, &s);
    let down = session_info(b"server-to-client", &c, &s);
    let contexts = [response, confirm, up, down, handshake_tag_info(2, 1, &s, &c)];
    for i in 0..contexts.len() {
        for j in 0..i {
            assert_ne!(contexts[i], contexts[j]);
        }
    }
}
