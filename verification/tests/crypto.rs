use tinyvpn::crypto::{
    build_nonce, derive_session_ciphers, generate_random, handshake_tag, parse_key_hex, verify_tag,
    Cipher, CryptoError, Direction, COUNTER_SIZE, KEY_SIZE, RANDOM_SIZE,
};
use tinyvpn::protocol::MAX_FRAME_SIZE;


fn test_key(byte: u8) -> [u8; KEY_SIZE] {
    [byte; KEY_SIZE]
}

#[test]
fn crypto_round_trip() {
    let mut cipher = Cipher::new(test_key(0x11));
    let plaintext = b"a v0.5 frame goes here".to_vec();
    let envelope = cipher.encrypt(Direction::ClientToServer, &plaintext);
    let decrypted = cipher
        .decrypt(Direction::ClientToServer, &envelope)
        .expect("decryption should succeed");
    assert_eq!(decrypted, plaintext);
}

#[test]
fn tampered_ciphertext_fails() {
    let mut cipher = Cipher::new(test_key(0x22));
    let mut envelope = cipher.encrypt(Direction::ClientToServer, b"hello");
    let last = envelope.len() - 1;
    envelope[last] ^= 0xFF;
    assert!(matches!(
        cipher.decrypt(Direction::ClientToServer, &envelope),
        Err(CryptoError::AuthenticationFailed)
    ));
}

#[test]
fn tampered_counter_fails() {
    let mut cipher = Cipher::new(test_key(0x33));
    let mut envelope = cipher.encrypt(Direction::ClientToServer, b"hello");
    envelope[0] ^= 0xFF; // corrupt the transmitted counter (part of the AAD)
    assert!(matches!(
        cipher.decrypt(Direction::ClientToServer, &envelope),
        Err(CryptoError::AuthenticationFailed)
    ));
}

#[test]
fn wrong_key_fails() {
    let mut cipher_a = Cipher::new(test_key(0x44));
    let cipher_b = Cipher::new(test_key(0x55));
    let envelope = cipher_a.encrypt(Direction::ClientToServer, b"hello");
    assert!(matches!(
        cipher_b.decrypt(Direction::ClientToServer, &envelope),
        Err(CryptoError::AuthenticationFailed)
    ));
}

#[test]
fn different_counters_produce_different_ciphertexts() {
    let mut cipher = Cipher::new(test_key(0x66));
    let a = cipher.encrypt(Direction::ClientToServer, b"same plaintext");
    let b = cipher.encrypt(Direction::ClientToServer, b"same plaintext");
    // Different counters (0, then 1) -> different nonces -> different
    // ciphertext, even for byte-identical plaintext.
    assert_ne!(a, b);
}

#[test]
fn empty_plaintext_round_trips() {
    let mut cipher = Cipher::new(test_key(0x77));
    let envelope = cipher.encrypt(Direction::ClientToServer, b"");
    let decrypted = cipher
        .decrypt(Direction::ClientToServer, &envelope)
        .unwrap();
    assert_eq!(decrypted, Vec::<u8>::new());
}

#[test]
fn maximum_frame_round_trips() {
    let mut cipher = Cipher::new(test_key(0x88));
    let plaintext = vec![0xAB; MAX_FRAME_SIZE];
    let envelope = cipher.encrypt(Direction::ClientToServer, &plaintext);
    let decrypted = cipher
        .decrypt(Direction::ClientToServer, &envelope)
        .unwrap();
    assert_eq!(decrypted, plaintext);
}

#[test]
fn direction_changes_the_nonce() {
    // Same counter value, different direction -> different nonce.
    // This is the property that keeps the two directions from ever
    // colliding despite sharing one key.
    let nonce_c2s = build_nonce(Direction::ClientToServer, 0);
    let nonce_s2c = build_nonce(Direction::ServerToClient, 0);
    assert_ne!(nonce_c2s, nonce_s2c);
}

#[test]
fn cross_direction_decrypt_fails() {
    // Encrypting as Client->Server and attempting to decrypt as if it
    // were Server->Client (same key, same counter value) must fail,
    // because the two directions use disjoint nonces.
    let mut cipher = Cipher::new(test_key(0x99));
    let envelope = cipher.encrypt(Direction::ClientToServer, b"hello");
    assert!(matches!(
        cipher.decrypt(Direction::ServerToClient, &envelope),
        Err(CryptoError::AuthenticationFailed)
    ));
}

#[test]
fn truncated_envelope_is_rejected_without_panicking() {
    let cipher = Cipher::new(test_key(0xAA));
    let short = vec![0u8; COUNTER_SIZE]; // no ciphertext/tag at all
    assert!(matches!(
        cipher.decrypt(Direction::ClientToServer, &short),
        Err(CryptoError::TruncatedEnvelope { .. })
    ));
}

#[test]
fn key_hex_round_trip() {
    let key = test_key(0xCD);
    let hex: String = key.iter().map(|b| format!("{b:02x}")).collect();
    let parsed = parse_key_hex(&hex).unwrap();
    assert_eq!(parsed, key);
}

#[test]
fn key_hex_wrong_length_is_rejected() {
    assert!(matches!(
        parse_key_hex("abcd"),
        Err(CryptoError::InvalidKeyLength { .. })
    ));
}

#[test]
fn key_hex_invalid_characters_are_rejected() {
    let bad = "zz".repeat(KEY_SIZE);
    assert!(matches!(parse_key_hex(&bad), Err(CryptoError::InvalidKeyHex)));
}

fn test_psk(byte: u8) -> [u8; KEY_SIZE] {
    [byte; KEY_SIZE]
}

fn test_random(byte: u8) -> [u8; RANDOM_SIZE] {
    [byte; RANDOM_SIZE]
}

#[test]
fn generated_randoms_differ() {
    // Not a proof of CSPRNG quality, just a sanity check that we're
    // not accidentally returning a constant or predictable value.
    let a = generate_random();
    let b = generate_random();
    assert_ne!(a, b);
}

#[test]
fn handshake_tag_round_trip_with_matching_psk() {
    let psk = test_psk(0x01);
    let client_random = test_random(0xAA);
    let server_random = test_random(0xBB);
    let tag = handshake_tag(2, 1, &psk, &client_random, &server_random);
    let recomputed = handshake_tag(2, 1, &psk, &client_random, &server_random);
    assert!(verify_tag(&tag, &recomputed));
}

#[test]
fn handshake_tag_wrong_psk_fails() {
    let client_random = test_random(0xAA);
    let server_random = test_random(0xBB);
    let tag_a = handshake_tag(2, 1, &test_psk(0x01), &client_random, &server_random);
    let tag_b = handshake_tag(2, 1, &test_psk(0x02), &client_random, &server_random);
    assert!(!verify_tag(&tag_a, &tag_b));
}

#[test]
fn handshake_tag_modified_client_random_fails() {
    let psk = test_psk(0x01);
    let server_random = test_random(0xBB);
    let tag = handshake_tag(2, 1, &psk, &test_random(0xAA), &server_random);
    let recomputed = handshake_tag(2, 1, &psk, &test_random(0xAC), &server_random);
    assert!(!verify_tag(&tag, &recomputed));
}

#[test]
fn handshake_tag_modified_server_random_fails() {
    let psk = test_psk(0x01);
    let client_random = test_random(0xAA);
    let tag = handshake_tag(2, 1, &psk, &client_random, &test_random(0xBB));
    let recomputed = handshake_tag(2, 1, &psk, &client_random, &test_random(0xBC));
    assert!(!verify_tag(&tag, &recomputed));
}

#[test]
fn handshake_tag_modified_message_type_fails() {
    let psk = test_psk(0x01);
    let client_random = test_random(0xAA);
    let server_random = test_random(0xBB);
    // Response tag (type 2) must not validate as a Confirm tag (type 3).
    let response_tag = handshake_tag(2, 1, &psk, &client_random, &server_random);
    let confirm_tag = handshake_tag(3, 1, &psk, &client_random, &server_random);
    assert!(!verify_tag(&response_tag, &confirm_tag));
}

#[test]
fn handshake_tag_modified_version_fails() {
    let psk = test_psk(0x01);
    let client_random = test_random(0xAA);
    let server_random = test_random(0xBB);
    let tag_v1 = handshake_tag(2, 1, &psk, &client_random, &server_random);
    let tag_v2 = handshake_tag(2, 2, &psk, &client_random, &server_random);
    assert!(!verify_tag(&tag_v1, &tag_v2));
}

#[test]
fn different_client_randoms_produce_different_session_material() {
    let psk = test_psk(0x10);
    let server_random = test_random(0x20);
    let session_a = derive_session_ciphers(&psk, &test_random(0x01), &server_random);
    let session_b = derive_session_ciphers(&psk, &test_random(0x02), &server_random);
    assert_ne!(
        session_a.client_to_server_fingerprint,
        session_b.client_to_server_fingerprint
    );
    assert_ne!(
        session_a.server_to_client_fingerprint,
        session_b.server_to_client_fingerprint
    );
}

#[test]
fn different_server_randoms_produce_different_session_material() {
    let psk = test_psk(0x10);
    let client_random = test_random(0x20);
    let session_a = derive_session_ciphers(&psk, &client_random, &test_random(0x01));
    let session_b = derive_session_ciphers(&psk, &client_random, &test_random(0x02));
    assert_ne!(
        session_a.client_to_server_fingerprint,
        session_b.client_to_server_fingerprint
    );
    assert_ne!(
        session_a.server_to_client_fingerprint,
        session_b.server_to_client_fingerprint
    );
}

#[test]
fn two_complete_handshakes_produce_different_session_keys() {
    // Restart: same PSK, but a fresh
    // handshake (fresh randoms) each time -- session A and session B
    // must not share key material.
    let psk = test_psk(0x42);

    let session_a = derive_session_ciphers(&psk, &generate_random(), &generate_random());
    let session_b = derive_session_ciphers(&psk, &generate_random(), &generate_random());

    assert_ne!(
        session_a.client_to_server_fingerprint,
        session_b.client_to_server_fingerprint
    );
    assert_ne!(
        session_a.server_to_client_fingerprint,
        session_b.server_to_client_fingerprint
    );
}

#[test]
fn directional_session_keys_differ() {
    let psk = test_psk(0x55);
    let client_random = test_random(0x01);
    let server_random = test_random(0x02);
    let session = derive_session_ciphers(&psk, &client_random, &server_random);
    assert_ne!(
        session.client_to_server_fingerprint,
        session.server_to_client_fingerprint
    );
}

#[test]
fn session_cross_direction_key_cannot_decrypt() {
    // A client->server encrypted packet must not be decryptable with
    // the server->client key from the same session.
    let psk = test_psk(0x66);
    let client_random = test_random(0x01);
    let server_random = test_random(0x02);
    let mut session = derive_session_ciphers(&psk, &client_random, &server_random);

    let envelope = session
        .client_to_server
        .encrypt(Direction::ClientToServer, b"secret payload");

    assert!(matches!(
        session
            .server_to_client
            .decrypt(Direction::ClientToServer, &envelope),
        Err(CryptoError::AuthenticationFailed)
    ));
}

#[test]
fn session_from_old_handshake_cannot_be_decrypted_by_new_session() {
    // Session A encrypts a packet; session B (a later, independent
    // handshake under the same PSK) must not be able to decrypt it,
    // even though both use the same Direction tag.
    let psk = test_psk(0x77);
    let mut session_a = derive_session_ciphers(&psk, &test_random(0x01), &test_random(0x02));
    let session_b = derive_session_ciphers(&psk, &test_random(0x03), &test_random(0x04));

    let envelope_from_a = session_a
        .client_to_server
        .encrypt(Direction::ClientToServer, b"session A data");

    assert!(matches!(
        session_b
            .client_to_server
            .decrypt(Direction::ClientToServer, &envelope_from_a),
        Err(CryptoError::AuthenticationFailed)
    ));
}

#[test]
fn fresh_session_counter_at_zero_does_not_reuse_old_session_nonce() {
    // Session A's Cipher and session B's Cipher
    // both start their counter at 0, but because their keys differ,
    // the (key, nonce) pairs never collide -- so encrypting the same
    // plaintext under counter 0 in both sessions produces different,
    // safe ciphertexts.
    let psk = test_psk(0x88);
    let mut session_a = derive_session_ciphers(&psk, &test_random(0x01), &test_random(0x02));
    let mut session_b = derive_session_ciphers(&psk, &test_random(0x03), &test_random(0x04));

    let plaintext = b"identical plaintext, counter 0 in both sessions";
    let envelope_a = session_a
        .client_to_server
        .encrypt(Direction::ClientToServer, plaintext);
    let envelope_b = session_b
        .client_to_server
        .encrypt(Direction::ClientToServer, plaintext);

    // Same counter (0) is visible in both envelopes' first 8 bytes...
    assert_eq!(&envelope_a[..COUNTER_SIZE], &envelope_b[..COUNTER_SIZE]);
    // ...but the ciphertexts differ, because the keys differ.
    assert_ne!(envelope_a, envelope_b);
}
