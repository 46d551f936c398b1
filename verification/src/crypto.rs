//! Packet encryption, handshake tags and session keys.
//!
//! A packet travels as `counter(8) || ciphertext || tag(16)`. The nonce holds
//! the direction and the counter:
//!
//! ```text
//! byte  0:    direction (0 = client to server, 1 = server to client)
//! bytes 1-3:  zero
//! bytes 4-11: packet counter, big-endian
//! ```
//!
//! so the two directions never share a nonce, and a counter that never repeats
//! keeps the nonces of one direction apart. The counter is sent in the clear and
//! authenticated as associated data.
//!
//! Handshake tags and session keys are HKDF-SHA256 outputs keyed by the
//! pre-shared key, told apart by their context:
//!
//! ```text
//! tag:         "tiny-vpn-v0.7" || type || version || client random || server random
//! session key: "tiny-vpn-v0.7-session-" || label || client random || server random
//! ```
//!
//! Every session has fresh random values, hence fresh keys, so its counters can
//! start at zero.
use vstd::prelude::*;

use crate::{bytes, primitives, text};

verus! {

/// Size of a pre-shared key or a session key.
pub const KEY_SIZE: usize = 32;

/// Size of the counter in front of a ciphertext.
pub const COUNTER_SIZE: usize = 8;

/// Size of the authentication tag behind a ciphertext.
pub const TAG_SIZE: usize = 16;

/// Longest envelope that a cipher can have sealed: the counter, the longest
/// message of the cipher and the tag.
pub const MAX_ENVELOPE_SIZE: u64 = 0x3f_ffff_ff98;

/// Size of the random value that each side puts into a handshake.
pub const RANDOM_SIZE: usize = 32;

/// Size of a handshake tag.
pub const HANDSHAKE_TAG_SIZE: usize = 32;

/// "tiny-vpn-v0.7"
pub const HKDF_CONTEXT_PREFIX: [u8; 13] = [
    0x74, 0x69, 0x6e, 0x79, 0x2d, 0x76, 0x70, 0x6e, 0x2d, 0x76, 0x30, 0x2e, 0x37,
];

/// "-session-"
pub const SESSION_LABEL: [u8; 9] = [0x2d, 0x73, 0x65, 0x73, 0x73, 0x69, 0x6f, 0x6e, 0x2d];

/// "client-to-server"
pub const CLIENT_TO_SERVER_LABEL: [u8; 16] = [
    0x63, 0x6c, 0x69, 0x65, 0x6e, 0x74, 0x2d, 0x74, 0x6f, 0x2d, 0x73, 0x65, 0x72, 0x76, 0x65, 0x72,
];

/// "server-to-client"
pub const SERVER_TO_CLIENT_LABEL: [u8; 16] = [
    0x73, 0x65, 0x72, 0x76, 0x65, 0x72, 0x2d, 0x74, 0x6f, 0x2d, 0x63, 0x6c, 0x69, 0x65, 0x6e, 0x74,
];

/// The direction of a packet. It is never sent: each side knows its role.
#[derive(Debug, Clone, Copy, PartialEq, Eq, Structural)]
pub enum Direction {
    ClientToServer,
    ServerToClient,
}

impl Direction {
    /// The first nonce byte of the direction.
    pub open spec fn tag(self) -> u8 {
        match self {
            Direction::ClientToServer => 0,
            Direction::ServerToClient => 1,
        }
    }

    /// The first nonce byte of the direction.
    pub fn tag_byte(self) -> (b: u8)
        ensures
            b == self.tag(),
    {
        match self {
            Direction::ClientToServer => 0,
            Direction::ServerToClient => 1,
        }
    }
}

/// Why a key cannot be read or a packet not be decrypted. No variant holds key
/// material or plaintext, and a failed authentication says nothing of its cause.
#[derive(Debug, Clone, Copy, PartialEq, Eq, Structural)]
pub enum CryptoError {
    InvalidKeyLength { expected: usize, found: usize },
    InvalidKeyHex,
    /// Tampered ciphertext, tampered counter or wrong key.
    AuthenticationFailed,
    TruncatedEnvelope { have: usize, need: usize },
}

impl CryptoError {
    /// The text of the error.
    pub open spec fn message_chars(self) -> Seq<char> {
        match self {
            CryptoError::InvalidKeyLength { expected, found } => "invalid key length: expected "@
                + text::decimal_chars(expected as nat) + " hex characters, found "@
                + text::decimal_chars(found as nat),
            CryptoError::InvalidKeyHex => "key is not valid hex"@,
            CryptoError::AuthenticationFailed => "authentication failed"@,
            CryptoError::TruncatedEnvelope { have, need } => "truncated encrypted packet: have "@
                + text::decimal_chars(have as nat) + " bytes, need at least "@
                + text::decimal_chars(need as nat),
        }
    }

    /// Describes the error.
    pub fn message(&self) -> (m: String)
        ensures
            m@ == self.message_chars(),
    {
        match self {
            CryptoError::InvalidKeyLength { expected, found } => {
                let mut m = "invalid key length: expected ".to_owned();
                m.append(text::decimal(*expected as u64).as_str());
                m.append(" hex characters, found ");
                m.append(text::decimal(*found as u64).as_str());
                m
            },
            CryptoError::InvalidKeyHex => "key is not valid hex".to_owned(),
            CryptoError::AuthenticationFailed => "authentication failed".to_owned(),
            CryptoError::TruncatedEnvelope { have, need } => {
                let mut m = "truncated encrypted packet: have ".to_owned();
                m.append(text::decimal(*have as u64).as_str());
                m.append(" bytes, need at least ");
                m.append(text::decimal(*need as u64).as_str());
                m
            },
        }
    }
}

/// The byte that two hexadecimal digits stand for.
pub open spec fn hex_pair_value(high: u8, low: u8) -> u8 {
    (text::hex_digit_value(high)->Some_0 * 16 + text::hex_digit_value(low)->Some_0) as u8
}

/// Whether every byte is a hexadecimal digit.
pub open spec fn all_hex(s: Seq<u8>) -> bool {
    forall|i: int| 0 <= i < s.len() ==> text::hex_digit_value(#[trigger] s[i]) is Some
}

/// The key that a text stands for: 64 hexadecimal digits, with white space around
/// them ignored. Lengths count bytes of UTF-8.
pub open spec fn parsed_key(hex: Seq<char>) -> Result<Seq<u8>, CryptoError> {
    let digits = vstd::utf8::encode_utf8(text::trimmed(hex));
    if digits.len() != KEY_SIZE * 2 {
        Err(
            CryptoError::InvalidKeyLength {
                expected: (KEY_SIZE * 2) as usize,
                found: digits.len() as usize,
            },
        )
    } else if !all_hex(digits) {
        Err(CryptoError::InvalidKeyHex)
    } else {
        Ok(Seq::new(KEY_SIZE as nat, |i: int| hex_pair_value(digits[2 * i], digits[2 * i + 1])))
    }
}

/// Reads a pre-shared key from its hexadecimal form.
pub fn parse_key_hex(hex: &str) -> (r: Result<[u8; KEY_SIZE], CryptoError>)
    ensures
        match r {
            Ok(key) => parsed_key(hex@) == Ok::<Seq<u8>, CryptoError>(key@),
            Err(e) => parsed_key(hex@) == Err::<Seq<u8>, CryptoError>(e),
        },
{
    let chars = text::chars_of(hex);
    let trimmed = text::string_of(text::trim(chars.as_slice()));
    let digits = trimmed.as_str().as_bytes();
    if digits.len() != KEY_SIZE * 2 {
        return Err(
            CryptoError::InvalidKeyLength { expected: KEY_SIZE * 2, found: digits.len() },
        );
    }
    let mut key: [u8; KEY_SIZE] = [0u8; KEY_SIZE];
    let mut i: usize = 0;
    while i < KEY_SIZE
        invariant
            i <= KEY_SIZE,
            digits@.len() == KEY_SIZE * 2,
            digits@ == vstd::utf8::encode_utf8(text::trimmed(hex@)),
            forall|j: int| 0 <= j < 2 * i ==> text::hex_digit_value(#[trigger] digits@[j]) is Some,
            forall|j: int|
                0 <= j < i ==> #[trigger] key@[j] == hex_pair_value(digits@[2 * j], digits@[2 * j + 1]),
        decreases KEY_SIZE - i,
    {
        let high = text::read_hex_digit(digits[2 * i]);
        let low = text::read_hex_digit(digits[2 * i + 1]);
        match (high, low) {
            (Some(h), Some(l)) => {
                key[i] = h * 16 + l;
            },
            _ => {
                assert(!all_hex(digits@));
                return Err(CryptoError::InvalidKeyHex);
            },
        }
        i = i + 1;
    }
    assert(key@ =~= parsed_key(hex@)->Ok_0);
    Ok(key)
}

/// The nonce of a packet.
pub open spec fn nonce(direction: Direction, counter: u64) -> Seq<u8> {
    seq![direction.tag(), 0u8, 0u8, 0u8] + bytes::be64(counter)
}

/// The nonce of packet number `counter` in `direction`.
pub fn build_nonce(direction: Direction, counter: u64) -> (n: [u8; 12])
    ensures
        n@ == nonce(direction, counter),
{
    let mut counter_bytes: Vec<u8> = Vec::new();
    bytes::append_be64(&mut counter_bytes, counter);
    proof {
        bytes::lemma_be64_round_trip(counter);
    }
    assert(counter_bytes@ =~= bytes::be64(counter));
    let n: [u8; 12] = [
        direction.tag_byte(),
        0,
        0,
        0,
        counter_bytes[0],
        counter_bytes[1],
        counter_bytes[2],
        counter_bytes[3],
        counter_bytes[4],
        counter_bytes[5],
        counter_bytes[6],
        counter_bytes[7],
    ];
    assert(n@ =~= nonce(direction, counter));
    n
}

/// The envelope of a plaintext sent as packet number `counter`: the counter, then
/// the plaintext sealed under the packet's nonce with the counter as associated
/// data.
pub open spec fn sealed_envelope(
    key: Seq<u8>,
    direction: Direction,
    counter: u64,
    plaintext: Seq<u8>,
) -> Seq<u8> {
    bytes::be64(counter) + primitives::aead_sealed(
        key,
        nonce(direction, counter),
        bytes::be64(counter),
        plaintext,
    )
}

/// What an envelope decrypts to. One that is longer than any sealed envelope
/// fails like a tampered one.
pub open spec fn opened_envelope(
    key: Seq<u8>,
    direction: Direction,
    envelope: Seq<u8>,
) -> Result<Seq<u8>, CryptoError> {
    if envelope.len() < COUNTER_SIZE + TAG_SIZE {
        Err(
            CryptoError::TruncatedEnvelope {
                have: envelope.len() as usize,
                need: (COUNTER_SIZE + TAG_SIZE) as usize,
            },
        )
    } else if envelope.len() > MAX_ENVELOPE_SIZE {
        Err(CryptoError::AuthenticationFailed)
    } else {
        let counter = envelope.take(COUNTER_SIZE as int);
        match primitives::aead_opened(
            key,
            nonce(direction, bytes::be64_value(counter) as u64),
            counter,
            envelope.skip(COUNTER_SIZE as int),
        ) {
            Some(plaintext) => Ok(plaintext),
            None => Err(CryptoError::AuthenticationFailed),
        }
    }
}

/// What encrypting gives: the sealed envelope, one counter and one tag longer than
/// the plaintext, which decrypts to the plaintext.
pub open spec fn encrypts_to(
    key: Seq<u8>,
    direction: Direction,
    counter: u64,
    plaintext: Seq<u8>,
    envelope: Seq<u8>,
) -> bool {
    &&& envelope == sealed_envelope(key, direction, counter, plaintext)
    &&& envelope.len() == COUNTER_SIZE + plaintext.len() + TAG_SIZE
    &&& opened_envelope(key, direction, envelope) == Ok::<Seq<u8>, CryptoError>(plaintext)
}

/// What decrypting gives: a plaintext comes out only of the envelope that it is
/// sealed in with this key, this direction and the counter that the envelope shows.
pub open spec fn decrypts_to(
    key: Seq<u8>,
    direction: Direction,
    envelope: Seq<u8>,
    outcome: Result<Seq<u8>, CryptoError>,
) -> bool {
    &&& outcome == opened_envelope(key, direction, envelope)
    &&& outcome matches Ok(plaintext) ==> {
        &&& envelope == sealed_envelope(
            key,
            direction,
            bytes::be64_value(envelope) as u64,
            plaintext,
        )
        &&& plaintext.len() + COUNTER_SIZE + TAG_SIZE == envelope.len()
    }
}

/// A key with the number of the next packet to send. There is no way to get the
/// key back out of it.
pub struct Cipher {
    key: [u8; KEY_SIZE],
    send_counter: u64,
}

impl Cipher {
    /// The key.
    pub closed spec fn key(&self) -> Seq<u8> {
        self.key@
    }

    /// The number of the next packet to send.
    pub closed spec fn counter(&self) -> u64 {
        self.send_counter
    }

    /// A cipher that has sent nothing.
    pub fn new(key: [u8; KEY_SIZE]) -> (cipher: Self)
        ensures
            cipher.key() == key@,
            cipher.counter() == 0,
    {
        Cipher { key, send_counter: 0 }
    }

    /// Encrypts `plaintext` for sending in `direction` and advances the counter,
    /// which wraps after 2^64 packets. The envelope decrypts to the plaintext
    /// under the same key and direction.
    pub fn encrypt(&mut self, direction: Direction, plaintext: &[u8]) -> (envelope: Vec<u8>)
        requires
            primitives::sealable(plaintext@.len()),
        ensures
            encrypts_to(
                old(self).key(),
                direction,
                old(self).counter(),
                plaintext@,
                envelope@,
            ),
            final(self).key() == old(self).key(),
            final(self).counter() == old(self).counter().wrapping_add(1),
    {
        let counter: u64 = self.send_counter;
        self.send_counter = counter.wrapping_add(1);
        let nonce = build_nonce(direction, counter);
        let mut counter_bytes: Vec<u8> = Vec::new();
        bytes::append_be64(&mut counter_bytes, counter);
        assert(counter_bytes@ =~= bytes::be64(counter));
        let ciphertext = primitives::aead_seal(
            &self.key,
            &nonce,
            counter_bytes.as_slice(),
            plaintext,
        );
        let envelope = join_envelope(counter, ciphertext.as_slice());
        proof {
            bytes::lemma_be64_round_trip(counter);
            assert(envelope@.take(COUNTER_SIZE as int) =~= bytes::be64(counter));
            assert(envelope@.skip(COUNTER_SIZE as int) =~= ciphertext@);
        }
        envelope
    }

    /// Decrypts an envelope that its sender sent in `direction`. A plaintext comes
    /// back only from an envelope that was sealed with this key, direction and the
    /// counter that the envelope shows.
    pub fn decrypt(&self, direction: Direction, envelope: &[u8]) -> (r: Result<
        Vec<u8>,
        CryptoError,
    >)
        ensures
            decrypts_to(
                self.key(),
                direction,
                envelope@,
                match r {
                    Ok(plaintext) => Ok(plaintext@),
                    Err(e) => Err(e),
                },
            ),
    {
        if envelope.len() < COUNTER_SIZE + TAG_SIZE {
            return Err(
                CryptoError::TruncatedEnvelope {
                    have: envelope.len(),
                    need: COUNTER_SIZE + TAG_SIZE,
                },
            );
        }
        if envelope.len() as u64 > MAX_ENVELOPE_SIZE {
            return Err(CryptoError::AuthenticationFailed);
        }
        let counter_bytes = &envelope[0..COUNTER_SIZE];
        let ciphertext = &envelope[COUNTER_SIZE..envelope.len()];
        let counter: u64 = bytes::read_be64(counter_bytes);
        let nonce = build_nonce(direction, counter);
        proof {
            assert(counter_bytes@ =~= envelope@.take(COUNTER_SIZE as int));
            assert(ciphertext@ =~= envelope@.skip(COUNTER_SIZE as int));
            assert(counter_bytes@.take(8) =~= counter_bytes@);
            assert(counter_bytes@.skip(4) =~= envelope@.skip(4).take(4));
            assert(envelope@ =~= counter_bytes@ + ciphertext@);
        }
        authenticated(primitives::aead_open(&self.key, &nonce, counter_bytes, ciphertext))
    }
}

/// The envelope of a ciphertext: the counter in front of it.
pub fn join_envelope(counter: u64, ciphertext: &[u8]) -> (envelope: Vec<u8>)
    ensures
        envelope@ == bytes::be64(counter) + ciphertext@,
{
    let mut envelope: Vec<u8> = Vec::new();
    bytes::append_be64(&mut envelope, counter);
    bytes::append(&mut envelope, ciphertext);
    assert(envelope@ =~= bytes::be64(counter) + ciphertext@);
    envelope
}

/// The outcome of a decryption: every failure looks the same.
pub fn authenticated(opened: Option<Vec<u8>>) -> (r: Result<Vec<u8>, CryptoError>)
    ensures
        r == (match opened {
            Some(plaintext) => Ok::<Vec<u8>, CryptoError>(plaintext),
            None => Err(CryptoError::AuthenticationFailed),
        }),
{
    match opened {
        Some(plaintext) => Ok(plaintext),
        None => Err(CryptoError::AuthenticationFailed),
    }
}

/// A fresh random value for a handshake, from the operating system's generator.
/// Nothing is said of its value.
pub fn generate_random() -> (random: [u8; RANDOM_SIZE]) {
    primitives::os_random()
}

/// The context of a handshake tag.
pub open spec fn tag_info(
    message_type: u8,
    version: u8,
    client_random: Seq<u8>,
    server_random: Seq<u8>,
) -> Seq<u8> {
    HKDF_CONTEXT_PREFIX@ + seq![message_type, version] + client_random + server_random
}

/// The context of a session key.
pub open spec fn session_key_info(
    direction_label: Seq<u8>,
    client_random: Seq<u8>,
    server_random: Seq<u8>,
) -> Seq<u8> {
    HKDF_CONTEXT_PREFIX@ + SESSION_LABEL@ + direction_label + client_random + server_random
}

/// The tag of a handshake message under a pre-shared key.
pub open spec fn tag_for(
    message_type: u8,
    version: u8,
    psk: Seq<u8>,
    client_random: Seq<u8>,
    server_random: Seq<u8>,
) -> Seq<u8> {
    primitives::hkdf_expanded(psk, tag_info(message_type, version, client_random, server_random))@
}

/// The key of a session for the direction with the given label.
pub open spec fn session_key(
    direction_label: Seq<u8>,
    psk: Seq<u8>,
    client_random: Seq<u8>,
    server_random: Seq<u8>,
) -> Seq<u8> {
    primitives::hkdf_expanded(
        psk,
        session_key_info(direction_label, client_random, server_random),
    )@
}

/// The context that binds a handshake tag to its message type, version and random
/// values.
pub fn handshake_tag_info(
    message_type: u8,
    version: u8,
    client_random: &[u8; RANDOM_SIZE],
    server_random: &[u8; RANDOM_SIZE],
) -> (info: Vec<u8>)
    ensures
        info@ == tag_info(message_type, version, client_random@, server_random@),
{
    let mut info: Vec<u8> = Vec::new();
    bytes::append(&mut info, HKDF_CONTEXT_PREFIX.as_slice());
    info.push(message_type);
    info.push(version);
    bytes::append(&mut info, client_random.as_slice());
    bytes::append(&mut info, server_random.as_slice());
    assert(info@ =~= tag_info(message_type, version, client_random@, server_random@));
    info
}

/// The tag that proves knowledge of the pre-shared key in one handshake message.
pub fn handshake_tag(
    message_type: u8,
    version: u8,
    psk: &[u8; KEY_SIZE],
    client_random: &[u8; RANDOM_SIZE],
    server_random: &[u8; RANDOM_SIZE],
) -> (tag: [u8; HANDSHAKE_TAG_SIZE])
    ensures
        tag@ == tag_for(message_type, version, psk@, client_random@, server_random@),
{
    let info = handshake_tag_info(message_type, version, client_random, server_random);
    primitives::hkdf_expand_32(psk, info.as_slice())
}

/// Whether a received tag is the expected one. The time taken does not depend on
/// where they differ.
pub fn verify_tag(
    expected: &[u8; HANDSHAKE_TAG_SIZE],
    received: &[u8; HANDSHAKE_TAG_SIZE],
) -> (valid: bool)
    ensures
        valid == (expected@ == received@),
{
    primitives::constant_time_eq(expected, received)
}

/// The context of the session key with the given label.
pub fn session_info(
    direction_label: &[u8],
    client_random: &[u8; RANDOM_SIZE],
    server_random: &[u8; RANDOM_SIZE],
) -> (info: Vec<u8>)
    ensures
        info@ == session_key_info(direction_label@, client_random@, server_random@),
{
    let mut info: Vec<u8> = Vec::new();
    bytes::append(&mut info, HKDF_CONTEXT_PREFIX.as_slice());
    bytes::append(&mut info, SESSION_LABEL.as_slice());
    bytes::append(&mut info, direction_label);
    bytes::append(&mut info, client_random.as_slice());
    bytes::append(&mut info, server_random.as_slice());
    assert(info@ =~= session_key_info(direction_label@, client_random@, server_random@));
    info
}

/// The text of a key's fingerprint: the first eight bytes of its digest.
pub open spec fn fingerprint_chars(digest: Seq<u8>) -> Seq<char> {
    text::hex_string_chars(digest.take(8))
}

/// The fingerprint that belongs to a digest.
pub fn fingerprint_of_digest(digest: &[u8; 32]) -> (fingerprint: String)
    ensures
        fingerprint@ == fingerprint_chars(digest@),
{
    let head = &digest.as_slice()[0..8];
    assert(head@ =~= digest@.take(8));
    text::hex_string(head)
}

/// A short form of a key that is safe to log.
pub fn key_fingerprint(key: &[u8; KEY_SIZE]) -> (fingerprint: String)
    ensures
        fingerprint@ == fingerprint_chars(primitives::sha256_digest(key@)@),
{
    let digest = primitives::sha256(key.as_slice());
    fingerprint_of_digest(&digest)
}

/// The two ciphers of a session with the fingerprints of their keys.
pub struct SessionCiphers {
    pub client_to_server: Cipher,
    pub server_to_client: Cipher,
    pub client_to_server_fingerprint: String,
    pub server_to_client_fingerprint: String,
}

impl SessionCiphers {
    /// Ciphers of a session that has sent nothing, with the given keys.
    pub open spec fn fresh(self, client_to_server_key: Seq<u8>, server_to_client_key: Seq<u8>) -> bool {
        &&& self.client_to_server.key() == client_to_server_key
        &&& self.client_to_server.counter() == 0
        &&& self.server_to_client.key() == server_to_client_key
        &&& self.server_to_client.counter() == 0
        &&& self.client_to_server_fingerprint@ == fingerprint_chars(
            primitives::sha256_digest(client_to_server_key)@,
        )
        &&& self.server_to_client_fingerprint@ == fingerprint_chars(
            primitives::sha256_digest(server_to_client_key)@,
        )
    }

    /// The ciphers of the session that a pre-shared key and two random values
    /// determine.
    pub open spec fn derived(
        self,
        psk: Seq<u8>,
        client_random: Seq<u8>,
        server_random: Seq<u8>,
    ) -> bool {
        self.fresh(
            session_key(CLIENT_TO_SERVER_LABEL@, psk, client_random, server_random),
            session_key(SERVER_TO_CLIENT_LABEL@, psk, client_random, server_random),
        )
    }

    /// The ciphers of a session with the given keys.
    pub fn from_keys(
        client_to_server_key: [u8; KEY_SIZE],
        server_to_client_key: [u8; KEY_SIZE],
    ) -> (ciphers: Self)
        ensures
            ciphers.fresh(client_to_server_key@, server_to_client_key@),
    {
        SessionCiphers {
            client_to_server_fingerprint: key_fingerprint(&client_to_server_key),
            server_to_client_fingerprint: key_fingerprint(&server_to_client_key),
            client_to_server: Cipher::new(client_to_server_key),
            server_to_client: Cipher::new(server_to_client_key),
        }
    }
}

/// Derives the keys of both directions from the pre-shared key and the random
/// values of one handshake.
pub fn derive_session_ciphers(
    psk: &[u8; KEY_SIZE],
    client_random: &[u8; RANDOM_SIZE],
    server_random: &[u8; RANDOM_SIZE],
) -> (ciphers: SessionCiphers)
    ensures
        ciphers.derived(psk@, client_random@, server_random@),
{
    let c2s_info = session_info(CLIENT_TO_SERVER_LABEL.as_slice(), client_random, server_random);
    let s2c_info = session_info(SERVER_TO_CLIENT_LABEL.as_slice(), client_random, server_random);
    let c2s_key = primitives::hkdf_expand_32(psk, c2s_info.as_slice());
    let s2c_key = primitives::hkdf_expand_32(psk, s2c_info.as_slice());
    SessionCiphers::from_keys(c2s_key, s2c_key)
}

/// Two packets have the same nonce only if they have the same direction and the
/// same counter.
pub proof fn law_nonces_differ(d1: Direction, c1: u64, d2: Direction, c2: u64)
    requires
        nonce(d1, c1) == nonce(d2, c2),
    ensures
        d1 == d2,
        c1 == c2,
{
    bytes::lemma_be64_round_trip(c1);
    bytes::lemma_be64_round_trip(c2);
    assert(nonce(d1, c1)[0] == d1.tag());
    assert(nonce(d2, c2)[0] == d2.tag());
    assert(nonce(d1, c1).skip(4) =~= bytes::be64(c1));
    assert(nonce(d2, c2).skip(4) =~= bytes::be64(c2));
    bytes::lemma_be64_injective(c1, c2);
}

/// The counter of a cipher that started at `start` and has sent `sent` packets.
pub open spec fn counter_after(start: u64, sent: nat) -> u64
    decreases sent,
{
    if sent == 0 {
        start
    } else {
        counter_after(start, (sent - 1) as nat).wrapping_add(1)
    }
}

proof fn lemma_counter_after(start: u64, sent: nat)
    ensures
        counter_after(start, sent) == (start + sent) % 0x1_0000_0000_0000_0000,
    decreases sent,
{
    if sent > 0 {
        lemma_counter_after(start, (sent - 1) as nat);
    }
}

/// The first 2^64 packets of a cipher in one direction all have different nonces.
pub proof fn law_nonces_never_repeat(direction: Direction, start: u64, i: nat, j: nat)
    requires
        i < j < 0x1_0000_0000_0000_0000,
    ensures
        nonce(direction, counter_after(start, i)) != nonce(direction, counter_after(start, j)),
{
    lemma_counter_after(start, i);
    lemma_counter_after(start, j);
    if nonce(direction, counter_after(start, i)) == nonce(direction, counter_after(start, j)) {
        law_nonces_differ(
            direction,
            counter_after(start, i),
            direction,
            counter_after(start, j),
        );
    }
}

/// The envelope of a packet shows the packet's counter.
pub proof fn law_envelope_shows_counter(
    key: Seq<u8>,
    direction: Direction,
    counter: u64,
    plaintext: Seq<u8>,
)
    ensures
        sealed_envelope(key, direction, counter, plaintext).take(COUNTER_SIZE as int)
            == bytes::be64(counter),
{
    bytes::lemma_be64_round_trip(counter);
    assert(sealed_envelope(key, direction, counter, plaintext).take(COUNTER_SIZE as int)
        =~= bytes::be64(counter));
}

/// Decrypting an envelope with the key and in the direction in which it was
/// encrypted gives the plaintext back, an empty one too.
pub proof fn law_decryption_undoes_encryption(
    key: Seq<u8>,
    direction: Direction,
    counter: u64,
    plaintext: Seq<u8>,
    envelope: Seq<u8>,
    outcome: Result<Seq<u8>, CryptoError>,
)
    requires
        encrypts_to(key, direction, counter, plaintext, envelope),
        decrypts_to(key, direction, envelope, outcome),
    ensures
        outcome == Ok::<Seq<u8>, CryptoError>(plaintext),
{
}

/// An envelope that was encrypted with another key or in the other direction fails
/// to authenticate, unless it coincides with a seal made with this key, this
/// direction and the same counter.
pub proof fn law_foreign_envelope_is_rejected(
    sealing_key: Seq<u8>,
    sent: Direction,
    counter: u64,
    plaintext: Seq<u8>,
    envelope: Seq<u8>,
    key: Seq<u8>,
    direction: Direction,
    outcome: Result<Seq<u8>, CryptoError>,
)
    requires
        encrypts_to(sealing_key, sent, counter, plaintext, envelope),
        decrypts_to(key, direction, envelope, outcome),
        forall|other: Seq<u8>|
            primitives::aead_sealed(
                sealing_key,
                nonce(sent, counter),
                bytes::be64(counter),
                plaintext,
            ) != #[trigger] primitives::aead_sealed(
                key,
                nonce(direction, counter),
                bytes::be64(counter),
                other,
            ),
    ensures
        outcome == Err::<Seq<u8>, CryptoError>(CryptoError::AuthenticationFailed),
{
    bytes::lemma_be64_round_trip(counter);
    if outcome is Ok {
        let other = outcome->Ok_0;
        assert(envelope.take(COUNTER_SIZE as int) =~= bytes::be64(counter));
        assert(envelope.skip(COUNTER_SIZE as int) =~= primitives::aead_sealed(
            sealing_key,
            nonce(sent, counter),
            bytes::be64(counter),
            plaintext,
        ));
        assert(envelope.skip(COUNTER_SIZE as int) =~= primitives::aead_sealed(
            key,
            nonce(direction, counter),
            bytes::be64(counter),
            other,
        ));
    }
}

/// An envelope that was changed on its way fails to authenticate, unless the
/// changed bytes are themselves a seal made with this key, this direction and the
/// counter that they show. One too short for a counter and a tag is truncated.
pub proof fn law_changed_envelope_is_rejected(
    key: Seq<u8>,
    direction: Direction,
    envelope: Seq<u8>,
    outcome: Result<Seq<u8>, CryptoError>,
)
    requires
        decrypts_to(key, direction, envelope, outcome),
        forall|plaintext: Seq<u8>|
            envelope != #[trigger] sealed_envelope(
                key,
                direction,
                bytes::be64_value(envelope) as u64,
                plaintext,
            ),
    ensures
        outcome == Err::<Seq<u8>, CryptoError>(
            if envelope.len() < COUNTER_SIZE + TAG_SIZE {
                CryptoError::TruncatedEnvelope {
                    have: envelope.len() as usize,
                    need: (COUNTER_SIZE + TAG_SIZE) as usize,
                }
            } else {
                CryptoError::AuthenticationFailed
            },
        ),
{
}

/// Two envelopes with different counters differ, whatever they carry.
pub proof fn law_different_counters_different_envelopes(
    key: Seq<u8>,
    direction: Direction,
    c1: u64,
    c2: u64,
    p1: Seq<u8>,
    p2: Seq<u8>,
)
    requires
        c1 != c2,
    ensures
        sealed_envelope(key, direction, c1, p1) != sealed_envelope(key, direction, c2, p2),
{
    law_envelope_shows_counter(key, direction, c1, p1);
    law_envelope_shows_counter(key, direction, c2, p2);
    if bytes::be64(c1) == bytes::be64(c2) {
        bytes::lemma_be64_injective(c1, c2);
    }
}

/// The context of a tag determines the message type, the version and both random
/// values, so a tag made for one message is made from the context of no other.
pub proof fn law_tag_info_injective(
    t1: u8,
    v1: u8,
    c1: Seq<u8>,
    s1: Seq<u8>,
    t2: u8,
    v2: u8,
    c2: Seq<u8>,
    s2: Seq<u8>,
)
    requires
        c1.len() == RANDOM_SIZE,
        s1.len() == RANDOM_SIZE,
        c2.len() == RANDOM_SIZE,
        s2.len() == RANDOM_SIZE,
        tag_info(t1, v1, c1, s1) == tag_info(t2, v2, c2, s2),
    ensures
        t1 == t2,
        v1 == v2,
        c1 == c2,
        s1 == s2,
{
    let a = tag_info(t1, v1, c1, s1);
    let b = tag_info(t2, v2, c2, s2);
    assert(a[13] == t1 && b[13] == t2);
    assert(a[14] == v1 && b[14] == v2);
    assert(a.subrange(15, 47) =~= c1);
    assert(b.subrange(15, 47) =~= c2);
    assert(a.subrange(47, 79) =~= s1);
    assert(b.subrange(47, 79) =~= s2);
}

/// The context of a session key determines its direction and both random values.
pub proof fn law_session_info_injective(
    l1: Seq<u8>,
    c1: Seq<u8>,
    s1: Seq<u8>,
    l2: Seq<u8>,
    c2: Seq<u8>,
    s2: Seq<u8>,
)
    requires
        l1.len() == l2.len(),
        c1.len() == RANDOM_SIZE,
        s1.len() == RANDOM_SIZE,
        c2.len() == RANDOM_SIZE,
        s2.len() == RANDOM_SIZE,
        session_key_info(l1, c1, s1) == session_key_info(l2, c2, s2),
    ensures
        l1 == l2,
        c1 == c2,
        s1 == s2,
{
    let a = session_key_info(l1, c1, s1);
    let b = session_key_info(l2, c2, s2);
    let n = (22 + l1.len()) as int;
    assert(a.subrange(22, n) =~= l1);
    assert(b.subrange(22, n) =~= l2);
    assert(a.subrange(n, n + 32) =~= c1);
    assert(b.subrange(n, n + 32) =~= c2);
    assert(a.subrange(n + 32, n + 64) =~= s1);
    assert(b.subrange(n + 32, n + 64) =~= s2);
}

/// The two directions of a session never derive their keys from one context.
pub proof fn law_directions_have_different_contexts(
    c1: Seq<u8>,
    s1: Seq<u8>,
    c2: Seq<u8>,
    s2: Seq<u8>,
)
    requires
        c1.len() == RANDOM_SIZE,
        s1.len() == RANDOM_SIZE,
        c2.len() == RANDOM_SIZE,
        s2.len() == RANDOM_SIZE,
    ensures
        session_key_info(CLIENT_TO_SERVER_LABEL@, c1, s1) != session_key_info(
            SERVER_TO_CLIENT_LABEL@,
            c2,
            s2,
        ),
{
    if session_key_info(CLIENT_TO_SERVER_LABEL@, c1, s1) == session_key_info(
        SERVER_TO_CLIENT_LABEL@,
        c2,
        s2,
    ) {
        law_session_info_injective(CLIENT_TO_SERVER_LABEL@, c1, s1, SERVER_TO_CLIENT_LABEL@, c2, s2);
        assert(CLIENT_TO_SERVER_LABEL@[0] == 0x63);
        assert(SERVER_TO_CLIENT_LABEL@[0] == 0x73);
    }
}

/// No tag is made from the context of a session key.
pub proof fn law_tags_and_keys_have_different_contexts(
    message_type: u8,
    version: u8,
    c1: Seq<u8>,
    s1: Seq<u8>,
    c2: Seq<u8>,
    s2: Seq<u8>,
)
    requires
        c1.len() == RANDOM_SIZE,
        s1.len() == RANDOM_SIZE,
        c2.len() == RANDOM_SIZE,
        s2.len() == RANDOM_SIZE,
    ensures
        tag_info(message_type, version, c1, s1) != session_key_info(
            CLIENT_TO_SERVER_LABEL@,
            c2,
            s2,
        ),
        tag_info(message_type, version, c1, s1) != session_key_info(
            SERVER_TO_CLIENT_LABEL@,
            c2,
            s2,
        ),
{
    assert(tag_info(message_type, version, c1, s1).len() == 79);
    assert(session_key_info(CLIENT_TO_SERVER_LABEL@, c2, s2).len() == 102);
    assert(session_key_info(SERVER_TO_CLIENT_LABEL@, c2, s2).len() == 102);
}

proof fn lemma_hex_digit_char(c: char, d: nat)
    requires
        d < 16,
        text::ascii_lower(c) == text::ascii_lower(text::digit_char(d)),
    ensures
        (c as u32) < 128,
        !text::is_space(c),
        text::hex_digit_value(c as u8) == Some(d),
{
}

/// A digit of a key is no white space.
pub proof fn lemma_key_digit(digits: Seq<char>, key: Seq<u8>, i: int)
    requires
        text::equal_ignoring_case(digits, text::hex_string_chars(key)),
        0 <= i < digits.len(),
    ensures
        (digits[i] as u32) < 128,
        !text::is_space(digits[i]),
{
    lemma_hex_digit_char(
        digits[i],
        if i % 2 == 0 {
            key[i / 2] as nat / 16
        } else {
            key[i / 2] as nat % 16
        },
    );
}

/// A key in hexadecimal, in upper or lower case and with white space around it or
/// without, is read as the key.
pub proof fn law_key_hex_round_trip(
    lead: Seq<char>,
    digits: Seq<char>,
    trail: Seq<char>,
    key: Seq<u8>,
)
    requires
        key.len() == KEY_SIZE,
        text::equal_ignoring_case(digits, text::hex_string_chars(key)),
        forall|i: int| 0 <= i < lead.len() ==> text::is_space(#[trigger] lead[i]),
        forall|i: int| 0 <= i < trail.len() ==> text::is_space(#[trigger] trail[i]),
    ensures
        parsed_key(lead + digits + trail) == Ok::<Seq<u8>, CryptoError>(key),
{
    assert forall|i: int| 0 <= i < digits.len() implies {
        &&& (#[trigger] digits[i] as u32) < 128
        &&& !text::is_space(digits[i])
        &&& text::hex_digit_value(digits[i] as u8) == Some(
            if i % 2 == 0 {
                key[i / 2] as nat / 16
            } else {
                key[i / 2] as nat % 16
            },
        )
    } by {
        lemma_hex_digit_char(
            digits[i],
            if i % 2 == 0 {
                key[i / 2] as nat / 16
            } else {
                key[i / 2] as nat % 16
            },
        );
    }
    text::lemma_trimmed_padded(lead, digits, trail);
    assert(vstd::utf8::is_ascii_chars(digits));
    vstd::utf8::is_ascii_chars_encode_utf8(digits);
    let bytes = vstd::utf8::encode_utf8(digits);
    assert forall|i: int| 0 <= i < bytes.len() implies text::hex_digit_value(
        #[trigger] bytes[i],
    ) is Some by {
        assert(bytes[i] == digits[i] as u8);
    }
    assert(all_hex(bytes));
    assert forall|i: int| 0 <= i < KEY_SIZE implies hex_pair_value(bytes[2 * i], bytes[2 * i + 1])
        == key[i] by {
        assert(bytes[2 * i] == digits[2 * i] as u8);
        assert(bytes[2 * i + 1] == digits[2 * i + 1] as u8);
    }
    assert(parsed_key(lead + digits + trail)->Ok_0 =~= key);
}

proof fn lemma_hex_byte_char(b: u8)
    requires
        text::hex_digit_value(b) is Some,
    ensures
        b < 128,
        text::hex_digit_value(b)->Some_0 < 16,
        text::ascii_lower(b as char) == text::ascii_lower(
            text::digit_char(text::hex_digit_value(b)->Some_0),
        ),
{
}

/// A text that is read as a key is, but for the case of its letters and the white
/// space around it, the key in hexadecimal.
#[verifier::rlimit(40)]
pub proof fn law_key_is_spelled_by_its_text(hex: Seq<char>)
    requires
        parsed_key(hex) is Ok,
    ensures
        parsed_key(hex)->Ok_0.len() == KEY_SIZE,
        text::equal_ignoring_case(
            text::trimmed(hex),
            text::hex_string_chars(parsed_key(hex)->Ok_0),
        ),
{
    let chars = text::trimmed(hex);
    let bytes = vstd::utf8::encode_utf8(chars);
    let key = parsed_key(hex)->Ok_0;
    let ascii = Seq::new(bytes.len(), |i: int| bytes[i] as char);
    assert forall|i: int| 0 <= i < bytes.len() implies (#[trigger] bytes[i]) < 128 by {
        lemma_hex_byte_char(bytes[i]);
    }
    assert(vstd::utf8::is_ascii_chars(ascii));
    vstd::utf8::is_ascii_chars_encode_utf8(ascii);
    assert(vstd::utf8::encode_utf8(ascii) =~= bytes);
    vstd::utf8::encode_utf8_decode_utf8(ascii);
    vstd::utf8::encode_utf8_decode_utf8(chars);
    assert(chars == ascii);
    let digits = text::hex_string_chars(key);
    assert forall|i: int| 0 <= i < chars.len() implies text::ascii_lower(#[trigger] chars[i])
        == text::ascii_lower(digits[i]) by {
        let k = i / 2;
        lemma_hex_byte_char(bytes[2 * k]);
        lemma_hex_byte_char(bytes[2 * k + 1]);
        let high = text::hex_digit_value(bytes[2 * k])->Some_0;
        let low = text::hex_digit_value(bytes[2 * k + 1])->Some_0;
        assert(key[k] == (high * 16 + low) as u8);
        assert(key[k] as nat / 16 == high && key[k] as nat % 16 == low);
        if i % 2 == 0 {
            assert(i == 2 * k);
        } else {
            assert(i == 2 * k + 1);
        }
    }
}

/// A text is no key exactly if, without the white space around it, it is not 64 bytes
/// long, or is but holds something else than hexadecimal digits.
pub proof fn law_what_is_no_key(hex: Seq<char>)
    ensures
        ({
            let bytes = vstd::utf8::encode_utf8(text::trimmed(hex));
            &&& bytes.len() != 64 ==> parsed_key(hex) == Err::<Seq<u8>, CryptoError>(
                CryptoError::InvalidKeyLength { expected: 64, found: bytes.len() as usize },
            )
            &&& bytes.len() == 64 && (exists|i: int|
                0 <= i < 64 && text::hex_digit_value(#[trigger] bytes[i]) is None) ==> parsed_key(
                hex,
            ) == Err::<Seq<u8>, CryptoError>(CryptoError::InvalidKeyHex)
            &&& bytes.len() == 64 && (forall|i: int|
                0 <= i < 64 ==> text::hex_digit_value(#[trigger] bytes[i]) is Some) ==> parsed_key(
                hex,
            ) is Ok
        }),
{
}

/// The nonce of a packet is twelve bytes: 0 from the client and 1 from the server, three
/// zeros, and the counter.
pub proof fn law_nonce_layout(direction: Direction, counter: u64)
    ensures
        ({
            let n = nonce(direction, counter);
            &&& n.len() == 12
            &&& n[0] == 0 <==> direction == Direction::ClientToServer
            &&& n[0] == 1 <==> direction == Direction::ServerToClient
            &&& n[1] == 0 && n[2] == 0 && n[3] == 0
            &&& bytes::be64_value(n.skip(4)) == counter
        }),
{
    bytes::lemma_be64_round_trip(counter);
    assert(nonce(direction, counter).skip(4) =~= bytes::be64(counter));
}

/// What stands where in an envelope: the counter, then the plaintext sealed with the key,
/// under the nonce of the direction and that counter, with the counter's bytes as
/// associated data.
pub proof fn law_envelope_layout(
    key: Seq<u8>,
    direction: Direction,
    counter: u64,
    plaintext: Seq<u8>,
)
    ensures
        ({
            let envelope = sealed_envelope(key, direction, counter, plaintext);
            let head = envelope.take(8);
            &&& head.len() == 8
            &&& bytes::be64_value(head) == counter
            &&& exists|n: Seq<u8>|
                n.len() == 12 && n[0] == (if direction == Direction::ClientToServer {
                    0u8
                } else {
                    1u8
                }) && n[1] == 0 && n[2] == 0 && n[3] == 0 && n.skip(4) == head && envelope.skip(8)
                    == #[trigger] primitives::aead_sealed(key, n, head, plaintext)
        }),
{
    let envelope = sealed_envelope(key, direction, counter, plaintext);
    let n = nonce(direction, counter);
    bytes::lemma_be64_round_trip(counter);
    assert(envelope.take(8) =~= bytes::be64(counter));
    assert(n.skip(4) =~= bytes::be64(counter));
    assert(envelope.skip(8) =~= primitives::aead_sealed(key, n, bytes::be64(counter), plaintext));
}

/// What decrypting an envelope hands to the cipher: the rest behind the counter, with the
/// key, the nonce of the direction and that counter, and the counter's bytes as
/// associated data. What comes back is the plaintext, and nothing is a failed
/// authentication; an envelope without room for a counter and a tag is truncated.
pub proof fn law_opening_an_envelope(key: Seq<u8>, direction: Direction, envelope: Seq<u8>)
    ensures
        envelope.len() < 24 ==> opened_envelope(key, direction, envelope) == Err::<
            Seq<u8>,
            CryptoError,
        >(CryptoError::TruncatedEnvelope { have: envelope.len() as usize, need: 24 }),
        24 <= envelope.len() <= MAX_ENVELOPE_SIZE ==> exists|n: Seq<u8>|
            n.len() == 12 && n[0] == (if direction == Direction::ClientToServer {
                0u8
            } else {
                1u8
            }) && n[1] == 0 && n[2] == 0 && n[3] == 0 && n.skip(4) == envelope.take(8)
                && opened_envelope(key, direction, envelope) == (
            match #[trigger] primitives::aead_opened(key, n, envelope.take(8), envelope.skip(8)) {
                Some(plaintext) => Ok::<Seq<u8>, CryptoError>(plaintext),
                None => Err(CryptoError::AuthenticationFailed),
            }),
        envelope.len() > MAX_ENVELOPE_SIZE ==> opened_envelope(key, direction, envelope) == Err::<
            Seq<u8>,
            CryptoError,
        >(CryptoError::AuthenticationFailed),
{
    if 24 <= envelope.len() <= MAX_ENVELOPE_SIZE {
        let head = envelope.take(8);
        let n = nonce(direction, bytes::be64_value(head) as u64);
        bytes::lemma_be64_value_round_trip(head);
        assert(head.take(8) =~= head);
        assert(n.skip(4) =~= head);
        bytes::lemma_be64_round_trip(bytes::be64_value(head) as u64);
        assert(opened_envelope(key, direction, envelope) == (match primitives::aead_opened(
            key,
            n,
            head,
            envelope.skip(8),
        ) {
            Some(plaintext) => Ok::<Seq<u8>, CryptoError>(plaintext),
            None => Err(CryptoError::AuthenticationFailed),
        }));
    }
}

/// Whether bytes are a text in ASCII.
pub open spec fn spells(s: Seq<u8>, text: Seq<char>) -> bool {
    s.len() == text.len() && forall|i: int| 0 <= i < s.len() ==> #[trigger] s[i] as u32 == text[i] as u32
}

/// A tag is derived from the whole pre-shared key, and from a context that names the
/// protocol and holds the message's type and version and both random values.
pub proof fn law_tag_depends_on_the_whole_handshake(
    message_type: u8,
    version: u8,
    psk: Seq<u8>,
    client_random: Seq<u8>,
    server_random: Seq<u8>,
)
    requires
        client_random.len() == 32,
        server_random.len() == 32,
    ensures
        exists|info: Seq<u8>|
            #![trigger primitives::hkdf_expanded(psk, info)]
            {
                &&& tag_for(message_type, version, psk, client_random, server_random)
                    == primitives::hkdf_expanded(psk, info)@
                &&& info.len() == 79
                &&& spells(info.take(13), "tiny-vpn-v0.7"@)
                &&& info[13] == message_type
                &&& info[14] == version
                &&& info.subrange(15, 47) == client_random
                &&& info.skip(47) == server_random
            },
{
    let info = tag_info(message_type, version, client_random, server_random);
    reveal_strlit("tiny-vpn-v0.7");
    assert(info.take(13) =~= HKDF_CONTEXT_PREFIX@);
    assert(info.subrange(15, 47) =~= client_random);
    assert(info.skip(47) =~= server_random);
    assert(tag_for(message_type, version, psk, client_random, server_random)
        == primitives::hkdf_expanded(psk, info)@);
}

/// The key of a direction is derived from the whole pre-shared key, and from a context
/// that names the protocol and the direction and holds both random values.
pub proof fn law_session_keys_depend_on_the_whole_handshake(
    psk: Seq<u8>,
    client_random: Seq<u8>,
    server_random: Seq<u8>,
)
    requires
        client_random.len() == 32,
        server_random.len() == 32,
    ensures
        exists|info: Seq<u8>|
            #![trigger primitives::hkdf_expanded(psk, info)]
            {
                &&& session_key(CLIENT_TO_SERVER_LABEL@, psk, client_random, server_random)
                    == primitives::hkdf_expanded(psk, info)@
                &&& info.len() == 102
                &&& spells(info.take(38), "tiny-vpn-v0.7-session-client-to-server"@)
                &&& info.subrange(38, 70) == client_random
                &&& info.skip(70) == server_random
            },
        exists|info: Seq<u8>|
            #![trigger primitives::hkdf_expanded(psk, info)]
            {
                &&& session_key(SERVER_TO_CLIENT_LABEL@, psk, client_random, server_random)
                    == primitives::hkdf_expanded(psk, info)@
                &&& info.len() == 102
                &&& spells(info.take(38), "tiny-vpn-v0.7-session-server-to-client"@)
                &&& info.subrange(38, 70) == client_random
                &&& info.skip(70) == server_random
            },
{
    let up = session_key_info(CLIENT_TO_SERVER_LABEL@, client_random, server_random);
    let down = session_key_info(SERVER_TO_CLIENT_LABEL@, client_random, server_random);
    reveal_strlit("tiny-vpn-v0.7-session-client-to-server");
    reveal_strlit("tiny-vpn-v0.7-session-server-to-client");
    assert(up.subrange(38, 70) =~= client_random);
    assert(up.skip(70) =~= server_random);
    assert(down.subrange(38, 70) =~= client_random);
    assert(down.skip(70) =~= server_random);
    assert(session_key(CLIENT_TO_SERVER_LABEL@, psk, client_random, server_random)
        == primitives::hkdf_expanded(psk, up)@);
    assert(session_key(SERVER_TO_CLIENT_LABEL@, psk, client_random, server_random)
        == primitives::hkdf_expanded(psk, down)@);
}

/// The ciphers that a handshake gives hold each direction's own key, have sent nothing,
/// and carry the fingerprints of those keys.
pub proof fn law_derived_ciphers_hold_their_keys(
    ciphers: SessionCiphers,
    psk: Seq<u8>,
    client_random: Seq<u8>,
    server_random: Seq<u8>,
)
    requires
        ciphers.derived(psk, client_random, server_random),
    ensures
        ciphers.client_to_server.key() == session_key(
            CLIENT_TO_SERVER_LABEL@,
            psk,
            client_random,
            server_random,
        ),
        ciphers.server_to_client.key() == session_key(
            SERVER_TO_CLIENT_LABEL@,
            psk,
            client_random,
            server_random,
        ),
        ciphers.client_to_server.counter() == 0,
        ciphers.server_to_client.counter() == 0,
        ciphers.client_to_server_fingerprint@ == text::hex_string_chars(
            primitives::sha256_digest(ciphers.client_to_server.key())@.take(8),
        ),
        ciphers.server_to_client_fingerprint@ == text::hex_string_chars(
            primitives::sha256_digest(ciphers.server_to_client.key())@.take(8),
        ),
{
}

/// Each error tells the numbers that it is about, and nothing of a key or a plaintext.
pub proof fn law_errors_tell_their_numbers(have: usize, need: usize)
    ensures
        ({
            let h = text::decimal_chars(have as nat);
            let n = text::decimal_chars(need as nat);
            &&& CryptoError::InvalidKeyLength { expected: need, found: have }.message_chars()
                == "invalid key length: expected "@ + n + " hex characters, found "@ + h
            &&& CryptoError::InvalidKeyHex.message_chars() == "key is not valid hex"@
            &&& CryptoError::AuthenticationFailed.message_chars() == "authentication failed"@
            &&& CryptoError::TruncatedEnvelope { have, need }.message_chars()
                == "truncated encrypted packet: have "@ + h + " bytes, need at least "@ + n
        }),
{
}

/// Fresh ciphers hold the keys that they were made with, each for its own direction, and
/// have sent nothing.
pub proof fn law_fresh_ciphers_hold_their_keys(
    ciphers: SessionCiphers,
    client_to_server_key: Seq<u8>,
    server_to_client_key: Seq<u8>,
)
    requires
        ciphers.fresh(client_to_server_key, server_to_client_key),
    ensures
        ciphers.client_to_server.key() == client_to_server_key,
        ciphers.server_to_client.key() == server_to_client_key,
        ciphers.client_to_server.counter() == 0,
        ciphers.server_to_client.counter() == 0,
        ciphers.client_to_server_fingerprint@ == text::hex_string_chars(
            primitives::sha256_digest(client_to_server_key)@.take(8),
        ),
        ciphers.server_to_client_fingerprint@ == text::hex_string_chars(
            primitives::sha256_digest(server_to_client_key)@.take(8),
        ),
{
}

/// A fingerprint is the first eight bytes of a digest in hexadecimal.
pub proof fn law_fingerprint(digest: Seq<u8>)
    requires
        digest.len() == 32,
    ensures
        fingerprint_chars(digest).len() == 16,
        fingerprint_chars(digest) == text::hex_string_chars(digest).take(16),
{
    assert(fingerprint_chars(digest) =~= text::hex_string_chars(digest).take(16));
}

} // verus!
