//! The cryptographic primitives: calls into `chacha20poly1305`, `hkdf`, `sha2`
//! and `subtle`.
//!
//! What these crates compute is named here, not defined: a name stands for the
//! result as a function of the arguments. The contracts add the few facts that
//! the rest of the library builds on.
use chacha20poly1305::aead::rand_core::RngCore;
use chacha20poly1305::aead::{Aead, KeyInit, OsRng, Payload};
use chacha20poly1305::{ChaCha20Poly1305, Key, Nonce};
use hkdf::Hkdf;
use sha2::{Digest, Sha256};
use subtle::ConstantTimeEq;
use vstd::prelude::*;

verus! {

/// Size of a ChaCha20-Poly1305 key.
pub const AEAD_KEY_SIZE: usize = 32;

/// Size of a ChaCha20-Poly1305 nonce.
pub const AEAD_NONCE_SIZE: usize = 12;

/// Size of the tag that ChaCha20-Poly1305 appends to a ciphertext.
pub const AEAD_TAG_SIZE: usize = 16;

/// Longest message that the cipher's keystream covers: 2^32 - 2 blocks of 64
/// bytes.
pub const AEAD_MAX_MESSAGE_SIZE: u64 = 0x3f_ffff_ff80;

/// A message that can be sealed: the keystream covers it, and its ciphertext fits
/// in memory.
pub open spec fn sealable(len: nat) -> bool {
    len <= AEAD_MAX_MESSAGE_SIZE && len + AEAD_TAG_SIZE <= isize::MAX
}

/// What `ChaCha20Poly1305::encrypt` returns for a key, nonce, associated data and
/// message.
pub uninterp spec fn aead_sealed(
    key: Seq<u8>,
    nonce: Seq<u8>,
    aad: Seq<u8>,
    message: Seq<u8>,
) -> Seq<u8>;

/// What `ChaCha20Poly1305::decrypt` returns for a key, nonce, associated data and
/// ciphertext; `None` stands for its error.
pub uninterp spec fn aead_opened(
    key: Seq<u8>,
    nonce: Seq<u8>,
    aad: Seq<u8>,
    ciphertext: Seq<u8>,
) -> Option<Seq<u8>>;

/// The first 32 bytes of HKDF-SHA256 output: `Hkdf::new` without a salt on the
/// key material, then `expand` with the context `info`.
pub uninterp spec fn hkdf_expanded(key_material: Seq<u8>, info: Seq<u8>) -> [u8; 32];

/// What `Sha256::digest` returns.
pub uninterp spec fn sha256_digest(data: Seq<u8>) -> [u8; 32];

/// `ChaCha20Poly1305::encrypt`. The result depends on the four arguments alone, is
/// one tag longer than the message, and `decrypt` with the same key, nonce and
/// associated data gives the message back.
#[verifier::external_body]
pub(crate) fn aead_seal(
    key: &[u8; AEAD_KEY_SIZE],
    nonce: &[u8; AEAD_NONCE_SIZE],
    aad: &[u8],
    message: &[u8],
) -> (ciphertext: Vec<u8>)
    requires
        sealable(message@.len()),
    ensures
        ciphertext@ == aead_sealed(key@, nonce@, aad@, message@),
        ciphertext@.len() == message@.len() + AEAD_TAG_SIZE,
        aead_opened(key@, nonce@, aad@, ciphertext@) == Some(message@),
{
    ChaCha20Poly1305::new(Key::from_slice(key))
        .encrypt(Nonce::from_slice(nonce), Payload { msg: message, aad })
        .expect("the message is within the keystream")
}

/// `ChaCha20Poly1305::decrypt`. The result depends on the four arguments alone.
/// It succeeds only on a ciphertext that `encrypt` makes from the returned
/// message with the same key, nonce and associated data; in particular never on
/// one shorter than a tag.
#[verifier::external_body]
pub(crate) fn aead_open(
    key: &[u8; AEAD_KEY_SIZE],
    nonce: &[u8; AEAD_NONCE_SIZE],
    aad: &[u8],
    ciphertext: &[u8],
) -> (message: Option<Vec<u8>>)
    requires
        ciphertext@.len() <= AEAD_MAX_MESSAGE_SIZE + AEAD_TAG_SIZE,
    ensures
        match message {
            Some(m) => {
                &&& aead_opened(key@, nonce@, aad@, ciphertext@) == Some(m@)
                &&& aead_sealed(key@, nonce@, aad@, m@) == ciphertext@
                &&& m@.len() + AEAD_TAG_SIZE == ciphertext@.len()
            },
            None => aead_opened(key@, nonce@, aad@, ciphertext@) is None,
        },
{
    ChaCha20Poly1305::new(Key::from_slice(key))
        .decrypt(Nonce::from_slice(nonce), Payload { msg: ciphertext, aad })
        .ok()
}

/// `Hkdf::<Sha256>::new` without a salt, then `Hkdf::expand` to 32 bytes. The
/// result depends on the key material and the context alone. `expand` refuses
/// only outputs over 255 * 32 bytes.
#[verifier::external_body]
pub(crate) fn hkdf_expand_32(key_material: &[u8; 32], info: &[u8]) -> (okm: [u8; 32])
    ensures
        okm == hkdf_expanded(key_material@, info@),
{
    let mut okm = [0u8; 32];
    Hkdf::<Sha256>::new(None, key_material)
        .expand(info, &mut okm)
        .expect("32 bytes are within the output limit");
    okm
}

/// `Sha256::digest`: a function of the data alone.
#[verifier::external_body]
pub(crate) fn sha256(data: &[u8]) -> (digest: [u8; 32])
    ensures
        digest == sha256_digest(data@),
{
    Sha256::digest(data).into()
}

/// `subtle::ConstantTimeEq::ct_eq` on byte slices: whether the two are equal.
#[verifier::external_body]
pub(crate) fn constant_time_eq(a: &[u8; 32], b: &[u8; 32]) -> (equal: bool)
    ensures
        equal == (a@ == b@),
{
    a.ct_eq(b).into()
}

/// `OsRng::fill_bytes`: 32 bytes from the operating system's generator. Nothing is
/// said of their values.
#[verifier::external_body]
pub(crate) fn os_random() -> (bytes: [u8; 32]) {
    let mut bytes = [0u8; 32];
    OsRng.fill_bytes(&mut bytes);
    bytes
}

} // verus!
