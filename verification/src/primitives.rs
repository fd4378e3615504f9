//! The cryptographic primitives the session is built from (Ed25519, X25519,
//! HKDF-SHA256, SHA-256, AES-256-GCM) and the sources of randomness and time.
//! Each is a call into its crate; the names below stand for their results.
use vstd::prelude::*;
use aes_gcm::aead::{Aead, KeyInit};
use ed25519_dalek::Signer;
use ed25519_dalek::Verifier;
use rand::Rng;
use rand::RngCore;
use sha2::Digest;

verus! {

/// The Ed25519 public key of a 32-byte secret seed.
pub uninterp spec fn ed25519_public_key(seed: Seq<u8>) -> Seq<u8>;

/// The Ed25519 signature of a message under a 32-byte secret seed.
pub uninterp spec fn ed25519_signature(seed: Seq<u8>, message: Seq<u8>) -> Seq<u8>;

/// Whether a signature verifies for a message under an Ed25519 public key.
pub uninterp spec fn ed25519_verifies(key: Seq<u8>, message: Seq<u8>, signature: Seq<u8>) -> bool;

/// Whether 32 bytes decompress to a curve point, i.e. form an Ed25519 public key.
pub uninterp spec fn ed25519_point_valid(key: Seq<u8>) -> bool;

/// The X25519 public key of a 32-byte secret.
pub uninterp spec fn x25519_public_key(secret: Seq<u8>) -> Seq<u8>;

/// The X25519 shared secret of a 32-byte secret and a peer's public key.
pub uninterp spec fn x25519_shared_secret(secret: Seq<u8>, peer_public: Seq<u8>) -> Seq<u8>;

/// The 32 bytes HKDF-SHA256 expands to, for a salt, input key material and info.
pub uninterp spec fn hkdf_sha256_okm32(salt: Seq<u8>, ikm: Seq<u8>, info: Seq<u8>) -> Seq<u8>;

/// The SHA-256 digest of a byte string.
pub uninterp spec fn sha256_digest(data: Seq<u8>) -> Seq<u8>;

/// The AES-256-GCM ciphertext (tag appended) of a plaintext, with no associated data.
pub uninterp spec fn aes256gcm_seal(key: Seq<u8>, nonce: Seq<u8>, plaintext: Seq<u8>) -> Seq<u8>;

/// What AES-256-GCM decryption (no associated data) gives back, `None` where
/// the tag does not authenticate.
pub uninterp spec fn aes256gcm_open(key: Seq<u8>, nonce: Seq<u8>, ciphertext: Seq<u8>) -> Option<Seq<u8>>;

/// The largest plaintext, in bytes, that AES-GCM encrypts.
pub open spec fn aes_gcm_max_plaintext() -> int {
    0x10_0000_0000
}

/// `VerifyingKey::from(&SigningKey::from_bytes(seed)).to_bytes()`.
/// Trusted: the result is the Ed25519 public key of the seed, and (being the
/// compression of a curve point) it decompresses again, i.e. is a valid key.
#[verifier::external_body]
pub(crate) fn ed25519_public_from_seed(seed: &[u8; 32]) -> (public: [u8; 32])
    ensures
        public@ == ed25519_public_key(seed@),
        ed25519_point_valid(public@),
{
    ed25519_dalek::SigningKey::from_bytes(seed).verifying_key().to_bytes()
}

/// `SigningKey::from_bytes(seed).sign(message).to_bytes()`.
/// Trusted: the result is the (deterministic) 64-byte Ed25519 signature, and
/// it verifies for the message under the seed's public key.
#[verifier::external_body]
pub(crate) fn ed25519_sign(seed: &[u8; 32], message: &[u8]) -> (signature: Vec<u8>)
    ensures
        signature@ == ed25519_signature(seed@, message@),
        signature@.len() == 64,
        ed25519_verifies(ed25519_public_key(seed@), message@, signature@),
{
    ed25519_dalek::SigningKey::from_bytes(seed).sign(message).to_bytes().to_vec()
}

/// `VerifyingKey::from_bytes(key).is_ok()`.
/// Trusted: the result tells whether the bytes are a valid public key.
#[verifier::external_body]
pub(crate) fn ed25519_key_is_valid(key: &[u8; 32]) -> (valid: bool)
    ensures
        valid == ed25519_point_valid(key@),
{
    ed25519_dalek::VerifyingKey::from_bytes(key).is_ok()
}

/// `VerifyingKey::from_bytes(key)`, `Signature::from_slice(signature)`, then
/// `Verifier::verify(&key, message, &signature).is_ok()`; `false` where the key
/// or the signature cannot be parsed.
/// Trusted: the result is whether the signature verifies for the message
/// under the key.
#[verifier::external_body]
pub(crate) fn ed25519_verify(key: &[u8; 32], message: &[u8], signature: &[u8]) -> (valid: bool)
    ensures
        valid == ed25519_verifies(key@, message@, signature@),
{
    match ed25519_dalek::VerifyingKey::from_bytes(key) {
        Ok(verifying_key) => match ed25519_dalek::Signature::from_slice(signature) {
            Ok(sig) => verifying_key.verify(message, &sig).is_ok(),
            Err(_) => false,
        },
        Err(_) => false,
    }
}

/// `Signature::from_slice(bytes).is_ok()`.
/// Trusted: a slice is accepted as a signature exactly when it holds 64 bytes.
#[verifier::external_body]
pub(crate) fn signature_shape_ok(bytes: &[u8]) -> (ok: bool)
    ensures
        ok == (bytes@.len() == 64),
{
    ed25519_dalek::Signature::from_slice(bytes).is_ok()
}

/// `StaticSecret::random_from_rng(OsRng).to_bytes()`: 32 fresh random bytes.
/// Nothing is promised of the value.
#[verifier::external_body]
pub(crate) fn x25519_fresh_secret() -> (secret: [u8; 32]) {
    x25519_dalek::StaticSecret::random_from_rng(aes_gcm::aead::OsRng).to_bytes()
}

/// `PublicKey::from(&StaticSecret::from(secret)).to_bytes()`.
/// Trusted: the result is the X25519 public key of the secret, and the
/// Diffie-Hellman property holds: any other secret combined with this public
/// key gives what this secret gives combined with the other's public key.
#[verifier::external_body]
pub(crate) fn x25519_public(secret: &[u8; 32]) -> (public: [u8; 32])
    ensures
        public@ == x25519_public_key(secret@),
        forall|other: Seq<u8>|
            other.len() == 32 ==> #[trigger] x25519_shared_secret(other, public@)
                == x25519_shared_secret(secret@, x25519_public_key(other)),
{
    x25519_dalek::PublicKey::from(&x25519_dalek::StaticSecret::from(*secret)).to_bytes()
}

/// `StaticSecret::from(secret).diffie_hellman(&PublicKey::from(peer_public))`.
/// Trusted: the result is the X25519 shared secret.
#[verifier::external_body]
pub(crate) fn x25519_diffie_hellman(secret: &[u8; 32], peer_public: &[u8; 32]) -> (shared: [u8; 32])
    ensures
        shared@ == x25519_shared_secret(secret@, peer_public@),
{
    let peer = x25519_dalek::PublicKey::from(*peer_public);
    x25519_dalek::StaticSecret::from(*secret).diffie_hellman(&peer).to_bytes()
}

/// `Hkdf::<Sha256>::new(Some(salt), ikm).expand(info, &mut [0u8; 32])`.
/// Trusted: expansion to 32 bytes never fails (the limit is 255 * 32 bytes)
/// and yields the HKDF output.
#[verifier::external_body]
pub(crate) fn hkdf_sha256_expand32(salt: &[u8], ikm: &[u8], info: &[u8]) -> (okm: Option<[u8; 32]>)
    ensures
        okm is Some,
        okm matches Some(k) ==> k@ == hkdf_sha256_okm32(salt@, ikm@, info@),
{
    let hkdf = hkdf::Hkdf::<sha2::Sha256>::new(Some(salt), ikm);
    let mut okm = [0u8; 32];
    match hkdf.expand(info, &mut okm) {
        Ok(()) => Some(okm),
        Err(_) => None,
    }
}

/// `Sha256::new()`, `update(first)`, `update(second)`, `finalize()`.
/// Trusted: incremental hashing gives the digest of the concatenation.
#[verifier::external_body]
pub(crate) fn sha256_of_parts(first: &[u8], second: &[u8]) -> (digest: Vec<u8>)
    ensures
        digest@ == sha256_digest(first@ + second@),
        digest@.len() == 32,
{
    let mut hasher = sha2::Sha256::new();
    hasher.update(first);
    hasher.update(second);
    hasher.finalize().to_vec()
}

/// `Aes256Gcm::new(key).encrypt(Nonce::from_slice(nonce), plaintext)`.
/// Trusted: encryption fails only on plaintexts longer than 2^36 bytes; its
/// result is the plaintext's length plus the 16-byte tag, and decrypts, under
/// the same key and nonce, to the plaintext.
#[verifier::external_body]
pub(crate) fn aes256gcm_encrypt(key: &[u8; 32], nonce: &[u8; 12], plaintext: &[u8]) -> (ciphertext: Option<Vec<u8>>)
    ensures
        ciphertext is Some <==> plaintext@.len() <= aes_gcm_max_plaintext(),
        ciphertext matches Some(c) ==> c@ == aes256gcm_seal(key@, nonce@, plaintext@)
            && c@.len() == plaintext@.len() + 16
            && aes256gcm_open(key@, nonce@, c@) == Some(plaintext@),
{
    let cipher = aes_gcm::Aes256Gcm::new(aes_gcm::Key::<aes_gcm::Aes256Gcm>::from_slice(key));
    cipher.encrypt(aes_gcm::Nonce::from_slice(nonce), plaintext).ok()
}

/// `Aes256Gcm::new(key).decrypt(Nonce::from_slice(nonce), ciphertext)`.
/// `Nonce::from_slice` panics unless the nonce holds 12 bytes, hence the `requires`.
/// Trusted: the result is the authenticated decryption.
#[verifier::external_body]
pub(crate) fn aes256gcm_decrypt(key: &[u8; 32], nonce: &[u8], ciphertext: &[u8]) -> (plaintext: Option<Vec<u8>>)
    requires
        nonce@.len() == 12,
    ensures
        match plaintext {
            Some(p) => aes256gcm_open(key@, nonce@, ciphertext@) == Some(p@),
            None => aes256gcm_open(key@, nonce@, ciphertext@) is None,
        },
{
    let cipher = aes_gcm::Aes256Gcm::new(aes_gcm::Key::<aes_gcm::Aes256Gcm>::from_slice(key));
    cipher.decrypt(aes_gcm::Nonce::from_slice(nonce), ciphertext).ok()
}

/// 32 bytes from the operating system's random source (`OsRng.fill_bytes`).
/// Nothing is promised of the value.
#[verifier::external_body]
pub(crate) fn fresh_seed() -> (seed: [u8; 32]) {
    let mut seed = [0u8; 32];
    rand::rngs::OsRng.fill_bytes(&mut seed);
    seed
}

/// 12 bytes from the operating system's random source (`OsRng.fill_bytes`).
/// Nothing is promised of the value.
#[verifier::external_body]
pub(crate) fn fresh_nonce() -> (nonce: [u8; 12]) {
    let mut nonce = [0u8; 12];
    aes_gcm::aead::OsRng.fill_bytes(&mut nonce);
    nonce
}

/// The current time in whole seconds since the Unix epoch (`Utc::now().timestamp()`).
/// Nothing is promised of the value.
#[verifier::external_body]
pub(crate) fn unix_time_now() -> (seconds: i64) {
    chrono::Utc::now().timestamp()
}

/// A fresh version-4 UUID in its hyphenated text form (`Uuid::new_v4().to_string()`).
/// Trusted: the hyphenated form has 36 characters.
#[verifier::external_body]
pub(crate) fn new_uuid() -> (id: String)
    ensures
        id@.len() == 36,
{
    uuid::Uuid::new_v4().to_string()
}

/// A uniformly drawn number below `bound` (`thread_rng().gen_range(0..bound)`).
/// `gen_range` panics on an empty range, hence the `requires`.
#[verifier::external_body]
pub(crate) fn random_below(bound: u8) -> (value: u8)
    requires
        bound > 0,
    ensures
        value < bound,
{
    rand::thread_rng().gen_range(0..bound)
}

} // verus!
