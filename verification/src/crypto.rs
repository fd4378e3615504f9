//! The end-to-end session: an Ed25519 identity, an ephemeral X25519 key
//! exchange, an AES-256-GCM key derived with HKDF-SHA256, a SHA-256
//! fingerprint of the shared secret, and sequence numbers against replay.
use vstd::prelude::*;
use vstd::utf8::*;
use crate::encoding::{
    base64_decode, base64_decoded, base64_encode, base64_text, copy_into_array32, hex_encode, hex_text,
    lemma_hex_text_len, utf8_string,
};
use crate::primitives::{
    aes256gcm_decrypt, aes256gcm_encrypt, aes256gcm_open, aes256gcm_seal, aes_gcm_max_plaintext,
    ed25519_key_is_valid, ed25519_point_valid, ed25519_public_from_seed, ed25519_public_key, ed25519_sign,
    ed25519_signature, ed25519_verifies, ed25519_verify, fresh_nonce, hkdf_sha256_expand32,
    hkdf_sha256_okm32, sha256_digest, sha256_of_parts, signature_shape_ok, unix_time_now,
    x25519_diffie_hellman, x25519_fresh_secret, x25519_public, x25519_public_key,
    x25519_shared_secret,
};
use crate::text::{opt_str, opt_text};
use crate::types::P2PMessage;

verus! {

broadcast use {vstd::array::group_array_axioms, crate::encoding::lemma_base64_roundtrip};

/// Why a session operation failed.
#[derive(Debug, Clone, Copy, PartialEq, Eq, Structural)]
pub enum CryptoError {
    EncryptionFailed,
    DecryptionFailed,
    KeyExchangeNotComplete,
    InvalidSignature,
    InvalidKey,
}

impl CryptoError {
    /// The error's text.
    pub fn message(&self) -> (text: &'static str)
        ensures
            text@ == match *self {
                CryptoError::EncryptionFailed => "Encryption failed"@,
                CryptoError::DecryptionFailed => "Decryption failed"@,
                CryptoError::KeyExchangeNotComplete => "Key exchange not complete"@,
                CryptoError::InvalidSignature => "Invalid signature"@,
                CryptoError::InvalidKey => "Invalid key"@,
            },
    {
        match self {
            CryptoError::EncryptionFailed => "Encryption failed",
            CryptoError::DecryptionFailed => "Decryption failed",
            CryptoError::KeyExchangeNotComplete => "Key exchange not complete",
            CryptoError::InvalidSignature => "Invalid signature",
            CryptoError::InvalidKey => "Invalid key",
        }
    }
}

/// The session state as mathematical values.
pub ghost struct SessionView {
    pub identity_secret: Seq<u8>,
    pub identity_public: Seq<u8>,
    pub ephemeral_secret: Option<Seq<u8>>,
    pub ephemeral_public: Option<Seq<u8>>,
    pub peer_ephemeral_public: Option<Seq<u8>>,
    pub peer_identity_public: Option<Seq<u8>>,
    pub aes_key: Option<Seq<u8>>,
    pub peer_id: Option<Seq<char>>,
    pub seq_sent: u64,
    pub seq_recv: u64,
    pub fingerprint: Option<Seq<char>>,
    pub peer_fingerprint: Option<Seq<char>>,
}

pub open spec fn opt_bytes32(o: Option<[u8; 32]>) -> Option<Seq<u8>> {
    match o {
        Some(a) => Some(a@),
        None => None,
    }
}

/// The Diffie-Hellman property for one secret: combining any other secret with
/// this secret's public key equals combining this secret with the other's.
pub open spec fn dh_commutes(secret: Seq<u8>) -> bool {
    forall|other: Seq<u8>|
        other.len() == 32 ==> #[trigger] x25519_shared_secret(other, x25519_public_key(secret))
            == x25519_shared_secret(secret, x25519_public_key(other))
}

/// HKDF salt for the session key.
pub open spec fn kdf_salt() -> Seq<u8> {
    encode_utf8("p2p-chat-v1-salt"@)
}

/// HKDF info for the session key.
pub open spec fn kdf_info() -> Seq<u8> {
    encode_utf8("p2p-chat-aes-key"@)
}

/// Prefix hashed before the shared secret to form the fingerprint.
pub open spec fn fingerprint_label() -> Seq<u8> {
    encode_utf8("p2p-chat-fingerprint-v1"@)
}

/// The AES key a session derives from its ephemeral secret and the peer's ephemeral public key.
pub open spec fn session_key(secret: Seq<u8>, peer_public: Seq<u8>) -> Seq<u8> {
    hkdf_sha256_okm32(kdf_salt(), x25519_shared_secret(secret, peer_public), kdf_info())
}

/// The fingerprint a session derives: hex of SHA-256 over the label and the shared secret.
pub open spec fn session_fingerprint(secret: Seq<u8>, peer_public: Seq<u8>) -> Seq<char> {
    hex_text(sha256_digest(fingerprint_label() + x25519_shared_secret(secret, peer_public)))
}

/// The Base64 text of a signature over the Base64 text of a public key.
pub open spec fn signed_key_text(identity_secret: Seq<u8>, key_text: Seq<char>) -> Seq<char> {
    base64_text(ed25519_signature(identity_secret, encode_utf8(key_text)))
}

/// The key-exchange fields a session announces: its ephemeral public key in
/// Base64, the peer id given, and its identity's signature over the key text.
pub open spec fn announces(v: SessionView, public_key: Seq<char>, peer_id: Seq<char>, signature: Seq<char>, id: Seq<char>) -> bool {
    &&& v.ephemeral_public is Some
    &&& public_key == base64_text(v.ephemeral_public->0)
    &&& signature == signed_key_text(v.identity_secret, public_key)
    &&& peer_id =~= id
}

/// A key-exchange request as the session `v` builds it for peer id `id`.
pub open spec fn is_key_exchange_of(msg: P2PMessage, v: SessionView, id: Seq<char>) -> bool {
    &&& msg matches P2PMessage::KeyExchange { public_key, peer_id, signature }
        && announces(v, public_key@, peer_id@, signature@, id)
    &&& kx_carries(msg, v.ephemeral_public->0)
    &&& kx_signed_by(msg, v.identity_public)
}

/// A key-exchange answer as the session `v` builds it for peer id `id`.
pub open spec fn is_key_exchange_ack_of(msg: P2PMessage, v: SessionView, id: Seq<char>) -> bool {
    &&& msg matches P2PMessage::KeyExchangeAck { public_key, peer_id, signature }
        && announces(v, public_key@, peer_id@, signature@, id)
    &&& kx_carries(msg, v.ephemeral_public->0)
    &&& kx_signed_by(msg, v.identity_public)
}

/// A key-exchange message (either direction) whose signature field decodes to
/// an Ed25519 signature that verifies, under `identity_public`, for the UTF-8
/// bytes of its key field.
pub open spec fn kx_signed_by(msg: P2PMessage, identity_public: Seq<u8>) -> bool {
    match msg {
        P2PMessage::KeyExchange { public_key, signature, .. }
        | P2PMessage::KeyExchangeAck { public_key, signature, .. } => {
            base64_decoded(signature@) matches Some(sig)
                && ed25519_verifies(identity_public, encode_utf8(public_key@), sig)
        },
        _ => false,
    }
}

/// A receiver admits a key-exchange message's signature: either it holds no
/// identity key of its peer, or the message is signed by that key.
pub open spec fn admits_signature(receiver: SessionView, msg: P2PMessage) -> bool {
    receiver.peer_identity_public matches Some(k) ==> kx_signed_by(msg, k)
}

/// A text message whose nonce field decodes to `nonce` and whose ciphertext
/// field decodes to the AES-256-GCM seal of the plaintext under `key`, which
/// is 16 bytes (the tag) longer than the plaintext's UTF-8 bytes.
pub open spec fn carries_seal(msg: P2PMessage, key: Seq<u8>, nonce: Seq<u8>, plaintext: Seq<char>) -> bool {
    &&& msg is Text
    &&& base64_decoded(msg->Text_nonce@) == Some(nonce)
    &&& base64_decoded(msg->Text_ciphertext@) == Some(aes256gcm_seal(key, nonce, encode_utf8(plaintext)))
    &&& aes256gcm_seal(key, nonce, encode_utf8(plaintext)).len() == encode_utf8(plaintext).len() + 16
}

/// A key-exchange message (either direction) carrying `public` in a form that
/// every receiver accepts: the key decodes to those 32 bytes and the
/// signature field decodes to 64 bytes.
pub open spec fn kx_carries(msg: P2PMessage, public: Seq<u8>) -> bool {
    match msg {
        P2PMessage::KeyExchange { public_key, signature, .. }
        | P2PMessage::KeyExchangeAck { public_key, signature, .. } => {
            &&& public.len() == 32
            &&& base64_decoded(public_key@) == Some(public)
            &&& base64_decoded(signature@) matches Some(sig) && sig.len() == 64
        },
        _ => false,
    }
}

/// A text message sealed under `key` whose plaintext is `plaintext`.
pub open spec fn sealed_for(msg: P2PMessage, key: Seq<u8>, plaintext: Seq<char>) -> bool {
    match msg {
        P2PMessage::Text { nonce, ciphertext, .. } => {
            &&& base64_decoded(nonce@) matches Some(n) && n.len() == 12
            &&& base64_decoded(ciphertext@) matches Some(c)
                && aes256gcm_open(key, base64_decoded(nonce@)->0, c) == Some(encode_utf8(plaintext))
        },
        _ => false,
    }
}

impl SessionView {
    /// What every session keeps true.
    pub open spec fn wf(self) -> bool {
        &&& self.identity_secret.len() == 32
        &&& self.identity_public == ed25519_public_key(self.identity_secret)
        &&& ed25519_point_valid(self.identity_public)
        &&& self.ephemeral_secret matches Some(s) ==> {
            &&& s.len() == 32
            &&& self.ephemeral_public == Some(x25519_public_key(s))
            &&& dh_commutes(s)
        }
    }

    /// A session with the given identity and nothing else.
    pub open spec fn fresh(identity_secret: Seq<u8>) -> SessionView {
        SessionView {
            identity_secret,
            identity_public: ed25519_public_key(identity_secret),
            ephemeral_secret: None,
            ephemeral_public: None,
            peer_ephemeral_public: None,
            peer_identity_public: None,
            aes_key: None,
            peer_id: None,
            seq_sent: 0,
            seq_recv: 0,
            fingerprint: None,
            peer_fingerprint: None,
        }
    }

    /// The same session with a new ephemeral secret and its public key.
    pub open spec fn with_ephemeral(self, secret: Seq<u8>) -> SessionView {
        SessionView {
            ephemeral_secret: Some(secret),
            ephemeral_public: Some(x25519_public_key(secret)),
            ..self
        }
    }

    /// Recording a peer's key-exchange fields: the key is checked first, then
    /// stored with the peer id, then the signature's shape is checked and,
    /// where the peer's identity key is stored, the signature is verified
    /// under it for the key text's UTF-8 bytes.
    pub open spec fn record_peer(self, key_text: Seq<char>, peer_id: Seq<char>, sig_text: Seq<char>) -> (SessionView, Result<(), CryptoError>) {
        match base64_decoded(key_text) {
            None => (self, Err(CryptoError::InvalidKey)),
            Some(pk) => if pk.len() != 32 {
                (self, Err(CryptoError::InvalidKey))
            } else {
                let next = SessionView { peer_ephemeral_public: Some(pk), peer_id: Some(peer_id), ..self };
                match base64_decoded(sig_text) {
                    None => (next, Err(CryptoError::InvalidSignature)),
                    Some(sig) => if sig.len() != 64 {
                        (next, Err(CryptoError::InvalidSignature))
                    } else {
                        match self.peer_identity_public {
                            Some(k) => if ed25519_verifies(k, encode_utf8(key_text), sig) {
                                (next, Ok(()))
                            } else {
                                (next, Err(CryptoError::InvalidSignature))
                            },
                            None => (next, Ok(())),
                        }
                    },
                }
            },
        }
    }

    /// Processing a received key-exchange message.
    pub open spec fn process_key_exchange(self, msg: P2PMessage) -> (SessionView, Result<(), CryptoError>) {
        match msg {
            P2PMessage::KeyExchange { public_key, peer_id, signature }
            | P2PMessage::KeyExchangeAck { public_key, peer_id, signature } =>
                self.record_peer(public_key@, peer_id@, signature@),
            _ => (self, Err(CryptoError::InvalidKey)),
        }
    }

    /// Deriving the session key: the ephemeral secret is used up whenever it was there.
    pub open spec fn derive(self) -> (SessionView, Result<Seq<u8>, CryptoError>) {
        match self.ephemeral_secret {
            None => (self, Err(CryptoError::KeyExchangeNotComplete)),
            Some(s) => match self.peer_ephemeral_public {
                None => (SessionView { ephemeral_secret: None, ..self }, Err(CryptoError::KeyExchangeNotComplete)),
                Some(p) => (
                    SessionView {
                        ephemeral_secret: None,
                        aes_key: Some(session_key(s, p)),
                        fingerprint: Some(session_fingerprint(s, p)),
                        seq_sent: 0,
                        seq_recv: 0,
                        ..self
                    },
                    Ok(session_key(s, p)),
                ),
            },
        }
    }

    /// Encrypting a plaintext with a given nonce: on success the nonce text,
    /// the ciphertext text and the new sequence number.
    pub open spec fn encrypt(self, plaintext: Seq<char>, nonce: Seq<u8>) -> (SessionView, Result<(Seq<char>, Seq<char>, u64), CryptoError>) {
        match self.aes_key {
            None => (self, Err(CryptoError::KeyExchangeNotComplete)),
            Some(k) => if encode_utf8(plaintext).len() > aes_gcm_max_plaintext() {
                (self, Err(CryptoError::EncryptionFailed))
            } else {
                let seq = (self.seq_sent + 1) as u64;
                (
                    SessionView { seq_sent: seq, ..self },
                    Ok((base64_text(nonce), base64_text(aes256gcm_seal(k, nonce, encode_utf8(plaintext))), seq)),
                )
            },
        }
    }

    /// Encryption would overflow the send counter.
    pub open spec fn encrypt_overflows(self, plaintext: Seq<char>) -> bool {
        &&& self.aes_key is Some
        &&& encode_utf8(plaintext).len() <= aes_gcm_max_plaintext()
        &&& self.seq_sent == u64::MAX
    }

    /// Decrypting a received message. The receive counter moves to the
    /// message's number as soon as the number is fresh, whatever follows.
    pub open spec fn decrypt(self, msg: P2PMessage) -> (SessionView, Result<Seq<char>, CryptoError>) {
        match msg {
            P2PMessage::Text { nonce, ciphertext, seq, .. } => if seq <= self.seq_recv {
                (self, Err(CryptoError::DecryptionFailed))
            } else {
                let next = SessionView { seq_recv: seq, ..self };
                match self.aes_key {
                    None => (next, Err(CryptoError::KeyExchangeNotComplete)),
                    Some(k) => match base64_decoded(nonce@) {
                        None => (next, Err(CryptoError::DecryptionFailed)),
                        Some(n) => match base64_decoded(ciphertext@) {
                            None => (next, Err(CryptoError::DecryptionFailed)),
                            Some(c) => match aes256gcm_open(k, n, c) {
                                None => (next, Err(CryptoError::DecryptionFailed)),
                                Some(p) => if valid_utf8(p) {
                                    (next, Ok(decode_utf8(p)))
                                } else {
                                    (next, Err(CryptoError::DecryptionFailed))
                                },
                            },
                        },
                    },
                }
            },
            _ => (self, Err(CryptoError::DecryptionFailed)),
        }
    }

    /// Decryption would reach the AES nonce with a length other than 12,
    /// which the cipher refuses by panicking.
    pub open spec fn decrypt_panics(self, msg: P2PMessage) -> bool {
        match msg {
            P2PMessage::Text { nonce, seq, .. } => {
                &&& seq > self.seq_recv
                &&& self.aes_key is Some
                &&& base64_decoded(nonce@) matches Some(n) && n.len() != 12
            },
            _ => false,
        }
    }

    /// The session after a reset: only the identity is kept.
    pub open spec fn reset(self) -> SessionView {
        SessionView::fresh(self.identity_secret)
    }
}

pub open spec fn key_result(r: Result<[u8; 32], CryptoError>) -> Result<Seq<u8>, CryptoError> {
    match r {
        Ok(k) => Ok(k@),
        Err(e) => Err(e),
    }
}

pub open spec fn text_result(r: Result<String, CryptoError>) -> Result<Seq<char>, CryptoError> {
    match r {
        Ok(s) => Ok(s@),
        Err(e) => Err(e),
    }
}

pub open spec fn sealed_result(r: Result<P2PMessage, CryptoError>) -> Result<(Seq<char>, Seq<char>, u64), CryptoError> {
    match r {
        Ok(P2PMessage::Text { nonce, ciphertext, seq, .. }) => Ok((nonce@, ciphertext@, seq)),
        Ok(_) => Err(CryptoError::EncryptionFailed),
        Err(e) => Err(e),
    }
}

/// One peer's side of an end-to-end encrypted session.
pub struct CryptoEngine {
    identity_sk: [u8; 32],
    identity_pk: [u8; 32],
    ephemeral_sk: Option<[u8; 32]>,
    ephemeral_pk: Option<[u8; 32]>,
    peer_ephemeral_pk: Option<[u8; 32]>,
    peer_identity_pk: Option<[u8; 32]>,
    aes_key: Option<[u8; 32]>,
    peer_id: Option<String>,
    seq_sent: u64,
    seq_recv: u64,
    fingerprint: Option<String>,
    peer_fingerprint: Option<String>,
}

impl View for CryptoEngine {
    type V = SessionView;

    closed spec fn view(&self) -> SessionView {
        SessionView {
            identity_secret: self.identity_sk@,
            identity_public: self.identity_pk@,
            ephemeral_secret: opt_bytes32(self.ephemeral_sk),
            ephemeral_public: opt_bytes32(self.ephemeral_pk),
            peer_ephemeral_public: opt_bytes32(self.peer_ephemeral_pk),
            peer_identity_public: opt_bytes32(self.peer_identity_pk),
            aes_key: opt_bytes32(self.aes_key),
            peer_id: opt_text(self.peer_id),
            seq_sent: self.seq_sent,
            seq_recv: self.seq_recv,
            fingerprint: opt_text(self.fingerprint),
            peer_fingerprint: opt_text(self.peer_fingerprint),
        }
    }
}

impl CryptoEngine {
    #[verifier::type_invariant]
    closed spec fn well_formed(&self) -> bool {
        self@.wf()
    }

    /// A session for the identity whose Ed25519 secret seed is given.
    pub fn new(identity_seed: &[u8; 32]) -> (engine: Self)
        ensures
            engine@ == SessionView::fresh(identity_seed@),
            engine@.wf(),
    {
        let identity_pk = ed25519_public_from_seed(identity_seed);
        CryptoEngine {
            identity_sk: *identity_seed,
            identity_pk,
            ephemeral_sk: None,
            ephemeral_pk: None,
            peer_ephemeral_pk: None,
            peer_identity_pk: None,
            aes_key: None,
            peer_id: None,
            seq_sent: 0,
            seq_recv: 0,
            fingerprint: None,
            peer_fingerprint: None,
        }
    }

    /// Every engine's session is well-formed (`SessionView::wf`); a call
    /// brings that fact into the caller's proof and does nothing at run time.
    pub fn session_is_well_formed(&self)
        ensures
            self@.wf(),
    {
        proof {
            use_type_invariant(self);
        }
    }

    /// The identity's Ed25519 public key.
    pub fn identity_public_key(&self) -> (key: [u8; 32])
        ensures
            key@ == self@.identity_public,
    {
        self.identity_pk
    }

    /// The identity's public key in Base64.
    pub fn public_key_base64(&self) -> (text: String)
        ensures
            text@ == base64_text(self@.identity_public),
    {
        base64_encode(&self.identity_pk)
    }

    /// Makes `secret` the ephemeral secret, with its public key.
    pub fn install_ephemeral_secret(&mut self, secret: [u8; 32])
        ensures
            final(self)@ == old(self)@.with_ephemeral(secret@),
            final(self)@.wf(),
    {
        proof {
            use_type_invariant(&*self);
        }
        let public = x25519_public(&secret);
        self.ephemeral_sk = None;
        self.ephemeral_pk = Some(public);
        self.ephemeral_sk = Some(secret);
    }

    /// Draws a fresh ephemeral secret and computes its public key.
    pub fn generate_ephemeral_keypair(&mut self)
        ensures
            final(self)@.ephemeral_secret matches Some(s)
                && final(self)@ == old(self)@.with_ephemeral(s),
            final(self)@.wf(),
    {
        proof {
            use_type_invariant(&*self);
        }
        let secret = x25519_fresh_secret();
        self.install_ephemeral_secret(secret);
    }

    /// The ephemeral public key in Base64, if there is one.
    pub fn ephemeral_public_key_base64(&self) -> (text: Option<String>)
        ensures
            match self@.ephemeral_public {
                Some(p) => text matches Some(t) && t@ == base64_text(p) && base64_decoded(t@) == Some(p),
                None => text is None,
            },
    {
        match self.ephemeral_pk {
            Some(pk) => Some(base64_encode(&pk)),
            None => None,
        }
    }

    /// The identity's signature over `data`, in Base64.
    pub fn sign_data(&self, data: &[u8]) -> (text: String)
        ensures
            text@ == base64_text(ed25519_signature(self@.identity_secret, data@)),
            base64_decoded(text@) == Some(ed25519_signature(self@.identity_secret, data@)),
            ed25519_signature(self@.identity_secret, data@).len() == 64,
            ed25519_verifies(self@.identity_public, data@, ed25519_signature(self@.identity_secret, data@)),
    {
        proof {
            use_type_invariant(self);
        }
        let signature = ed25519_sign(&self.identity_sk, data);
        base64_encode(signature.as_slice())
    }

    /// The ephemeral public key and the identity's signature over its Base64 text.
    fn signed_ephemeral_key(&self) -> (texts: (String, String))
        requires
            self@.ephemeral_public is Some,
        ensures
            texts.0@ == base64_text(self@.ephemeral_public->0),
            texts.1@ == signed_key_text(self@.identity_secret, texts.0@),
            base64_decoded(texts.0@) == Some(self@.ephemeral_public->0),
            base64_decoded(texts.1@) matches Some(sig) && sig.len() == 64
                && ed25519_verifies(self@.identity_public, encode_utf8(texts.0@), sig),
    {
        proof {
            use_type_invariant(self);
        }
        let pk_base64 = match self.ephemeral_public_key_base64() {
            Some(t) => t,
            None => String::new(),
        };
        let sig = self.sign_data(pk_base64.as_str().as_bytes());
        (pk_base64, sig)
    }

    /// Starts a key exchange: a fresh ephemeral key pair, announced signed.
    pub fn create_key_exchange_message(&mut self, peer_id: &str) -> (msg: P2PMessage)
        ensures
            final(self)@.ephemeral_secret matches Some(s)
                && final(self)@ == old(self)@.with_ephemeral(s),
            final(self)@.wf(),
            is_key_exchange_of(msg, final(self)@, peer_id@),
    {
        proof {
            use_type_invariant(&*self);
        }
        self.generate_ephemeral_keypair();
        let (public_key, signature) = self.signed_ephemeral_key();
        P2PMessage::KeyExchange { public_key, peer_id: peer_id.to_owned(), signature }
    }

    /// Answers a key exchange with this side's ephemeral public key, signed.
    /// A side that holds no unused ephemeral secret first draws a fresh key pair.
    pub fn create_key_exchange_ack(&mut self, peer_id: &str) -> (msg: P2PMessage)
        ensures
            old(self)@.ephemeral_secret is Some ==> final(self)@ == old(self)@,
            old(self)@.ephemeral_secret is None ==> (final(self)@.ephemeral_secret matches Some(s)
                && final(self)@ == old(self)@.with_ephemeral(s)),
            final(self)@.ephemeral_secret is Some,
            final(self)@.wf(),
            is_key_exchange_ack_of(msg, final(self)@, peer_id@),
    {
        proof {
            use_type_invariant(&*self);
        }
        if self.ephemeral_sk.is_none() {
            self.generate_ephemeral_keypair();
        }
        let (public_key, signature) = self.signed_ephemeral_key();
        P2PMessage::KeyExchangeAck { public_key, peer_id: peer_id.to_owned(), signature }
    }

    fn record_peer(&mut self, public_key: &String, peer_id: &String, signature: &String) -> (result: Result<(), CryptoError>)
        ensures
            (final(self)@, result) == old(self)@.record_peer(public_key@, peer_id@, signature@),
    {
        proof {
            use_type_invariant(&*self);
        }
        let pk_bytes = match base64_decode(public_key.as_str()) {
            Some(b) => b,
            None => return Err(CryptoError::InvalidKey),
        };
        if pk_bytes.len() != 32 {
            return Err(CryptoError::InvalidKey);
        }
        let pk = copy_into_array32(pk_bytes.as_slice());
        self.peer_ephemeral_pk = Some(pk);
        self.peer_id = Some(peer_id.clone());
        let sig_bytes = match base64_decode(signature.as_str()) {
            Some(b) => b,
            None => return Err(CryptoError::InvalidSignature),
        };
        if !signature_shape_ok(sig_bytes.as_slice()) {
            return Err(CryptoError::InvalidSignature);
        }
        if let Some(identity) = self.peer_identity_pk {
            if !ed25519_verify(&identity, public_key.as_str().as_bytes(), sig_bytes.as_slice()) {
                return Err(CryptoError::InvalidSignature);
            }
        }
        Ok(())
    }

    /// Records the peer's ephemeral key and id from a key-exchange message
    /// (either direction), refusing a signature that is not 64 bytes or, where
    /// the peer's identity key is stored, that does not verify under it.
    /// Other messages are refused with `InvalidKey`.
    pub fn process_key_exchange(&mut self, msg: &P2PMessage) -> (result: Result<(), CryptoError>)
        ensures
            (final(self)@, result) == old(self)@.process_key_exchange(*msg),
            final(self)@.wf(),
    {
        proof {
            use_type_invariant(&*self);
        }
        match msg {
            P2PMessage::KeyExchange { public_key, peer_id, signature } => self.record_peer(public_key, peer_id, signature),
            P2PMessage::KeyExchangeAck { public_key, peer_id, signature } => self.record_peer(public_key, peer_id, signature),
            _ => Err(CryptoError::InvalidKey),
        }
    }

    /// Stores the peer's Ed25519 identity key if it is a valid key.
    pub fn verify_and_store_identity(&mut self, identity_pk_bytes: &[u8; 32]) -> (result: Result<(), CryptoError>)
        ensures
            ed25519_point_valid(identity_pk_bytes@) ==> result is Ok
                && final(self)@ == (SessionView { peer_identity_public: Some(identity_pk_bytes@), ..old(self)@ }),
            !ed25519_point_valid(identity_pk_bytes@) ==> result == Err::<(), CryptoError>(CryptoError::InvalidKey)
                && final(self)@ == old(self)@,
            final(self)@.wf(),
    {
        proof {
            use_type_invariant(&*self);
        }
        if ed25519_key_is_valid(identity_pk_bytes) {
            self.peer_identity_pk = Some(*identity_pk_bytes);
            Ok(())
        } else {
            Err(CryptoError::InvalidKey)
        }
    }

    /// Derives the AES key and fingerprint from the ephemeral secret and the
    /// peer's ephemeral key, and restarts both sequence counters.
    pub fn derive_shared_key(&mut self) -> (result: Result<[u8; 32], CryptoError>)
        ensures
            (final(self)@, key_result(result)) == old(self)@.derive(),
            result is Ok ==> (final(self)@.fingerprint matches Some(fp) && fp.len() == 64),
            final(self)@.wf(),
    {
        proof {
            use_type_invariant(&*self);
        }
        let secret = self.ephemeral_sk;
        self.ephemeral_sk = None;
        let sk = match secret {
            Some(s) => s,
            None => return Err(CryptoError::KeyExchangeNotComplete),
        };
        let peer_pk = match self.peer_ephemeral_pk {
            Some(p) => p,
            None => return Err(CryptoError::KeyExchangeNotComplete),
        };
        let shared = x25519_diffie_hellman(&sk, &peer_pk);
        let key = match hkdf_sha256_expand32("p2p-chat-v1-salt".as_bytes(), &shared, "p2p-chat-aes-key".as_bytes()) {
            Some(k) => k,
            None => return Err(CryptoError::KeyExchangeNotComplete),
        };
        self.aes_key = Some(key);
        let digest = sha256_of_parts("p2p-chat-fingerprint-v1".as_bytes(), &shared);
        proof {
            lemma_hex_text_len(digest@);
        }
        self.fingerprint = Some(hex_encode(digest.as_slice()));
        self.seq_sent = 0;
        self.seq_recv = 0;
        Ok(key)
    }

    /// The session fingerprint, once the key is derived.
    pub fn fingerprint(&self) -> (fp: Option<&str>)
        ensures
            opt_str(fp) == self@.fingerprint,
    {
        match &self.fingerprint {
            Some(s) => Some(s.as_str()),
            None => None,
        }
    }

    /// Records the fingerprint the peer reported.
    pub fn set_peer_fingerprint(&mut self, fp: &str)
        ensures
            final(self)@ == (SessionView { peer_fingerprint: Some(fp@), ..old(self)@ }),
            final(self)@.wf(),
    {
        proof {
            use_type_invariant(&*self);
        }
        self.peer_fingerprint = Some(fp.to_owned());
    }

    /// The fingerprint the peer reported.
    pub fn peer_fingerprint(&self) -> (fp: Option<&str>)
        ensures
            opt_str(fp) == self@.peer_fingerprint,
    {
        match &self.peer_fingerprint {
            Some(s) => Some(s.as_str()),
            None => None,
        }
    }

    /// Encrypts `plaintext` under the session key with the given nonce,
    /// numbering it with the next send sequence number.
    pub fn encrypt_message_with_nonce(&mut self, plaintext: &str, nonce: [u8; 12], timestamp: i64) -> (result: Result<P2PMessage, CryptoError>)
        requires
            !old(self)@.encrypt_overflows(plaintext@),
        ensures
            (final(self)@, sealed_result(result)) == old(self)@.encrypt(plaintext@, nonce@),
            result matches Ok(m) ==> m matches P2PMessage::Text { timestamp: t, .. } && t == timestamp,
            result matches Ok(m) ==> sealed_for(m, old(self)@.aes_key->0, plaintext@),
            result matches Ok(m) ==> carries_seal(m, old(self)@.aes_key->0, nonce@, plaintext@),
            final(self)@.wf(),
    {
        proof {
            use_type_invariant(&*self);
        }
        let key = match self.aes_key {
            Some(k) => k,
            None => return Err(CryptoError::KeyExchangeNotComplete),
        };
        let ciphertext = match aes256gcm_encrypt(&key, &nonce, plaintext.as_bytes()) {
            Some(c) => c,
            None => return Err(CryptoError::EncryptionFailed),
        };
        self.seq_sent = self.seq_sent + 1;
        Ok(P2PMessage::Text {
            nonce: base64_encode(&nonce),
            ciphertext: base64_encode(ciphertext.as_slice()),
            seq: self.seq_sent,
            timestamp,
        })
    }

    /// Encrypts `plaintext` with a fresh random nonce, stamped with the current time.
    pub fn encrypt_message(&mut self, plaintext: &str) -> (result: Result<P2PMessage, CryptoError>)
        requires
            !old(self)@.encrypt_overflows(plaintext@),
        ensures
            exists|nonce: Seq<u8>|
                nonce.len() == 12 && (final(self)@, sealed_result(result)) == #[trigger] old(self)@.encrypt(plaintext@, nonce)
                    && (result matches Ok(m) ==> carries_seal(m, old(self)@.aes_key->0, nonce, plaintext@)),
            result matches Ok(m) ==> sealed_for(m, old(self)@.aes_key->0, plaintext@),
            final(self)@.wf(),
    {
        proof {
            use_type_invariant(&*self);
        }
        let nonce = fresh_nonce();
        let timestamp: i64 = unix_time_now();
        self.encrypt_message_with_nonce(plaintext, nonce, timestamp)
    }

    /// Decrypts a text message, refusing sequence numbers at or below the last
    /// one received.
    pub fn decrypt_message(&mut self, msg: &P2PMessage) -> (result: Result<String, CryptoError>)
        requires
            !old(self)@.decrypt_panics(*msg),
        ensures
            (final(self)@, text_result(result)) == old(self)@.decrypt(*msg),
            final(self)@.wf(),
    {
        proof {
            use_type_invariant(&*self);
        }
        match msg {
            P2PMessage::Text { nonce, ciphertext, seq, .. } => {
                if *seq <= self.seq_recv {
                    return Err(CryptoError::DecryptionFailed);
                }
                self.seq_recv = *seq;
                let key = match self.aes_key {
                    Some(k) => k,
                    None => return Err(CryptoError::KeyExchangeNotComplete),
                };
                let nonce_bytes = match base64_decode(nonce.as_str()) {
                    Some(b) => b,
                    None => return Err(CryptoError::DecryptionFailed),
                };
                let ct_bytes = match base64_decode(ciphertext.as_str()) {
                    Some(b) => b,
                    None => return Err(CryptoError::DecryptionFailed),
                };
                let plaintext = match aes256gcm_decrypt(&key, nonce_bytes.as_slice(), ct_bytes.as_slice()) {
                    Some(p) => p,
                    None => return Err(CryptoError::DecryptionFailed),
                };
                match utf8_string(plaintext) {
                    Some(s) => Ok(s),
                    None => Err(CryptoError::DecryptionFailed),
                }
            },
            _ => Err(CryptoError::DecryptionFailed),
        }
    }

    /// Decrypts like `decrypt_message`, except that a message whose nonce
    /// decodes to a length other than 12 bytes (where `decrypt_message` cannot
    /// be called) gives `None` and leaves the session unchanged.
    pub fn decrypt_message_checked(&mut self, msg: &P2PMessage) -> (result: Option<Result<String, CryptoError>>)
        ensures
            result is None <==> old(self)@.decrypt_panics(*msg),
            result is None ==> final(self)@ == old(self)@,
            result matches Some(r) ==> (final(self)@, text_result(r)) == old(self)@.decrypt(*msg),
            final(self)@.wf(),
    {
        proof {
            use_type_invariant(&*self);
        }
        let panics = match msg {
            P2PMessage::Text { nonce, seq, .. } => {
                if *seq > self.seq_recv && self.aes_key.is_some() {
                    match base64_decode(nonce.as_str()) {
                        Some(b) => b.len() != 12,
                        None => false,
                    }
                } else {
                    false
                }
            },
            _ => false,
        };
        if panics {
            None
        } else {
            Some(self.decrypt_message(msg))
        }
    }

    /// The peer's id, once a key exchange was recorded.
    pub fn peer_id(&self) -> (id: Option<&str>)
        ensures
            opt_str(id) == self@.peer_id,
    {
        match &self.peer_id {
            Some(s) => Some(s.as_str()),
            None => None,
        }
    }

    /// Whether the session key has been derived.
    pub fn is_session_ready(&self) -> (ready: bool)
        ensures
            ready == self@.aes_key is Some,
    {
        self.aes_key.is_some()
    }

    /// How many messages have been encrypted since the key was derived.
    pub fn sent_count(&self) -> (count: u64)
        ensures
            count == self@.seq_sent,
    {
        self.seq_sent
    }

    /// Forgets everything about the session; the identity stays.
    pub fn reset_session(&mut self)
        ensures
            final(self)@ == old(self)@.reset(),
            final(self)@.wf(),
    {
        proof {
            use_type_invariant(&*self);
        }
        self.ephemeral_sk = None;
        self.ephemeral_pk = None;
        self.peer_ephemeral_pk = None;
        self.peer_identity_pk = None;
        self.aes_key = None;
        self.peer_id = None;
        self.seq_sent = 0;
        self.seq_recv = 0;
        self.fingerprint = None;
        self.peer_fingerprint = None;
    }

    /// The confirmation carrying this side's fingerprint, once there is one.
    pub fn create_session_confirm(&self) -> (msg: Option<P2PMessage>)
        ensures
            match self@.fingerprint {
                Some(fp) => msg matches Some(P2PMessage::SessionConfirm { fingerprint, peer_id })
                    && fingerprint@ == fp && peer_id@ == Seq::<char>::empty(),
                None => msg is None,
            },
    {
        match &self.fingerprint {
            Some(fp) => Some(P2PMessage::SessionConfirm { fingerprint: fp.clone(), peer_id: String::new() }),
            None => None,
        }
    }
}

/// The peer id a key-exchange message carries.
pub open spec fn kx_peer_id(msg: P2PMessage) -> Seq<char> {
    match msg {
        P2PMessage::KeyExchange { peer_id, .. } | P2PMessage::KeyExchangeAck { peer_id, .. } => peer_id@,
        _ => Seq::empty(),
    }
}

/// A key-exchange message as one session builds it is accepted by any
/// session that holds no identity key of its peer or holds the key that
/// signed the message; the receiver then holds the sender's ephemeral key and
/// the carried peer id.
pub proof fn lemma_key_exchange_accepted(receiver: SessionView, msg: P2PMessage, public: Seq<u8>)
    requires
        kx_carries(msg, public),
        admits_signature(receiver, msg),
    ensures
        receiver.process_key_exchange(msg) == (
            SessionView { peer_ephemeral_public: Some(public), peer_id: Some(kx_peer_id(msg)), ..receiver },
            Ok::<(), CryptoError>(()),
        ),
{
}

/// Authentication: a key-exchange message whose signature does not verify
/// under the identity key the receiver holds for its peer is refused with
/// `InvalidSignature`, whatever else it carries.
pub proof fn lemma_unsigned_key_exchange_refused(receiver: SessionView, msg: P2PMessage, public: Seq<u8>)
    requires
        kx_carries(msg, public),
        receiver.peer_identity_public is Some,
        !kx_signed_by(msg, receiver.peer_identity_public->0),
    ensures
        receiver.process_key_exchange(msg).1 == Err::<(), CryptoError>(CryptoError::InvalidSignature),
{
}

/// The sender's signature is admitted by a receiver that holds no identity
/// key of its peer, or holds the sender's.
pub open spec fn trusts(receiver: SessionView, sender: SessionView) -> bool {
    receiver.peer_identity_public is None || receiver.peer_identity_public == Some(sender.identity_public)
}

/// Two sessions that each hold the other's ephemeral public key derive the
/// same AES key and the same fingerprint: ECDH(a, B) = ECDH(b, A).
pub proof fn lemma_key_agreement(a: SessionView, b: SessionView)
    requires
        a.wf(),
        b.wf(),
        a.ephemeral_secret is Some,
        b.ephemeral_secret is Some,
        a.peer_ephemeral_public == b.ephemeral_public,
        b.peer_ephemeral_public == a.ephemeral_public,
    ensures
        a.derive().1 is Ok,
        a.derive().1 == b.derive().1,
        a.derive().0.fingerprint == b.derive().0.fingerprint,
        a.derive().0.fingerprint is Some,
{
    let sa = a.ephemeral_secret->0;
    let sb = b.ephemeral_secret->0;
    assert(x25519_shared_secret(sa, x25519_public_key(sb)) == x25519_shared_secret(sb, x25519_public_key(sa)));
}

/// The handshake: each side processes the key-exchange message the other
/// built from its ephemeral key and signed with its identity; where a side
/// holds an identity key for its peer it is the other's. Both accept, and then
/// derive the same key and fingerprint.
pub proof fn lemma_handshake_agreement(a: SessionView, b: SessionView, from_a: P2PMessage, from_b: P2PMessage)
    requires
        a.wf(),
        b.wf(),
        a.ephemeral_secret is Some,
        b.ephemeral_secret is Some,
        kx_carries(from_a, a.ephemeral_public->0),
        kx_carries(from_b, b.ephemeral_public->0),
        kx_signed_by(from_a, a.identity_public),
        kx_signed_by(from_b, b.identity_public),
        trusts(a, b),
        trusts(b, a),
    ensures
        a.process_key_exchange(from_b).1 is Ok,
        b.process_key_exchange(from_a).1 is Ok,
        a.process_key_exchange(from_b).0.derive().1 is Ok,
        a.process_key_exchange(from_b).0.derive().1 == b.process_key_exchange(from_a).0.derive().1,
        a.process_key_exchange(from_b).0.derive().0.fingerprint
            == b.process_key_exchange(from_a).0.derive().0.fingerprint,
{
    lemma_key_exchange_accepted(a, from_b, b.ephemeral_public->0);
    lemma_key_exchange_accepted(b, from_a, a.ephemeral_public->0);
    lemma_key_agreement(a.process_key_exchange(from_b).0, b.process_key_exchange(from_a).0);
}

/// Forward secrecy: deriving the key uses up the ephemeral secret, so a
/// second derivation without a new key exchange fails.
pub proof fn lemma_derive_consumes_ephemeral_secret(session: SessionView)
    ensures
        session.derive().0.ephemeral_secret is None,
        session.derive().0.derive().1 == Err::<Seq<u8>, CryptoError>(CryptoError::KeyExchangeNotComplete),
{
}

/// End to end: after the handshake, a message one side seals under its key
/// (numbered 1 or more) decrypts on the other side to its plaintext.
pub proof fn lemma_handshake_then_message(
    a: SessionView,
    b: SessionView,
    from_a: P2PMessage,
    from_b: P2PMessage,
    msg: P2PMessage,
    plaintext: Seq<char>,
)
    requires
        a.wf(),
        b.wf(),
        a.ephemeral_secret is Some,
        b.ephemeral_secret is Some,
        kx_carries(from_a, a.ephemeral_public->0),
        kx_carries(from_b, b.ephemeral_public->0),
        kx_signed_by(from_a, a.identity_public),
        kx_signed_by(from_b, b.identity_public),
        trusts(a, b),
        trusts(b, a),
        sealed_for(msg, a.process_key_exchange(from_b).0.derive().0.aes_key->0, plaintext),
        msg matches P2PMessage::Text { seq, .. } && seq >= 1,
    ensures
        b.process_key_exchange(from_a).0.derive().0.decrypt(msg).1 == Ok::<Seq<char>, CryptoError>(plaintext),
{
    lemma_handshake_agreement(a, b, from_a, from_b);
    lemma_sealed_message_decrypts(b.process_key_exchange(from_a).0.derive().0, msg, plaintext);
}

/// A message sealed under a session's key, numbered above the last number
/// received, decrypts to its plaintext and moves the receive counter to its number.
pub proof fn lemma_sealed_message_decrypts(receiver: SessionView, msg: P2PMessage, plaintext: Seq<char>)
    requires
        receiver.aes_key is Some,
        sealed_for(msg, receiver.aes_key->0, plaintext),
        msg matches P2PMessage::Text { seq, .. } && seq > receiver.seq_recv,
    ensures
        receiver.decrypt(msg).1 == Ok::<Seq<char>, CryptoError>(plaintext),
        receiver.decrypt(msg).0 == (SessionView { seq_recv: msg->Text_seq, ..receiver }),
{
    broadcast use vstd::utf8::encode_utf8_valid_utf8, vstd::utf8::encode_utf8_decode_utf8;
}

/// A text message numbered at or below the last number received is refused
/// and leaves the session as it was.
pub proof fn lemma_stale_message_refused(receiver: SessionView, msg: P2PMessage)
    requires
        msg matches P2PMessage::Text { seq, .. } && seq <= receiver.seq_recv,
    ensures
        receiver.decrypt(msg) == (receiver, Err::<Seq<char>, CryptoError>(CryptoError::DecryptionFailed)),
{
}

/// Replay: once a message has been decrypted, the same message is refused.
pub proof fn lemma_replay_refused(receiver: SessionView, msg: P2PMessage)
    requires
        receiver.decrypt(msg).1 is Ok,
    ensures
        receiver.decrypt(msg).0.decrypt(msg)
            == (receiver.decrypt(msg).0, Err::<Seq<char>, CryptoError>(CryptoError::DecryptionFailed)),
{
}

/// The receive counter never goes down.
pub proof fn lemma_receive_counter_monotone(receiver: SessionView, msg: P2PMessage)
    ensures
        receiver.decrypt(msg).0.seq_recv >= receiver.seq_recv,
{
}

/// Two messages encrypted one after the other carry consecutive sequence numbers.
pub proof fn lemma_sent_numbers_consecutive(
    sender: SessionView,
    first: Seq<char>,
    first_nonce: Seq<u8>,
    second: Seq<char>,
    second_nonce: Seq<u8>,
)
    requires
        !sender.encrypt_overflows(first),
        !sender.encrypt(first, first_nonce).0.encrypt_overflows(second),
        sender.encrypt(first, first_nonce).1 is Ok,
        sender.encrypt(first, first_nonce).0.encrypt(second, second_nonce).1 is Ok,
    ensures
        sender.encrypt(first, first_nonce).0.encrypt(second, second_nonce).1->Ok_0.2
            == sender.encrypt(first, first_nonce).1->Ok_0.2 + 1,
        sender.encrypt(first, first_nonce).1->Ok_0.2 == sender.seq_sent + 1,
{
}

/// The session after encrypting each text of `texts` in turn, the one at
/// place `i` with the nonce at place `i`.
pub open spec fn send_all(v: SessionView, texts: Seq<Seq<char>>, nonces: Seq<Seq<u8>>) -> SessionView
    decreases texts.len(),
{
    if texts.len() == 0 {
        v
    } else {
        send_all(v, texts.drop_last(), nonces).encrypt(texts.last(), nonces[texts.len() - 1]).0
    }
}

/// What the send at place `i` of a run of sends gives.
pub open spec fn nth_send(v: SessionView, texts: Seq<Seq<char>>, nonces: Seq<Seq<u8>>, i: int) -> Result<
    (Seq<char>, Seq<char>, u64),
    CryptoError,
> {
    send_all(v, texts.take(i), nonces).encrypt(texts[i], nonces[i]).1
}

/// An encryption succeeded and numbered its message `n`.
pub open spec fn sends_number(r: Result<(Seq<char>, Seq<char>, u64), CryptoError>, n: int) -> bool {
    r matches Ok((_, _, seq)) && seq == n
}

/// Every text of a run fits in one AES-GCM encryption.
pub open spec fn all_fit(texts: Seq<Seq<char>>) -> bool {
    forall|i: int| 0 <= i < texts.len() ==> encode_utf8(#[trigger] texts[i]).len() <= aes_gcm_max_plaintext()
}

proof fn lemma_send_all_counts(v: SessionView, texts: Seq<Seq<char>>, nonces: Seq<Seq<u8>>)
    requires
        v.aes_key is Some,
        all_fit(texts),
        nonces.len() >= texts.len(),
        v.seq_sent + texts.len() <= u64::MAX,
    ensures
        send_all(v, texts, nonces).seq_sent == v.seq_sent + texts.len(),
        send_all(v, texts, nonces).aes_key == v.aes_key,
    decreases texts.len(),
{
    if texts.len() > 0 {
        let prefix = texts.drop_last();
        assert forall|i: int| 0 <= i < prefix.len() implies encode_utf8(#[trigger] prefix[i]).len()
            <= aes_gcm_max_plaintext() by {
            assert(prefix[i] == texts[i]);
        }
        lemma_send_all_counts(v, prefix, nonces);
        assert(texts.last() == texts[texts.len() - 1]);
    }
}

/// Sequence numbers of a run of sends: with the key in place, the send at
/// place `i` succeeds and carries the number after the counter plus `i`, so
/// the numbers sent are consecutive with no gap.
pub proof fn lemma_send_run_numbers(v: SessionView, texts: Seq<Seq<char>>, nonces: Seq<Seq<u8>>)
    requires
        v.aes_key is Some,
        all_fit(texts),
        nonces.len() == texts.len(),
        v.seq_sent + texts.len() <= u64::MAX,
    ensures
        forall|i: int| 0 <= i < texts.len() ==> sends_number(#[trigger] nth_send(v, texts, nonces, i), v.seq_sent + i + 1),
        send_all(v, texts, nonces).seq_sent == v.seq_sent + texts.len(),
{
    lemma_send_all_counts(v, texts, nonces);
    assert forall|i: int| 0 <= i < texts.len() implies sends_number(#[trigger] nth_send(v, texts, nonces, i), v.seq_sent + i + 1) by {
        let prefix = texts.take(i);
        assert forall|j: int| 0 <= j < prefix.len() implies encode_utf8(#[trigger] prefix[j]).len()
            <= aes_gcm_max_plaintext() by {
            assert(prefix[j] == texts[j]);
        }
        lemma_send_all_counts(v, prefix, nonces);
    }
}

/// After a successful derivation, the `n`-th message sent in the session
/// (counting from 1) carries sequence number `n`.
pub proof fn lemma_numbers_after_derive(v: SessionView, texts: Seq<Seq<char>>, nonces: Seq<Seq<u8>>)
    requires
        v.derive().1 is Ok,
        all_fit(texts),
        nonces.len() == texts.len(),
        texts.len() <= u64::MAX,
    ensures
        forall|i: int| 0 <= i < texts.len() ==> sends_number(#[trigger] nth_send(v.derive().0, texts, nonces, i), i + 1),
{
    lemma_send_run_numbers(v.derive().0, texts, nonces);
}

/// A reset keeps the identity, forgets the session, and the result is well-formed.
pub proof fn lemma_reset_keeps_identity(session: SessionView)
    requires
        session.wf(),
    ensures
        session.reset().wf(),
        session.reset().identity_secret == session.identity_secret,
        session.reset().identity_public == session.identity_public,
        session.reset().aes_key is None,
        session.reset().derive().1 == Err::<Seq<u8>, CryptoError>(CryptoError::KeyExchangeNotComplete),
{
}

} // verus!
