use p2p_chat::crypto::{CryptoEngine, CryptoError};
use p2p_chat::types::P2PMessage;

use aes_gcm::aead::{Aead, KeyInit};
use base64::Engine;
use ed25519_dalek::Signer;
use sha2::Digest;

fn base64_encode(bytes: &[u8]) -> String {
    base64::engine::general_purpose::STANDARD.encode(bytes)
}

fn base64_decode(text: &str) -> Option<Vec<u8>> {
    base64::engine::general_purpose::STANDARD.decode(text).ok()
}

fn seed(b: u8) -> [u8; 32] {
    [b; 32]
}

fn handshake(a: &mut CryptoEngine, b: &mut CryptoEngine) {
    let kx = a.create_key_exchange_message("alice");
    b.process_key_exchange(&kx).unwrap();
    let ack = b.create_key_exchange_ack("bob");
    a.process_key_exchange(&ack).unwrap();
}

#[test]
fn identity_key_matches_ed25519() {
    let engine = CryptoEngine::new(&seed(7));
    let expected = ed25519_dalek::SigningKey::from_bytes(&seed(7)).verifying_key().to_bytes();
    assert_eq!(engine.identity_public_key(), expected);
    let b64 = base64::engine::general_purpose::STANDARD.encode(expected);
    assert_eq!(engine.public_key_base64(), b64);
}

#[test]
fn sign_data_is_ed25519_signature_in_base64() {
    let engine = CryptoEngine::new(&seed(3));
    let sig_b64 = engine.sign_data(b"hello");
    let sig = base64_decode(&sig_b64).unwrap();
    assert_eq!(sig.len(), 64);
    let expected = ed25519_dalek::SigningKey::from_bytes(&seed(3)).sign(b"hello").to_bytes();
    assert_eq!(sig, expected.to_vec());
}

#[test]
fn fresh_engine_has_no_session() {
    let engine = CryptoEngine::new(&seed(1));
    assert!(!engine.is_session_ready());
    assert!(engine.fingerprint().is_none());
    assert!(engine.peer_fingerprint().is_none());
    assert!(engine.peer_id().is_none());
    assert!(engine.ephemeral_public_key_base64().is_none());
    assert!(engine.create_session_confirm().is_none());
}

#[test]
fn install_ephemeral_secret_computes_x25519_public_key() {
    let mut engine = CryptoEngine::new(&seed(1));
    let secret = [9u8; 32];
    engine.install_ephemeral_secret(secret);
    let expected = x25519_dalek::PublicKey::from(&x25519_dalek::StaticSecret::from(secret)).to_bytes();
    assert_eq!(engine.ephemeral_public_key_base64().unwrap(), base64_encode(&expected));
}

#[test]
fn key_exchange_message_carries_signed_ephemeral_key() {
    let mut engine = CryptoEngine::new(&seed(5));
    let msg = engine.create_key_exchange_message("me");
    match msg {
        P2PMessage::KeyExchange { public_key, peer_id, signature } => {
            assert_eq!(peer_id, "me");
            assert_eq!(Some(public_key.clone()), engine.ephemeral_public_key_base64());
            assert_eq!(signature, engine.sign_data(public_key.as_bytes()));
        }
        other => panic!("unexpected {:?}", other),
    }
}

#[test]
fn both_sides_derive_the_same_key_and_fingerprint() {
    let mut a = CryptoEngine::new(&seed(1));
    let mut b = CryptoEngine::new(&seed(2));
    handshake(&mut a, &mut b);
    let ka = a.derive_shared_key().unwrap();
    let kb = b.derive_shared_key().unwrap();
    assert_eq!(ka, kb);
    assert_eq!(a.fingerprint(), b.fingerprint());
    let fp = a.fingerprint().unwrap();
    assert_eq!(fp.len(), 64);
    assert!(fp.chars().all(|c| c.is_ascii_hexdigit() && !c.is_ascii_uppercase()));
    assert_eq!(a.peer_id(), Some("bob"));
    assert_eq!(b.peer_id(), Some("alice"));
}

#[test]
fn derived_key_is_hkdf_of_the_shared_secret() {
    let mut a = CryptoEngine::new(&seed(1));
    let mut b = CryptoEngine::new(&seed(2));
    let sa = [11u8; 32];
    let sb = [22u8; 32];
    a.install_ephemeral_secret(sa);
    b.install_ephemeral_secret(sb);
    let to_b = a.create_key_exchange_ack("a");
    let to_a = b.create_key_exchange_ack("b");
    a.process_key_exchange(&to_a).unwrap();
    b.process_key_exchange(&to_b).unwrap();
    let key = a.derive_shared_key().unwrap();

    let pb = x25519_dalek::PublicKey::from(&x25519_dalek::StaticSecret::from(sb));
    let shared = x25519_dalek::StaticSecret::from(sa).diffie_hellman(&pb);
    let hk = hkdf::Hkdf::<sha2::Sha256>::new(Some(b"p2p-chat-v1-salt"), shared.as_bytes());
    let mut expected = [0u8; 32];
    hk.expand(b"p2p-chat-aes-key", &mut expected).unwrap();
    assert_eq!(key, expected);

    let mut h = sha2::Sha256::new();
    h.update(b"p2p-chat-fingerprint-v1");
    h.update(shared.as_bytes());
    assert_eq!(a.fingerprint().unwrap(), hex::encode(h.finalize()));
    assert_eq!(b.derive_shared_key().unwrap(), expected);
}

#[test]
fn derive_without_key_exchange_fails() {
    let mut engine = CryptoEngine::new(&seed(1));
    assert_eq!(engine.derive_shared_key(), Err(CryptoError::KeyExchangeNotComplete));
    engine.generate_ephemeral_keypair();
    assert_eq!(engine.derive_shared_key(), Err(CryptoError::KeyExchangeNotComplete));
    // The ephemeral secret was used up by the failed attempt.
    let mut peer = CryptoEngine::new(&seed(2));
    let kx = peer.create_key_exchange_message("p");
    engine.process_key_exchange(&kx).unwrap();
    assert_eq!(engine.derive_shared_key(), Err(CryptoError::KeyExchangeNotComplete));
}

#[test]
fn encrypted_message_decrypts_on_the_other_side() {
    let mut a = CryptoEngine::new(&seed(1));
    let mut b = CryptoEngine::new(&seed(2));
    handshake(&mut a, &mut b);
    a.derive_shared_key().unwrap();
    b.derive_shared_key().unwrap();
    let m1 = a.encrypt_message("olá, mundo").unwrap();
    let m2 = a.encrypt_message("second").unwrap();
    match (&m1, &m2) {
        (P2PMessage::Text { seq: s1, .. }, P2PMessage::Text { seq: s2, .. }) => {
            assert_eq!(*s1, 1);
            assert_eq!(*s2, 2);
        }
        _ => panic!("not text"),
    }
    assert_eq!(b.decrypt_message(&m1).unwrap(), "olá, mundo");
    assert_eq!(b.decrypt_message(&m2).unwrap(), "second");
}

#[test]
fn replayed_message_is_refused() {
    let mut a = CryptoEngine::new(&seed(1));
    let mut b = CryptoEngine::new(&seed(2));
    handshake(&mut a, &mut b);
    a.derive_shared_key().unwrap();
    b.derive_shared_key().unwrap();
    let m1 = a.encrypt_message("one").unwrap();
    let m2 = a.encrypt_message("two").unwrap();
    assert_eq!(b.decrypt_message(&m2).unwrap(), "two");
    assert_eq!(b.decrypt_message(&m2), Err(CryptoError::DecryptionFailed));
    assert_eq!(b.decrypt_message(&m1), Err(CryptoError::DecryptionFailed));
}

#[test]
fn encrypt_with_nonce_is_aes_gcm() {
    let mut a = CryptoEngine::new(&seed(1));
    let mut b = CryptoEngine::new(&seed(2));
    handshake(&mut a, &mut b);
    let key = a.derive_shared_key().unwrap();
    let nonce = [4u8; 12];
    let msg = a.encrypt_message_with_nonce("abc", nonce, 1234).unwrap();
    let cipher = aes_gcm::Aes256Gcm::new(aes_gcm::Key::<aes_gcm::Aes256Gcm>::from_slice(&key));
    let ct = cipher.encrypt(aes_gcm::Nonce::from_slice(&nonce), b"abc".as_ref()).unwrap();
    match msg {
        P2PMessage::Text { nonce: n, ciphertext, seq, timestamp } => {
            assert_eq!(n, base64_encode(&nonce));
            assert_eq!(ciphertext, base64_encode(&ct));
            assert_eq!(seq, 1);
            assert_eq!(timestamp, 1234);
        }
        _ => panic!("not text"),
    }
}

#[test]
fn encrypt_without_session_fails() {
    let mut engine = CryptoEngine::new(&seed(1));
    assert_eq!(engine.encrypt_message("x").unwrap_err(), CryptoError::KeyExchangeNotComplete);
}

#[test]
fn tampered_ciphertext_is_refused_but_counts() {
    let mut a = CryptoEngine::new(&seed(1));
    let mut b = CryptoEngine::new(&seed(2));
    handshake(&mut a, &mut b);
    a.derive_shared_key().unwrap();
    b.derive_shared_key().unwrap();
    let m = a.encrypt_message("secret").unwrap();
    let tampered = match m {
        P2PMessage::Text { nonce, ciphertext, seq, timestamp } => {
            let mut ct = base64_decode(&ciphertext).unwrap();
            ct[0] ^= 1;
            P2PMessage::Text { nonce, ciphertext: base64_encode(&ct), seq, timestamp }
        }
        _ => panic!("not text"),
    };
    assert_eq!(b.decrypt_message(&tampered), Err(CryptoError::DecryptionFailed));
    // The sequence number was taken even though decryption failed.
    let again = a.encrypt_message("next").unwrap();
    assert_eq!(b.decrypt_message(&again).unwrap(), "next");
}

#[test]
fn decrypt_of_other_messages_fails() {
    let mut engine = CryptoEngine::new(&seed(1));
    let ping = P2PMessage::Ping { timestamp: 1 };
    assert_eq!(engine.decrypt_message(&ping), Err(CryptoError::DecryptionFailed));
}

#[test]
fn decrypt_without_key_advances_counter() {
    let mut engine = CryptoEngine::new(&seed(1));
    let m = P2PMessage::Text { nonce: "AAAA".into(), ciphertext: "AAAA".into(), seq: 5, timestamp: 0 };
    assert_eq!(engine.decrypt_message(&m), Err(CryptoError::KeyExchangeNotComplete));
    assert_eq!(engine.decrypt_message(&m), Err(CryptoError::DecryptionFailed));
}

#[test]
fn short_nonce_is_reported_instead_of_decrypted() {
    let mut a = CryptoEngine::new(&seed(1));
    let mut b = CryptoEngine::new(&seed(2));
    handshake(&mut a, &mut b);
    a.derive_shared_key().unwrap();
    b.derive_shared_key().unwrap();
    let m = P2PMessage::Text { nonce: base64_encode(&[1u8; 11]), ciphertext: "AAAA".into(), seq: 1, timestamp: 0 };
    assert!(b.decrypt_message_checked(&m).is_none());
    let good = a.encrypt_message("hi").unwrap();
    assert_eq!(b.decrypt_message_checked(&good), Some(Ok("hi".to_string())));
}

#[test]
fn key_exchange_errors() {
    let mut engine = CryptoEngine::new(&seed(1));
    let bad_b64 = P2PMessage::KeyExchange { public_key: "***".into(), peer_id: "p".into(), signature: "".into() };
    assert_eq!(engine.process_key_exchange(&bad_b64), Err(CryptoError::InvalidKey));
    assert!(engine.peer_id().is_none());
    let short = P2PMessage::KeyExchange { public_key: base64_encode(&[1u8; 31]), peer_id: "p".into(), signature: "".into() };
    assert_eq!(engine.process_key_exchange(&short), Err(CryptoError::InvalidKey));
    let bad_sig = P2PMessage::KeyExchangeAck {
        public_key: base64_encode(&[1u8; 32]),
        peer_id: "q".into(),
        signature: base64_encode(&[0u8; 63]),
    };
    assert_eq!(engine.process_key_exchange(&bad_sig), Err(CryptoError::InvalidSignature));
    // The key and the peer id were recorded before the signature was looked at.
    assert_eq!(engine.peer_id(), Some("q"));
    let not_b64_sig = P2PMessage::KeyExchangeAck {
        public_key: base64_encode(&[1u8; 32]),
        peer_id: "r".into(),
        signature: "!".into(),
    };
    assert_eq!(engine.process_key_exchange(&not_b64_sig), Err(CryptoError::InvalidSignature));
    let ok = P2PMessage::KeyExchange {
        public_key: base64_encode(&[1u8; 32]),
        peer_id: "s".into(),
        signature: base64_encode(&[0u8; 64]),
    };
    assert_eq!(engine.process_key_exchange(&ok), Ok(()));
    let typing = P2PMessage::Typing { is_typing: true };
    assert_eq!(engine.process_key_exchange(&typing), Err(CryptoError::InvalidKey));
}

#[test]
fn identity_key_validation() {
    let mut engine = CryptoEngine::new(&seed(1));
    let good = ed25519_dalek::SigningKey::from_bytes(&seed(9)).verifying_key().to_bytes();
    assert_eq!(engine.verify_and_store_identity(&good), Ok(()));
    let mut bad = None;
    for b in 0u8..=255 {
        let mut cand = [b; 32];
        cand[31] = 0x7f;
        if ed25519_dalek::VerifyingKey::from_bytes(&cand).is_err() {
            bad = Some(cand);
            break;
        }
    }
    let bad = bad.expect("some bytes are not a point");
    assert_eq!(engine.verify_and_store_identity(&bad), Err(CryptoError::InvalidKey));
}

#[test]
fn session_confirm_and_reset() {
    let mut a = CryptoEngine::new(&seed(1));
    let mut b = CryptoEngine::new(&seed(2));
    handshake(&mut a, &mut b);
    a.derive_shared_key().unwrap();
    match a.create_session_confirm().unwrap() {
        P2PMessage::SessionConfirm { fingerprint, peer_id } => {
            assert_eq!(Some(fingerprint.as_str()), a.fingerprint());
            assert_eq!(peer_id, "");
        }
        _ => panic!("not a confirm"),
    }
    a.set_peer_fingerprint("abc");
    assert_eq!(a.peer_fingerprint(), Some("abc"));
    let id = a.identity_public_key();
    a.reset_session();
    assert!(!a.is_session_ready());
    assert!(a.fingerprint().is_none());
    assert!(a.peer_fingerprint().is_none());
    assert!(a.peer_id().is_none());
    assert_eq!(a.identity_public_key(), id);
    assert_eq!(a.sent_count(), 0);
}

#[test]
fn error_messages() {
    assert_eq!(CryptoError::EncryptionFailed.message(), "Encryption failed");
    assert_eq!(CryptoError::DecryptionFailed.message(), "Decryption failed");
    assert_eq!(CryptoError::KeyExchangeNotComplete.message(), "Key exchange not complete");
    assert_eq!(CryptoError::InvalidSignature.message(), "Invalid signature");
    assert_eq!(CryptoError::InvalidKey.message(), "Invalid key");
}

#[test]
fn second_derive_needs_a_new_exchange() {
    let mut a = CryptoEngine::new(&seed(1));
    let mut b = CryptoEngine::new(&seed(2));
    handshake(&mut a, &mut b);
    assert!(a.derive_shared_key().is_ok());
    assert_eq!(a.derive_shared_key(), Err(CryptoError::KeyExchangeNotComplete));
    // The session derived first stays usable.
    assert!(a.is_session_ready());
}

#[test]
fn key_exchange_is_verified_against_the_stored_identity() {
    let b = CryptoEngine::new(&seed(2));
    let mut c = CryptoEngine::new(&seed(3));
    let mut e = CryptoEngine::new(&seed(4));
    assert_eq!(e.verify_and_store_identity(&b.identity_public_key()), Ok(()));
    let from_c = c.create_key_exchange_message("x");
    assert_eq!(e.process_key_exchange(&from_c), Err(CryptoError::InvalidSignature));
    // The key and the peer id were recorded before the signature was checked.
    assert_eq!(e.peer_id(), Some("x"));

    let mut b = b;
    let from_b = b.create_key_exchange_message("y");
    assert_eq!(e.process_key_exchange(&from_b), Ok(()));
    let ack_from_b = b.create_key_exchange_ack("z");
    assert_eq!(e.process_key_exchange(&ack_from_b), Ok(()));
    let ack_from_c = c.create_key_exchange_ack("w");
    assert_eq!(e.process_key_exchange(&ack_from_c), Err(CryptoError::InvalidSignature));
}

#[test]
fn forged_signature_of_the_right_length_is_refused_once_identity_is_known() {
    let mut b = CryptoEngine::new(&seed(2));
    let mut e = CryptoEngine::new(&seed(4));
    e.verify_and_store_identity(&b.identity_public_key()).unwrap();
    let forged = P2PMessage::KeyExchange {
        public_key: base64_encode(&[1u8; 32]),
        peer_id: "s".into(),
        signature: base64_encode(&[0u8; 64]),
    };
    assert_eq!(e.process_key_exchange(&forged), Err(CryptoError::InvalidSignature));
    let genuine = b.create_key_exchange_message("s");
    assert_eq!(e.process_key_exchange(&genuine), Ok(()));
}

#[test]
fn fresh_responder_acknowledges_with_a_new_key() {
    let mut a = CryptoEngine::new(&seed(1));
    let mut b = CryptoEngine::new(&seed(2));
    let ma = a.create_key_exchange_message("");
    assert_eq!(b.process_key_exchange(&ma), Ok(()));
    let ack = b.create_key_exchange_ack("p");
    match &ack {
        P2PMessage::KeyExchangeAck { public_key, peer_id, signature } => {
            assert_eq!(base64_decode(public_key).unwrap().len(), 32);
            assert_eq!(b.ephemeral_public_key_base64().as_deref(), Some(public_key.as_str()));
            assert_eq!(peer_id, "p");
            assert_eq!(signature, &b.sign_data(public_key.as_bytes()));
        }
        other => panic!("expected an acknowledgement, got {:?}", other),
    }
    // A second acknowledgement reuses the unused key.
    let again = b.create_key_exchange_ack("p");
    match (&ack, &again) {
        (P2PMessage::KeyExchangeAck { public_key: k1, .. }, P2PMessage::KeyExchangeAck { public_key: k2, .. }) => {
            assert_eq!(k1, k2)
        }
        _ => panic!("expected acknowledgements"),
    }
    assert_eq!(a.process_key_exchange(&ack), Ok(()));
    let ka = a.derive_shared_key().unwrap();
    let kb = b.derive_shared_key().unwrap();
    assert_eq!(ka, kb);
    assert_eq!(a.fingerprint(), b.fingerprint());
}

#[test]
fn fingerprint_has_sixty_four_hex_digits() {
    let mut a = CryptoEngine::new(&seed(1));
    let mut b = CryptoEngine::new(&seed(2));
    handshake(&mut a, &mut b);
    a.derive_shared_key().unwrap();
    let fp = a.fingerprint().unwrap();
    assert_eq!(fp.len(), 64);
    assert!(fp.chars().all(|c| c.is_ascii_digit() || ('a'..='f').contains(&c)));
}

#[test]
fn ciphertext_is_the_plaintext_plus_the_tag() {
    let mut a = CryptoEngine::new(&seed(1));
    let mut b = CryptoEngine::new(&seed(2));
    handshake(&mut a, &mut b);
    let key = a.derive_shared_key().unwrap();
    let nonce = [9u8; 12];
    let msg = a.encrypt_message_with_nonce("twelve chars", nonce, 5).unwrap();
    match msg {
        P2PMessage::Text { nonce: n, ciphertext, .. } => {
            assert_eq!(base64_decode(&n).unwrap(), nonce.to_vec());
            let sealed = base64_decode(&ciphertext).unwrap();
            assert_eq!(sealed.len(), "twelve chars".len() + 16);
            let cipher = aes_gcm::Aes256Gcm::new(aes_gcm::Key::<aes_gcm::Aes256Gcm>::from_slice(&key));
            let expected = cipher.encrypt(aes_gcm::Nonce::from_slice(&nonce), "twelve chars".as_bytes()).unwrap();
            assert_eq!(sealed, expected);
        }
        other => panic!("expected text, got {:?}", other),
    }
}

#[test]
fn sends_after_derivation_are_numbered_from_one() {
    let mut a = CryptoEngine::new(&seed(1));
    let mut b = CryptoEngine::new(&seed(2));
    handshake(&mut a, &mut b);
    a.derive_shared_key().unwrap();
    for n in 1..=5u64 {
        match a.encrypt_message("m").unwrap() {
            P2PMessage::Text { seq, .. } => assert_eq!(seq, n),
            other => panic!("expected text, got {:?}", other),
        }
    }
    assert_eq!(a.sent_count(), 5);
}

#[test]
fn an_engine_accepts_another_engines_identity_key() {
    let mut e = CryptoEngine::new(&seed(4));
    for b in [0u8, 1, 2, 200, 255] {
        let other = CryptoEngine::new(&seed(b));
        assert_eq!(e.verify_and_store_identity(&other.identity_public_key()), Ok(()));
    }
}
