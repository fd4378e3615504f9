use p2p_chat::crypto::{CryptoEngine, CryptoError};
use p2p_chat::handshake::{Handshake, HandshakeAction, HandshakeEvent, HandshakeRole, HandshakeStage};
use p2p_chat::types::P2PMessage;

fn expect_send(action: HandshakeAction) -> P2PMessage {
    match action {
        HandshakeAction::Send(m) => m,
        other => panic!("expected Send, got {:?}", other),
    }
}

fn expect_receive(action: HandshakeAction) {
    match action {
        HandshakeAction::Receive => {}
        other => panic!("expected Receive, got {:?}", other),
    }
}

#[test]
fn initiator_and_responder_agree() {
    let mut a = CryptoEngine::new(&[1u8; 32]);
    let mut b = CryptoEngine::new(&[2u8; 32]);
    b.generate_ephemeral_keypair();
    let mut ha = Handshake::new(HandshakeRole::Initiator);
    let mut hb = Handshake::new(HandshakeRole::Responder);

    let kx = expect_send(ha.step(&mut a, HandshakeEvent::Start));
    expect_receive(hb.step(&mut b, HandshakeEvent::Start));
    expect_receive(ha.step(&mut a, HandshakeEvent::Sent));
    let ack = expect_send(hb.step(&mut b, HandshakeEvent::Received(kx)));
    expect_receive(hb.step(&mut b, HandshakeEvent::Sent));
    let confirm_a = expect_send(ha.step(&mut a, HandshakeEvent::Received(ack)));
    expect_receive(ha.step(&mut a, HandshakeEvent::Sent));
    let confirm_b = expect_send(hb.step(&mut b, HandshakeEvent::Received(confirm_a)));
    assert!(matches!(hb.step(&mut b, HandshakeEvent::Sent), HandshakeAction::Finished));
    assert!(matches!(ha.step(&mut a, HandshakeEvent::Received(confirm_b)), HandshakeAction::Finished));
    assert_eq!(ha.stage, HandshakeStage::Finished);
    assert_eq!(hb.stage, HandshakeStage::Finished);

    assert!(a.fingerprint().is_some());
    assert_eq!(a.fingerprint(), b.fingerprint());
    assert_eq!(a.peer_fingerprint(), b.fingerprint());
    assert_eq!(b.peer_fingerprint(), a.fingerprint());

    let msg = a.encrypt_message("over the link").unwrap();
    assert_eq!(b.decrypt_message(&msg).unwrap(), "over the link");
}

#[test]
fn fresh_responder_answers_with_its_own_key() {
    let mut a = CryptoEngine::new(&[1u8; 32]);
    let mut b = CryptoEngine::new(&[2u8; 32]);
    let mut ha = Handshake::new(HandshakeRole::Initiator);
    let mut hb = Handshake::new(HandshakeRole::Responder);
    let kx = expect_send(ha.step(&mut a, HandshakeEvent::Start));
    expect_receive(hb.step(&mut b, HandshakeEvent::Start));
    expect_receive(ha.step(&mut a, HandshakeEvent::Sent));
    assert!(b.ephemeral_public_key_base64().is_none());
    let ack = expect_send(hb.step(&mut b, HandshakeEvent::Received(kx)));
    assert_eq!(hb.stage, HandshakeStage::SendingAck);
    match &ack {
        P2PMessage::KeyExchangeAck { public_key, .. } => {
            assert_eq!(b.ephemeral_public_key_base64().as_deref(), Some(public_key.as_str()));
        }
        other => panic!("expected an acknowledgement, got {:?}", other),
    }
    expect_receive(hb.step(&mut b, HandshakeEvent::Sent));
    let confirm_a = expect_send(ha.step(&mut a, HandshakeEvent::Received(ack)));
    expect_receive(ha.step(&mut a, HandshakeEvent::Sent));
    let confirm_b = expect_send(hb.step(&mut b, HandshakeEvent::Received(confirm_a)));
    assert!(matches!(hb.step(&mut b, HandshakeEvent::Sent), HandshakeAction::Finished));
    assert!(matches!(ha.step(&mut a, HandshakeEvent::Received(confirm_b)), HandshakeAction::Finished));
    assert!(a.fingerprint().is_some());
    assert_eq!(a.fingerprint(), b.fingerprint());
    let msg = b.encrypt_message("from the responder").unwrap();
    assert_eq!(a.decrypt_message(&msg).unwrap(), "from the responder");
}

#[test]
fn responder_refuses_key_exchange_from_another_identity() {
    let mut a = CryptoEngine::new(&[1u8; 32]);
    let mut b = CryptoEngine::new(&[2u8; 32]);
    let other = CryptoEngine::new(&[3u8; 32]);
    b.verify_and_store_identity(&other.identity_public_key()).unwrap();
    let mut ha = Handshake::new(HandshakeRole::Initiator);
    let mut hb = Handshake::new(HandshakeRole::Responder);
    let kx = expect_send(ha.step(&mut a, HandshakeEvent::Start));
    expect_receive(hb.step(&mut b, HandshakeEvent::Start));
    let action = hb.step(&mut b, HandshakeEvent::Received(kx));
    assert!(matches!(action, HandshakeAction::Failed(CryptoError::InvalidSignature)));
    assert_eq!(hb.stage, HandshakeStage::Failed);
}

#[test]
fn bad_ack_fails_the_handshake() {
    let mut a = CryptoEngine::new(&[1u8; 32]);
    let mut ha = Handshake::new(HandshakeRole::Initiator);
    let _ = expect_send(ha.step(&mut a, HandshakeEvent::Start));
    expect_receive(ha.step(&mut a, HandshakeEvent::Sent));
    let action = ha.step(&mut a, HandshakeEvent::Received(P2PMessage::Ping { timestamp: 0 }));
    assert!(matches!(action, HandshakeAction::Failed(CryptoError::InvalidKey)));
    assert_eq!(ha.stage, HandshakeStage::Failed);
}

#[test]
fn events_out_of_order_change_nothing() {
    let mut a = CryptoEngine::new(&[1u8; 32]);
    let mut ha = Handshake::new(HandshakeRole::Initiator);
    assert!(matches!(ha.step(&mut a, HandshakeEvent::Sent), HandshakeAction::OutOfOrder));
    assert_eq!(ha.stage, HandshakeStage::NotStarted);
    assert!(a.ephemeral_public_key_base64().is_none());
}
