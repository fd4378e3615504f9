use p2p_chat::client::{
    auto_connect_target, headless_command, normalize_signaling_url, on_incoming_link, on_command, on_peer_link_lost, on_peer_message,
    on_signaling_message, registration_request, registration_result, answered_peer_name, session_established_events,
    CommandReaction, PeerReaction, SignalMessage, SignalReaction, SignalRequest,
};
use p2p_chat::crypto::{CryptoEngine, CryptoError};
use p2p_chat::handshake::{HandshakeRole, HandshakeStage};
use p2p_chat::types::{NetworkCommand, NetworkEvent, P2PMessage};

fn signal(kind: &str) -> SignalMessage {
    SignalMessage {
        msg_type: kind.to_string(),
        peer_id: None,
        code: None,
        port: None,
        public_ip: None,
        target_code: None,
        from_peer: None,
        from_port: None,
        from_ip: None,
        to_peer: None,
        data: None,
        message: None,
        target_port: None,
        target_ip: None,
        from_code: None,
    }
}

fn linked_pair() -> (CryptoEngine, CryptoEngine) {
    let mut a = CryptoEngine::new(&[1u8; 32]);
    let mut b = CryptoEngine::new(&[2u8; 32]);
    let kx = a.create_key_exchange_message("");
    b.generate_ephemeral_keypair();
    b.process_key_exchange(&kx).unwrap();
    let ack = b.create_key_exchange_ack("");
    a.process_key_exchange(&ack).unwrap();
    a.derive_shared_key().unwrap();
    b.derive_shared_key().unwrap();
    (a, b)
}

#[test]
fn signaling_url_normalization() {
    assert_eq!(normalize_signaling_url("127.0.0.1:8080"), "ws://127.0.0.1:8080/");
    assert_eq!(normalize_signaling_url("ws://127.0.0.1:8080/"), "ws://127.0.0.1:8080/");
    assert_eq!(normalize_signaling_url("ws://host:1"), "ws://host:1/");
    assert_eq!(normalize_signaling_url("ws://host:1?x=1"), "ws://host:1?x=1");
    for u in ["a", "ws://h", "ws://h/", "x?y", "wss://q:9/p"] {
        let once = normalize_signaling_url(u);
        assert_eq!(normalize_signaling_url(&once), once);
    }
}

#[test]
fn registration_request_leaves_out_empty_address() {
    match registration_request(4000, "") {
        SignalRequest::Register { port, public_ip } => {
            assert_eq!(port, 4000);
            assert_eq!(public_ip, None);
        }
        _ => panic!("not register"),
    }
    match registration_request(1, "1.2.3.4") {
        SignalRequest::Register { public_ip, .. } => assert_eq!(public_ip.as_deref(), Some("1.2.3.4")),
        _ => panic!("not register"),
    }
}

#[test]
fn registration_result_reads_code() {
    let mut reply = signal("registered");
    reply.code = Some("AB12-CD34".into());
    assert_eq!(registration_result(&reply), Some(("AB12-CD34".to_string(), String::new())));
    assert_eq!(registration_result(&signal("error")), None);
}

#[test]
fn signaling_messages_map_to_reactions() {
    let mut info = signal("connection_info");
    info.public_ip = Some("10.0.0.2".into());
    info.port = Some(9876);
    info.peer_id = Some("peer-1".into());
    match on_signaling_message(&info) {
        SignalReaction::Dial { ip, port, peer_id } => {
            assert_eq!(ip, "10.0.0.2");
            assert_eq!(port, 9876);
            assert_eq!(peer_id, "peer-1");
        }
        other => panic!("{:?}", other),
    }
    match on_signaling_message(&signal("connection_info")) {
        SignalReaction::Dial { ip, port, peer_id } => {
            assert_eq!(ip, "");
            assert_eq!(port, 0);
            assert_eq!(peer_id, "");
        }
        other => panic!("{:?}", other),
    }
    let mut req = signal("connection_request");
    req.from_peer = Some("x".into());
    match on_signaling_message(&req) {
        SignalReaction::Emit(NetworkEvent::Connected { peer_id, is_direct }) => {
            assert_eq!(peer_id, "x");
            assert!(!is_direct);
        }
        other => panic!("{:?}", other),
    }
    let mut err = signal("error");
    err.message = Some("Code 'X' not found".into());
    match on_signaling_message(&err) {
        SignalReaction::Emit(NetworkEvent::Error { message }) => assert_eq!(message, "Code 'X' not found"),
        other => panic!("{:?}", other),
    }
    assert!(matches!(on_signaling_message(&signal("relay")), SignalReaction::Ignore));
}

#[test]
fn commands_become_requests_and_messages() {
    let (mut a, mut b) = linked_pair();
    match on_command(&mut a, true, NetworkCommand::ConnectToCode { code: "AAAA-BBBB".into() }) {
        CommandReaction::Signal(SignalRequest::Connect { target_code }) => assert_eq!(target_code, "AAAA-BBBB"),
        other => panic!("{:?}", other),
    }
    assert!(matches!(on_command(&mut a, false, NetworkCommand::SendMessage { text: "x".into() }), CommandReaction::Nothing));
    let sent = match on_command(&mut a, true, NetworkCommand::SendMessage { text: "hey".into() }) {
        CommandReaction::SendPeer(m) => m,
        other => panic!("{:?}", other),
    };
    assert_eq!(b.decrypt_message(&sent).unwrap(), "hey");
    match on_command(&mut a, true, NetworkCommand::SendTyping { is_typing: true }) {
        CommandReaction::SendPeer(P2PMessage::Typing { is_typing }) => assert!(is_typing),
        other => panic!("{:?}", other),
    }
    assert!(matches!(on_command(&mut a, false, NetworkCommand::SendTyping { is_typing: true }), CommandReaction::Nothing));
    assert!(matches!(on_command(&mut a, true, NetworkCommand::Disconnect), CommandReaction::DropLink));
    assert!(!a.is_session_ready());
    match on_command(&mut a, true, NetworkCommand::SendMessage { text: "late".into() }) {
        CommandReaction::EncryptFailed(e) => assert_eq!(e, CryptoError::KeyExchangeNotComplete),
        other => panic!("{:?}", other),
    }
}

#[test]
fn peer_messages_map_to_reactions() {
    let (mut a, mut b) = linked_pair();
    let m = a.encrypt_message("ping?").unwrap();
    match on_peer_message(&mut b, m.clone(), 77) {
        PeerReaction::Emit(NetworkEvent::MessageReceived { text, seq, sender, timestamp }) => {
            assert_eq!(text, "ping?");
            assert_eq!(seq, 1);
            assert_eq!(sender, "peer");
            assert_eq!(timestamp, 77);
        }
        other => panic!("{:?}", other),
    }
    match on_peer_message(&mut b, m, 78) {
        PeerReaction::DecryptFailed(e) => assert_eq!(e, CryptoError::DecryptionFailed),
        other => panic!("{:?}", other),
    }
    match on_peer_message(&mut b, P2PMessage::Ping { timestamp: 1 }, 99) {
        PeerReaction::Reply(P2PMessage::Pong { timestamp }) => assert_eq!(timestamp, 99),
        other => panic!("{:?}", other),
    }
    match on_peer_message(&mut b, P2PMessage::Typing { is_typing: false }, 0) {
        PeerReaction::Emit(NetworkEvent::PeerTyping { is_typing }) => assert!(!is_typing),
        other => panic!("{:?}", other),
    }
    assert!(matches!(on_peer_message(&mut b, P2PMessage::Pong { timestamp: 1 }, 0), PeerReaction::Ignore));
    let bad = P2PMessage::Text { nonce: "AAAA".into(), ciphertext: "AAAA".into(), seq: 50, timestamp: 0 };
    assert!(matches!(on_peer_message(&mut b, bad, 0), PeerReaction::MalformedNonce));
}

#[test]
fn link_loss_resets_session() {
    let (mut a, _b) = linked_pair();
    assert!(matches!(on_peer_link_lost(&mut a), NetworkEvent::Disconnected));
    assert!(!a.is_session_ready());
    assert_eq!(answered_peer_name(&a), "peer");
}

#[test]
fn established_session_events() {
    let (a, _b) = linked_pair();
    let events = session_established_events(&a, "someone".to_string());
    assert_eq!(events.len(), 2);
    match &events[0] {
        NetworkEvent::PeerFingerprint { fingerprint } => assert_eq!(Some(fingerprint.as_str()), a.fingerprint()),
        other => panic!("{:?}", other),
    }
    match &events[1] {
        NetworkEvent::Connected { peer_id, is_direct } => {
            assert_eq!(peer_id, "someone");
            assert!(*is_direct);
        }
        other => panic!("{:?}", other),
    }
    let fresh = CryptoEngine::new(&[3u8; 32]);
    assert_eq!(session_established_events(&fresh, String::new()).len(), 1);
}

#[test]
fn headless_auto_connect() {
    assert_eq!(auto_connect_target(""), None);
    let target = auto_connect_target("ab12-cd34");
    assert_eq!(target.as_deref(), Some("AB12-CD34"));
    let registered = NetworkEvent::Registered { code: "X".into(), peer_id: "p".into() };
    match headless_command(&target, &registered) {
        Some(NetworkCommand::ConnectToCode { code }) => assert_eq!(code, "AB12-CD34"),
        other => panic!("{:?}", other),
    }
    assert!(headless_command(&None, &registered).is_none());
    assert!(headless_command(&target, &NetworkEvent::Disconnected).is_none());
}

#[test]
fn second_incoming_link_is_refused() {
    assert!(on_incoming_link(true).is_none());
    let h = on_incoming_link(false).expect("a free side answers");
    assert_eq!(h.role, HandshakeRole::Responder);
    assert_eq!(h.stage, HandshakeStage::NotStarted);
}
