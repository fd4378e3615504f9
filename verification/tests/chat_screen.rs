use p2p_chat::types::{ChatMessage, ConnectionState, NetworkCommand, NetworkEvent};
use p2p_chat::ui::{format_clock, screen_fits, scroll_offset, AppUi, Key, KeyOutcome, KeyPress, LineKind};

fn press(key: Key) -> KeyPress {
    KeyPress { key, control: false }
}

fn type_text(ui: &mut AppUi, text: &str) {
    for c in text.chars() {
        assert!(!ui.key_would_panic(press(Key::Char(c))));
        ui.handle_key(press(Key::Char(c)));
    }
}

fn message(content: &str, mine: bool, ts: i64) -> ChatMessage {
    ChatMessage {
        id: "id".into(),
        content: content.into(),
        sender: if mine { "Voce".into() } else { "Peer".into() },
        timestamp: ts,
        is_encrypted: true,
        is_mine: mine,
    }
}

#[test]
fn new_screen_starts_disconnected_with_help() {
    let ui = AppUi::new(vec![message("old", false, 0)]);
    assert_eq!(ui.messages.len(), 1);
    assert!(ui.show_help);
    assert_eq!(ui.connection_state, ConnectionState::Disconnected);
    assert_eq!(ui.messages_title(), " P2P Chat [Desconectado] ");
}

#[test]
fn clock_is_utc_hours_and_minutes() {
    assert_eq!(format_clock(0), "00:00");
    assert_eq!(format_clock(3600 * 13 + 60 * 7 + 59), "13:07");
    assert_eq!(format_clock(-60), "23:59");
    assert_eq!(format_clock(1_700_000_000), "22:13");
}

#[test]
fn status_line_texts() {
    let mut ui = AppUi::new(vec![]);
    assert_eq!(ui.status_line(), " Conectando... | Desconectado | Ctrl+Q sair");
    ui.connection_code = "AB12-CD34".into();
    ui.connection_state = ConnectionState::Connected { is_direct: true };
    let fp: String = "0123456789abcdef".repeat(4);
    ui.peer_fingerprint = Some(fp);
    assert!(!ui.status_would_panic());
    assert_eq!(
        ui.status_line(),
        " Codigo: AB12-CD34 | Directo | Ctrl+Q sair | Impressao: 01234567...89abcdef"
    );
    ui.peer_fingerprint = Some("0123456789".into());
    assert_eq!(ui.status_line(), " Codigo: AB12-CD34 | Directo | Ctrl+Q sair | Impressao: 01234567...");
    ui.peer_fingerprint = Some("short".into());
    assert!(ui.status_would_panic());
    ui.connection_state = ConnectionState::Connected { is_direct: false };
    assert_eq!(ui.messages_title(), " P2P Chat [Conectado (Relay)] ");
}

#[test]
fn chat_lines_show_welcome_messages_and_typing() {
    let mut ui = AppUi::new(vec![]);
    let lines = ui.chat_lines();
    assert_eq!(lines.len(), 5);
    assert_eq!(lines[0].text, " 👋 Bem-vindo ao P2P Chat!");
    ui.connection_code = "XY".into();
    let lines = ui.chat_lines();
    assert_eq!(lines.len(), 6);
    assert_eq!(lines[5].text, " Seu código: XY");
    assert_eq!(lines[5].kind, LineKind::OwnCode);

    let mut ui = AppUi::new(vec![message("hi", true, 3600), message("yo", false, 7260)]);
    ui.peer_typing = true;
    let lines = ui.chat_lines();
    let texts: Vec<&str> = lines.iter().map(|l| l.text.as_str()).collect();
    assert_eq!(texts, vec![" Você [01:00]", " hi", "", " Peer [02:01]", " yo", "", " Peer esta digitando..."]);
    assert_eq!(lines[0].kind, LineKind::MineHeader);
    assert_eq!(lines[3].kind, LineKind::PeerHeader);
}

#[test]
fn scroll_shows_the_last_lines() {
    assert_eq!(scroll_offset(10, 4), 6);
    assert_eq!(scroll_offset(3, 4), 0);
    assert_eq!(scroll_offset(5, 0), 4);
    assert_eq!(scroll_offset(65536 + 7, 2), 5);
}

#[test]
fn typing_and_editing_the_input() {
    let mut ui = AppUi::new(vec![]);
    assert_eq!(ui.input_display().kind, LineKind::Placeholder);
    type_text(&mut ui, "helo");
    ui.handle_key(press(Key::Left));
    type_text(&mut ui, "l");
    assert_eq!(ui.input, "hello");
    assert_eq!(ui.input_cursor, 4);
    ui.handle_key(press(Key::Home));
    ui.handle_key(press(Key::Delete));
    assert_eq!(ui.input, "ello");
    ui.handle_key(press(Key::End));
    ui.handle_key(press(Key::Backspace));
    assert_eq!(ui.input, "ell");
    assert_eq!(ui.input_cursor, 3);
    ui.handle_key(press(Key::Right));
    assert_eq!(ui.input_cursor, 3);
    type_text(&mut ui, ":");
    assert_eq!(ui.input, ":");
    assert_eq!(ui.input_cursor, 1);
    assert_eq!(ui.input_display().text, ":");
}

#[test]
fn multibyte_input_that_would_panic_is_detected() {
    let mut ui = AppUi::new(vec![]);
    type_text(&mut ui, "é");
    assert_eq!(ui.input, "é");
    assert_eq!(ui.input_cursor, 1);
    // The cursor counts characters but indexes bytes: the next character
    // would go inside the two bytes of 'é'.
    assert!(ui.key_would_panic(press(Key::Char('a'))));
    assert!(!ui.key_would_panic(press(Key::Backspace)));
    ui.handle_key(press(Key::Backspace));
    assert_eq!(ui.input, "");
}

#[test]
fn control_q_quits() {
    let mut ui = AppUi::new(vec![]);
    let out = ui.handle_key(KeyPress { key: Key::Char('q'), control: true });
    assert!(matches!(out, KeyOutcome::Quit));
    assert_eq!(ui.input, "");
}

#[test]
fn enter_sends_a_message() {
    let mut ui = AppUi::new(vec![]);
    type_text(&mut ui, "  hello there ");
    match ui.handle_key(press(Key::Enter)) {
        KeyOutcome::SendText(t) => assert_eq!(t, "hello there"),
        _ => panic!("expected a message"),
    }
    assert_eq!(ui.input, "");
    assert_eq!(ui.input_cursor, 0);
    let last = ui.messages.last().unwrap();
    assert_eq!(last.content, "hello there");
    assert_eq!(last.sender, "Voce");
    assert!(last.is_mine && last.is_encrypted);
    assert_eq!(last.id.len(), 36);
}

#[test]
fn enter_on_blank_line_does_nothing() {
    let mut ui = AppUi::new(vec![]);
    type_text(&mut ui, "   ");
    assert!(matches!(ui.handle_key(press(Key::Enter)), KeyOutcome::Nothing));
    assert_eq!(ui.input, "   ");
    assert!(ui.messages.is_empty());
}

#[test]
fn commands_on_enter() {
    let mut ui = AppUi::new(vec![]);
    type_text(&mut ui, ":help");
    assert!(matches!(ui.handle_key(press(Key::Enter)), KeyOutcome::Nothing));
    assert!(!ui.show_help);
    type_text(&mut ui, ":h");
    ui.handle_key(press(Key::Enter));
    assert!(ui.show_help);
    type_text(&mut ui, ":d");
    assert!(matches!(ui.handle_key(press(Key::Enter)), KeyOutcome::Network(NetworkCommand::Disconnect)));
    type_text(&mut ui, ":connect  ab12-cd34 ");
    match ui.handle_key(press(Key::Enter)) {
        KeyOutcome::Network(NetworkCommand::ConnectToCode { code }) => assert_eq!(code, "AB12-CD34"),
        _ => panic!("expected connect"),
    }
    type_text(&mut ui, ":c xy");
    match ui.handle_key(press(Key::Enter)) {
        KeyOutcome::Network(NetworkCommand::ConnectToCode { code }) => assert_eq!(code, "XY"),
        _ => panic!("expected connect"),
    }
    type_text(&mut ui, ":fp");
    ui.handle_key(press(Key::Enter));
    assert!(ui.messages.is_empty());
    ui.fingerprint = Some("abcd".into());
    type_text(&mut ui, ":fingerprint");
    ui.handle_key(press(Key::Enter));
    assert_eq!(ui.messages.last().unwrap().content, "Sua impressao digital: abcd");
    assert_eq!(ui.messages.last().unwrap().sender, "Sistema");
    type_text(&mut ui, ":nonsense");
    assert!(matches!(ui.handle_key(press(Key::Enter)), KeyOutcome::Nothing));
    assert_eq!(ui.input, "");
    ui.handle_key(press(Key::Esc));
    assert!(!ui.show_help);
}

#[test]
fn network_events_update_the_screen() {
    let mut ui = AppUi::new(vec![]);
    ui.apply_event(NetworkEvent::Registered { code: "AB12-CD34".into(), peer_id: "p".into() });
    assert_eq!(ui.connection_code, "AB12-CD34");
    assert_eq!(ui.connection_state, ConnectionState::Connecting);
    ui.apply_event(NetworkEvent::Connected { peer_id: "p".into(), is_direct: true });
    assert_eq!(ui.connection_state, ConnectionState::Connected { is_direct: true });
    assert!(!ui.show_help);
    let store = ui.apply_event(NetworkEvent::MessageReceived { text: "oi".into(), seq: 1, sender: "peer".into(), timestamp: 5 });
    let store = store.unwrap();
    assert_eq!(store.content, "oi");
    assert_eq!(store.sender, "Peer");
    assert!(!store.is_mine);
    assert_eq!(ui.messages.last().unwrap().timestamp, 5);
    ui.apply_event(NetworkEvent::PeerTyping { is_typing: true });
    assert!(ui.peer_typing);
    ui.apply_event(NetworkEvent::PeerFingerprint { fingerprint: "ff".into() });
    assert_eq!(ui.peer_fingerprint.as_deref(), Some("ff"));
    ui.apply_event(NetworkEvent::Error { message: "boom".into() });
    assert_eq!(ui.messages.last().unwrap().content, "[Erro] boom");
    ui.apply_event(NetworkEvent::Disconnected);
    assert_eq!(ui.connection_state, ConnectionState::Disconnected);
}

#[test]
fn cursor_stays_within_the_input() {
    let mut ui = AppUi::new(vec![]);
    let keys = [
        Key::Char('a'), Key::Char('b'), Key::Left, Key::Left, Key::Left, Key::Delete, Key::Right,
        Key::Right, Key::Backspace, Key::Backspace, Key::End, Key::Char('c'), Key::Home, Key::Delete,
        Key::Delete, Key::Delete,
    ];
    for k in keys {
        assert!(!ui.key_would_panic(press(k)));
        ui.handle_key(press(k));
        assert!(ui.input_cursor <= ui.input.len());
    }
    assert_eq!(ui.input, "");
    assert_eq!(ui.input_cursor, 0);
}

#[test]
fn screen_is_drawn_only_from_six_rows() {
    assert!(!screen_fits(0));
    assert!(!screen_fits(5));
    assert!(screen_fits(6));
    assert!(screen_fits(40));
}

#[test]
fn events_leave_the_other_fields_alone() {
    let mut ui = AppUi::new(vec![message("old", false, 0)]);
    ui.apply_event(NetworkEvent::Registered { code: "AB12-CD34".into(), peer_id: "p".into() });
    ui.apply_event(NetworkEvent::PeerTyping { is_typing: true });
    ui.apply_event(NetworkEvent::PeerFingerprint { fingerprint: "ff".into() });
    assert!(ui.show_help);
    ui.apply_event(NetworkEvent::Disconnected);
    assert_eq!(ui.connection_state, ConnectionState::Disconnected);
    assert_eq!(ui.connection_code, "AB12-CD34");
    assert!(ui.peer_typing);
    assert_eq!(ui.peer_fingerprint.as_deref(), Some("ff"));
    assert!(ui.show_help);
    assert_eq!(ui.messages.len(), 1);
    ui.apply_event(NetworkEvent::Error { message: "x".into() });
    assert_eq!(ui.connection_code, "AB12-CD34");
    assert!(ui.peer_typing);
    assert!(ui.show_help);
    assert_eq!(ui.messages.len(), 2);
}
