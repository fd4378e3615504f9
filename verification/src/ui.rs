//! The chat screen's state and what it shows: the title and status line, the
//! lines of the conversation, how far it scrolls, and how it takes network
//! events and key presses. Drawing is left to the terminal front end.
use vstd::prelude::*;
use vstd::utf8::*;
use crate::primitives::{new_uuid, unix_time_now};
use crate::text::{
    has_prefix, has_substring, insert_char_at, is_white_space, lemma_trimmed_unchanged, lemma_encode_utf8_char_nonempty, lemma_encode_utf8_concat, opt_text, push_char,
    remove_char_at, starts_with_text, string_is, to_upper_text, trim_text, trimmed, uppercase_text,
};
use crate::types::{ChatMessage, ConnectionState, NetworkCommand, NetworkEvent};

verus! {

/// The decimal digit character of a value below 10.
pub open spec fn digit_char(v: int) -> char {
    (v + 48) as char
}

/// Two decimal digits of a value below 100.
pub open spec fn two_digits(v: int) -> Seq<char> {
    seq![digit_char(v / 10), digit_char(v % 10)]
}

/// `HH:MM` of a Unix time, in UTC.
pub open spec fn clock_text(ts: int) -> Seq<char> {
    two_digits((ts % 86400) / 3600) + seq![':'] + two_digits((ts % 3600) / 60)
}

fn push_two_digits(s: &mut String, v: u32)
    requires
        v < 100,
    ensures
        final(s)@ == old(s)@ + two_digits(v as int),
{
    let tens = (48 + v / 10) as u8 as char;
    let ones = (48 + v % 10) as u8 as char;
    push_char(s, tens);
    push_char(s, ones);
}

/// The hour and minute of a Unix time in UTC, as `HH:MM`.
#[verifier::spinoff_prover]
pub fn format_clock(ts: i64) -> (text: String)
    ensures
        text@ == clock_text(ts as int),
{
    let mut day: i64 = ts % 86400;
    if day < 0 {
        day = day + 86400;
    }
    let mut hour_rest: i64 = ts % 3600;
    if hour_rest < 0 {
        hour_rest = hour_rest + 3600;
    }
    assert(day == (ts as int) % 86400);
    assert(hour_rest == (ts as int) % 3600);
    let mut text = String::new();
    push_two_digits(&mut text, (day / 3600) as u32);
    push_char(&mut text, ':');
    push_two_digits(&mut text, (hour_rest / 60) as u32);
    text
}

/// How a line of the conversation is shown.
#[derive(Debug, Clone, Copy, PartialEq, Eq, Structural)]
pub enum LineKind {
    Welcome,
    Blank,
    Hint,
    OwnCode,
    MineHeader,
    PeerHeader,
    Body,
    Typing,
    Placeholder,
    Input,
}

/// One line of the conversation pane.
#[derive(Debug, Clone)]
pub struct ChatLine {
    pub text: String,
    pub kind: LineKind,
}

/// A message the screen wants stored in the history.
#[derive(Debug, Clone)]
pub struct StoreRequest {
    pub content: String,
    pub sender: String,
    pub is_mine: bool,
}

/// The chat screen.
pub struct AppUi {
    pub messages: Vec<ChatMessage>,
    pub input: String,
    pub input_cursor: usize,
    pub connection_state: ConnectionState,
    pub connection_code: String,
    pub peer_typing: bool,
    pub fingerprint: Option<String>,
    pub peer_fingerprint: Option<String>,
    pub show_help: bool,
}

/// The title of the conversation pane for a connection state.
pub open spec fn title_text(state: ConnectionState) -> Seq<char> {
    match state {
        ConnectionState::Connected { is_direct } => if is_direct {
            " P2P Chat [Conectado Directo] "@
        } else {
            " P2P Chat [Conectado (Relay)] "@
        },
        ConnectionState::Connecting => " P2P Chat [Conectando...] "@,
        ConnectionState::Disconnected => " P2P Chat [Desconectado] "@,
    }
}

/// The word for a connection state in the status line.
pub open spec fn state_word(state: ConnectionState) -> Seq<char> {
    match state {
        ConnectionState::Connected { is_direct } => if is_direct {
            "Directo"@
        } else {
            "Relay"@
        },
        ConnectionState::Connecting => "Conectando..."@,
        ConnectionState::Disconnected => "Desconectado"@,
    }
}

/// Each connection state has a title of its own, and a state's title names
/// it the way the status line does (`Directo`, `Relay`, `Conectando...`,
/// `Desconectado`).
pub proof fn lemma_titles_tell_states_apart(a: ConnectionState, b: ConnectionState)
    ensures
        a != b ==> title_text(a) != title_text(b),
        has_substring(title_text(a), state_word(a)),
{
    reveal_strlit(" P2P Chat [Conectado Directo] ");
    reveal_strlit(" P2P Chat [Conectado (Relay)] ");
    reveal_strlit(" P2P Chat [Conectando...] ");
    reveal_strlit(" P2P Chat [Desconectado] ");
    reveal_strlit("Directo");
    reveal_strlit("Relay");
    reveal_strlit("Conectando...");
    reveal_strlit("Desconectado");
    let direct = " P2P Chat [Conectado Directo] "@;
    let relay = " P2P Chat [Conectado (Relay)] "@;
    let connecting = " P2P Chat [Conectando...] "@;
    let disconnected = " P2P Chat [Desconectado] "@;
    assert(direct.len() == 30 && relay.len() == 30 && connecting.len() == 26 && disconnected.len() == 25);
    assert(direct[21] == 'D' && relay[21] == '(');
    let t = title_text(a);
    let w = state_word(a);
    match a {
        ConnectionState::Connected { is_direct } => if is_direct {
            assert(t.subrange(21int, 21int + w.len()) =~= w);
        } else {
            assert(t.subrange(22int, 22int + w.len()) =~= w);
        },
        ConnectionState::Connecting => {
            assert(t.subrange(11int, 11int + w.len()) =~= w);
        },
        ConnectionState::Disconnected => {
            assert(t.subrange(11int, 11int + w.len()) =~= w);
        },
    }
    if a != b && title_text(a) == title_text(b) {
        assert(title_text(a).len() == title_text(b).len());
        assert(title_text(a)[21] == title_text(b)[21]);
    }
}

/// Where the tail of a shown fingerprint starts: byte 56, or its end if shorter.
pub open spec fn fp_tail_start(bytes: Seq<u8>) -> int {
    if bytes.len() < 56 {
        bytes.len() as int
    } else {
        56
    }
}

/// Showing a fingerprint cuts it at byte 8 and at its tail start; both must
/// fall on character boundaries.
pub open spec fn fingerprint_cut_ok(fp: Seq<char>) -> bool {
    let b = encode_utf8(fp);
    is_char_boundary(b, 8) && is_char_boundary(b, fp_tail_start(b))
}

/// The shown part of a fingerprint: its first 8 bytes, `...`, and its bytes from the tail start.
pub open spec fn fingerprint_shown(fp: Seq<char>) -> Seq<char> {
    let b = encode_utf8(fp);
    decode_utf8(b.subrange(0, 8)) + "..."@ + decode_utf8(b.subrange(fp_tail_start(b), b.len() as int))
}

/// The status line.
pub open spec fn status_text(code: Seq<char>, state: ConnectionState, peer_fp: Option<Seq<char>>) -> Seq<char> {
    let code_part = if code.len() == 0 {
        "Conectando..."@
    } else {
        "Codigo: "@ + code
    };
    let fp_part = match peer_fp {
        Some(fp) => " | Impressao: "@ + fingerprint_shown(fp),
        None => Seq::empty(),
    };
    " "@ + code_part + " | "@ + state_word(state) + " | Ctrl+Q sair"@ + fp_part
}

/// The lines shown before any message, while help is on.
pub open spec fn welcome_lines(code: Seq<char>) -> Seq<(Seq<char>, LineKind)> {
    seq![
        (" 👋 Bem-vindo ao P2P Chat!"@, LineKind::Welcome),
        (""@, LineKind::Blank),
        (" Compartilhe seu código com um amigo ou"@, LineKind::Hint),
        (" insira o código dele para começar."@, LineKind::Hint),
        (" Código do peer: use :connect <CODIGO>"@, LineKind::Hint),
    ] + if code.len() == 0 {
        seq![]
    } else {
        seq![(" Seu código: "@ + code, LineKind::OwnCode)]
    }
}

/// The three lines of one message: who and when, the content, a blank line.
pub open spec fn message_lines(m: ChatMessage) -> Seq<(Seq<char>, LineKind)> {
    let header = if m.is_mine {
        (" Você ["@ + clock_text(m.timestamp as int) + "]"@, LineKind::MineHeader)
    } else {
        (" Peer ["@ + clock_text(m.timestamp as int) + "]"@, LineKind::PeerHeader)
    };
    seq![header, (" "@ + m.content@, LineKind::Body), (""@, LineKind::Blank)]
}

/// The lines of a run of messages.
pub open spec fn history_lines(ms: Seq<ChatMessage>) -> Seq<(Seq<char>, LineKind)>
    decreases ms.len(),
{
    if ms.len() == 0 {
        seq![]
    } else {
        history_lines(ms.drop_last()) + message_lines(ms.last())
    }
}

pub open spec fn lines_view(ls: Seq<ChatLine>) -> Seq<(Seq<char>, LineKind)> {
    ls.map_values(|l: ChatLine| (l.text@, l.kind))
}

/// The smallest terminal height, in rows, on which the screen is drawn: the
/// conversation pane needs a row inside its border, the input box three rows
/// and the status line one.
pub const MIN_SCREEN_HEIGHT: u16 = 6;

/// Whether a terminal of this height is tall enough to draw the screen on;
/// a shorter one is left blank.
pub fn screen_fits(height: u16) -> (fits: bool)
    ensures
        fits == (height >= MIN_SCREEN_HEIGHT),
{
    height >= MIN_SCREEN_HEIGHT
}

impl AppUi {
    /// The screen at start, showing the stored history with help on.
    pub fn new(history: Vec<ChatMessage>) -> (ui: Self)
        ensures
            ui.messages@ == history@,
            ui.input@ == Seq::<char>::empty(),
            ui.input_cursor == 0,
            ui.connection_state == ConnectionState::Disconnected,
            ui.connection_code@ == Seq::<char>::empty(),
            !ui.peer_typing,
            ui.fingerprint is None,
            ui.peer_fingerprint is None,
            ui.show_help,
    {
        AppUi {
            messages: history,
            input: String::new(),
            input_cursor: 0,
            connection_state: ConnectionState::Disconnected,
            connection_code: String::new(),
            peer_typing: false,
            fingerprint: None,
            peer_fingerprint: None,
            show_help: true,
        }
    }

    /// The title of the conversation pane.
    pub fn messages_title(&self) -> (title: &'static str)
        ensures
            title@ == title_text(self.connection_state),
    {
        match self.connection_state {
            ConnectionState::Connected { is_direct } => if is_direct {
                " P2P Chat [Conectado Directo] "
            } else {
                " P2P Chat [Conectado (Relay)] "
            },
            ConnectionState::Connecting => " P2P Chat [Conectando...] ",
            ConnectionState::Disconnected => " P2P Chat [Desconectado] ",
        }
    }

    /// What the input box shows: the placeholder while the line is empty, else the line.
    pub fn input_display(&self) -> (shown: ChatLine)
        ensures
            if self.input@.len() == 0 {
                shown.text@ == "Digite sua mensagem..."@ && shown.kind == LineKind::Placeholder
            } else {
                shown.text@ == self.input@ && shown.kind == LineKind::Input
            },
    {
        if self.input.as_str().unicode_len() == 0 {
            ChatLine { text: "Digite sua mensagem...".to_owned(), kind: LineKind::Placeholder }
        } else {
            ChatLine { text: self.input.clone(), kind: LineKind::Input }
        }
    }

    /// Whether showing the status line would cut the peer's fingerprint
    /// inside a character (or past its end), which panics.
    pub fn status_would_panic(&self) -> (panics: bool)
        ensures
            panics == match self.peer_fingerprint {
                Some(fp) => !fingerprint_cut_ok(fp@),
                None => false,
            },
    {
        match &self.peer_fingerprint {
            Some(fp) => {
                let s = fp.as_str();
                let n: usize = s.as_bytes().len();
                let tail: usize = if n < 56 { n } else { 56 };
                proof {
                    broadcast use vstd::utf8::encode_utf8_valid_utf8;
                }
                !(s.is_char_boundary(8) && s.is_char_boundary(tail))
            },
            None => false,
        }
    }

    /// The status line: code, connection state, and the peer's fingerprint abbreviated.
    pub fn status_line(&self) -> (line: String)
        requires
            self.peer_fingerprint matches Some(fp) ==> fingerprint_cut_ok(fp@),
        ensures
            line@ == status_text(self.connection_code@, self.connection_state, opt_text(self.peer_fingerprint)),
    {
        let mut line = String::new();
        line.append(" ");
        if self.connection_code.as_str().unicode_len() == 0 {
            line.append("Conectando...");
        } else {
            line.append("Codigo: ");
            line.append(self.connection_code.as_str());
        }
        line.append(" | ");
        let word = match self.connection_state {
            ConnectionState::Connected { is_direct } => if is_direct {
                "Directo"
            } else {
                "Relay"
            },
            ConnectionState::Connecting => "Conectando...",
            ConnectionState::Disconnected => "Desconectado",
        };
        line.append(word);
        line.append(" | Ctrl+Q sair");
        if let Some(fp) = &self.peer_fingerprint {
            let s = fp.as_str();
            let n: usize = s.as_bytes().len();
            let tail: usize = if n < 56 { n } else { 56 };
            proof {
                broadcast use vstd::utf8::encode_utf8_valid_utf8, vstd::utf8::encode_utf8_decode_utf8;
            }
            let (head, _) = s.split_at(8);
            let (_, rest) = s.split_at(tail);
            proof {
                broadcast use vstd::utf8::encode_utf8_decode_utf8;
                assert(head@ == decode_utf8(encode_utf8(head@)));
                assert(rest@ == decode_utf8(encode_utf8(rest@)));
            }
            line.append(" | Impressao: ");
            line.append(head);
            line.append("...");
            line.append(rest);
        }
        line
    }

    /// The lines of the conversation pane, top to bottom.
    pub fn chat_lines(&self) -> (lines: Vec<ChatLine>)
        ensures
            lines_view(lines@) == (if self.messages@.len() == 0 && self.show_help {
                welcome_lines(self.connection_code@)
            } else {
                seq![]
            }) + history_lines(self.messages@) + (if self.peer_typing {
                seq![(" Peer esta digitando..."@, LineKind::Typing)]
            } else {
                seq![]
            }),
    {
        let mut lines: Vec<ChatLine> = Vec::new();
        if self.messages.len() == 0 && self.show_help {
            lines.push(ChatLine { text: " 👋 Bem-vindo ao P2P Chat!".to_owned(), kind: LineKind::Welcome });
            lines.push(ChatLine { text: "".to_owned(), kind: LineKind::Blank });
            lines.push(ChatLine { text: " Compartilhe seu código com um amigo ou".to_owned(), kind: LineKind::Hint });
            lines.push(ChatLine { text: " insira o código dele para começar.".to_owned(), kind: LineKind::Hint });
            lines.push(ChatLine { text: " Código do peer: use :connect <CODIGO>".to_owned(), kind: LineKind::Hint });
            if self.connection_code.as_str().unicode_len() != 0 {
                let mut t = " Seu código: ".to_owned();
                t.append(self.connection_code.as_str());
                lines.push(ChatLine { text: t, kind: LineKind::OwnCode });
            }
            assert(lines_view(lines@) =~= welcome_lines(self.connection_code@));
        }
        let ghost start = lines_view(lines@);
        let mut i: usize = 0;
        while i < self.messages.len()
            invariant
                i <= self.messages@.len(),
                lines_view(lines@) == start + history_lines(self.messages@.take(i as int)),
            decreases self.messages@.len() - i,
        {
            let m = &self.messages[i];
            let ghost before = lines@;
            let clock = format_clock(m.timestamp);
            let mut header = if m.is_mine { " Você [".to_owned() } else { " Peer [".to_owned() };
            header.append(clock.as_str());
            header.append("]");
            let kind = if m.is_mine { LineKind::MineHeader } else { LineKind::PeerHeader };
            lines.push(ChatLine { text: header, kind });
            let mut body = " ".to_owned();
            body.append(m.content.as_str());
            lines.push(ChatLine { text: body, kind: LineKind::Body });
            lines.push(ChatLine { text: "".to_owned(), kind: LineKind::Blank });
            proof {
                let ms = self.messages@.take(i + 1);
                assert(ms.drop_last() =~= self.messages@.take(i as int));
                assert(ms.last() == *m);
                assert(history_lines(ms) == history_lines(self.messages@.take(i as int)) + message_lines(*m));
                assert(lines_view(lines@) =~= lines_view(before) + message_lines(*m));
            }
            i = i + 1;
        }
        assert(self.messages@.take(self.messages@.len() as int) =~= self.messages@);
        if self.peer_typing {
            lines.push(ChatLine { text: " Peer esta digitando...".to_owned(), kind: LineKind::Typing });
        }
        assert(lines_view(lines@) =~= (if self.messages@.len() == 0 && self.show_help {
            welcome_lines(self.connection_code@)
        } else {
            seq![]
        }) + history_lines(self.messages@) + (if self.peer_typing {
            seq![(" Peer esta digitando..."@, LineKind::Typing)]
        } else {
            seq![]
        }));
        lines
    }
}

/// How far the conversation pane scrolls so that its last lines show: the
/// line count is taken as a 16-bit number, the height as at least 1.
pub fn scroll_offset(line_count: usize, inner_height: u16) -> (scroll: u16)
    ensures
        scroll == ({
            let n = line_count as int % 65536;
            let h = if inner_height < 1 { 1 } else { inner_height as int };
            if n > h { n - h } else { 0 }
        }),
{
    let n: u16 = (line_count % 65536) as u16;
    let h: u16 = if inner_height < 1 { 1 } else { inner_height };
    if n > h {
        n - h
    } else {
        0
    }
}

/// A key as the screen sees it.
#[derive(Debug, Clone, Copy, PartialEq, Eq, Structural)]
pub enum Key {
    Char(char),
    Backspace,
    Delete,
    Enter,
    Left,
    Right,
    Home,
    End,
    Esc,
    Other,
}

/// A key press, with whether Control was held.
#[derive(Debug, Clone, Copy, PartialEq, Eq, Structural)]
pub struct KeyPress {
    pub key: Key,
    pub control: bool,
}

/// What a key press asks of the rest of the program.
#[derive(Debug, Clone)]
pub enum KeyOutcome {
    /// Leave the program.
    Quit,
    /// Send this command to the network task.
    Network(NetworkCommand),
    /// Store this text as an own message and send it to the peer.
    SendText(String),
    Nothing,
}

/// The text after the first space of `s`.
pub open spec fn after_first_space(s: Seq<char>) -> Seq<char>
    decreases s.len(),
{
    if s.len() == 0 {
        Seq::empty()
    } else if s[0] == ' ' {
        s.drop_first()
    } else {
        after_first_space(s.drop_first())
    }
}

/// All fields but the input line and its cursor are equal.
pub open spec fn same_apart_from_input(a: AppUi, b: AppUi) -> bool {
    &&& a.messages@ == b.messages@
    &&& a.connection_state == b.connection_state
    &&& a.connection_code@ == b.connection_code@
    &&& a.peer_typing == b.peer_typing
    &&& opt_text(a.fingerprint) == opt_text(b.fingerprint)
    &&& opt_text(a.peer_fingerprint) == opt_text(b.peer_fingerprint)
    &&& a.show_help == b.show_help
}

/// Nothing changed.
pub open spec fn same_screen(a: AppUi, b: AppUi) -> bool {
    same_apart_from_input(a, b) && a.input@ == b.input@ && a.input_cursor == b.input_cursor
}

/// The input line is empty with the cursor at its start.
pub open spec fn input_cleared(a: AppUi) -> bool {
    a.input@ == Seq::<char>::empty() && a.input_cursor == 0
}

/// A message the screen adds to the conversation, with a fresh id.
pub open spec fn is_local_message(m: ChatMessage, content: Seq<char>, sender: Seq<char>, encrypted: bool, mine: bool) -> bool {
    &&& m.id@.len() == 36
    &&& m.content@ == content
    &&& m.sender@ == sender
    &&& m.is_encrypted == encrypted
    &&& m.is_mine == mine
}

/// A key press the text editing cannot carry out without panicking: a
/// character inserted or removed at a byte position inside a character or
/// past the end, or the cursor counter overflowing.
pub open spec fn key_panics(ui: AppUi, press: KeyPress) -> bool {
    let b = encode_utf8(ui.input@);
    let cur = ui.input_cursor;
    match press.key {
        Key::Char(c) => if (c == 'q' && press.control) || c == ':' {
            false
        } else {
            (cur < b.len() && !is_char_boundary(b, cur as int)) || cur == usize::MAX
        },
        Key::Backspace => cur > 0 && ui.input@.len() > 0 && (cur - 1 >= b.len() || !is_char_boundary(b, cur - 1)),
        Key::Delete => cur < b.len() && !is_char_boundary(b, cur as int),
        _ => false,
    }
}

/// The text after the first space of `s`, which holds one.
fn text_after_first_space(s: &str) -> (after: String)
    ensures
        after@ == after_first_space(s@),
{
    let n: usize = s.unicode_len();
    let mut i: usize = 0;
    assert(s@.skip(0) =~= s@);
    while i < n
        invariant
            n == s@.len(),
            i <= n,
            after_first_space(s@) == after_first_space(s@.skip(i as int)),
        decreases n - i,
    {
        if s.get_char(i) == ' ' {
            assert(s@.skip(i as int)[0] == ' ');
            assert(s@.skip(i as int).drop_first() =~= s@.subrange(i + 1, n as int));
            return s.substring_char(i + 1, n).to_owned();
        }
        assert(s@.skip(i as int).drop_first() =~= s@.skip(i + 1));
        i = i + 1;
    }
    assert(s@.skip(n as int) =~= Seq::<char>::empty());
    String::new()
}

/// What Enter does: an empty (after trimming) line is ignored; a line
/// starting with `:` is a command (`help`/`h`, `disconnect`/`d`,
/// `connect <code>`/`c <code>`, `fingerprint`/`fp`); any other line is added
/// as an own message and sent. Commands and messages clear the input line.
pub open spec fn enter_effect(before: AppUi, after: AppUi, outcome: KeyOutcome) -> bool {
    let line = trimmed(before.input@);
    if line.len() == 0 {
        same_screen(after, before) && outcome is Nothing
    } else if line[0] == ':' {
        let cmd = trimmed(line.drop_first());
        &&& input_cleared(after)
        &&& after.connection_state == before.connection_state
        &&& after.connection_code@ == before.connection_code@
        &&& after.peer_typing == before.peer_typing
        &&& opt_text(after.fingerprint) == opt_text(before.fingerprint)
        &&& opt_text(after.peer_fingerprint) == opt_text(before.peer_fingerprint)
        &&& if cmd == "help"@ || cmd == "h"@ {
            &&& after.show_help == !before.show_help
            &&& after.messages@ == before.messages@
            &&& outcome is Nothing
        } else if cmd == "disconnect"@ || cmd == "d"@ {
            &&& after.show_help == before.show_help
            &&& after.messages@ == before.messages@
            &&& outcome matches KeyOutcome::Network(NetworkCommand::Disconnect)
        } else if has_prefix(cmd, "connect "@) || has_prefix(cmd, "c "@) {
            &&& after.show_help == before.show_help
            &&& after.messages@ == before.messages@
            &&& outcome matches KeyOutcome::Network(NetworkCommand::ConnectToCode { code })
                && code@ == uppercase_text(trimmed(after_first_space(cmd)))
        } else if cmd == "fingerprint"@ || cmd == "fp"@ {
            &&& after.show_help == before.show_help
            &&& outcome is Nothing
            &&& match before.fingerprint {
                Some(fp) => {
                    &&& after.messages@.len() == before.messages@.len() + 1
                    &&& after.messages@.drop_last() =~= before.messages@
                    &&& is_local_message(after.messages@.last(), "Sua impressao digital: "@ + fp@, "Sistema"@, false, false)
                },
                None => after.messages@ == before.messages@,
            }
        } else {
            &&& after.show_help == before.show_help
            &&& after.messages@ == before.messages@
            &&& outcome is Nothing
        }
    } else {
        &&& input_cleared(after)
        &&& after.connection_state == before.connection_state
        &&& after.connection_code@ == before.connection_code@
        &&& after.peer_typing == before.peer_typing
        &&& opt_text(after.fingerprint) == opt_text(before.fingerprint)
        &&& opt_text(after.peer_fingerprint) == opt_text(before.peer_fingerprint)
        &&& after.show_help == before.show_help
        &&& after.messages@.len() == before.messages@.len() + 1
        &&& after.messages@.drop_last() =~= before.messages@
        &&& is_local_message(after.messages@.last(), line, "Voce"@, true, true)
        &&& outcome matches KeyOutcome::SendText(t) && t@ == line
    }
}

/// Enter on `:disconnect` (or its short form `:d`) clears the input line and
/// asks the network task to disconnect; the conversation and help stay.
pub proof fn lemma_enter_disconnect(before: AppUi, after: AppUi, outcome: KeyOutcome)
    requires
        enter_effect(before, after, outcome),
        trimmed(before.input@) == ":disconnect"@ || trimmed(before.input@) == ":d"@,
    ensures
        outcome matches KeyOutcome::Network(NetworkCommand::Disconnect),
        input_cleared(after),
        after.messages@ == before.messages@,
        after.show_help == before.show_help,
{
    reveal_strlit(":disconnect");
    reveal_strlit(":d");
    reveal_strlit("disconnect");
    reveal_strlit("d");
    reveal_strlit("help");
    reveal_strlit("h");
    let line = trimmed(before.input@);
    let cmd = line.drop_first();
    lemma_trimmed_unchanged(cmd);
    if line == ":disconnect"@ {
        assert(cmd =~= "disconnect"@);
    } else {
        assert(cmd =~= "d"@);
    }
}

/// Enter on `:help` (or `:h`) clears the input line and turns the help on or
/// off; nothing is sent and the conversation stays.
pub proof fn lemma_enter_help(before: AppUi, after: AppUi, outcome: KeyOutcome)
    requires
        enter_effect(before, after, outcome),
        trimmed(before.input@) == ":help"@ || trimmed(before.input@) == ":h"@,
    ensures
        outcome is Nothing,
        input_cleared(after),
        after.show_help == !before.show_help,
        after.messages@ == before.messages@,
{
    reveal_strlit(":help");
    reveal_strlit(":h");
    reveal_strlit("help");
    reveal_strlit("h");
    let line = trimmed(before.input@);
    let cmd = line.drop_first();
    lemma_trimmed_unchanged(cmd);
    if line == ":help"@ {
        assert(cmd =~= "help"@);
    } else {
        assert(cmd =~= "h"@);
    }
}

/// Enter on `:fingerprint` (or `:fp`) clears the input line and, where this
/// side has a fingerprint, adds one message from `Sistema` that shows it;
/// nothing is sent.
pub proof fn lemma_enter_fingerprint(before: AppUi, after: AppUi, outcome: KeyOutcome)
    requires
        enter_effect(before, after, outcome),
        trimmed(before.input@) == ":fingerprint"@ || trimmed(before.input@) == ":fp"@,
    ensures
        outcome is Nothing,
        input_cleared(after),
        after.show_help == before.show_help,
        match before.fingerprint {
            Some(fp) => {
                &&& after.messages@.len() == before.messages@.len() + 1
                &&& after.messages@.drop_last() == before.messages@
                &&& after.messages@.last().content@ == "Sua impressao digital: "@ + fp@
                &&& after.messages@.last().sender@ == "Sistema"@
            },
            None => after.messages@ == before.messages@,
        },
{
    reveal_strlit(":fingerprint");
    reveal_strlit(":fp");
    reveal_strlit("fingerprint");
    reveal_strlit("fp");
    reveal_strlit("help");
    reveal_strlit("h");
    reveal_strlit("disconnect");
    reveal_strlit("d");
    reveal_strlit("connect ");
    reveal_strlit("c ");
    let line = trimmed(before.input@);
    let cmd = line.drop_first();
    lemma_trimmed_unchanged(cmd);
    if line == ":fingerprint"@ {
        assert(cmd =~= "fingerprint"@);
    } else {
        assert(cmd =~= "fp"@);
    }
    assert(!has_prefix(cmd, "connect "@)) by {
        if cmd.len() >= 8 {
            assert(cmd.subrange(0, 8)[0] != "connect "@[0]);
        }
    }
    assert(!has_prefix(cmd, "c "@)) by {
        assert(cmd.subrange(0, 2)[0] != "c "@[0]);
    }
}

proof fn lemma_after_first_space_skips(p: Seq<char>, rest: Seq<char>)
    requires
        forall|i: int| 0 <= i < p.len() ==> p[i] != ' ',
    ensures
        after_first_space(p + seq![' '] + rest) == rest,
    decreases p.len(),
{
    let s = p + seq![' '] + rest;
    if p.len() == 0 {
        assert(s[0] == ' ');
        assert(s.drop_first() =~= rest);
    } else {
        assert(s[0] == p[0]);
        assert(s.drop_first() =~= p.drop_first() + seq![' '] + rest);
        lemma_after_first_space_skips(p.drop_first(), rest);
    }
}

/// Enter on `:connect <code>` (or `:c <code>`), the code a word without
/// white space, clears the input line and asks the network task to connect to
/// the code in upper case; the conversation and help stay.
pub proof fn lemma_enter_connect(before: AppUi, after: AppUi, outcome: KeyOutcome, code: Seq<char>)
    requires
        enter_effect(before, after, outcome),
        trimmed(before.input@) == ":connect "@ + code || trimmed(before.input@) == ":c "@ + code,
        code.len() > 0,
        forall|i: int| 0 <= i < code.len() ==> !is_white_space(#[trigger] code[i]),
    ensures
        outcome matches KeyOutcome::Network(NetworkCommand::ConnectToCode { code: c }) && c@ == uppercase_text(code),
        input_cleared(after),
        after.messages@ == before.messages@,
        after.show_help == before.show_help,
{
    reveal_strlit(":connect ");
    reveal_strlit(":c ");
    reveal_strlit("connect ");
    reveal_strlit("c ");
    reveal_strlit("help");
    reveal_strlit("h");
    reveal_strlit("disconnect");
    reveal_strlit("d");
    let line = trimmed(before.input@);
    let cmd = line.drop_first();
    let word = if line == ":connect "@ + code { seq!['c', 'o', 'n', 'n', 'e', 'c', 't'] } else { seq!['c'] };
    assert(cmd =~= word + seq![' '] + code);
    assert(cmd.last() == code.last());
    assert(!is_white_space(code[code.len() - 1]));
    lemma_trimmed_unchanged(cmd);
    assert(cmd[0] == 'c');
    assert(cmd != "help"@ && cmd != "h"@ && cmd != "disconnect"@ && cmd != "d"@) by {
        assert("help"@[0] == 'h' && "h"@[0] == 'h' && "disconnect"@[0] == 'd' && "d"@[0] == 'd');
    }
    if line == ":connect "@ + code {
        assert(cmd.subrange(0, 8) =~= "connect "@);
    } else {
        assert(cmd.subrange(0, 2) =~= "c "@);
    }
    lemma_after_first_space_skips(word, code);
    lemma_trimmed_unchanged(code);
}

/// Enter on a line that is not a command (after trimming, non-empty and not
/// starting with `:`) adds it to the conversation as an own message from
/// `Voce`, clears the input line and sends the trimmed line.
pub proof fn lemma_enter_message(before: AppUi, after: AppUi, outcome: KeyOutcome)
    requires
        enter_effect(before, after, outcome),
        trimmed(before.input@).len() > 0,
        trimmed(before.input@)[0] != ':',
    ensures
        outcome matches KeyOutcome::SendText(t) && t@ == trimmed(before.input@),
        input_cleared(after),
        after.messages@.len() == before.messages@.len() + 1,
        after.messages@.drop_last() == before.messages@,
        after.messages@.last().content@ == trimmed(before.input@),
        after.messages@.last().sender@ == "Voce"@,
        after.messages@.last().is_mine,
{
}

impl AppUi {
    /// Whether `handle_key` would panic on this press (see `key_panics`).
    pub fn key_would_panic(&self, press: KeyPress) -> (panics: bool)
        ensures
            panics == key_panics(*self, press),
    {
        let s = self.input.as_str();
        let len: usize = s.as_bytes().len();
        let cur: usize = self.input_cursor;
        proof {
            broadcast use vstd::utf8::encode_utf8_valid_utf8;
        }
        match press.key {
            Key::Char(c) => if (c == 'q' && press.control) || c == ':' {
                false
            } else {
                (cur < len && !s.is_char_boundary(cur)) || cur == usize::MAX
            },
            Key::Backspace => cur > 0 && s.unicode_len() > 0 && (cur - 1 >= len || !s.is_char_boundary(cur - 1)),
            Key::Delete => cur < len && !s.is_char_boundary(cur),
            _ => false,
        }
    }

    /// Takes a key press: edits the input line, moves the cursor, and on
    /// Enter runs a `:` command or sends the line as a message.
    pub fn handle_key(&mut self, press: KeyPress) -> (outcome: KeyOutcome)
        requires
            !key_panics(*old(self), press),
        ensures
            old(self).input_cursor <= encode_utf8(old(self).input@).len() ==> final(self).input_cursor <= encode_utf8(
                final(self).input@,
            ).len(),
            ({
                let b = encode_utf8(old(self).input@);
                let cur = old(self).input_cursor;
                match press.key {
                    Key::Char(c) => if c == 'q' && press.control {
                        same_screen(*final(self), *old(self)) && outcome is Quit
                    } else if c == ':' {
                        &&& same_apart_from_input(*final(self), *old(self))
                        &&& final(self).input@ == seq![':'] && final(self).input_cursor == 1
                        &&& outcome is Nothing
                    } else {
                        &&& same_apart_from_input(*final(self), *old(self))
                        &&& final(self).input_cursor == cur + 1
                        &&& if cur < b.len() {
                            encode_utf8(final(self).input@) == b.take(cur as int) + encode_utf8(seq![c]) + b.skip(cur as int)
                        } else {
                            final(self).input@ == old(self).input@.push(c)
                        }
                        &&& outcome is Nothing
                    },
                    Key::Backspace => {
                        &&& same_apart_from_input(*final(self), *old(self))
                        &&& outcome is Nothing
                        &&& if cur > 0 && old(self).input@.len() > 0 {
                            &&& final(self).input_cursor == cur - 1
                            &&& exists|c: char| #[trigger] encode_utf8(seq![c]).len() > 0 && b == encode_utf8(final(self).input@).take(cur - 1)
                                + encode_utf8(seq![c]) + encode_utf8(final(self).input@).skip(cur - 1)
                        } else {
                            final(self).input@ == old(self).input@ && final(self).input_cursor == cur
                        }
                    },
                    Key::Delete => {
                        &&& same_apart_from_input(*final(self), *old(self))
                        &&& outcome is Nothing
                        &&& final(self).input_cursor == cur
                        &&& if cur < b.len() {
                            exists|c: char| #[trigger] encode_utf8(seq![c]).len() > 0 && b == encode_utf8(final(self).input@).take(cur as int)
                                + encode_utf8(seq![c]) + encode_utf8(final(self).input@).skip(cur as int)
                        } else {
                            final(self).input@ == old(self).input@
                        }
                    },
                    Key::Left => {
                        &&& same_apart_from_input(*final(self), *old(self))
                        &&& final(self).input@ == old(self).input@
                        &&& final(self).input_cursor == (if cur > 0 { (cur - 1) as usize } else { cur })
                        &&& outcome is Nothing
                    },
                    Key::Right => {
                        &&& same_apart_from_input(*final(self), *old(self))
                        &&& final(self).input@ == old(self).input@
                        &&& final(self).input_cursor == (if cur < b.len() { (cur + 1) as usize } else { cur })
                        &&& outcome is Nothing
                    },
                    Key::Home => {
                        &&& same_apart_from_input(*final(self), *old(self))
                        &&& final(self).input@ == old(self).input@ && final(self).input_cursor == 0
                        &&& outcome is Nothing
                    },
                    Key::End => {
                        &&& same_apart_from_input(*final(self), *old(self))
                        &&& final(self).input@ == old(self).input@ && final(self).input_cursor == b.len()
                        &&& outcome is Nothing
                    },
                    Key::Esc => {
                        &&& final(self).input@ == old(self).input@ && final(self).input_cursor == cur
                        &&& final(self).messages@ == old(self).messages@
                        &&& final(self).connection_state == old(self).connection_state
                        &&& final(self).connection_code@ == old(self).connection_code@
                        &&& final(self).peer_typing == old(self).peer_typing
                        &&& opt_text(final(self).fingerprint) == opt_text(old(self).fingerprint)
                        &&& opt_text(final(self).peer_fingerprint) == opt_text(old(self).peer_fingerprint)
                        &&& !final(self).show_help
                        &&& outcome is Nothing
                    },
                    Key::Other => same_screen(*final(self), *old(self)) && outcome is Nothing,
                    Key::Enter => enter_effect(*old(self), *final(self), outcome),
                }
            }),
    {
        proof {
            broadcast use vstd::utf8::encode_utf8_valid_utf8;
        }
        let cur: usize = self.input_cursor;
        let len: usize = self.input.as_str().as_bytes().len();
        match press.key {
            Key::Char(c) => {
                if c == 'q' && press.control {
                    return KeyOutcome::Quit;
                }
                if c == ':' {
                    self.input = String::new();
                    self.input_cursor = 0;
                    push_char(&mut self.input, ':');
                    self.input_cursor = 1;
                    proof {
                        assert(self.input@ =~= Seq::<char>::empty() + seq![':']);
                        lemma_encode_utf8_char_nonempty(':');
                        lemma_encode_utf8_concat(Seq::<char>::empty(), seq![':']);
                    }
                    return KeyOutcome::Nothing;
                }
                let ghost before = self.input@;
                if cur < len {
                    insert_char_at(&mut self.input, cur, c);
                } else {
                    push_char(&mut self.input, c);
                    proof {
                        assert(self.input@ =~= before + seq![c]);
                        lemma_encode_utf8_concat(before, seq![c]);
                    }
                }
                proof {
                    lemma_encode_utf8_char_nonempty(c);
                }
                self.input_cursor = cur + 1;
                KeyOutcome::Nothing
            },
            Key::Backspace => {
                if cur > 0 && self.input.as_str().unicode_len() > 0 {
                    let c = remove_char_at(&mut self.input, cur - 1);
                    proof {
                        vstd::utf8::encode_utf8_first_scalar(seq![c]);
                    }
                    self.input_cursor = cur - 1;
                }
                KeyOutcome::Nothing
            },
            Key::Delete => {
                if cur < len {
                    let c = remove_char_at(&mut self.input, cur);
                    proof {
                        vstd::utf8::encode_utf8_first_scalar(seq![c]);
                    }
                }
                KeyOutcome::Nothing
            },
            Key::Left => {
                if cur > 0 {
                    self.input_cursor = cur - 1;
                }
                KeyOutcome::Nothing
            },
            Key::Right => {
                if cur < len {
                    self.input_cursor = cur + 1;
                }
                KeyOutcome::Nothing
            },
            Key::Home => {
                self.input_cursor = 0;
                KeyOutcome::Nothing
            },
            Key::End => {
                self.input_cursor = len;
                KeyOutcome::Nothing
            },
            Key::Esc => {
                self.show_help = false;
                KeyOutcome::Nothing
            },
            Key::Other => KeyOutcome::Nothing,
            Key::Enter => self.enter_line(),
        }
    }

    fn enter_line(&mut self) -> (outcome: KeyOutcome)
        ensures
            enter_effect(*old(self), *final(self), outcome),
    {
        let line = trim_text(self.input.as_str()).to_owned();
        let n: usize = line.as_str().unicode_len();
        if n == 0 {
            return KeyOutcome::Nothing;
        }
        if line.as_str().get_char(0) == ':' {
            let cmd = trim_text(line.as_str().substring_char(1, n)).to_owned();
            assert(line@.subrange(1, n as int) =~= line@.drop_first());
            self.input = String::new();
            self.input_cursor = 0;
            if string_is(&cmd, "help") || string_is(&cmd, "h") {
                self.show_help = !self.show_help;
            } else if string_is(&cmd, "disconnect") || string_is(&cmd, "d") {
                return KeyOutcome::Network(NetworkCommand::Disconnect);
            } else if starts_with_text(cmd.as_str(), "connect ") || starts_with_text(cmd.as_str(), "c ") {
                let after = text_after_first_space(cmd.as_str());
                let code = to_upper_text(trim_text(after.as_str()));
                return KeyOutcome::Network(NetworkCommand::ConnectToCode { code });
            } else if string_is(&cmd, "fingerprint") || string_is(&cmd, "fp") {
                if let Some(fp) = &self.fingerprint {
                    let mut content = "Sua impressao digital: ".to_owned();
                    content.append(fp.as_str());
                    let msg = ChatMessage {
                        id: new_uuid(),
                        content,
                        sender: "Sistema".to_owned(),
                        timestamp: unix_time_now(),
                        is_encrypted: false,
                        is_mine: false,
                    };
                    self.messages.push(msg);
                }
            }
            KeyOutcome::Nothing
        } else {
            let msg = ChatMessage {
                id: new_uuid(),
                content: line.clone(),
                sender: "Voce".to_owned(),
                timestamp: unix_time_now(),
                is_encrypted: true,
                is_mine: true,
            };
            self.messages.push(msg);
            self.input = String::new();
            self.input_cursor = 0;
            KeyOutcome::SendText(line)
        }
    }

    /// Takes an event from the network task. A received message is shown
    /// and also returned, to be stored in the history.
    pub fn apply_event(&mut self, event: NetworkEvent) -> (store: Option<StoreRequest>)
        ensures
            final(self).input@ == old(self).input@,
            final(self).input_cursor == old(self).input_cursor,
            match event {
                NetworkEvent::Registered { code, .. } => {
                    &&& final(self).connection_code@ == code@
                    &&& final(self).connection_state == ConnectionState::Connecting
                    &&& final(self).messages@ == old(self).messages@
                    &&& final(self).peer_typing == old(self).peer_typing
                    &&& opt_text(final(self).fingerprint) == opt_text(old(self).fingerprint)
                    &&& opt_text(final(self).peer_fingerprint) == opt_text(old(self).peer_fingerprint)
                    &&& final(self).show_help == old(self).show_help
                    &&& store is None
                },
                NetworkEvent::Connected { is_direct, .. } => {
                    &&& final(self).connection_state == (ConnectionState::Connected { is_direct })
                    &&& !final(self).show_help
                    &&& final(self).messages@ == old(self).messages@
                    &&& final(self).connection_code@ == old(self).connection_code@
                    &&& final(self).peer_typing == old(self).peer_typing
                    &&& opt_text(final(self).fingerprint) == opt_text(old(self).fingerprint)
                    &&& opt_text(final(self).peer_fingerprint) == opt_text(old(self).peer_fingerprint)
                    &&& store is None
                },
                NetworkEvent::Disconnected => {
                    &&& final(self).connection_state == ConnectionState::Disconnected
                    &&& final(self).messages@ == old(self).messages@
                    &&& final(self).connection_code@ == old(self).connection_code@
                    &&& final(self).peer_typing == old(self).peer_typing
                    &&& opt_text(final(self).fingerprint) == opt_text(old(self).fingerprint)
                    &&& opt_text(final(self).peer_fingerprint) == opt_text(old(self).peer_fingerprint)
                    &&& final(self).show_help == old(self).show_help
                    &&& store is None
                },
                NetworkEvent::MessageReceived { text, sender, timestamp, .. } => {
                    let mine = sender@ == "me"@;
                    let shown = if mine { "Voce"@ } else { "Peer"@ };
                    &&& final(self).connection_state == old(self).connection_state
                    &&& final(self).connection_code@ == old(self).connection_code@
                    &&& final(self).peer_typing == old(self).peer_typing
                    &&& opt_text(final(self).fingerprint) == opt_text(old(self).fingerprint)
                    &&& opt_text(final(self).peer_fingerprint) == opt_text(old(self).peer_fingerprint)
                    &&& final(self).show_help == old(self).show_help
                    &&& final(self).messages@.len() == old(self).messages@.len() + 1
                    &&& final(self).messages@.drop_last() == old(self).messages@
                    &&& is_local_message(final(self).messages@.last(), text@, shown, true, mine)
                    &&& final(self).messages@.last().is_mine == mine
                    &&& final(self).messages@.last().timestamp == timestamp
                    &&& store matches Some(r) && r.content@ == text@ && r.sender@ == shown && r.is_mine == mine
                },
                NetworkEvent::PeerTyping { is_typing } => {
                    &&& final(self).peer_typing == is_typing
                    &&& final(self).messages@ == old(self).messages@
                    &&& final(self).connection_state == old(self).connection_state
                    &&& final(self).connection_code@ == old(self).connection_code@
                    &&& opt_text(final(self).fingerprint) == opt_text(old(self).fingerprint)
                    &&& opt_text(final(self).peer_fingerprint) == opt_text(old(self).peer_fingerprint)
                    &&& final(self).show_help == old(self).show_help
                    &&& store is None
                },
                NetworkEvent::PeerFingerprint { fingerprint } => {
                    &&& opt_text(final(self).peer_fingerprint) == Some(fingerprint@)
                    &&& final(self).messages@ == old(self).messages@
                    &&& final(self).connection_state == old(self).connection_state
                    &&& final(self).connection_code@ == old(self).connection_code@
                    &&& final(self).peer_typing == old(self).peer_typing
                    &&& opt_text(final(self).fingerprint) == opt_text(old(self).fingerprint)
                    &&& final(self).show_help == old(self).show_help
                    &&& store is None
                },
                NetworkEvent::Error { message } => {
                    &&& final(self).connection_state == old(self).connection_state
                    &&& final(self).connection_code@ == old(self).connection_code@
                    &&& final(self).peer_typing == old(self).peer_typing
                    &&& opt_text(final(self).fingerprint) == opt_text(old(self).fingerprint)
                    &&& opt_text(final(self).peer_fingerprint) == opt_text(old(self).peer_fingerprint)
                    &&& final(self).show_help == old(self).show_help
                    &&& final(self).messages@.len() == old(self).messages@.len() + 1
                    &&& final(self).messages@.drop_last() == old(self).messages@
                    &&& is_local_message(final(self).messages@.last(), "[Erro] "@ + message@, "Sistema"@, false, false)
                    &&& store is None
                },
                _ => same_screen(*final(self), *old(self)) && store is None,
            },
    {
        match event {
            NetworkEvent::Registered { code, .. } => {
                self.connection_code = code;
                self.connection_state = ConnectionState::Connecting;
                None
            },
            NetworkEvent::Connected { is_direct, .. } => {
                self.connection_state = ConnectionState::Connected { is_direct };
                self.show_help = false;
                None
            },
            NetworkEvent::Disconnected => {
                self.connection_state = ConnectionState::Disconnected;
                None
            },
            NetworkEvent::MessageReceived { text, sender, timestamp, .. } => {
                let mine = string_is(&sender, "me");
                let shown = if mine { "Voce" } else { "Peer" };
                let msg = ChatMessage {
                    id: new_uuid(),
                    content: text.clone(),
                    sender: shown.to_owned(),
                    timestamp,
                    is_encrypted: true,
                    is_mine: mine,
                };
                self.messages.push(msg);
                Some(StoreRequest { content: text, sender: shown.to_owned(), is_mine: mine })
            },
            NetworkEvent::PeerTyping { is_typing } => {
                self.peer_typing = is_typing;
                None
            },
            NetworkEvent::PeerFingerprint { fingerprint } => {
                self.peer_fingerprint = Some(fingerprint);
                None
            },
            NetworkEvent::Error { message } => {
                let mut content = "[Erro] ".to_owned();
                content.append(message.as_str());
                let msg = ChatMessage {
                    id: new_uuid(),
                    content,
                    sender: "Sistema".to_owned(),
                    timestamp: unix_time_now(),
                    is_encrypted: false,
                    is_mine: false,
                };
                self.messages.push(msg);
                None
            },
            _ => None,
        }
    }
}

} // verus!
