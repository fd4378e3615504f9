//! The client's network decisions: how it addresses the signaling server,
//! what it asks of it, and how it reacts to signaling messages, to the
//! screen's commands and to messages from the peer. The caller performs the
//! I/O each reaction names.
use vstd::prelude::*;
use vstd::utf8::*;
use crate::crypto::{CryptoEngine, CryptoError, sealed_for};
use crate::handshake::{Handshake, HandshakeRole, HandshakeStage};
use crate::text::{
    contains_text, ends_with_char, has_substring, string_is, string_or_empty, text_or_empty, to_upper_text,
    uppercase_text,
};
use crate::types::{NetworkCommand, NetworkEvent, P2PMessage};

verus! {

/// A message on the signaling channel (both directions); absent fields are `None`.
#[derive(Debug, Clone)]
pub struct SignalMessage {
    pub msg_type: String,
    pub peer_id: Option<String>,
    pub code: Option<String>,
    pub port: Option<u16>,
    pub public_ip: Option<String>,
    pub target_code: Option<String>,
    pub from_peer: Option<String>,
    pub from_port: Option<u16>,
    pub from_ip: Option<String>,
    pub to_peer: Option<String>,
    pub data: Option<String>,
    pub message: Option<String>,
    pub target_port: Option<u16>,
    pub target_ip: Option<String>,
    pub from_code: Option<String>,
}

/// What the client sends to the signaling server.
#[derive(Debug, Clone)]
pub enum SignalRequest {
    /// `{"type": "register", "port": .., "public_ip": ..}`, the address left out when `None`.
    Register { port: u16, public_ip: Option<String> },
    /// `{"type": "connect", "target_code": ..}`.
    Connect { target_code: String },
}

/// The signaling URL after normalization: a bare host gets `ws://` and a
/// trailing `/`; a URL without path end or query gets a trailing `/`.
pub open spec fn normalized_url(url: Seq<char>) -> Seq<char> {
    if !has_substring(url, "://"@) {
        "ws://"@ + url + "/"@
    } else if (url.len() > 0 && url.last() == '/') || has_substring(url, "?"@) {
        url
    } else {
        url + "/"@
    }
}

/// Makes sure the signaling URL has a scheme and a path.
pub fn normalize_signaling_url(url: &str) -> (normalized: String)
    ensures
        normalized@ == normalized_url(url@),
{
    if !contains_text(url, "://") {
        let mut s = String::new();
        s.append("ws://");
        s.append(url);
        s.append("/");
        s
    } else if ends_with_char(url, '/') || contains_text(url, "?") {
        url.to_owned()
    } else {
        let mut s = url.to_owned();
        s.append("/");
        s
    }
}

proof fn lemma_substring_extends(s: Seq<char>, p: Seq<char>, t: Seq<char>)
    requires
        has_substring(s, p),
    ensures
        has_substring(s + t, p),
        has_substring(t + s, p),
{
    let i = choose|i: int| 0 <= i && i + p.len() <= s.len() && #[trigger] s.subrange(i, i + p.len()) == p;
    assert((s + t).subrange(i, i + p.len()) =~= s.subrange(i, i + p.len()));
    assert((t + s).subrange(t.len() + i, t.len() + i + p.len()) =~= s.subrange(i, i + p.len()));
}

/// Normalizing a normalized URL changes nothing.
pub proof fn lemma_normalize_idempotent(url: Seq<char>)
    ensures
        normalized_url(normalized_url(url)) == normalized_url(url),
{
    lemma_normalize_keeps_scheme(url);
}

/// What normalization does to a URL: one that names a scheme (holds `://`)
/// keeps it and is left as it is or gets a trailing `/`; one without gets
/// `ws://` in front and `/` behind. Either way the result names a scheme and
/// ends with `/` or carries a query (`?`).
pub proof fn lemma_normalize_keeps_scheme(url: Seq<char>)
    ensures
        has_substring(url, "://"@) ==> (normalized_url(url) == url || normalized_url(url) == url + "/"@),
        !has_substring(url, "://"@) ==> normalized_url(url) == "ws://"@ + url + "/"@,
        has_substring(normalized_url(url), "://"@),
        (normalized_url(url).len() > 0 && normalized_url(url).last() == '/') || has_substring(
            normalized_url(url),
            "?"@,
        ),
{
    reveal_strlit("://");
    reveal_strlit("ws://");
    reveal_strlit("/");
    let r = normalized_url(url);
    if !has_substring(url, "://"@) {
        let pre = "ws://"@;
        assert(pre.subrange(2int, 2int + "://"@.len()) =~= "://"@);
        assert(has_substring(pre, "://"@));
        lemma_substring_extends(pre, "://"@, url);
        lemma_substring_extends(pre + url, "://"@, "/"@);
        assert(r =~= pre + url + "/"@);
        assert(r.last() == '/');
    } else if (url.len() > 0 && url.last() == '/') || has_substring(url, "?"@) {
    } else {
        lemma_substring_extends(url, "://"@, "/"@);
        assert(r.last() == '/');
    }
}

/// The registration request: the public address is sent only when given.
pub fn registration_request(port: u16, public_ip: &str) -> (req: SignalRequest)
    ensures
        req matches SignalRequest::Register { port: p, public_ip: ip } && p == port && (if public_ip@.len() == 0 {
            ip is None
        } else {
            ip matches Some(a) && a@ == public_ip@
        }),
{
    let ip = if public_ip.unicode_len() == 0 {
        None
    } else {
        Some(public_ip.to_owned())
    };
    SignalRequest::Register { port, public_ip: ip }
}

/// The connection code the server assigned, if its reply is a registration
/// confirmation: the code and peer id (empty where absent).
pub fn registration_result(reply: &SignalMessage) -> (registered: Option<(String, String)>)
    ensures
        if reply.msg_type@ == "registered"@ {
            registered matches Some((code, id)) && code@ == text_or_empty(reply.code) && id@ == text_or_empty(
                reply.peer_id,
            )
        } else {
            registered is None
        },
{
    if string_is(&reply.msg_type, "registered") {
        Some((string_or_empty(&reply.code), string_or_empty(&reply.peer_id)))
    } else {
        None
    }
}

/// How the client answers a signaling message.
#[derive(Debug, Clone)]
pub enum SignalReaction {
    /// Open a direct link to this address and start the handshake as initiator;
    /// `peer_id` names the peer in the `Connected` event.
    Dial { ip: String, port: u16, peer_id: String },
    /// Report this event to the screen.
    Emit(NetworkEvent),
    Ignore,
}

/// The reaction to a message from the signaling server.
pub fn on_signaling_message(msg: &SignalMessage) -> (reaction: SignalReaction)
    ensures
        if msg.msg_type@ == "connection_info"@ {
            reaction matches SignalReaction::Dial { ip, port, peer_id } && ip@ == text_or_empty(msg.public_ip)
                && port == (match msg.port { Some(p) => p, None => 0u16 }) && peer_id@ == text_or_empty(msg.peer_id)
        } else if msg.msg_type@ == "connection_request"@ {
            reaction matches SignalReaction::Emit(NetworkEvent::Connected { peer_id, is_direct }) && peer_id@
                == text_or_empty(msg.from_peer) && !is_direct
        } else if msg.msg_type@ == "error"@ {
            reaction matches SignalReaction::Emit(NetworkEvent::Error { message }) && message@ == text_or_empty(
                msg.message,
            )
        } else {
            reaction is Ignore
        },
{
    if string_is(&msg.msg_type, "connection_info") {
        let port: u16 = match msg.port {
            Some(p) => p,
            None => 0,
        };
        SignalReaction::Dial { ip: string_or_empty(&msg.public_ip), port, peer_id: string_or_empty(&msg.peer_id) }
    } else if string_is(&msg.msg_type, "connection_request") {
        SignalReaction::Emit(NetworkEvent::Connected { peer_id: string_or_empty(&msg.from_peer), is_direct: false })
    } else if string_is(&msg.msg_type, "error") {
        SignalReaction::Emit(NetworkEvent::Error { message: string_or_empty(&msg.message) })
    } else {
        SignalReaction::Ignore
    }
}

/// How the client carries out a command from the screen.
#[derive(Debug, Clone)]
pub enum CommandReaction {
    /// Send this request to the signaling server.
    Signal(SignalRequest),
    /// Write this message on the peer link.
    SendPeer(P2PMessage),
    /// Encryption failed; the error is only logged.
    EncryptFailed(CryptoError),
    /// Drop the peer link and report `Disconnected`.
    DropLink,
    /// The send counter is at its maximum: the next increment overflows.
    CounterExhausted,
    /// Nothing to do (no peer link).
    Nothing,
}

/// The reaction to a command from the screen; `linked` tells whether there is a peer link.
pub fn on_command(crypto: &mut CryptoEngine, linked: bool, cmd: NetworkCommand) -> (reaction: CommandReaction)
    ensures
        match cmd {
            NetworkCommand::ConnectToCode { code } => {
                &&& final(crypto)@ == old(crypto)@
                &&& reaction matches CommandReaction::Signal(SignalRequest::Connect { target_code })
                    && target_code@ == code@
            },
            NetworkCommand::SendMessage { text } => if !linked {
                final(crypto)@ == old(crypto)@ && reaction is Nothing
            } else if old(crypto)@.encrypt_overflows(text@) {
                final(crypto)@ == old(crypto)@ && reaction is CounterExhausted
            } else {
                &&& exists|nonce: Seq<u8>|
                    #![trigger old(crypto)@.encrypt(text@, nonce)]
                    nonce.len() == 12 && final(crypto)@ == old(crypto)@.encrypt(text@, nonce).0 && match old(
                        crypto,
                    )@.encrypt(text@, nonce).1 {
                        Ok((n, c, seq)) => reaction matches CommandReaction::SendPeer(
                            P2PMessage::Text { nonce: n2, ciphertext: c2, seq: s2, .. },
                        ) && n2@ == n && c2@ == c && s2 == seq,
                        Err(e) => reaction == CommandReaction::EncryptFailed(e),
                    }
                &&& reaction matches CommandReaction::SendPeer(m) ==> sealed_for(m, old(crypto)@.aes_key->0, text@)
            },
            NetworkCommand::SendTyping { is_typing } => final(crypto)@ == old(crypto)@ && if linked {
                reaction matches CommandReaction::SendPeer(P2PMessage::Typing { is_typing: t }) && t == is_typing
            } else {
                reaction is Nothing
            },
            NetworkCommand::Disconnect => final(crypto)@ == old(crypto)@.reset() && reaction is DropLink,
        },
{
    match cmd {
        NetworkCommand::ConnectToCode { code } => CommandReaction::Signal(SignalRequest::Connect { target_code: code }),
        NetworkCommand::SendMessage { text } => {
            if !linked {
                return CommandReaction::Nothing;
            }
            let byte_len: usize = text.as_str().as_bytes().len();
            if crypto.is_session_ready() && (byte_len as u64) <= 0x10_0000_0000u64 && crypto.sent_count()
                == u64::MAX {
                return CommandReaction::CounterExhausted;
            }
            match crypto.encrypt_message(text.as_str()) {
                Ok(m) => CommandReaction::SendPeer(m),
                Err(e) => CommandReaction::EncryptFailed(e),
            }
        },
        NetworkCommand::SendTyping { is_typing } => {
            if linked {
                CommandReaction::SendPeer(P2PMessage::Typing { is_typing })
            } else {
                CommandReaction::Nothing
            }
        },
        NetworkCommand::Disconnect => {
            crypto.reset_session();
            CommandReaction::DropLink
        },
    }
}

/// How the client answers a message from the peer.
#[derive(Debug, Clone)]
pub enum PeerReaction {
    /// Report this event to the screen.
    Emit(NetworkEvent),
    /// Write this message back on the peer link.
    Reply(P2PMessage),
    /// Decryption failed; the error is only logged.
    DecryptFailed(CryptoError),
    /// The message's nonce decodes to a length other than 12 bytes, which the
    /// cipher refuses by panicking.
    MalformedNonce,
    Ignore,
}

/// The reaction to a message read from the peer link, at time `now`.
pub fn on_peer_message(crypto: &mut CryptoEngine, msg: P2PMessage, now: i64) -> (reaction: PeerReaction)
    ensures
        match msg {
            P2PMessage::Text { seq, .. } => if old(crypto)@.decrypt_panics(msg) {
                final(crypto)@ == old(crypto)@ && reaction is MalformedNonce
            } else {
                final(crypto)@ == old(crypto)@.decrypt(msg).0 && match old(crypto)@.decrypt(msg).1 {
                    Ok(text) => reaction matches PeerReaction::Emit(
                        NetworkEvent::MessageReceived { text: t, seq: s, sender, timestamp },
                    ) && t@ == text && s == seq && sender@ == "peer"@ && timestamp == now,
                    Err(e) => reaction == PeerReaction::DecryptFailed(e),
                }
            },
            P2PMessage::Typing { is_typing } => {
                &&& final(crypto)@ == old(crypto)@
                &&& reaction matches PeerReaction::Emit(NetworkEvent::PeerTyping { is_typing: t }) && t == is_typing
            },
            P2PMessage::Ping { .. } => {
                &&& final(crypto)@ == old(crypto)@
                &&& reaction matches PeerReaction::Reply(P2PMessage::Pong { timestamp }) && timestamp == now
            },
            _ => final(crypto)@ == old(crypto)@ && reaction is Ignore,
        },
{
    match msg {
        P2PMessage::Text { nonce, ciphertext, seq, timestamp } => {
            let text_msg = P2PMessage::Text { nonce, ciphertext, seq, timestamp };
            match crypto.decrypt_message_checked(&text_msg) {
                None => PeerReaction::MalformedNonce,
                Some(Ok(text)) => PeerReaction::Emit(
                    NetworkEvent::MessageReceived { text, seq, sender: "peer".to_owned(), timestamp: now },
                ),
                Some(Err(e)) => PeerReaction::DecryptFailed(e),
            }
        },
        P2PMessage::Typing { is_typing } => PeerReaction::Emit(NetworkEvent::PeerTyping { is_typing }),
        P2PMessage::Ping { .. } => PeerReaction::Reply(P2PMessage::Pong { timestamp: now }),
        _ => PeerReaction::Ignore,
    }
}

/// A peer dialled in; `linked` tells whether a peer link is already open.
/// A second link is refused (`None`); otherwise this side answers the
/// handshake as responder.
pub fn on_incoming_link(linked: bool) -> (handshake: Option<Handshake>)
    ensures
        linked ==> handshake is None,
        !linked ==> (handshake matches Some(h) && h.role == HandshakeRole::Responder
            && h.stage == HandshakeStage::NotStarted),
{
    if linked {
        None
    } else {
        Some(Handshake::new(HandshakeRole::Responder))
    }
}

/// The peer link was lost: the session is reset and the screen told.
pub fn on_peer_link_lost(crypto: &mut CryptoEngine) -> (event: NetworkEvent)
    ensures
        final(crypto)@ == old(crypto)@.reset(),
        event is Disconnected,
{
    crypto.reset_session();
    NetworkEvent::Disconnected
}

/// The name of the peer after a handshake this side answered: the peer id it
/// announced, or `peer`.
pub fn answered_peer_name(crypto: &CryptoEngine) -> (name: String)
    ensures
        name@ == match crypto@.peer_id {
            Some(id) => id,
            None => "peer"@,
        },
{
    match crypto.peer_id() {
        Some(id) => id.to_owned(),
        None => "peer".to_owned(),
    }
}

/// The events that report an established session: the fingerprint (when
/// there is one) and then the connection.
pub fn session_established_events(crypto: &CryptoEngine, peer_id: String) -> (events: Vec<NetworkEvent>)
    ensures
        match crypto@.fingerprint {
            Some(fp) => {
                &&& events@.len() == 2
                &&& events@[0] matches NetworkEvent::PeerFingerprint { fingerprint } && fingerprint@ == fp
            },
            None => events@.len() == 1,
        },
        events@.last() matches NetworkEvent::Connected { peer_id: id, is_direct } && id@ == peer_id@ && is_direct,
{
    let mut events: Vec<NetworkEvent> = Vec::new();
    if let Some(fp) = crypto.fingerprint() {
        events.push(NetworkEvent::PeerFingerprint { fingerprint: fp.to_owned() });
    }
    events.push(NetworkEvent::Connected { peer_id, is_direct: true });
    events
}

/// The code to connect to on its own, when running without a terminal:
/// the given code in upper case, or none when it is empty.
pub fn auto_connect_target(connect: &str) -> (target: Option<String>)
    ensures
        if connect@.len() == 0 {
            target is None
        } else {
            target matches Some(t) && t@ == uppercase_text(connect@)
        },
{
    if connect.unicode_len() == 0 {
        None
    } else {
        Some(to_upper_text(connect))
    }
}

/// Without a terminal, registering triggers the connection to the chosen code.
pub fn headless_command(target: &Option<String>, event: &NetworkEvent) -> (cmd: Option<NetworkCommand>)
    ensures
        match (event, target) {
            (NetworkEvent::Registered { .. }, Some(t)) => cmd matches Some(NetworkCommand::ConnectToCode { code })
                && code@ == t@,
            _ => cmd is None,
        },
{
    match (event, target) {
        (NetworkEvent::Registered { .. }, Some(t)) => Some(NetworkCommand::ConnectToCode { code: t.clone() }),
        _ => None,
    }
}

} // verus!
