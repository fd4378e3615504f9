//! Values exchanged between the chat's parts: the messages peers send each
//! other, the state of the connection, and the events and commands that pass
//! between the network task and the screen. Times are whole seconds since the
//! Unix epoch.
use vstd::prelude::*;

verus! {

/// A message kept in the chat history.
#[derive(Debug, Clone)]
pub struct ChatMessage {
    pub id: String,
    pub content: String,
    pub sender: String,
    pub timestamp: i64,
    pub is_encrypted: bool,
    pub is_mine: bool,
}

/// A message sent directly between two peers (one frame on the peer link).
#[derive(Debug, Clone)]
pub enum P2PMessage {
    KeyExchange { public_key: String, peer_id: String, signature: String },
    KeyExchangeAck { public_key: String, peer_id: String, signature: String },
    SessionConfirm { fingerprint: String, peer_id: String },
    Text { nonce: String, ciphertext: String, seq: u64, timestamp: i64 },
    Typing { is_typing: bool },
    Ping { timestamp: i64 },
    Pong { timestamp: i64 },
}

/// The state of the link to the peer, as the screen shows it.
#[derive(Debug, Clone, Copy, PartialEq, Eq, Structural)]
pub enum ConnectionState {
    Disconnected,
    Connecting,
    Connected { is_direct: bool },
}

/// What the network task reports to the screen.
#[allow(inconsistent_fields)]
#[derive(Debug, Clone)]
pub enum NetworkEvent {
    Registered { code: String, peer_id: String },
    ConnectionRequest { from_peer: String, from_ip: String, from_port: u16, from_code: String },
    ConnectionInfo { peer_id: String, public_ip: String, port: u16, code: String },
    P2PMessageReceived { message: P2PMessage },
    Connected { peer_id: String, is_direct: bool },
    Disconnected,
    Error { message: String },
    MessageReceived { text: String, seq: u64, sender: String, timestamp: i64 },
    PeerTyping { is_typing: bool },
    PeerFingerprint { fingerprint: String },
}

/// What the screen asks of the network task.
#[derive(Debug, Clone)]
pub enum NetworkCommand {
    ConnectToCode { code: String },
    SendMessage { text: String },
    SendTyping { is_typing: bool },
    Disconnect,
}

} // verus!
