//! Peer-to-peer end-to-end encrypted chat: session cryptography, wire framing,
//! handshake, signaling decisions and the chat screen's state.
pub mod text;
pub mod encoding;
pub mod primitives;
pub mod types;
pub mod crypto;
pub mod identity;
pub mod framing;
pub mod handshake;
pub mod client;
pub mod signaling;
pub mod ui;
