//! The session handshake on a fresh peer link, as a state machine: the caller
//! performs each I/O action and reports the event back.
//!
//! Initiator: send KeyExchange, read KeyExchangeAck, derive the key, send its
//! SessionConfirm (if it has a fingerprint), read the peer's SessionConfirm.
//! Responder: read KeyExchange, send KeyExchangeAck (with a fresh ephemeral
//! key where it holds none), derive the key, read the peer's SessionConfirm,
//! send its own (if it has a fingerprint).
use vstd::prelude::*;
use crate::crypto::{CryptoEngine, CryptoError, SessionView, is_key_exchange_ack_of, is_key_exchange_of};
use crate::types::P2PMessage;

verus! {

/// Which end of the link this side is.
#[derive(Debug, Clone, Copy, PartialEq, Eq, Structural)]
pub enum HandshakeRole {
    Initiator,
    Responder,
}

/// Where the handshake stands.
#[derive(Debug, Clone, Copy, PartialEq, Eq, Structural)]
pub enum HandshakeStage {
    NotStarted,
    SendingKeyExchange,
    AwaitingKeyExchange,
    AwaitingAck,
    SendingAck,
    SendingConfirm,
    AwaitingConfirm,
    Finished,
    Failed,
}

/// What the caller reports.
#[derive(Debug, Clone)]
pub enum HandshakeEvent {
    Start,
    Sent,
    Received(P2PMessage),
}

/// What the caller is to do next.
#[derive(Debug, Clone)]
pub enum HandshakeAction {
    /// Write this message to the peer, then report `Sent`.
    Send(P2PMessage),
    /// Read one message from the peer, then report `Received`.
    Receive,
    /// The session is established.
    Finished,
    /// The handshake failed with this error.
    Failed(CryptoError),
    /// The event does not fit the current stage; nothing changed.
    OutOfOrder,
}

/// A handshake in progress.
pub struct Handshake {
    pub role: HandshakeRole,
    pub stage: HandshakeStage,
}

/// The fingerprint a confirmation carries, if the message is one.
pub open spec fn confirm_fingerprint(msg: P2PMessage) -> Option<Seq<char>> {
    match msg {
        P2PMessage::SessionConfirm { fingerprint, .. } => Some(fingerprint@),
        _ => None,
    }
}

/// The session after reading the peer's confirmation.
pub open spec fn after_confirm(v: SessionView, msg: P2PMessage) -> SessionView {
    match confirm_fingerprint(msg) {
        Some(fp) => SessionView { peer_fingerprint: Some(fp), ..v },
        None => v,
    }
}

/// The confirmation this side sends carries its fingerprint.
pub open spec fn is_confirm_of(msg: P2PMessage, v: SessionView) -> bool {
    v.fingerprint matches Some(fp) && msg matches P2PMessage::SessionConfirm { fingerprint, peer_id }
        && fingerprint@ == fp && peer_id@ == Seq::<char>::empty()
}

impl Handshake {
    /// A handshake for the given role, not yet started.
    pub fn new(role: HandshakeRole) -> (h: Self)
        ensures
            h.role == role,
            h.stage == HandshakeStage::NotStarted,
    {
        Handshake { role, stage: HandshakeStage::NotStarted }
    }

    /// Advances the handshake by one event.
    pub fn step(&mut self, crypto: &mut CryptoEngine, event: HandshakeEvent) -> (action: HandshakeAction)
        ensures
            final(self).role == old(self).role,
            match (old(self).role, old(self).stage, event) {
                (HandshakeRole::Initiator, HandshakeStage::NotStarted, HandshakeEvent::Start) => {
                    &&& final(self).stage == HandshakeStage::SendingKeyExchange
                    &&& final(crypto)@.ephemeral_secret matches Some(s) && final(crypto)@ == old(crypto)@.with_ephemeral(s)
                    &&& action matches HandshakeAction::Send(m) && is_key_exchange_of(m, final(crypto)@, Seq::empty())
                },
                (HandshakeRole::Responder, HandshakeStage::NotStarted, HandshakeEvent::Start) => {
                    &&& final(self).stage == HandshakeStage::AwaitingKeyExchange
                    &&& final(crypto)@ == old(crypto)@
                    &&& action is Receive
                },
                (_, HandshakeStage::SendingKeyExchange, HandshakeEvent::Sent) => {
                    &&& final(self).stage == HandshakeStage::AwaitingAck
                    &&& final(crypto)@ == old(crypto)@
                    &&& action is Receive
                },
                (_, HandshakeStage::AwaitingAck, HandshakeEvent::Received(m)) => {
                    let (v1, r1) = old(crypto)@.process_key_exchange(m);
                    let (v2, r2) = v1.derive();
                    if r1 is Err {
                        &&& final(self).stage == HandshakeStage::Failed
                        &&& final(crypto)@ == v1
                        &&& action == HandshakeAction::Failed(r1->Err_0)
                    } else if r2 is Err {
                        &&& final(self).stage == HandshakeStage::Failed
                        &&& final(crypto)@ == v2
                        &&& action == HandshakeAction::Failed(r2->Err_0)
                    } else {
                        &&& final(crypto)@ == v2
                        &&& final(self).stage == HandshakeStage::SendingConfirm
                        &&& action matches HandshakeAction::Send(c) && is_confirm_of(c, v2)
                    }
                },
                (_, HandshakeStage::AwaitingKeyExchange, HandshakeEvent::Received(m)) => {
                    let (v1, r1) = old(crypto)@.process_key_exchange(m);
                    if r1 is Err {
                        &&& final(crypto)@ == v1
                        &&& final(self).stage == HandshakeStage::Failed
                        &&& action == HandshakeAction::Failed(r1->Err_0)
                    } else {
                        &&& v1.ephemeral_secret is Some ==> final(crypto)@ == v1
                        &&& v1.ephemeral_secret is None ==> (final(crypto)@.ephemeral_secret matches Some(s)
                            && final(crypto)@ == v1.with_ephemeral(s))
                        &&& final(crypto)@.ephemeral_secret is Some
                        &&& final(self).stage == HandshakeStage::SendingAck
                        &&& action matches HandshakeAction::Send(a) && is_key_exchange_ack_of(a, final(crypto)@, Seq::empty())
                    }
                },
                (_, HandshakeStage::SendingAck, HandshakeEvent::Sent) => {
                    let (v2, r2) = old(crypto)@.derive();
                    &&& final(crypto)@ == v2
                    &&& if r2 is Err {
                        final(self).stage == HandshakeStage::Failed && action == HandshakeAction::Failed(r2->Err_0)
                    } else {
                        final(self).stage == HandshakeStage::AwaitingConfirm && action is Receive
                    }
                },
                (_, HandshakeStage::SendingConfirm, HandshakeEvent::Sent) => {
                    &&& final(crypto)@ == old(crypto)@
                    &&& if old(self).role == HandshakeRole::Initiator {
                        final(self).stage == HandshakeStage::AwaitingConfirm && action is Receive
                    } else {
                        final(self).stage == HandshakeStage::Finished && action is Finished
                    }
                },
                (_, HandshakeStage::AwaitingConfirm, HandshakeEvent::Received(m)) => {
                    let v = after_confirm(old(crypto)@, m);
                    &&& final(crypto)@ == v
                    &&& if old(self).role == HandshakeRole::Initiator || v.fingerprint is None {
                        final(self).stage == HandshakeStage::Finished && action is Finished
                    } else {
                        &&& final(self).stage == HandshakeStage::SendingConfirm
                        &&& action matches HandshakeAction::Send(c) && is_confirm_of(c, v)
                    }
                },
                _ => {
                    &&& final(self).stage == old(self).stage
                    &&& final(crypto)@ == old(crypto)@
                    &&& action is OutOfOrder
                },
            },
    {
        match (self.role, self.stage, event) {
            (HandshakeRole::Initiator, HandshakeStage::NotStarted, HandshakeEvent::Start) => {
                proof {
                    reveal_strlit("");
                }
                let kx = crypto.create_key_exchange_message("");
                self.stage = HandshakeStage::SendingKeyExchange;
                HandshakeAction::Send(kx)
            },
            (HandshakeRole::Responder, HandshakeStage::NotStarted, HandshakeEvent::Start) => {
                self.stage = HandshakeStage::AwaitingKeyExchange;
                HandshakeAction::Receive
            },
            (_, HandshakeStage::SendingKeyExchange, HandshakeEvent::Sent) => {
                self.stage = HandshakeStage::AwaitingAck;
                HandshakeAction::Receive
            },
            (_, HandshakeStage::AwaitingAck, HandshakeEvent::Received(ack)) => {
                if let Err(e) = crypto.process_key_exchange(&ack) {
                    self.stage = HandshakeStage::Failed;
                    return HandshakeAction::Failed(e);
                }
                if let Err(e) = crypto.derive_shared_key() {
                    self.stage = HandshakeStage::Failed;
                    return HandshakeAction::Failed(e);
                }
                match crypto.create_session_confirm() {
                    Some(confirm) => {
                        self.stage = HandshakeStage::SendingConfirm;
                        HandshakeAction::Send(confirm)
                    },
                    None => {
                        self.stage = HandshakeStage::AwaitingConfirm;
                        HandshakeAction::Receive
                    },
                }
            },
            (_, HandshakeStage::AwaitingKeyExchange, HandshakeEvent::Received(kx)) => {
                if let Err(e) = crypto.process_key_exchange(&kx) {
                    self.stage = HandshakeStage::Failed;
                    return HandshakeAction::Failed(e);
                }
                proof {
                    reveal_strlit("");
                }
                let ack = crypto.create_key_exchange_ack("");
                self.stage = HandshakeStage::SendingAck;
                HandshakeAction::Send(ack)
            },
            (_, HandshakeStage::SendingAck, HandshakeEvent::Sent) => {
                if let Err(e) = crypto.derive_shared_key() {
                    self.stage = HandshakeStage::Failed;
                    return HandshakeAction::Failed(e);
                }
                self.stage = HandshakeStage::AwaitingConfirm;
                HandshakeAction::Receive
            },
            (_, HandshakeStage::SendingConfirm, HandshakeEvent::Sent) => {
                match self.role {
                    HandshakeRole::Initiator => {
                        self.stage = HandshakeStage::AwaitingConfirm;
                        HandshakeAction::Receive
                    },
                    HandshakeRole::Responder => {
                        self.stage = HandshakeStage::Finished;
                        HandshakeAction::Finished
                    },
                }
            },
            (_, HandshakeStage::AwaitingConfirm, HandshakeEvent::Received(confirm)) => {
                if let P2PMessage::SessionConfirm { fingerprint, .. } = &confirm {
                    crypto.set_peer_fingerprint(fingerprint.as_str());
                }
                match self.role {
                    HandshakeRole::Initiator => {
                        self.stage = HandshakeStage::Finished;
                        HandshakeAction::Finished
                    },
                    HandshakeRole::Responder => {
                        match crypto.create_session_confirm() {
                            Some(own) => {
                                self.stage = HandshakeStage::SendingConfirm;
                                HandshakeAction::Send(own)
                            },
                            None => {
                                self.stage = HandshakeStage::Finished;
                                HandshakeAction::Finished
                            },
                        }
                    },
                }
            },
            _ => HandshakeAction::OutOfOrder,
        }
    }
}

} // verus!
