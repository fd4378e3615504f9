//! The signaling server's decisions: connection codes, the registry of peers
//! (one entry per code), registration, and the answers to `connect`,
//! `relay` and `update_port` requests. The server only introduces peers; no
//! chat message passes through it.
use vstd::prelude::*;
use crate::client::SignalMessage;
use crate::primitives::{new_uuid, random_below};
use crate::text::{push_char, string_is, text_equals};

verus! {

/// A registered peer.
#[derive(Debug, Clone)]
pub struct PeerRecord {
    pub peer_id: String,
    pub code: String,
    pub port: u16,
    pub public_ip: String,
}

/// What the registry knows of a peer, apart from its code.
pub ghost struct PeerInfo {
    pub peer_id: Seq<char>,
    pub port: u16,
    pub public_ip: Seq<char>,
}

pub open spec fn info_of(r: PeerRecord) -> PeerInfo {
    PeerInfo { peer_id: r.peer_id@, port: r.port, public_ip: r.public_ip@ }
}

/// The registry as a map from connection code to peer.
pub open spec fn code_map(s: Seq<PeerRecord>) -> Map<Seq<char>, PeerInfo>
    decreases s.len(),
{
    if s.len() == 0 {
        Map::empty()
    } else {
        code_map(s.drop_last()).insert(s.last().code@, info_of(s.last()))
    }
}

pub open spec fn unique_codes(s: Seq<PeerRecord>) -> bool {
    forall|i: int, j: int| 0 <= i < s.len() && 0 <= j < s.len() && i != j ==> s[i].code@ != s[j].code@
}

proof fn lemma_code_map_dom(s: Seq<PeerRecord>, c: Seq<char>)
    ensures
        code_map(s).dom().contains(c) <==> exists|i: int| 0 <= i < s.len() && #[trigger] s[i].code@ == c,
    decreases s.len(),
{
    if s.len() > 0 {
        lemma_code_map_dom(s.drop_last(), c);
        if code_map(s).dom().contains(c) && c != s.last().code@ {
            let i = choose|i: int| 0 <= i < s.drop_last().len() && #[trigger] s.drop_last()[i].code@ == c;
            assert(s[i].code@ == c);
        }
        if exists|i: int| 0 <= i < s.len() && #[trigger] s[i].code@ == c {
            let i = choose|i: int| 0 <= i < s.len() && #[trigger] s[i].code@ == c;
            if i < s.len() - 1 {
                assert(s.drop_last()[i].code@ == c);
            }
        }
    }
}

proof fn lemma_code_map_value(s: Seq<PeerRecord>, i: int)
    requires
        unique_codes(s),
        0 <= i < s.len(),
    ensures
        code_map(s).dom().contains(s[i].code@),
        code_map(s)[s[i].code@] == info_of(s[i]),
    decreases s.len(),
{
    if i < s.len() - 1 {
        let t = s.drop_last();
        assert(t[i] == s[i]);
        assert(unique_codes(t));
        lemma_code_map_value(t, i);
    }
}

/// Every code in the registry maps to the peer at its position.
proof fn lemma_code_map_exact(s: Seq<PeerRecord>, m: Map<Seq<char>, PeerInfo>)
    requires
        unique_codes(s),
        forall|c: Seq<char>| m.dom().contains(c) <==> exists|i: int| 0 <= i < s.len() && #[trigger] s[i].code@ == c,
        forall|i: int| 0 <= i < s.len() ==> #[trigger] m[s[i].code@] == info_of(s[i]),
    ensures
        code_map(s) == m,
{
    assert forall|c: Seq<char>| code_map(s).dom().contains(c) <==> m.dom().contains(c) by {
        lemma_code_map_dom(s, c);
    }
    assert forall|c: Seq<char>| #[trigger] code_map(s).dom().contains(c) implies code_map(s)[c] == m[c] by {
        lemma_code_map_dom(s, c);
        let i = choose|i: int| 0 <= i < s.len() && #[trigger] s[i].code@ == c;
        lemma_code_map_value(s, i);
    }
    assert(code_map(s) =~= m);
}

/// The registry of peers, one per connection code.
pub struct PeerRegistry {
    peers: Vec<PeerRecord>,
}

impl View for PeerRegistry {
    type V = Map<Seq<char>, PeerInfo>;

    closed spec fn view(&self) -> Map<Seq<char>, PeerInfo> {
        code_map(self.peers@)
    }
}

impl PeerRegistry {
    #[verifier::type_invariant]
    closed spec fn codes_unique(&self) -> bool {
        unique_codes(self.peers@)
    }

    /// An empty registry.
    pub fn new() -> (registry: Self)
        ensures
            registry@ == Map::<Seq<char>, PeerInfo>::empty(),
    {
        PeerRegistry { peers: Vec::new() }
    }

    fn position(&self, code: &str) -> (pos: Option<usize>)
        ensures
            match pos {
                Some(i) => i < self.peers@.len() && self.peers@[i as int].code@ == code@,
                None => forall|i: int| 0 <= i < self.peers@.len() ==> #[trigger] self.peers@[i].code@ != code@,
            },
    {
        let mut i: usize = 0;
        while i < self.peers.len()
            invariant
                i <= self.peers@.len(),
                forall|k: int| 0 <= k < i ==> #[trigger] self.peers@[k].code@ != code@,
            decreases self.peers@.len() - i,
        {
            if text_equals(self.peers[i].code.as_str(), code) {
                return Some(i);
            }
            i = i + 1;
        }
        None
    }

    /// The peer registered under `code`.
    pub fn get(&self, code: &str) -> (record: Option<&PeerRecord>)
        ensures
            match record {
                Some(r) => self@.dom().contains(code@) && r.code@ == code@ && info_of(*r) == self@[code@],
                None => !self@.dom().contains(code@),
            },
    {
        proof {
            use_type_invariant(self);
        }
        match self.position(code) {
            Some(i) => {
                proof {
                    lemma_code_map_value(self.peers@, i as int);
                }
                Some(&self.peers[i])
            },
            None => {
                proof {
                    lemma_code_map_dom(self.peers@, code@);
                }
                None
            },
        }
    }

    /// Registers a peer under its code, replacing any peer that had that code.
    pub fn insert(&mut self, record: PeerRecord)
        ensures
            final(self)@ == old(self)@.insert(record.code@, info_of(record)),
    {
        proof {
            use_type_invariant(&*self);
        }
        let ghost old_peers = self.peers@;
        let ghost code = record.code@;
        let ghost info = info_of(record);
        match self.position(record.code.as_str()) {
            Some(i) => {
                let mut peers: Vec<PeerRecord> = Vec::new();
                std::mem::swap(&mut peers, &mut self.peers);
                peers.set(i, record);
                self.peers = peers;
                proof {
                    let s = self.peers@;
                    assert(s == old_peers.update(i as int, record));
                    assert forall|c: Seq<char>| old_peers.len() == s.len()
                        && (code_map(old_peers).insert(code, info).dom().contains(c)
                        <==> exists|k: int| 0 <= k < s.len() && #[trigger] s[k].code@ == c) by {
                        lemma_code_map_dom(old_peers, c);
                        if exists|k: int| 0 <= k < old_peers.len() && #[trigger] old_peers[k].code@ == c {
                            let k = choose|k: int| 0 <= k < old_peers.len() && #[trigger] old_peers[k].code@ == c;
                            if k != i {
                                assert(s[k].code@ == c);
                            }
                        }
                        if exists|k: int| 0 <= k < s.len() && #[trigger] s[k].code@ == c {
                            let k = choose|k: int| 0 <= k < s.len() && #[trigger] s[k].code@ == c;
                            if k != i {
                                assert(old_peers[k].code@ == c);
                            }
                        }
                    }
                    assert forall|k: int| 0 <= k < s.len() implies #[trigger] code_map(old_peers).insert(code, info)[s[k].code@]
                        == info_of(s[k]) by {
                        if k != i {
                            lemma_code_map_value(old_peers, k);
                        }
                    }
                    lemma_code_map_exact(s, code_map(old_peers).insert(code, info));
                }
            },
            None => {
                let mut peers: Vec<PeerRecord> = Vec::new();
                std::mem::swap(&mut peers, &mut self.peers);
                peers.push(record);
                self.peers = peers;
                proof {
                    let s = self.peers@;
                    assert(s.drop_last() == old_peers);
                }
            },
        }
    }

    /// Removes the peer registered under `code`, if any.
    pub fn remove(&mut self, code: &str)
        ensures
            final(self)@ == old(self)@.remove(code@),
    {
        proof {
            use_type_invariant(&*self);
        }
        let ghost old_peers = self.peers@;
        match self.position(code) {
            Some(i) => {
                let mut peers: Vec<PeerRecord> = Vec::new();
                std::mem::swap(&mut peers, &mut self.peers);
                peers.remove(i);
                self.peers = peers;
                proof {
                    let s = self.peers@;
                    let m = code_map(old_peers).remove(code@);
                    assert(s == old_peers.remove(i as int));
                    assert forall|c: Seq<char>| m.dom().contains(c) <==> exists|k: int|
                        0 <= k < s.len() && #[trigger] s[k].code@ == c by {
                        lemma_code_map_dom(old_peers, c);
                        if m.dom().contains(c) {
                            let k = choose|k: int| 0 <= k < old_peers.len() && #[trigger] old_peers[k].code@ == c;
                            if k < i {
                                assert(s[k].code@ == c);
                            } else {
                                assert(s[k - 1].code@ == c);
                            }
                        }
                        if exists|k: int| 0 <= k < s.len() && #[trigger] s[k].code@ == c {
                            let k = choose|k: int| 0 <= k < s.len() && #[trigger] s[k].code@ == c;
                            if k < i {
                                assert(old_peers[k].code@ == c);
                            } else {
                                assert(old_peers[k + 1].code@ == c);
                            }
                        }
                    }
                    assert forall|k: int| 0 <= k < s.len() implies #[trigger] m[s[k].code@] == info_of(s[k]) by {
                        if k < i {
                            lemma_code_map_value(old_peers, k);
                        } else {
                            lemma_code_map_value(old_peers, k + 1);
                        }
                    }
                    lemma_code_map_exact(s, m);
                }
            },
            None => {
                proof {
                    lemma_code_map_dom(old_peers, code@);
                    assert(code_map(old_peers).remove(code@) =~= code_map(old_peers));
                }
            },
        }
    }

    /// Sets the port of the peer registered under `code`, if any.
    pub fn update_port(&mut self, code: &str, port: u16)
        ensures
            if old(self)@.dom().contains(code@) {
                final(self)@ == old(self)@.insert(code@, PeerInfo { port, ..old(self)@[code@] })
            } else {
                final(self)@ == old(self)@
            },
    {
        proof {
            use_type_invariant(&*self);
        }
        match self.position(code) {
            Some(i) => {
                let old_record = &self.peers[i];
                proof {
                    lemma_code_map_value(self.peers@, i as int);
                }
                let record = PeerRecord {
                    peer_id: old_record.peer_id.clone(),
                    code: old_record.code.clone(),
                    port,
                    public_ip: old_record.public_ip.clone(),
                };
                self.insert(record);
            },
            None => {
                proof {
                    lemma_code_map_dom(self.peers@, code@);
                }
            },
        }
    }

    /// The code of a peer whose peer id or code is `target`.
    pub fn find_by_id_or_code(&self, target: &str) -> (code: Option<String>)
        ensures
            match code {
                Some(c) => self@.dom().contains(c@) && (self@[c@].peer_id == target@ || c@ == target@),
                None => forall|c: Seq<char>|
                    #[trigger] self@.dom().contains(c) ==> self@[c].peer_id != target@ && c != target@,
            },
    {
        proof {
            use_type_invariant(self);
        }
        let mut i: usize = 0;
        while i < self.peers.len()
            invariant
                unique_codes(self.peers@),
                i <= self.peers@.len(),
                forall|k: int|
                    0 <= k < i ==> (#[trigger] self.peers@[k]).peer_id@ != target@ && self.peers@[k].code@ != target@,
            decreases self.peers@.len() - i,
        {
            let r = &self.peers[i];
            if text_equals(r.peer_id.as_str(), target) || text_equals(r.code.as_str(), target) {
                proof {
                    lemma_code_map_value(self.peers@, i as int);
                }
                return Some(r.code.clone());
            }
            assert(self.peers@[i as int].peer_id@ != target@ && self.peers@[i as int].code@ != target@);
            i = i + 1;
        }
        proof {
            assert forall|c: Seq<char>| #[trigger] code_map(self.peers@).dom().contains(c) implies code_map(
                self.peers@,
            )[c].peer_id != target@ && c != target@ by {
                lemma_code_map_dom(self.peers@, c);
                let k = choose|k: int| 0 <= k < self.peers@.len() && #[trigger] self.peers@[k].code@ == c;
                lemma_code_map_value(self.peers@, k);
            }
        }
        None
    }
}

/// The symbol of a code digit: `0`-`9`, then `A`-`Z`.
pub open spec fn code_symbol(d: u8) -> char {
    if d < 10 {
        (48 + d) as char
    } else {
        (65 + d - 10) as char
    }
}

/// A connection code: four symbols, a hyphen, four symbols.
pub open spec fn code_text(digits: Seq<u8>) -> Seq<char> {
    Seq::new(4, |i: int| code_symbol(digits[i])) + seq!['-'] + Seq::new(4, |i: int| code_symbol(digits[4 + i]))
}

/// Characters a connection code is made of.
pub open spec fn is_code_symbol(c: char) -> bool {
    ('0' <= c && c <= '9') || ('A' <= c && c <= 'Z')
}

/// The shape of every connection code: `XXXX-XXXX` with `X` a digit or an upper-case letter.
pub open spec fn is_connection_code(code: Seq<char>) -> bool {
    &&& code.len() == 9
    &&& code[4] == '-'
    &&& forall|i: int| 0 <= i < 9 && i != 4 ==> is_code_symbol(#[trigger] code[i])
}

fn symbol_of(d: u8) -> (c: char)
    requires
        d < 36,
    ensures
        c == code_symbol(d),
{
    if d < 10 {
        (48u8 + d) as char
    } else {
        (65u8 + d - 10) as char
    }
}

/// The connection code spelled by eight digits below 36.
pub fn code_from_digits(digits: &[u8]) -> (code: String)
    requires
        digits@.len() == 8,
        forall|i: int| 0 <= i < 8 ==> #[trigger] digits@[i] < 36,
    ensures
        code@ == code_text(digits@),
{
    let mut code = String::new();
    push_char(&mut code, symbol_of(digits[0]));
    push_char(&mut code, symbol_of(digits[1]));
    push_char(&mut code, symbol_of(digits[2]));
    push_char(&mut code, symbol_of(digits[3]));
    push_char(&mut code, '-');
    push_char(&mut code, symbol_of(digits[4]));
    push_char(&mut code, symbol_of(digits[5]));
    push_char(&mut code, symbol_of(digits[6]));
    push_char(&mut code, symbol_of(digits[7]));
    assert(code@ =~= code_text(digits@));
    code
}

/// Every code spelled by digits below 36 has the shape of a connection code.
pub proof fn lemma_code_shape(digits: Seq<u8>)
    requires
        digits.len() == 8,
        forall|i: int| 0 <= i < 8 ==> #[trigger] digits[i] < 36,
    ensures
        is_connection_code(code_text(digits)),
{
    let code = code_text(digits);
    assert forall|i: int| 0 <= i < 9 && i != 4 implies is_code_symbol(#[trigger] code[i]) by {
        let d = if i < 4 { digits[i] } else { digits[i - 1] };
        assert(code[i] == code_symbol(d));
        assert(d < 36);
    }
}

/// Different draws spell different codes: eight digits below 36 are read
/// back from their code, so each draw names its own code.
pub proof fn lemma_code_text_injective(a: Seq<u8>, b: Seq<u8>)
    requires
        a.len() == 8,
        b.len() == 8,
        forall|i: int| 0 <= i < 8 ==> #[trigger] a[i] < 36,
        forall|i: int| 0 <= i < 8 ==> #[trigger] b[i] < 36,
        code_text(a) == code_text(b),
    ensures
        a == b,
{
    assert forall|i: int| 0 <= i < 8 implies a[i] == b[i] by {
        let k = if i < 4 { i } else { i + 1 };
        assert(code_text(a)[k] == code_text(b)[k]);
        assert(code_text(a)[k] == code_symbol(a[i]));
        assert(code_text(b)[k] == code_symbol(b[i]));
        assert(a[i] < 36 && b[i] < 36);
    }
    assert(a =~= b);
}

/// Every connection code can be drawn: it is spelled by eight digits below 36.
pub proof fn lemma_every_code_drawable(code: Seq<char>)
    requires
        is_connection_code(code),
    ensures
        exists|digits: Seq<u8>|
            digits.len() == 8 && (forall|i: int| 0 <= i < 8 ==> #[trigger] digits[i] < 36) && code_text(digits)
                == code,
{
    let digits = Seq::new(8, |i: int| {
        let c = if i < 4 { code[i] } else { code[i + 1] };
        if c <= '9' { (c as int - 48) as u8 } else { (c as int - 55) as u8 }
    });
    assert forall|i: int| 0 <= i < 8 implies #[trigger] digits[i] < 36 by {
        let k = if i < 4 { i } else { i + 1 };
        assert(is_code_symbol(code[k]));
    }
    assert forall|k: int| 0 <= k < 9 implies code_text(digits)[k] == code[k] by {
        if k != 4 {
            assert(is_code_symbol(code[k]));
        }
    }
    assert(code_text(digits) =~= code);
}

/// A fresh random connection code.
pub fn generate_code() -> (code: String)
    ensures
        exists|digits: Seq<u8>|
            digits.len() == 8 && (forall|i: int| 0 <= i < 8 ==> #[trigger] digits[i] < 36) && code@ == code_text(
                digits,
            ),
        is_connection_code(code@),
{
    let mut digits: Vec<u8> = Vec::new();
    let mut i: usize = 0;
    while i < 8
        invariant
            i <= 8,
            digits@.len() == i,
            forall|k: int| 0 <= k < i ==> #[trigger] digits@[k] < 36,
        decreases 8 - i,
    {
        let d: u8 = random_below(36);
        digits.push(d);
        i = i + 1;
    }
    let code = code_from_digits(digits.as_slice());
    proof {
        lemma_code_shape(digits@);
    }
    code
}

/// What the server sends to a peer.
#[derive(Debug, Clone)]
pub enum ServerReply {
    Registered { peer_id: String, code: String, public_ip: String },
    ConnectionRequest { from_peer: String, from_code: String, from_ip: String, from_port: u16 },
    ConnectionInfo { peer_id: String, public_ip: String, port: u16, code: String },
    Error { message: String },
    Relay { from_peer: String, data: Option<String> },
}

/// Where a reply goes.
#[derive(Debug, Clone)]
pub enum Delivery {
    /// To the peer whose request is being handled.
    ToSender(ServerReply),
    /// To the peer registered under `code`.
    ToPeer { code: String, reply: ServerReply },
}

pub open spec fn opt_text_or(o: Option<String>, default: Seq<char>) -> Seq<char> {
    match o {
        Some(s) => s@,
        None => default,
    }
}

impl PeerRegistry {
    /// Handles the first message of a connection: a `register` request is
    /// entered under `code` with the given peer id, its port (0 if absent) and
    /// its public address (the connection's address if absent), and answered
    /// with the registration. Anything else is refused with `None`.
    pub fn register_with(&mut self, first: &SignalMessage, addr_ip: &str, peer_id: String, code: String) -> (reply: Option<ServerReply>)
        ensures
            if first.msg_type@ == "register"@ {
                let ip = opt_text_or(first.public_ip, addr_ip@);
                let port = match first.port { Some(p) => p, None => 0u16 };
                &&& final(self)@ == old(self)@.insert(code@, PeerInfo { peer_id: peer_id@, port, public_ip: ip })
                &&& reply matches Some(ServerReply::Registered { peer_id: id, code: c, public_ip: a })
                    && id@ == peer_id@ && c@ == code@ && a@ == ip
            } else {
                final(self)@ == old(self)@ && reply is None
            },
    {
        if !string_is(&first.msg_type, "register") {
            return None;
        }
        let port: u16 = match first.port {
            Some(p) => p,
            None => 0,
        };
        let public_ip = match &first.public_ip {
            Some(ip) => ip.clone(),
            None => addr_ip.to_owned(),
        };
        let reply = ServerReply::Registered { peer_id: peer_id.clone(), code: code.clone(), public_ip: public_ip.clone() };
        self.insert(PeerRecord { peer_id, code, port, public_ip });
        Some(reply)
    }

    /// Registers a new connection under a fresh peer id and a fresh code.
    pub fn register(&mut self, first: &SignalMessage, addr_ip: &str) -> (reply: Option<ServerReply>)
        ensures
            if first.msg_type@ == "register"@ {
                reply matches Some(ServerReply::Registered { peer_id, code, public_ip }) && {
                    &&& is_connection_code(code@)
                    &&& peer_id@.len() == 36
                    &&& public_ip@ == opt_text_or(first.public_ip, addr_ip@)
                    &&& final(self)@ == old(self)@.insert(code@, PeerInfo {
                        peer_id: peer_id@,
                        port: match first.port { Some(p) => p, None => 0u16 },
                        public_ip: public_ip@,
                    })
                }
            } else {
                final(self)@ == old(self)@ && reply is None
            },
    {
        if !string_is(&first.msg_type, "register") {
            return None;
        }
        let peer_id = new_uuid();
        let code = generate_code();
        self.register_with(first, addr_ip, peer_id, code)
    }

    /// Handles a request from the peer registered as `my_code` / `my_peer_id`.
    /// Returns the replies to deliver, in order, and whether the request type
    /// was known.
    pub fn process_message(&mut self, msg: &SignalMessage, my_code: &str, my_peer_id: &str) -> (outcome: (Vec<Delivery>, bool))
        ensures
            if msg.msg_type@ == "connect"@ {
                &&& final(self)@ == old(self)@
                &&& outcome.1
                &&& match msg.target_code {
                    None => {
                        &&& outcome.0@.len() == 1
                        &&& outcome.0@[0] matches Delivery::ToSender(ServerReply::Error { message })
                            && message@ == "Missing target_code"@
                    },
                    Some(tc) => if old(self)@.dom().contains(tc@) {
                        let target = old(self)@[tc@];
                        let me = old(self)@.dom().contains(my_code@);
                        &&& outcome.0@.len() == 2
                        &&& outcome.0@[0] matches Delivery::ToPeer {
                            code,
                            reply: ServerReply::ConnectionRequest { from_peer, from_code, from_ip, from_port },
                        } && code@ == tc@ && from_peer@ == my_peer_id@ && from_code@ == my_code@
                            && from_ip@ == (if me { old(self)@[my_code@].public_ip } else { Seq::empty() })
                            && from_port == (if me { old(self)@[my_code@].port } else { 0u16 })
                        &&& outcome.0@[1] matches Delivery::ToSender(ServerReply::ConnectionInfo { peer_id, public_ip, port, code })
                            && peer_id@ == target.peer_id && public_ip@ == target.public_ip && port == target.port
                            && code@ == tc@
                    } else {
                        &&& outcome.0@.len() == 1
                        &&& outcome.0@[0] matches Delivery::ToSender(ServerReply::Error { message })
                            && message@ == "Code '"@ + tc@ + "' not found"@
                    },
                }
            } else if msg.msg_type@ == "relay"@ {
                &&& final(self)@ == old(self)@
                &&& outcome.1
                &&& match msg.to_peer {
                    Some(t) => if exists|c: Seq<char>| #[trigger] old(self)@.dom().contains(c)
                        && (old(self)@[c].peer_id == t@ || c == t@) {
                        &&& outcome.0@.len() == 1
                        &&& outcome.0@[0] matches Delivery::ToPeer { code, reply: ServerReply::Relay { from_peer, data } }
                            && old(self)@.dom().contains(code@) && (old(self)@[code@].peer_id == t@ || code@ == t@)
                            && from_peer@ == my_peer_id@ && data == msg.data
                    } else {
                        outcome.0@.len() == 0
                    },
                    None => outcome.0@.len() == 0,
                }
            } else if msg.msg_type@ == "update_port"@ {
                &&& outcome.1
                &&& outcome.0@.len() == 0
                &&& match msg.port {
                    Some(p) => if old(self)@.dom().contains(my_code@) {
                        final(self)@ == old(self)@.insert(my_code@, PeerInfo { port: p, ..old(self)@[my_code@] })
                    } else {
                        final(self)@ == old(self)@
                    },
                    None => final(self)@ == old(self)@,
                }
            } else {
                final(self)@ == old(self)@ && !outcome.1 && outcome.0@.len() == 0
            },
    {
        let mut out: Vec<Delivery> = Vec::new();
        if string_is(&msg.msg_type, "connect") {
            match &msg.target_code {
                None => {
                    out.push(Delivery::ToSender(ServerReply::Error { message: "Missing target_code".to_owned() }));
                },
                Some(tc) => {
                    match self.get(tc.as_str()) {
                        Some(target) => {
                            let (my_ip, my_port) = match self.get(my_code) {
                                Some(me) => (me.public_ip.clone(), me.port),
                                None => (String::new(), 0u16),
                            };
                            out.push(Delivery::ToPeer {
                                code: tc.clone(),
                                reply: ServerReply::ConnectionRequest {
                                    from_peer: my_peer_id.to_owned(),
                                    from_code: my_code.to_owned(),
                                    from_ip: my_ip,
                                    from_port: my_port,
                                },
                            });
                            out.push(Delivery::ToSender(ServerReply::ConnectionInfo {
                                peer_id: target.peer_id.clone(),
                                public_ip: target.public_ip.clone(),
                                port: target.port,
                                code: target.code.clone(),
                            }));
                        },
                        None => {
                            let mut message = "Code '".to_owned();
                            message.append(tc.as_str());
                            message.append("' not found");
                            out.push(Delivery::ToSender(ServerReply::Error { message }));
                        },
                    }
                },
            }
            (out, true)
        } else if string_is(&msg.msg_type, "relay") {
            if let Some(t) = &msg.to_peer {
                if let Some(code) = self.find_by_id_or_code(t.as_str()) {
                    out.push(Delivery::ToPeer {
                        code,
                        reply: ServerReply::Relay { from_peer: my_peer_id.to_owned(), data: msg.data.clone() },
                    });
                }
            }
            (out, true)
        } else if string_is(&msg.msg_type, "update_port") {
            if let Some(p) = msg.port {
                self.update_port(my_code, p);
            }
            (out, true)
        } else {
            (out, false)
        }
    }
}

} // verus!
