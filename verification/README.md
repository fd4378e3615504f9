# p2p_chat

A peer-to-peer chat with end-to-end encryption. Two clients find each other
through a small signaling server (WebSocket), then talk over a direct TCP link:
an ephemeral X25519 key exchange whose keys each side signs with its Ed25519
identity (a receiver that holds its peer's identity key refuses a key whose
signature does not verify under it; one that holds none checks only the
signature's length), an AES-256-GCM session key derived with HKDF-SHA256, a
SHA-256 fingerprint both sides can compare, and sequence numbers against replay.

The library in `src/` is verified with Verus; `app/` runs it.

## Layout

- `src/crypto.rs` - the session (`CryptoEngine`): key exchange, key derivation,
  encryption and decryption, with the session state as a mathematical value
  (`SessionView`) and the laws that tie the operations together.
- `src/handshake.rs` - the handshake on a fresh link as a state machine.
- `src/identity.rs` - the device's identity seed: the stored one, or a fresh one.
- `src/framing.rs` - the length-prefixed frames of the peer link.
- `src/client.rs` - the client's reactions to signaling messages, screen
  commands and peer messages.
- `src/signaling.rs` - the signaling server's registry of peers and its answers.
- `src/ui.rs` - the chat screen: key handling, network events, the texts shown.
- `src/primitives.rs`, `src/encoding.rs`, `src/text.rs` - calls into the
  cryptography, encoding and text functions the rest is built on.
- `app/` - the terminal client, the signaling server (`p2p_chat signaling-server
  --port 9090`), SQLite storage and the JSON forms of the messages.

## Running

```bash
# the signaling server
p2p_chat signaling-server --port 8080
# a client
p2p_chat --signaling-server ws://127.0.0.1:8080/
```

In the client, `:connect <CODE>` connects to the peer showing that code;
`:disconnect`, `:help` and `:fingerprint` do what they say; Ctrl+Q quits.
