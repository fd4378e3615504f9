//! Framing on the peer link: each message is a 4-byte big-endian length
//! followed by that many payload bytes.
use vstd::prelude::*;

verus! {

/// The number 2^32.
pub open spec fn two_pow_32() -> int {
    0x1_0000_0000
}

/// The 4 big-endian bytes of a number below 2^32.
pub open spec fn be32_bytes(n: int) -> Seq<u8> {
    seq![(n / 0x100_0000 % 0x100) as u8, (n / 0x1_0000 % 0x100) as u8, (n / 0x100 % 0x100) as u8, (n % 0x100) as u8]
}

/// The number that 4 big-endian bytes denote.
pub open spec fn be32_value(b: Seq<u8>) -> int {
    b[0] * 0x100_0000 + b[1] * 0x1_0000 + b[2] * 0x100 + b[3]
}

/// A frame: the payload's length, taken modulo 2^32 as the length field is
/// 32 bits wide, then the payload.
pub open spec fn frame_bytes(payload: Seq<u8>) -> Seq<u8> {
    be32_bytes(payload.len() as int % two_pow_32()) + payload
}

/// Frames a payload for the peer link.
pub fn encode_frame(payload: &[u8]) -> (frame: Vec<u8>)
    ensures
        frame@ == frame_bytes(payload@),
{
    let n: u64 = (payload.len() as u64) % 0x1_0000_0000;
    let mut frame: Vec<u8> = Vec::new();
    frame.push((n / 0x100_0000 % 0x100) as u8);
    frame.push((n / 0x1_0000 % 0x100) as u8);
    frame.push((n / 0x100 % 0x100) as u8);
    frame.push((n % 0x100) as u8);
    let mut i: usize = 0;
    while i < payload.len()
        invariant
            i <= payload@.len(),
            frame@ == be32_bytes(payload.len() as int % two_pow_32()) + payload@.take(i as int),
        decreases payload@.len() - i,
    {
        frame.push(payload[i]);
        i = i + 1;
        assert(payload@.take(i as int) == payload@.take(i - 1) .push(payload@[i - 1]));
    }
    assert(payload@.take(payload@.len() as int) == payload@);
    frame
}

/// The payload length a frame header announces.
pub fn frame_length(header: &[u8]) -> (len: usize)
    requires
        header@.len() == 4,
    ensures
        len == be32_value(header@),
{
    let b0: usize = header[0] as usize;
    let b1: usize = header[1] as usize;
    let b2: usize = header[2] as usize;
    let b3: usize = header[3] as usize;
    b0 * 0x100_0000 + b1 * 0x1_0000 + b2 * 0x100 + b3
}

/// A frame's header announces its payload's length, and the payload follows
/// it unchanged, for every payload shorter than 2^32 bytes.
pub proof fn lemma_frame_roundtrip(payload: Seq<u8>)
    requires
        payload.len() < two_pow_32(),
    ensures
        be32_value(frame_bytes(payload).take(4)) == payload.len(),
        frame_bytes(payload).skip(4) == payload,
{
    let n = payload.len() as int;
    let b = be32_bytes(n);
    assert(frame_bytes(payload).take(4) == b);
    assert(frame_bytes(payload).skip(4) == payload);
    assert(b[0] * 0x100_0000 + b[1] * 0x1_0000 + b[2] * 0x100 + b[3] == n) by (nonlinear_arith)
        requires
            0 <= n < 0x1_0000_0000,
            b[0] == n / 0x100_0000 % 0x100,
            b[1] == n / 0x1_0000 % 0x100,
            b[2] == n / 0x100 % 0x100,
            b[3] == n % 0x100,
    ;
}

} // verus!
