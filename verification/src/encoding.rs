//! Text encodings used on the wire: standard Base64 (with padding),
//! lower-case hexadecimal, and UTF-8 decoding of received plaintext.
use vstd::prelude::*;
use vstd::utf8::*;
use base64::Engine;

verus! {

/// The character of the standard Base64 alphabet for a 6-bit value.
pub open spec fn base64_symbol(v: int) -> char {
    if v < 26 {
        (v + 65) as char
    } else if v < 52 {
        (v - 26 + 97) as char
    } else if v < 62 {
        (v - 52 + 48) as char
    } else if v == 62 {
        '+'
    } else {
        '/'
    }
}

/// Standard Base64 encoding with `=` padding: every 3 bytes become 4 symbols,
/// a trailing group of 1 or 2 bytes is padded to 4 symbols.
pub open spec fn base64_text(b: Seq<u8>) -> Seq<char>
    decreases b.len(),
{
    if b.len() == 0 {
        seq![]
    } else if b.len() == 1 {
        seq![base64_symbol((b[0] as int) / 4), base64_symbol(((b[0] as int) % 4) * 16), '=', '=']
    } else if b.len() == 2 {
        seq![
            base64_symbol((b[0] as int) / 4),
            base64_symbol(((b[0] as int) % 4) * 16 + (b[1] as int) / 16),
            base64_symbol(((b[1] as int) % 16) * 4),
            '=',
        ]
    } else {
        seq![
            base64_symbol((b[0] as int) / 4),
            base64_symbol(((b[0] as int) % 4) * 16 + (b[1] as int) / 16),
            base64_symbol(((b[1] as int) % 16) * 4 + (b[2] as int) / 64),
            base64_symbol((b[2] as int) % 64),
        ] + base64_text(b.subrange(3, b.len() as int))
    }
}

/// What the standard Base64 engine decodes a text to: the bytes whose padded
/// standard encoding the text is, `None` where it is no such encoding.
pub open spec fn base64_decoded(text: Seq<char>) -> Option<Seq<u8>> {
    if exists|b: Seq<u8>| base64_text(b) == text {
        Some(choose|b: Seq<u8>| base64_text(b) == text)
    } else {
        None
    }
}

proof fn lemma_symbol_injective(v: int, w: int)
    requires
        0 <= v < 64,
        0 <= w < 64,
        base64_symbol(v) == base64_symbol(w),
    ensures
        v == w,
{
}

proof fn lemma_symbol_not_pad(v: int)
    requires
        0 <= v < 64,
    ensures
        base64_symbol(v) != '=',
{
}

proof fn lemma_base64_text_nonempty(b: Seq<u8>)
    requires
        b.len() > 0,
    ensures
        base64_text(b).len() >= 4,
        b.len() >= 3 ==> base64_text(b)[3] == base64_symbol((b[2] as int) % 64),
        b.len() >= 2 ==> base64_text(b)[2] != '=',
        b.len() == 1 ==> base64_text(b).len() == 4 && base64_text(b)[2] == '=' && base64_text(b)[3] == '=',
        b.len() == 2 ==> base64_text(b).len() == 4 && base64_text(b)[3] == '=',
{
    if b.len() >= 3 {
        lemma_symbol_not_pad(((b[1] as int) % 16) * 4 + (b[2] as int) / 64);
    } else if b.len() == 2 {
        lemma_symbol_not_pad(((b[1] as int) % 16) * 4);
    }
}

proof fn lemma_bytes_from_symbols(a0: u8, a1: u8, a2: u8, b0: u8, b1: u8, b2: u8)
    requires
        a0 / 4 == b0 / 4,
        (a0 % 4) * 16 + a1 / 16 == (b0 % 4) * 16 + b1 / 16,
        (a1 % 16) * 4 + a2 / 64 == (b1 % 16) * 4 + b2 / 64,
        a2 % 64 == b2 % 64,
    ensures
        a0 == b0,
        a1 == b1,
        a2 == b2,
{
    assert(a0 % 4 == b0 % 4 && a1 / 16 == b1 / 16) by (nonlinear_arith)
        requires
            (a0 % 4) * 16 + a1 / 16 == (b0 % 4) * 16 + b1 / 16,
            a1 / 16 < 16,
            b1 / 16 < 16,
            a0 % 4 < 4,
            b0 % 4 < 4;
    assert(a1 % 16 == b1 % 16 && a2 / 64 == b2 / 64) by (nonlinear_arith)
        requires
            (a1 % 16) * 4 + a2 / 64 == (b1 % 16) * 4 + b2 / 64,
            a2 / 64 < 4,
            b2 / 64 < 4,
            a1 % 16 < 16,
            b1 % 16 < 16;
}

/// Standard Base64 text determines the bytes it encodes.
pub proof fn lemma_base64_text_injective(a: Seq<u8>, b: Seq<u8>)
    requires
        base64_text(a) == base64_text(b),
    ensures
        a == b,
    decreases a.len(),
{
    if a.len() == 0 || b.len() == 0 {
        if a.len() > 0 {
            lemma_base64_text_nonempty(a);
        }
        if b.len() > 0 {
            lemma_base64_text_nonempty(b);
        }
        assert(a =~= b);
    } else {
        lemma_base64_text_nonempty(a);
        lemma_base64_text_nonempty(b);
        let t = base64_text(a);
        if a.len() >= 3 && b.len() >= 3 {
            let ra = a.subrange(3, a.len() as int);
            let rb = b.subrange(3, b.len() as int);
            let ha = seq![
                base64_symbol((a[0] as int) / 4),
                base64_symbol(((a[0] as int) % 4) * 16 + (a[1] as int) / 16),
                base64_symbol(((a[1] as int) % 16) * 4 + (a[2] as int) / 64),
                base64_symbol((a[2] as int) % 64),
            ];
            let hb = seq![
                base64_symbol((b[0] as int) / 4),
                base64_symbol(((b[0] as int) % 4) * 16 + (b[1] as int) / 16),
                base64_symbol(((b[1] as int) % 16) * 4 + (b[2] as int) / 64),
                base64_symbol((b[2] as int) % 64),
            ];
            assert(t == ha + base64_text(ra));
            assert(t == hb + base64_text(rb));
            assert(ha[0] == hb[0] && ha[1] == hb[1] && ha[2] == hb[2] && ha[3] == hb[3]) by {
                assert(t[0] == ha[0] && t[0] == hb[0]);
                assert(t[1] == ha[1] && t[1] == hb[1]);
                assert(t[2] == ha[2] && t[2] == hb[2]);
                assert(t[3] == ha[3] && t[3] == hb[3]);
            }
            lemma_symbol_injective((a[0] as int) / 4, (b[0] as int) / 4);
            lemma_symbol_injective(((a[0] as int) % 4) * 16 + (a[1] as int) / 16, ((b[0] as int) % 4) * 16 + (b[1] as int) / 16);
            lemma_symbol_injective(((a[1] as int) % 16) * 4 + (a[2] as int) / 64, ((b[1] as int) % 16) * 4 + (b[2] as int) / 64);
            lemma_symbol_injective((a[2] as int) % 64, (b[2] as int) % 64);
            lemma_bytes_from_symbols(a[0], a[1], a[2], b[0], b[1], b[2]);
            assert(base64_text(ra) =~= t.subrange(4, t.len() as int));
            assert(base64_text(rb) =~= t.subrange(4, t.len() as int));
            lemma_base64_text_injective(ra, rb);
            assert forall|i: int| 0 <= i < a.len() implies a[i] == b[i] by {
                if i >= 3 {
                    assert(a[i] == ra[i - 3]);
                    assert(b[i] == rb[i - 3]);
                }
            }
            assert(a =~= b);
        } else if a.len() == b.len() {
            assert(t[0] == base64_text(b)[0] && t[1] == base64_text(b)[1] && t[2] == base64_text(b)[2]);
            lemma_symbol_injective((a[0] as int) / 4, (b[0] as int) / 4);
            if a.len() == 1 {
                lemma_symbol_injective(((a[0] as int) % 4) * 16, ((b[0] as int) % 4) * 16);
                lemma_bytes_from_symbols(a[0], 0, 0, b[0], 0, 0);
            } else {
                lemma_symbol_injective(((a[0] as int) % 4) * 16 + (a[1] as int) / 16, ((b[0] as int) % 4) * 16 + (b[1] as int) / 16);
                lemma_symbol_injective(((a[1] as int) % 16) * 4, ((b[1] as int) % 16) * 4);
                lemma_bytes_from_symbols(a[0], a[1], 0, b[0], b[1], 0);
            }
            assert(a =~= b);
        } else {
            if a.len() >= 3 {
                lemma_symbol_not_pad((a[2] as int) % 64);
            }
            if b.len() >= 3 {
                lemma_symbol_not_pad((b[2] as int) % 64);
            }
        }
    }
}


/// Decoding gives back the bytes a text encodes.
pub broadcast proof fn lemma_base64_roundtrip(b: Seq<u8>)
    ensures
        #[trigger] base64_decoded(base64_text(b)) == Some(b),
{
    let t = base64_text(b);
    assert(base64_text(b) == t);
    let c = choose|c: Seq<u8>| base64_text(c) == t;
    lemma_base64_text_injective(c, b);
}

/// The lower-case hexadecimal digit of a 4-bit value.
pub open spec fn hex_digit(v: int) -> char {
    if v < 10 {
        (v + 48) as char
    } else {
        (v - 10 + 97) as char
    }
}

/// Lower-case hexadecimal text of a byte string, two digits per byte.
pub open spec fn hex_text(b: Seq<u8>) -> Seq<char>
    decreases b.len(),
{
    if b.len() == 0 {
        seq![]
    } else {
        seq![hex_digit((b[0] as int) / 16), hex_digit((b[0] as int) % 16)] + hex_text(b.subrange(1, b.len() as int))
    }
}

/// Hexadecimal text has two digits per byte.
pub proof fn lemma_hex_text_len(b: Seq<u8>)
    ensures
        hex_text(b).len() == 2 * b.len(),
    decreases b.len(),
{
    if b.len() > 0 {
        lemma_hex_text_len(b.subrange(1, b.len() as int));
    }
}

/// Encodes bytes with the standard Base64 engine (`STANDARD.encode`).
/// Trusted: the text is the padded standard encoding.
#[verifier::external_body]
pub(crate) fn base64_encode(bytes: &[u8]) -> (text: String)
    ensures
        text@ == base64_text(bytes@),
{
    base64::engine::general_purpose::STANDARD.encode(bytes)
}

/// Decodes text with the standard Base64 engine (`STANDARD.decode`).
/// Trusted: the engine (standard alphabet, canonical padding required,
/// trailing bits refused) accepts exactly the padded standard encodings and
/// gives back the bytes they encode; it reports an error on any other text.
#[verifier::external_body]
pub(crate) fn base64_decode(text: &str) -> (bytes: Option<Vec<u8>>)
    ensures
        match bytes {
            Some(b) => base64_decoded(text@) == Some(b@),
            None => base64_decoded(text@) is None,
        },
{
    base64::engine::general_purpose::STANDARD.decode(text).ok()
}

/// Lower-case hexadecimal encoding (`hex::encode`).
/// Trusted: two lower-case digits per byte, high nibble first.
#[verifier::external_body]
pub(crate) fn hex_encode(bytes: &[u8]) -> (text: String)
    ensures
        text@ == hex_text(bytes@),
{
    hex::encode(bytes)
}

/// Turns bytes into a `String` (`String::from_utf8`).
/// Trusted: succeeds exactly on valid UTF-8 and then holds the decoded characters.
#[verifier::external_body]
pub(crate) fn utf8_string(bytes: Vec<u8>) -> (s: Option<String>)
    ensures
        s is Some <==> valid_utf8(bytes@),
        s matches Some(t) ==> t@ == decode_utf8(bytes@),
{
    String::from_utf8(bytes).ok()
}

/// The 32 bytes of a slice that holds exactly 32, as an array.
pub(crate) fn copy_into_array32(bytes: &[u8]) -> (array: [u8; 32])
    requires
        bytes@.len() == 32,
    ensures
        array@ == bytes@,
{
    let mut array = [0u8; 32];
    let mut i: usize = 0;
    while i < 32
        invariant
            i <= 32,
            bytes@.len() == 32,
            array@.len() == 32,
            forall|j: int| 0 <= j < i ==> array@[j] == bytes@[j],
        decreases 32 - i,
    {
        array[i] = bytes[i];
        i = i + 1;
    }
    assert(array@ =~= bytes@);
    array
}

} // verus!
