//! Small operations on text, stated over character sequences.
use vstd::prelude::*;
use vstd::utf8::*;

verus! {

/// `pattern` occurs in `text` at some position.
pub open spec fn has_substring(text: Seq<char>, pattern: Seq<char>) -> bool {
    exists|i: int| 0 <= i && i + pattern.len() <= text.len() && #[trigger] text.subrange(i, i + pattern.len()) == pattern
}

/// `text` begins with `prefix`.
pub open spec fn has_prefix(text: Seq<char>, prefix: Seq<char>) -> bool {
    prefix.len() <= text.len() && text.subrange(0, prefix.len() as int) == prefix
}

/// The text of an optional string.
pub open spec fn opt_text(o: Option<String>) -> Option<Seq<char>> {
    match o {
        Some(s) => Some(s@),
        None => None,
    }
}

/// The text of an optional string slice.
pub open spec fn opt_str(o: Option<&str>) -> Option<Seq<char>> {
    match o {
        Some(s) => Some(s@),
        None => None,
    }
}

/// The text of an optional string, empty where there is none.
pub open spec fn text_or_empty(o: Option<String>) -> Seq<char> {
    match o {
        Some(s) => s@,
        None => Seq::empty(),
    }
}

/// The characters of a string slice.
pub fn chars_of(s: &str) -> (chars: Vec<char>)
    ensures
        chars@ == s@,
{
    let n: usize = s.unicode_len();
    let mut chars: Vec<char> = Vec::new();
    let mut i: usize = 0;
    while i < n
        invariant
            n == s@.len(),
            i <= n,
            chars@ == s@.take(i as int),
        decreases n - i,
    {
        let c = s.get_char(i);
        chars.push(c);
        i = i + 1;
        assert(s@.take(i as int) == s@.take(i - 1).push(c));
    }
    assert(s@.take(n as int) == s@);
    chars
}

/// Whether two string slices hold the same characters.
pub fn text_equals(a: &str, b: &str) -> (equal: bool)
    ensures
        equal == (a@ == b@),
{
    let x = chars_of(a);
    let y = chars_of(b);
    if x.len() != y.len() {
        return false;
    }
    let mut i: usize = 0;
    while i < x.len()
        invariant
            x@ == a@,
            y@ == b@,
            x@.len() == y@.len(),
            i <= x@.len(),
            forall|k: int| 0 <= k < i ==> x@[k] == y@[k],
        decreases x@.len() - i,
    {
        if x[i] != y[i] {
            return false;
        }
        i = i + 1;
    }
    assert(x@ =~= y@);
    true
}

/// Whether `pattern` matches `text` at position `at`.
fn matches_at(text: &Vec<char>, pattern: &Vec<char>, at: usize) -> (m: bool)
    requires
        at + pattern@.len() <= text@.len(),
    ensures
        m == (text@.subrange(at as int, at + pattern@.len()) == pattern@),
{
    let n: usize = text.len();
    let mut j: usize = 0;
    while j < pattern.len()
        invariant
            n == text@.len(),
            at + pattern@.len() <= text@.len(),
            j <= pattern@.len(),
            forall|k: int| 0 <= k < j ==> text@[at + k] == pattern@[k],
        decreases pattern@.len() - j,
    {
        if text[at + j] != pattern[j] {
            assert(text@.subrange(at as int, at + pattern@.len())[j as int] != pattern@[j as int]);
            return false;
        }
        j = j + 1;
    }
    assert(text@.subrange(at as int, at + pattern@.len()) =~= pattern@);
    true
}

/// Whether `pattern` occurs in `text`.
pub fn contains_text(text: &str, pattern: &str) -> (found: bool)
    ensures
        found == has_substring(text@, pattern@),
{
    let t = chars_of(text);
    let p = chars_of(pattern);
    if p.len() > t.len() {
        return false;
    }
    let last: usize = t.len() - p.len();
    let mut i: usize = 0;
    loop
        invariant
            t@ == text@,
            p@ == pattern@,
            last == t@.len() - p@.len(),
            p@.len() <= t@.len(),
            i <= last,
            forall|k: int| 0 <= k < i ==> #[trigger] t@.subrange(k, k + p@.len()) != p@,
        decreases last - i,
    {
        if matches_at(&t, &p, i) {
            return true;
        }
        if i == last {
            return false;
        }
        i = i + 1;
    }
}

/// Whether `text` begins with `prefix`.
pub fn starts_with_text(text: &str, prefix: &str) -> (yes: bool)
    ensures
        yes == has_prefix(text@, prefix@),
{
    let t = chars_of(text);
    let p = chars_of(prefix);
    if p.len() > t.len() {
        return false;
    }
    matches_at(&t, &p, 0)
}

/// Whether `text` ends with the character `c`.
pub fn ends_with_char(text: &str, c: char) -> (yes: bool)
    ensures
        yes == (text@.len() > 0 && text@.last() == c),
{
    let n: usize = text.unicode_len();
    if n == 0 {
        false
    } else {
        text.get_char(n - 1) == c
    }
}

/// A copy of an optional string, empty where there is none.
pub fn string_or_empty(o: &Option<String>) -> (s: String)
    ensures
        s@ == text_or_empty(*o),
{
    match o {
        Some(s) => s.clone(),
        None => String::new(),
    }
}

/// Whether a string holds exactly the given text.
pub fn string_is(s: &String, text: &str) -> (yes: bool)
    ensures
        yes == (s@ == text@),
{
    text_equals(s.as_str(), text)
}

/// Appends a character to a string (`String::push`).
/// Trusted: the string's characters gain `c` at the end.
#[verifier::external_body]
pub(crate) fn push_char(s: &mut String, c: char)
    ensures
        final(s)@ == old(s)@.push(c),
{
    s.push(c);
}

/// The characters Unicode calls white space (`char::is_whitespace`).
pub open spec fn is_white_space(c: char) -> bool {
    ||| ('\u{9}' <= c && c <= '\u{d}')
    ||| c == ' '
    ||| c == '\u{85}'
    ||| c == '\u{a0}'
    ||| c == '\u{1680}'
    ||| ('\u{2000}' <= c && c <= '\u{200a}')
    ||| c == '\u{2028}'
    ||| c == '\u{2029}'
    ||| c == '\u{202f}'
    ||| c == '\u{205f}'
    ||| c == '\u{3000}'
}

/// How many white-space characters a text begins with.
pub open spec fn leading_space(s: Seq<char>) -> nat
    decreases s.len(),
{
    if s.len() > 0 && is_white_space(s[0]) {
        1 + leading_space(s.drop_first())
    } else {
        0
    }
}

/// How many white-space characters a text ends with.
pub open spec fn trailing_space(s: Seq<char>) -> nat
    decreases s.len(),
{
    if s.len() > 0 && is_white_space(s.last()) {
        1 + trailing_space(s.drop_last())
    } else {
        0
    }
}

/// A text without its leading and trailing white space.
pub open spec fn trimmed(s: Seq<char>) -> Seq<char> {
    if leading_space(s) == s.len() {
        Seq::empty()
    } else {
        s.subrange(leading_space(s) as int, s.len() - trailing_space(s))
    }
}

/// A text that neither begins nor ends with white space is its own trimmed form.
pub proof fn lemma_trimmed_unchanged(s: Seq<char>)
    requires
        s.len() > 0,
        !is_white_space(s[0]),
        !is_white_space(s.last()),
    ensures
        trimmed(s) == s,
{
    assert(s.subrange(0, s.len() as int) =~= s);
}

/// The Unicode upper-case mapping of a text (`str::to_uppercase`).
pub uninterp spec fn uppercase_text(s: Seq<char>) -> Seq<char>;

/// `str::trim`: the slice without leading and trailing white space.
/// Trusted: white space is what `char::is_whitespace` accepts.
#[verifier::external_body]
pub(crate) fn trim_text(s: &str) -> (t: &str)
    ensures
        t@ == trimmed(s@),
{
    s.trim()
}

/// `str::to_uppercase`.
/// Trusted: the result is the Unicode upper-case mapping of the text.
#[verifier::external_body]
pub(crate) fn to_upper_text(s: &str) -> (u: String)
    ensures
        u@ == uppercase_text(s@),
{
    s.to_uppercase()
}

/// `String::insert`: puts `c` at byte position `idx`, which must lie on a
/// character boundary (else it panics).
/// Trusted: the bytes of `c` are spliced in at `idx`.
#[verifier::external_body]
pub(crate) fn insert_char_at(s: &mut String, idx: usize, c: char)
    requires
        is_char_boundary(encode_utf8(old(s)@), idx as int),
    ensures
        encode_utf8(final(s)@) == encode_utf8(old(s)@).take(idx as int) + encode_utf8(seq![c]) + encode_utf8(
            old(s)@,
        ).skip(idx as int),
{
    s.insert(idx, c);
}

/// `String::remove`: takes out the character starting at byte position
/// `idx`, which must be below the length and on a character boundary (else it panics).
/// Trusted: the bytes of the returned character are cut out at `idx`.
#[verifier::external_body]
pub(crate) fn remove_char_at(s: &mut String, idx: usize) -> (c: char)
    requires
        idx < encode_utf8(old(s)@).len(),
        is_char_boundary(encode_utf8(old(s)@), idx as int),
    ensures
        idx <= encode_utf8(final(s)@).len(),
        encode_utf8(old(s)@) == encode_utf8(final(s)@).take(idx as int) + encode_utf8(seq![c]) + encode_utf8(
            final(s)@,
        ).skip(idx as int),
{
    s.remove(idx)
}

/// UTF-8 encoding turns concatenation of texts into concatenation of bytes.
pub proof fn lemma_encode_utf8_concat(a: Seq<char>, b: Seq<char>)
    ensures
        encode_utf8(a + b) == encode_utf8(a) + encode_utf8(b),
    decreases a.len(),
{
    if a.len() == 0 {
        assert(a + b =~= b);
    } else {
        assert((a + b).drop_first() =~= a.drop_first() + b);
        lemma_encode_utf8_concat(a.drop_first(), b);
    }
}

/// A character is encoded by at least one byte.
pub proof fn lemma_encode_utf8_char_nonempty(c: char)
    ensures
        encode_utf8(seq![c]).len() >= 1,
{
    assert(seq![c].drop_first() =~= Seq::<char>::empty());
}

} // verus!
