//! Character and byte-level text primitives shared by the other modules:
//! case mapping, string comparison, and the codec between growable text and
//! null-terminated byte buffers.

use vstd::prelude::*;
use vstd::utf8::*;

verus! {

/// The Unicode `Uppercase` property of a character, as `char::is_uppercase`
/// reports it.
pub uninterp spec fn char_is_uppercase(c: char) -> bool;

/// The full lowercase mapping of a character, as `char::to_lowercase` yields
/// it: one or more characters, without locale tailoring.
pub uninterp spec fn char_lowercase(c: char) -> Seq<char>;

/// What `String::from_utf8_lossy` makes of bytes that are not valid UTF-8:
/// the text in which each invalid sequence is replaced by U+FFFD.
pub uninterp spec fn utf8_repaired(bytes: Seq<u8>) -> Seq<char>;

/// Lossy decoding: valid UTF-8 decodes to the text it encodes; anything else
/// decodes to its repaired form. Decoding never fails.
pub open spec fn lossy_text(bytes: Seq<u8>) -> Seq<char> {
    if valid_utf8(bytes) {
        decode_utf8(bytes)
    } else {
        utf8_repaired(bytes)
    }
}

/// The text bytes of a foreign buffer: everything before its first null
/// byte, or all of it when it holds none.
pub open spec fn c_str_bytes(buf: Seq<u8>) -> Seq<u8>
    decreases buf.len(),
{
    if buf.len() == 0 || buf[0] == 0 {
        Seq::empty()
    } else {
        seq![buf[0]] + c_str_bytes(buf.drop_first())
    }
}

/// Wraps `char::is_uppercase`. The contract only names the answer; the
/// Unicode tables behind it are not restated.
#[verifier::external_body]
pub(crate) fn is_uppercase(c: char) -> (r: bool)
    ensures
        r == char_is_uppercase(c),
{
    c.is_uppercase()
}

/// Wraps `char::to_lowercase`, collecting the characters it yields. The
/// contract names the mapping and says that it is never empty.
#[verifier::external_body]
pub(crate) fn to_lowercase(c: char) -> (r: Vec<char>)
    ensures
        r@ == char_lowercase(c),
        r@.len() >= 1,
{
    c.to_lowercase().collect()
}

/// Wraps `String::push`: the character is appended at the end and nothing
/// else changes.
#[verifier::external_body]
pub(crate) fn push_char(s: &mut String, c: char)
    ensures
        final(s)@ == old(s)@.push(c),
{
    s.push(c)
}

/// Wraps `String::from_utf8_lossy`. Valid UTF-8 comes back as the text it
/// encodes; for other input the contract only names the repaired text.
#[verifier::external_body]
pub(crate) fn from_utf8_lossy(bytes: &[u8]) -> (s: String)
    ensures
        valid_utf8(bytes@) ==> s@ == decode_utf8(bytes@),
        !valid_utf8(bytes@) ==> s@ == utf8_repaired(bytes@),
{
    String::from_utf8_lossy(bytes).into_owned()
}

/// Decodes bytes to text, replacing invalid sequences rather than failing.
pub fn decode_lossy(bytes: &[u8]) -> (s: String)
    ensures
        s@ == lossy_text(bytes@),
{
    from_utf8_lossy(bytes)
}

/// Whether two strings hold the same text.
pub fn str_eq(a: &str, b: &str) -> (r: bool)
    ensures
        r == (a@ == b@),
{
    broadcast use encode_utf8_decode_utf8;

    let x = a.as_bytes();
    let y = b.as_bytes();
    if x.len() != y.len() {
        return false;
    }
    let mut i: usize = 0;
    while i < x.len()
        invariant
            i <= x.len(),
            x.len() == y.len(),
            x@ == encode_utf8(a@),
            y@ == encode_utf8(b@),
            forall|j: int| 0 <= j < i ==> x@[j] == y@[j],
        decreases x.len() - i,
    {
        if x[i] != y[i] {
            return false;
        }
        i += 1;
    }
    assert(x@ =~= y@);
    assert(decode_utf8(encode_utf8(a@)) == a@);
    assert(decode_utf8(encode_utf8(b@)) == b@);
    true
}

/// Whether a byte sequence holds a null byte.
pub fn contains_nul(bytes: &[u8]) -> (r: bool)
    ensures
        r == bytes@.contains(0u8),
{
    let mut i: usize = 0;
    while i < bytes.len()
        invariant
            i <= bytes.len(),
            forall|j: int| 0 <= j < i ==> bytes@[j] != 0,
        decreases bytes.len() - i,
    {
        if bytes[i] == 0 {
            return true;
        }
        i += 1;
    }
    false
}

/// The length of the text in a foreign buffer: the index of its first null
/// byte, or the buffer's length when it holds none.
pub fn c_str_len(buf: &[u8]) -> (n: usize)
    ensures
        n <= buf@.len(),
        c_str_bytes(buf@) == buf@.subrange(0, n as int),
        n < buf@.len() ==> buf@[n as int] == 0,
        forall|j: int| 0 <= j < n ==> buf@[j] != 0,
{
    let mut i: usize = 0;
    while i < buf.len() && buf[i] != 0
        invariant
            i <= buf.len(),
            forall|j: int| 0 <= j < i ==> buf@[j] != 0,
        decreases buf.len() - i,
    {
        i += 1;
    }
    proof {
        lemma_c_str_bytes_prefix(buf@, i as int);
    }
    i
}

/// A buffer whose first `n` bytes are non-null, and which ends or holds a
/// null byte there, has exactly those `n` bytes as its text.
pub proof fn lemma_c_str_bytes_prefix(buf: Seq<u8>, n: int)
    requires
        0 <= n <= buf.len(),
        forall|j: int| 0 <= j < n ==> buf[j] != 0,
        n < buf.len() ==> buf[n] == 0,
    ensures
        c_str_bytes(buf) == buf.subrange(0, n),
    decreases buf.len(),
{
    if buf.len() == 0 || buf[0] == 0 {
        assert(buf.subrange(0, n) =~= Seq::<u8>::empty());
    } else {
        let rest = buf.drop_first();
        assert forall|j: int| 0 <= j < n - 1 implies rest[j] != 0 by {
            assert(rest[j] == buf[j + 1]);
        }
        lemma_c_str_bytes_prefix(rest, n - 1);
        assert(buf.subrange(0, n) =~= seq![buf[0]] + rest.subrange(0, n - 1));
    }
}

} // verus!
