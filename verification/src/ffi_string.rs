//! The owned string that crosses the boundary: a null-terminated buffer of
//! UTF-8 text that is replaced as a whole and never left without a
//! terminator.

use vstd::prelude::*;
use vstd::slice::slice_subrange;
use vstd::utf8::*;
use crate::text::{
    c_str_bytes, c_str_len, contains_nul, decode_lossy, lemma_c_str_bytes_prefix, lossy_text,
};

verus! {

/// Whether a buffer is a valid null-terminated string: it ends with a null
/// byte and holds no other.
pub open spec fn terminated(buf: Seq<u8>) -> bool {
    &&& buf.len() > 0
    &&& buf.last() == 0
    &&& forall|i: int| 0 <= i < buf.len() - 1 ==> buf[i] != 0
}

/// The bytes that are stored for a text: its UTF-8 encoding, or nothing
/// when the encoding holds a null byte and so cannot be terminated by one.
pub open spec fn stored_bytes(text: Seq<char>) -> Seq<u8> {
    if encode_utf8(text).contains(0u8) {
        Seq::empty()
    } else {
        encode_utf8(text)
    }
}

/// The foreign buffer that carries a text: its UTF-8 encoding and a
/// terminating null byte.
pub open spec fn foreign_buffer_of(text: Seq<char>) -> Seq<u8> {
    encode_utf8(text).push(0u8)
}

/// A boundary-safe text container.
pub struct FfiString {
    chars: Vec<u8>,
}

#[allow(non_camel_case_types)]
pub type string_t = FfiString;

impl View for FfiString {
    type V = Seq<u8>;

    /// The bytes of the text, without the terminator.
    closed spec fn view(&self) -> Seq<u8> {
        self.chars@.drop_last()
    }
}

impl FfiString {
    #[verifier::type_invariant]
    spec fn well_formed(self) -> bool {
        &&& terminated(self.chars@)
        &&& valid_utf8(self.chars@.drop_last())
    }

    /// An empty string.
    pub fn new() -> (s: Self)
        ensures
            s@ == Seq::<u8>::empty(),
    {
        let mut chars: Vec<u8> = Vec::new();
        chars.push(0);
        assert(chars@.drop_last() =~= Seq::<u8>::empty());
        assert(valid_utf8(Seq::<u8>::empty()));
        FfiString { chars }
    }

    /// Moves the string to the heap and hands out the owning handle.
    pub fn into_raw(self) -> (ptr: Box<Self>)
        ensures
            ptr@ == self@,
    {
        Box::new(self)
    }

    /// Takes the string behind a handle back: a string of the same text.
    pub fn from_raw(ptr: Box<Self>) -> (s: Self)
        ensures
            s@ == ptr@,
    {
        let mut res = FfiString::new();
        proof {
            use_type_invariant(&*ptr);
            lemma_c_str_bytes_of_terminated(ptr.chars@);
            lemma_valid_bytes_stored_unchanged(ptr@);
        }
        res.set_c_string(ptr.chars.as_slice());
        res
    }

    /// Replaces the text. A text whose encoding holds a null byte cannot be
    /// stored and leaves the string empty.
    pub fn set_string(&mut self, s: &str)
        ensures
            final(self)@ == stored_bytes(s@),
    {
        let mut chars: Vec<u8> = Vec::new();
        if !contains_nul(s.as_bytes()) {
            chars = s.as_bytes_vec();
        }
        let ghost text = chars@;
        chars.push(0);
        proof {
            assert(chars@.drop_last() =~= text);
            encode_utf8_valid_utf8(s@);
            assert(valid_utf8(Seq::<u8>::empty()));
        }
        self.chars = chars;
    }

    /// Replaces the text by that of a foreign null-terminated buffer, which
    /// is decoded lossily and stored as [`FfiString::set_string`] stores it.
    /// The buffer itself is only read.
    pub fn set_c_string(&mut self, s: &[u8])
        ensures
            final(self)@ == stored_bytes(lossy_text(c_str_bytes(s@))),
    {
        let n = c_str_len(s);
        let text = decode_lossy(slice_subrange(s, 0, n));
        self.set_string(text.as_str());
    }

    /// The text. The buffer always holds valid UTF-8, so decoding replaces
    /// nothing. The string is left as it is.
    pub fn to_string(&self) -> (text: String)
        ensures
            valid_utf8(self@),
            text@ == decode_utf8(self@),
            text@ == lossy_text(self@),
    {
        proof {
            use_type_invariant(self);
        }
        let n = self.chars.len() - 1;
        let bytes = slice_subrange(self.chars.as_slice(), 0, n);
        assert(bytes@ =~= self@);
        decode_lossy(bytes)
    }

    /// The buffer as foreign code reads it: the text and its terminator.
    pub fn as_bytes_with_nul(&self) -> (bytes: &[u8])
        ensures
            bytes@ == self@.push(0u8),
            terminated(bytes@),
            valid_utf8(self@),
    {
        proof {
            use_type_invariant(self);
        }
        assert(self.chars@ =~= self@.push(0u8));
        self.chars.as_slice()
    }
}

impl Default for FfiString {
    fn default() -> (s: Self)
        ensures
            s@ == Seq::<u8>::empty(),
    {
        FfiString::new()
    }
}

impl From<&str> for FfiString {
    /// A string that holds the text, or nothing when the text cannot be
    /// stored.
    fn from(s: &str) -> (res: Self)
        ensures
            res@ == stored_bytes(s@),
    {
        let mut res = FfiString::new();
        res.set_string(s);
        res
    }
}

impl vstd::std_specs::convert::FromSpecImpl<&str> for FfiString {
    open spec fn obeys_from_spec() -> bool {
        false
    }

    closed spec fn from_spec(s: &str) -> Self {
        arbitrary()
    }
}

impl From<&[u8]> for FfiString {
    /// A string that holds the text of a foreign null-terminated buffer.
    fn from(s: &[u8]) -> (res: Self)
        ensures
            res@ == stored_bytes(lossy_text(c_str_bytes(s@))),
    {
        let mut res = FfiString::new();
        res.set_c_string(s);
        res
    }
}

impl vstd::std_specs::convert::FromSpecImpl<&[u8]> for FfiString {
    open spec fn obeys_from_spec() -> bool {
        false
    }

    closed spec fn from_spec(s: &[u8]) -> Self {
        arbitrary()
    }
}

/// Allocates an empty string and returns its handle.
pub fn string_new() -> (ptr: Box<string_t>)
    ensures
        ptr@ == Seq::<u8>::empty(),
{
    FfiString::new().into_raw()
}

/// Takes a string back from its handle and releases it. The handle is
/// consumed, so it cannot be used or released again.
pub fn string_free(ptr: Box<string_t>) {
    let _ = FfiString::from_raw(ptr);
}

/// Replaces the text of the string behind a handle by that of a foreign
/// null-terminated buffer.
pub fn string_update(ptr: &mut string_t, new_str: &[u8])
    ensures
        final(ptr)@ == stored_bytes(lossy_text(c_str_bytes(new_str@))),
{
    ptr.set_c_string(new_str);
}

/// The text of a terminated buffer is the buffer without its terminator.
pub proof fn lemma_c_str_bytes_of_terminated(buf: Seq<u8>)
    requires
        terminated(buf),
    ensures
        c_str_bytes(buf) == buf.drop_last(),
{
    lemma_c_str_bytes_prefix(buf, buf.len() - 1);
}

/// Valid UTF-8 without a null byte is stored as it is when it is decoded
/// and stored anew.
pub proof fn lemma_valid_bytes_stored_unchanged(bytes: Seq<u8>)
    requires
        valid_utf8(bytes),
        !bytes.contains(0u8),
    ensures
        stored_bytes(lossy_text(bytes)) == bytes,
{
    decode_utf8_encode_utf8(bytes);
}

/// The encoding of a character holds a null byte only if the character is
/// the null character.
proof fn lemma_encode_scalar_nul(c: char)
    ensures
        encode_scalar(c as u32).contains(0u8) <==> c == '\0',
{
    let v = c as u32;
    let e = encode_scalar(v);
    char_is_scalar(c);
    assert(has_width_1_encoding(v) ==> ((v & 0x7F) as u8 == 0 <==> v == 0)) by (bit_vector);
    assert(0xC0u8 | ((v >> 6) & 0x1F) as u8 != 0) by (bit_vector);
    assert(0xE0u8 | ((v >> 12) & 0x0F) as u8 != 0) by (bit_vector);
    assert(0xF0u8 | ((v >> 18) & 0x7) as u8 != 0) by (bit_vector);
    assert(0x80u8 | (v & 0x3F) as u8 != 0) by (bit_vector);
    assert(0x80u8 | ((v >> 6) & 0x3F) as u8 != 0) by (bit_vector);
    assert(0x80u8 | ((v >> 12) & 0x3F) as u8 != 0) by (bit_vector);
    if has_width_1_encoding(v) {
        assert(e =~= seq![leading_byte_width_1(v)]);
        if v == 0 {
            assert(e[0] == 0);
        }
    }
    if e.contains(0u8) {
        let i = choose|i: int| 0 <= i < e.len() && e[i] == 0u8;
        assert(e[i] == 0);
    }
}

/// The encoding of a text holds a null byte exactly if the text holds the
/// null character.
pub proof fn lemma_encode_utf8_nul(text: Seq<char>)
    ensures
        encode_utf8(text).contains(0u8) <==> text.contains('\0'),
    decreases text.len(),
{
    if text.len() > 0 {
        let head = encode_scalar(text[0] as u32);
        let rest = text.drop_first();
        let tail = encode_utf8(rest);
        lemma_encode_scalar_nul(text[0]);
        lemma_encode_utf8_nul(rest);
        assert(encode_utf8(text) == head + tail);
        if (head + tail).contains(0u8) {
            let i = choose|i: int| 0 <= i < (head + tail).len() && (head + tail)[i] == 0u8;
            if i < head.len() {
                assert(head[i] == 0);
                assert(text[0] == '\0');
            } else {
                assert(tail[i - head.len()] == 0);
                let j = choose|j: int| 0 <= j < rest.len() && rest[j] == '\0';
                assert(text[j + 1] == '\0');
            }
        }
        if text.contains('\0') {
            let j = choose|j: int| 0 <= j < text.len() && text[j] == '\0';
            if j == 0 {
                let i = choose|i: int| 0 <= i < head.len() && head[i] == 0u8;
                assert((head + tail)[i] == 0);
            } else {
                assert(rest[j - 1] == '\0');
                let i = choose|i: int| 0 <= i < tail.len() && tail[i] == 0u8;
                assert((head + tail)[head.len() + i] == 0);
            }
        }
    }
}

/// A text without the null character is stored as its encoding and read
/// back unchanged.
pub proof fn lemma_stored_text_reads_back(text: Seq<char>)
    requires
        !text.contains('\0'),
    ensures
        stored_bytes(text) == encode_utf8(text),
        lossy_text(stored_bytes(text)) == text,
{
    lemma_encode_utf8_nul(text);
    encode_utf8_valid_utf8(text);
    encode_utf8_decode_utf8(text);
}

/// A foreign buffer that carries a text without the null character decodes
/// to that text.
pub proof fn lemma_foreign_buffer_decodes(text: Seq<char>)
    requires
        !text.contains('\0'),
    ensures
        c_str_bytes(foreign_buffer_of(text)) == encode_utf8(text),
        lossy_text(c_str_bytes(foreign_buffer_of(text))) == text,
{
    lemma_encode_utf8_nul(text);
    let buf = foreign_buffer_of(text);
    assert(terminated(buf)) by {
        assert forall|i: int| 0 <= i < buf.len() - 1 implies buf[i] != 0 by {
            assert(buf[i] == encode_utf8(text)[i]);
        }
    }
    lemma_c_str_bytes_of_terminated(buf);
    assert(buf.drop_last() =~= encode_utf8(text));
    encode_utf8_valid_utf8(text);
    encode_utf8_decode_utf8(text);
}

/// Round trip of text through an owned string: after the string is set from
/// the foreign buffer of a text without the null character, it reads back
/// as exactly that text.
pub proof fn lemma_foreign_text_round_trip(text: Seq<char>)
    requires
        !text.contains('\0'),
    ensures
        lossy_text(stored_bytes(lossy_text(c_str_bytes(foreign_buffer_of(text))))) == text,
{
    lemma_foreign_buffer_decodes(text);
    lemma_stored_text_reads_back(text);
}

/// A freshly made string reads back as the empty text.
pub proof fn lemma_empty_reads_back_empty()
    ensures
        lossy_text(Seq::<u8>::empty()) == Seq::<char>::empty(),
{
    assert(valid_utf8(Seq::<u8>::empty()));
    assert(decode_utf8(Seq::<u8>::empty()) =~= Seq::<char>::empty());
}

} // verus!
