//! Text fields: the delimiters of the grammar, the sentinel for an absent
//! field, and the step from bytes to text.

use crate::scan::{bytes_eq, count_of, lemma_count_bounds, lemma_count_concat};
use vstd::prelude::*;
use vstd::string::*;
use vstd::utf8::*;

verus! {

/// `/`, which ends the executable.
pub const SLASH: u8 = 0x2f;

/// A space, which ends the application's version and the operating system.
pub const SPACE: u8 = 0x20;

/// `;`, which ends the bundle and the build number.
pub const SEMICOLON: u8 = 0x3b;

/// `)`, which ends the operating system's version.
pub const CLOSE_PAREN: u8 = 0x29;

/// The line terminator that may end the input.
pub const NEWLINE: u8 = 0x0a;

/// The text that stands for an absent field.
pub open spec fn unknown() -> Seq<char> {
    "Unknown"@
}

/// An optional text field as the grammar reads it: the sentinel is absence,
/// any other text is itself.
pub open spec fn absent_if_unknown(text: Seq<char>) -> Option<Seq<char>> {
    if text == unknown() {
        None
    } else {
        Some(text)
    }
}

/// An optional text field as the grammar writes it.
pub open spec fn text_or_unknown(field: Option<Seq<char>>) -> Seq<char> {
    match field {
        Some(text) => text,
        None => unknown(),
    }
}

/// The view of an optional field.
pub open spec fn opt_view<T: View>(field: Option<T>) -> Option<T::V> {
    match field {
        Some(value) => Some(value@),
        None => None,
    }
}

/// What `String::from_utf8` says of bytes that are not UTF-8, as text.
pub uninterp spec fn utf8_error_text(bytes: Seq<u8>) -> Seq<char>;

/// The text that bytes encode, or the message that says why they encode
/// none.
pub open spec fn decoded(bytes: Seq<u8>) -> Result<Seq<char>, Seq<char>> {
    if valid_utf8(bytes) {
        Ok(decode_utf8(bytes))
    } else {
        Err(utf8_error_text(bytes))
    }
}

/// `String::from_utf8` on a copy of `bytes`. Trusted: the call succeeds
/// exactly on valid UTF-8 and then yields the text that the bytes encode;
/// otherwise it fails, and the message of its error, a function of the bytes
/// alone that `utf8_error_text` names, comes back as text.
#[verifier::external_body]
pub(crate) fn string_from_utf8(bytes: &[u8]) -> (r: Result<String, String>)
    ensures
        match r {
            Ok(text) => valid_utf8(bytes@) && text@ == decode_utf8(bytes@),
            Err(message) => !valid_utf8(bytes@) && message@ == utf8_error_text(bytes@),
        },
{
    match String::from_utf8(bytes.to_vec()) {
        Ok(text) => Ok(text),
        Err(error) => Err(error.to_string()),
    }
}

/// Two texts with the same UTF-8 encoding are the same text.
pub proof fn lemma_encode_injective(a: Seq<char>, b: Seq<char>)
    requires
        encode_utf8(a) == encode_utf8(b),
    ensures
        a == b,
{
    encode_utf8_decode_utf8(a);
    encode_utf8_decode_utf8(b);
}

/// The sentinel is seven letters.
pub proof fn lemma_unknown()
    ensures
        unknown().len() == 7,
        unknown()[0] == 'U',
        forall|i: int|
            0 <= i < unknown().len() ==> {
                let c = #[trigger] unknown()[i];
                'A' <= c <= 'Z' || 'a' <= c <= 'z'
            },
{
    reveal_strlit("Unknown");
}

/// A text that holds `c` nowhere is free of `c`.
pub proof fn lemma_free(text: Seq<char>, c: char)
    requires
        forall|i: int| 0 <= i < text.len() ==> text[i] != c,
    ensures
        count_of(text, c) == 0,
{
    lemma_count_bounds(text, c);
}

/// The encoding of a concatenation is the concatenation of the encodings.
pub proof fn lemma_encode_concat(a: Seq<char>, b: Seq<char>)
    ensures
        encode_utf8(a + b) == encode_utf8(a) + encode_utf8(b),
    decreases a.len(),
{
    if a.len() == 0 {
        assert(a + b =~= b);
        assert(encode_utf8(a) + encode_utf8(b) =~= encode_utf8(b));
    } else {
        assert((a + b).drop_first() =~= a.drop_first() + b);
        lemma_encode_concat(a.drop_first(), b);
        assert(encode_utf8(a + b) =~= encode_utf8(a) + encode_utf8(b));
    }
}

/// Of the bytes that encode a scalar, only the one byte of an ASCII scalar
/// is below `0x80`, and that byte is the scalar.
proof fn lemma_scalar_bits(x: u32)
    by (bit_vector)
    ensures
        x <= 0x7f ==> ((x & 0x7F) as u8) as u32 == x,
        (0xC0u8 | ((x >> 6) & 0x1F) as u8) >= 0x80,
        (0xE0u8 | ((x >> 12) & 0x0F) as u8) >= 0x80,
        (0xF0u8 | ((x >> 18) & 0x7) as u8) >= 0x80,
        (0x80u8 | (x & 0x3F) as u8) >= 0x80,
        (0x80u8 | ((x >> 6) & 0x3F) as u8) >= 0x80,
        (0x80u8 | ((x >> 12) & 0x3F) as u8) >= 0x80,
{
}

/// An ASCII byte occurs in the encoding of a scalar exactly where it is the
/// scalar.
pub proof fn lemma_count_scalar(x: u32, b: u8)
    requires
        is_scalar(x),
        b < 0x80,
    ensures
        count_of(encode_scalar(x), b) == if x == b as u32 {
            1nat
        } else {
            0nat
        },
{
    lemma_scalar_bits(x);
    let e = encode_scalar(x);
    if has_width_1_encoding(x) {
        assert(e.drop_last() =~= Seq::<u8>::empty());
        assert(count_of(e.drop_last(), b) == 0);
    } else {
        assert forall|i: int| 0 <= i < e.len() implies e[i] != b by {}
        lemma_count_bounds(e, b);
    }
}

/// An ASCII character occurs in a text as often as its byte occurs in the
/// text's encoding.
pub proof fn lemma_count_encoded(text: Seq<char>, c: char)
    requires
        (c as u32) < 0x80,
    ensures
        count_of(encode_utf8(text), c as u8) == count_of(text, c),
    decreases text.len(),
{
    if text.len() > 0 {
        let head = seq![text[0]];
        let tail = text.drop_first();
        assert(text =~= head + tail);
        lemma_count_concat(head, tail, c);
        assert(head.drop_last() =~= Seq::<char>::empty());
        assert(count_of(head.drop_last(), c) == 0);
        char_is_scalar(text[0]);
        lemma_count_concat(encode_scalar(text[0] as u32), encode_utf8(tail), c as u8);
        lemma_count_scalar(text[0] as u32, c as u8);
        lemma_count_encoded(tail, c);
        assert((text[0] as u32 == (c as u8) as u32) <==> text[0] == c) by {
            char_u32_cast(text[0], text[0] as u32);
            char_u32_cast(c, c as u32);
        }
    }
}

/// Whether two strings hold the same text.
pub fn str_eq(a: &str, b: &str) -> (r: bool)
    ensures
        r == (a@ == b@),
{
    proof {
        if encode_utf8(a@) == encode_utf8(b@) {
            lemma_encode_injective(a@, b@);
        }
    }
    bytes_eq(a.as_bytes(), b.as_bytes())
}

/// Turns the sentinel into an absent field.
pub fn sentinel_to_absent(text: String) -> (r: Option<String>)
    ensures
        opt_view(r) == absent_if_unknown(text@),
        r matches Some(kept) ==> kept == text,
{
    if str_eq(text.as_str(), "Unknown") {
        None
    } else {
        Some(text)
    }
}

} // verus!
