//! Texts and their bytes.
//!
//! A text is a `String`; in contracts it is the sequence of its characters.
//! Its bytes are its UTF-8 encoding.

use crate::order::equal_bytes;
use vstd::prelude::*;
use vstd::string::*;
use vstd::utf8::*;

verus! {

/// The bytes that stand for `text`.
pub open spec fn text_bytes(text: Seq<char>) -> Seq<u8> {
    encode_utf8(text)
}

/// What `String::from_utf8_lossy` makes of `bytes`: the text they encode,
/// with U+FFFD in place of every part that is not UTF-8.
pub uninterp spec fn lossy_text(bytes: Seq<u8>) -> Seq<char>;

/// Two texts with the same bytes are the same text.
pub proof fn lemma_text_bytes_injective(a: Seq<char>, b: Seq<char>)
    requires
        text_bytes(a) == text_bytes(b),
    ensures
        a == b,
{
    encode_utf8_decode_utf8(a);
    encode_utf8_decode_utf8(b);
}

/// The text whose characters are the bytes of `bytes`, one for one. It is
/// meant for bytes below 0x80.
pub open spec fn ascii_text(bytes: Seq<u8>) -> Seq<char> {
    Seq::new(bytes.len(), |i: int| bytes[i] as char)
}

/// Bytes below 0x80 are a text, and the bytes of that text: ASCII is UTF-8.
pub proof fn lemma_ascii_is_text(bytes: Seq<u8>)
    requires
        forall|i: int| 0 <= i < bytes.len() ==> bytes[i] <= 0x7f,
    ensures
        valid_utf8(bytes),
        text_bytes(ascii_text(bytes)) == bytes,
        decode_utf8(bytes) == ascii_text(bytes),
{
    let chars = ascii_text(bytes);
    assert(is_ascii_chars(chars)) by {
        assert forall|i: int| 0 <= i < chars.len() implies '\0' <= #[trigger] chars[i]
            <= '\u{7f}' by {
            assert(chars[i] == bytes[i] as char);
        }
    }
    is_ascii_chars_encode_utf8(chars);
    assert(encode_utf8(chars) =~= bytes) by {
        assert forall|i: int| 0 <= i < bytes.len() implies encode_utf8(chars)[i] == bytes[i] by {
            assert(chars[i] as u8 == encode_utf8(chars)[i]);
            assert(chars[i] == bytes[i] as char);
        }
    }
    encode_utf8_valid_utf8(chars);
    encode_utf8_decode_utf8(chars);
}

/// The text of bytes below 0x80.
pub(crate) fn text_of_ascii(bytes: Vec<u8>) -> (text: String)
    requires
        forall|i: int| 0 <= i < bytes@.len() ==> bytes@[i] <= 0x7f,
    ensures
        text@ == ascii_text(bytes@),
{
    proof {
        lemma_ascii_is_text(bytes@);
    }
    match text_of_bytes(bytes) {
        Some(text) => {
            proof {
                lemma_text_bytes_injective(text@, ascii_text(bytes@));
            }
            text
        },
        None => {
            proof {
                assert(false);
            }
            String::new()
        },
    }
}

/// The bytes of `text`.
pub fn bytes_of_text(text: &str) -> (bytes: Vec<u8>)
    ensures
        bytes@ == text_bytes(text@),
{
    text.as_bytes_vec()
}

/// `String::from_utf8` of std: the text whose UTF-8 encoding `bytes` is.
/// `None` exactly where `bytes` is not valid UTF-8.
#[verifier::external_body]
pub(crate) fn text_of_bytes(bytes: Vec<u8>) -> (text: Option<String>)
    ensures
        match text {
            Some(t) => text_bytes(t@) == bytes@,
            None => !valid_utf8(bytes@),
        },
{
    String::from_utf8(bytes).ok()
}

/// `String::from_utf8_lossy` of std: a text for any bytes. Valid UTF-8 is
/// kept as it is. Of other bytes the contract names the result and says no
/// more.
#[verifier::external_body]
pub(crate) fn lossy_text_of_bytes(bytes: &[u8]) -> (text: String)
    ensures
        text@ == lossy_text(bytes@),
        valid_utf8(bytes@) ==> text_bytes(text@) == bytes@,
{
    String::from_utf8_lossy(bytes).into_owned()
}

/// Whether two texts are the same.
pub fn same_text(a: &str, b: &str) -> (r: bool)
    ensures
        r == (a@ == b@),
{
    let r = equal_bytes(a.as_bytes(), b.as_bytes());
    proof {
        if r {
            lemma_text_bytes_injective(a@, b@);
        }
    }
    r
}

/// A copy of `text` that the caller owns.
pub fn owned_text(text: &str) -> (r: String)
    ensures
        r@ == text@,
{
    text.to_owned()
}

/// `a` followed by `b`.
pub fn joined(a: String, b: &str) -> (r: String)
    ensures
        r@ == a@ + b@,
{
    a.concat(b)
}

} // verus!
