//! The canonical text encoding that persisted documents are made of.
//!
//! A document is a run of items. An item is a token, written in an escaped
//! form that holds neither a space nor a line feed, followed by one separator
//! byte: a space inside a record, a line feed at its end. A token may hold any
//! bytes at all; the escaped form keeps every byte and is reversible.
//!
//! Printable ASCII other than `%` stands for itself. Every other byte is
//! written as `%` and two upper-case hexadecimal digits.

use crate::text::{bytes_of_text, text_bytes, text_of_bytes};
use vstd::prelude::*;
use vstd::utf8::{decode_utf8, encode_utf8_decode_utf8, encode_utf8_valid_utf8, valid_utf8};

verus! {

/// The byte that separates two items of one record.
pub const SPACE: u8 = 0x20;

/// The byte that ends a record.
pub const NEWLINE: u8 = 0x0a;

/// The byte that introduces an escaped byte.
pub const PERCENT: u8 = 0x25;

/// A byte that may end an item.
pub open spec fn is_separator(b: u8) -> bool {
    b == SPACE || b == NEWLINE
}

/// A byte that the escaped form writes as itself.
pub open spec fn is_plain(b: u8) -> bool {
    0x21 <= b <= 0x7e && b != PERCENT
}

/// The upper-case hexadecimal digit for a value below sixteen.
pub open spec fn hex_digit(n: u8) -> u8
    recommends
        n < 16,
{
    if n < 10 {
        (0x30 + n) as u8
    } else {
        (0x37 + n) as u8
    }
}

/// The value of an upper-case hexadecimal digit, if the byte is one.
pub open spec fn hex_value(d: u8) -> Option<u8> {
    if 0x30 <= d <= 0x39 {
        Some((d - 0x30) as u8)
    } else if 0x41 <= d <= 0x46 {
        Some((d - 0x37) as u8)
    } else {
        None
    }
}

/// The escaped form of one byte.
pub open spec fn escape_byte(b: u8) -> Seq<u8> {
    if is_plain(b) {
        seq![b]
    } else {
        seq![PERCENT, hex_digit(b / 16), hex_digit(b % 16)]
    }
}

/// The escaped form of a token.
pub open spec fn escape(token: Seq<u8>) -> Seq<u8>
    decreases token.len(),
{
    if token.len() == 0 {
        Seq::empty()
    } else {
        escape_byte(token[0]) + escape(token.skip(1))
    }
}

/// The bytes of one item followed by `rest`.
pub open spec fn item(token: Seq<u8>, sep: u8, rest: Seq<u8>) -> Seq<u8> {
    escape(token) + seq![sep] + rest
}

/// Reads one item from the front of `bytes`: its token, its separator and
/// the bytes that follow. `None` where `bytes` does not start with an item.
pub open spec fn split_item(bytes: Seq<u8>) -> Option<(Seq<u8>, u8, Seq<u8>)>
    decreases bytes.len(),
{
    if bytes.len() == 0 {
        None
    } else if is_separator(bytes[0]) {
        Some((Seq::empty(), bytes[0], bytes.skip(1)))
    } else if is_plain(bytes[0]) {
        extend_item(seq![bytes[0]], split_item(bytes.skip(1)))
    } else if bytes[0] == PERCENT && bytes.len() >= 3 {
        match (hex_value(bytes[1]), hex_value(bytes[2])) {
            (Some(hi), Some(lo)) => extend_item(
                seq![(hi * 16 + lo) as u8],
                split_item(bytes.skip(3)),
            ),
            _ => None,
        }
    } else {
        None
    }
}

/// Puts `prefix` in front of the token of a split.
pub open spec fn extend_item(prefix: Seq<u8>, split: Option<(Seq<u8>, u8, Seq<u8>)>) -> Option<
    (Seq<u8>, u8, Seq<u8>),
> {
    match split {
        Some((token, sep, rest)) => Some((prefix + token, sep, rest)),
        None => None,
    }
}

/// An item that was written is read back as it was, whatever follows it.
pub proof fn lemma_split_item_of_item(token: Seq<u8>, sep: u8, rest: Seq<u8>)
    requires
        is_separator(sep),
    ensures
        split_item(item(token, sep, rest)) == Some((token, sep, rest)),
    decreases token.len(),
{
    let bytes = item(token, sep, rest);
    if token.len() == 0 {
        assert(bytes.skip(1) =~= rest);
    } else {
        let b = token[0];
        let tail = token.skip(1);
        lemma_split_item_of_item(tail, sep, rest);
        assert(seq![b] + tail =~= token);
        if is_plain(b) {
            assert(bytes.skip(1) =~= item(tail, sep, rest));
        } else {
            assert(bytes.skip(3) =~= item(tail, sep, rest));
            assert(bytes[0] == PERCENT);
            assert(bytes[1] == hex_digit(b / 16));
            assert(bytes[2] == hex_digit(b % 16));
            assert(hex_value(bytes[1]) == Some((b / 16) as u8));
            assert(hex_value(bytes[2]) == Some((b % 16) as u8));
            assert(((b / 16) * 16 + b % 16) as u8 == b);
        }
    }
}

/// Reads one item whose token is a text from the front of `bytes`. `None`
/// where `bytes` does not start with an item, or the token is not UTF-8.
pub open spec fn split_text(bytes: Seq<u8>) -> Option<(Seq<char>, u8, Seq<u8>)> {
    match split_item(bytes) {
        Some((token, sep, rest)) => if valid_utf8(token) {
            Some((decode_utf8(token), sep, rest))
        } else {
            None
        },
        None => None,
    }
}

/// A text that was written as an item is read back as it was.
pub proof fn lemma_split_text_of_item(text: Seq<char>, sep: u8, rest: Seq<u8>)
    requires
        is_separator(sep),
    ensures
        split_text(item(text_bytes(text), sep, rest)) == Some((text, sep, rest)),
{
    lemma_split_item_of_item(text_bytes(text), sep, rest);
    encode_utf8_valid_utf8(text);
    encode_utf8_decode_utf8(text);
}

/// The token that `escaped` is the escaped form of, if it is one of any.
pub open spec fn unescape(escaped: Seq<u8>) -> Option<Seq<u8>> {
    match split_item(escaped + seq![NEWLINE]) {
        Some((token, sep, rest)) => if rest.len() == 0 {
            Some(token)
        } else {
            None
        },
        None => None,
    }
}

/// The escaped form of a token gives the token back.
pub proof fn lemma_unescape_of_escape(token: Seq<u8>)
    ensures
        unescape(escape(token)) == Some(token),
{
    lemma_split_item_of_item(token, NEWLINE, Seq::empty());
    assert(item(token, NEWLINE, Seq::empty()) =~= escape(token) + seq![NEWLINE]);
}

/// Every byte of an escaped token is printable ASCII.
pub proof fn lemma_escape_is_ascii(token: Seq<u8>, i: int)
    requires
        0 <= i < escape(token).len(),
    ensures
        0x21 <= escape(token)[i] <= 0x7e,
    decreases token.len(),
{
    if token.len() > 0 {
        let head = escape_byte(token[0]);
        if i >= head.len() {
            lemma_escape_is_ascii(token.skip(1), i - head.len());
        }
    }
}

/// The hexadecimal digit for `n`.
fn hex_digit_of(n: u8) -> (d: u8)
    requires
        n < 16,
    ensures
        d == hex_digit(n),
{
    if n < 10 {
        0x30 + n
    } else {
        0x37 + n
    }
}

/// The value of the hexadecimal digit `d`.
fn hex_value_of(d: u8) -> (v: Option<u8>)
    ensures
        v == hex_value(d),
        v matches Some(n) ==> n < 16,
{
    if 0x30 <= d && d <= 0x39 {
        Some(d - 0x30)
    } else if 0x41 <= d && d <= 0x46 {
        Some(d - 0x37)
    } else {
        None
    }
}

/// Appends the escaped form of `token` to `out`.
pub fn push_escaped(out: &mut Vec<u8>, token: &[u8])
    ensures
        final(out)@ == old(out)@ + escape(token@),
{
    let ghost before = out@;
    let mut i: usize = 0;
    assert(token@.skip(0) =~= token@);
    while i < token.len()
        invariant
            i <= token.len(),
            out@ + escape(token@.skip(i as int)) == before + escape(token@),
        decreases token.len() - i,
    {
        let b = token[i];
        proof {
            assert(token@.skip(i as int).skip(1) =~= token@.skip(i + 1));
            assert(token@.skip(i as int)[0] == b);
        }
        let ghost previous = out@;
        if 0x21 <= b && b <= 0x7e && b != PERCENT {
            out.push(b);
            assert(out@ =~= previous + escape_byte(b));
        } else {
            out.push(PERCENT);
            out.push(hex_digit_of(b / 16));
            out.push(hex_digit_of(b % 16));
            assert(out@ =~= previous + escape_byte(b));
        }
        proof {
            assert(out@ + escape(token@.skip(i + 1)) =~= previous + escape(token@.skip(i as int)));
        }
        i += 1;
    }
    proof {
        assert(escape(token@.skip(i as int)) =~= Seq::<u8>::empty());
        assert(out@ =~= before + escape(token@));
    }
}

/// Appends one item, `token` in escaped form and then `sep`, to `out`.
pub fn push_item(out: &mut Vec<u8>, token: &[u8], sep: u8)
    ensures
        final(out)@ == old(out)@ + escape(token@) + seq![sep],
{
    push_escaped(out, token);
    out.push(sep);
}

/// Reads the item that starts at `start`. Gives its token, its separator and
/// the position behind it; `None` where no item starts there.
pub fn take_item(bytes: &[u8], start: usize) -> (r: Option<(Vec<u8>, u8, usize)>)
    requires
        start <= bytes.len(),
    ensures
        match r {
            Some((token, sep, next)) => {
                &&& start < next <= bytes@.len()
                &&& is_separator(sep)
                &&& split_item(bytes@.skip(start as int)) == Some(
                    (token@, sep, bytes@.skip(next as int)),
                )
            },
            None => split_item(bytes@.skip(start as int)) is None,
        },
{
    let ghost whole = split_item(bytes@.skip(start as int));
    let mut token: Vec<u8> = Vec::new();
    let mut pos: usize = start;
    while pos < bytes.len()
        invariant
            start <= pos <= bytes.len(),
            whole == split_item(bytes@.skip(start as int)),
            whole == extend_item(token@, split_item(bytes@.skip(pos as int))),
        decreases bytes.len() - pos,
    {
        let b = bytes[pos];
        let ghost here = bytes@.skip(pos as int);
        let ghost so_far = token@;
        proof {
            assert(here[0] == b);
            assert(here.skip(1) =~= bytes@.skip(pos + 1));
        }
        if b == SPACE || b == NEWLINE {
            proof {
                assert(so_far + Seq::<u8>::empty() =~= so_far);
            }
            return Some((token, b, pos + 1));
        } else if 0x21 <= b && b <= 0x7e && b != PERCENT {
            token.push(b);
            proof {
                let inner = split_item(bytes@.skip(pos + 1));
                if let Some((t, s, r)) = inner {
                    assert(so_far + (seq![b] + t) =~= token@ + t);
                }
            }
            pos += 1;
        } else if b == PERCENT && bytes.len() - pos >= 3 {
            let hi = hex_value_of(bytes[pos + 1]);
            let lo = hex_value_of(bytes[pos + 2]);
            proof {
                assert(here[1] == bytes@[pos + 1]);
                assert(here[2] == bytes@[pos + 2]);
                assert(here.skip(3) =~= bytes@.skip(pos + 3));
            }
            match (hi, lo) {
                (Some(h), Some(l)) => {
                    let value: u8 = h * 16 + l;
                    token.push(value);
                    proof {
                        let inner = split_item(bytes@.skip(pos + 3));
                        if let Some((t, s, r)) = inner {
                            assert(so_far + (seq![value] + t) =~= token@ + t);
                        }
                    }
                    pos += 3;
                },
                _ => {
                    return None;
                },
            }
        } else {
            return None;
        }
    }
    proof {
        assert(bytes@.skip(pos as int).len() == 0);
    }
    None
}

/// The escaped form of `token`.
pub fn escaped(token: &[u8]) -> (r: Vec<u8>)
    ensures
        r@ == escape(token@),
{
    let mut out: Vec<u8> = Vec::new();
    push_escaped(&mut out, token);
    proof {
        assert(Seq::<u8>::empty() + escape(token@) =~= escape(token@));
    }
    out
}

/// The token that `bytes` is the escaped form of.
pub fn unescaped(bytes: &[u8]) -> (r: Option<Vec<u8>>)
    ensures
        match r {
            Some(token) => unescape(bytes@) == Some(token@),
            None => unescape(bytes@) is None,
        },
{
    let mut line = vstd::slice::slice_to_vec(bytes);
    line.push(NEWLINE);
    proof {
        assert(line@ =~= bytes@ + seq![NEWLINE]);
        assert(line@.skip(0) =~= line@);
    }
    match take_item(line.as_slice(), 0) {
        Some((token, sep, next)) => {
            proof {
                assert(line@.skip(next as int).len() == line@.len() - next);
            }
            if next == line.len() {
                Some(token)
            } else {
                None
            }
        },
        None => None,
    }
}

/// Appends one item whose token is `text` to `out`.
pub fn push_text_item(out: &mut Vec<u8>, text: &str, sep: u8)
    ensures
        final(out)@ == old(out)@ + escape(text_bytes(text@)) + seq![sep],
{
    let bytes = bytes_of_text(text);
    push_item(out, bytes.as_slice(), sep);
}

/// Reads the item that starts at `start` and whose token is a text.
pub fn take_text(bytes: &[u8], start: usize) -> (r: Option<(String, u8, usize)>)
    requires
        start <= bytes.len(),
    ensures
        match r {
            Some((text, sep, next)) => {
                &&& start < next <= bytes@.len()
                &&& is_separator(sep)
                &&& split_text(bytes@.skip(start as int)) == Some(
                    (text@, sep, bytes@.skip(next as int)),
                )
            },
            None => split_text(bytes@.skip(start as int)) is None,
        },
{
    match take_item(bytes, start) {
        Some((token, sep, next)) => {
            match text_of_bytes(token) {
                Some(text) => {
                    proof {
                        encode_utf8_valid_utf8(text@);
                        encode_utf8_decode_utf8(text@);
                    }
                    Some((text, sep, next))
                },
                None => None,
            }
        },
        None => None,
    }
}

} // verus!
