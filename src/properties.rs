//! Facts about the encoding and decoding of byte sequences, and the laws that
//! relate `encode` and `decode`.
use vstd::prelude::*;
use vstd::utf8::{
    decode_utf8, encode_utf8, encode_utf8_decode_utf8, encode_utf8_valid_utf8, is_ascii_chars,
    is_ascii_chars_encode_utf8,
};

use crate::preprocessing::{hex_digit, hex_value, unreserved};
use crate::{
    ascii_text, decoded_text, encoded_text, escape_byte, percent_decode, percent_encode, utf8_text,
};

verus! {

/// Encoding distributes over concatenation.
pub proof fn percent_encode_append(a: Seq<u8>, b: Seq<u8>)
    ensures
        percent_encode(a + b) == percent_encode(a) + percent_encode(b),
    decreases a.len(),
{
    if a.len() == 0 {
        assert(a + b =~= b);
        assert(percent_encode(a) + percent_encode(b) =~= percent_encode(b));
    } else {
        percent_encode_append(a.drop_first(), b);
        assert((a + b).drop_first() =~= a.drop_first() + b);
        assert(percent_encode(a + b) =~= escape_byte(a[0]) + percent_encode(a.drop_first() + b));
    }
}

/// Encoding one byte gives its escape.
pub proof fn percent_encode_single(b: u8)
    ensures
        percent_encode(seq![b]) == escape_byte(b),
{
    assert(seq![b].drop_first() =~= Seq::<u8>::empty());
    assert(percent_encode(Seq::<u8>::empty()) =~= Seq::<u8>::empty());
    assert(percent_encode(seq![b]) =~= escape_byte(b));
}

/// A hexadecimal digit reads back as the value it was written for.
proof fn hex_digit_value(n: u8)
    requires
        n < 16,
    ensures
        hex_value(hex_digit(n)) == Some(n),
{
}

/// Decoding the escape of a byte gives the byte back, whatever follows.
proof fn decode_escape_prefix(b: u8, t: Seq<u8>)
    ensures
        percent_decode(escape_byte(b) + t) == seq![b] + percent_decode(t),
{
    let e = escape_byte(b) + t;
    if unreserved(b) {
        assert(e.drop_first() =~= t);
    } else {
        hex_digit_value(b / 16);
        hex_digit_value(b % 16);
        assert(e.skip(3) =~= t);
        assert(e[1] == hex_digit(b / 16) && e[2] == hex_digit(b % 16));
        assert(((b / 16) * 16 + b % 16) as u8 == b);
    }
}

/// Decoding undoes encoding on byte sequences.
pub proof fn percent_decode_encode(bs: Seq<u8>)
    ensures
        percent_decode(percent_encode(bs)) == bs,
    decreases bs.len(),
{
    if bs.len() == 0 {
    } else {
        percent_decode_encode(bs.drop_first());
        decode_escape_prefix(bs[0], percent_encode(bs.drop_first()));
        assert(seq![bs[0]] + bs.drop_first() =~= bs);
    }
}

/// Every byte of an encoding is ASCII.
proof fn percent_encode_ascii(bs: Seq<u8>)
    ensures
        forall|i: int| 0 <= i < percent_encode(bs).len() ==> #[trigger] percent_encode(bs)[i] < 0x80,
    decreases bs.len(),
{
    if bs.len() > 0 {
        percent_encode_ascii(bs.drop_first());
        let e = escape_byte(bs[0]);
        let r = percent_encode(bs.drop_first());
        assert forall|i: int| 0 <= i < (e + r).len() implies #[trigger] (e + r)[i] < 0x80 by {
            if i >= e.len() {
                assert((e + r)[i] == r[i - e.len()]);
            }
        }
    }
}

/// ASCII bytes read as characters encode back to the same bytes.
proof fn encode_utf8_ascii_text(bs: Seq<u8>)
    requires
        forall|i: int| 0 <= i < bs.len() ==> #[trigger] bs[i] < 0x80,
    ensures
        encode_utf8(ascii_text(bs)) == bs,
{
    let t = ascii_text(bs);
    assert(is_ascii_chars(t));
    is_ascii_chars_encode_utf8(t);
    assert(encode_utf8(t) =~= bs);
}

/// Valid UTF-8 text read back from its own bytes is the same text.
proof fn utf8_text_encode_utf8(s: Seq<char>)
    ensures
        utf8_text(encode_utf8(s)) == s,
{
    encode_utf8_valid_utf8(s);
    encode_utf8_decode_utf8(s);
}

/// Decoding the encoding of any text gives the text back.
pub proof fn decode_inverts_encode(s: Seq<char>)
    ensures
        decoded_text(encoded_text(s)) == s,
{
    let bs = encode_utf8(s);
    percent_encode_ascii(bs);
    encode_utf8_ascii_text(percent_encode(bs));
    percent_decode_encode(bs);
    utf8_text_encode_utf8(s);
}

/// A character that encoding leaves as it is: an ASCII letter or digit, or
/// one of `-`, `_`, `.`, `~`.
pub open spec fn unreserved_char(c: char) -> bool {
    ||| '0' <= c <= '9'
    ||| 'A' <= c <= 'Z'
    ||| 'a' <= c <= 'z'
    ||| c == '-'
    ||| c == '_'
    ||| c == '.'
    ||| c == '~'
}

/// A byte sequence of unreserved bytes encodes to itself.
pub proof fn percent_encode_unreserved(bs: Seq<u8>)
    requires
        forall|i: int| 0 <= i < bs.len() ==> unreserved(#[trigger] bs[i]),
    ensures
        percent_encode(bs) == bs,
    decreases bs.len(),
{
    if bs.len() > 0 {
        percent_encode_unreserved(bs.drop_first());
        assert(seq![bs[0]] + bs.drop_first() =~= bs);
    }
}

/// Text made of unreserved characters only is its own encoding.
pub proof fn encode_keeps_unreserved_text(s: Seq<char>)
    requires
        forall|i: int| 0 <= i < s.len() ==> unreserved_char(#[trigger] s[i]),
    ensures
        encoded_text(s) == s,
{
    assert forall|i: int| 0 <= i < s.len() implies '\0' <= #[trigger] s[i] <= '\u{7f}' by {
        assert(unreserved_char(s[i]));
    }
    assert(is_ascii_chars(s));
    is_ascii_chars_encode_utf8(s);
    let bs = encode_utf8(s);
    assert forall|i: int| 0 <= i < bs.len() implies unreserved(#[trigger] bs[i]) by {
        assert(s[i] as u8 == bs[i]);
        assert(unreserved_char(s[i]));
    }
    percent_encode_unreserved(bs);
    assert(ascii_text(bs) =~= s);
}

/// A byte sequence with no unreserved byte encodes to three times its length.
pub proof fn percent_encode_reserved_len(bs: Seq<u8>)
    requires
        forall|i: int| 0 <= i < bs.len() ==> !unreserved(#[trigger] bs[i]),
    ensures
        percent_encode(bs).len() == 3 * bs.len(),
    decreases bs.len(),
{
    if bs.len() > 0 {
        assert(!unreserved(bs[0]));
        percent_encode_reserved_len(bs.drop_first());
    }
}

/// Text whose UTF-8 bytes are all reserved encodes to three characters per
/// byte.
pub proof fn encode_triples_reserved_text(s: Seq<char>)
    requires
        forall|i: int| 0 <= i < encode_utf8(s).len() ==> !unreserved(#[trigger] encode_utf8(s)[i]),
    ensures
        encoded_text(s).len() == 3 * encode_utf8(s).len(),
{
    percent_encode_reserved_len(encode_utf8(s));
}

} // verus!
