//! Percent-encoding and decoding of byte sequences after the unreserved
//! characters of RFC 3986, with `+` read as a space when decoding.
mod encoder;
mod implementations;
pub mod preprocessing;
mod properties;

use vstd::prelude::*;
use vstd::utf8::{decode_utf8, encode_utf8, valid_utf8};

pub use encoder::Encoder;
pub use preprocessing::{
    classification_entry, from_hex, from_hex_bytes_to_value_bytes, hex_digit, hex_value,
    hex_value_entry, is_unreserved, preprocess_ascii_convertable, tables_agree, to_hex_digit,
    unreserved, HEX_BYTE_TO_HEX_VALUE, HEX_DIGITS, PREPROCESSED_ARRAY,
};
pub use properties::{
    decode_inverts_encode, encode_keeps_unreserved_text, encode_triples_reserved_text,
    unreserved_char,
};

use properties::{percent_encode_append, percent_encode_single};

verus! {

/// What one byte becomes when encoded: itself when it is unreserved, else
/// `%` and its two uppercase hexadecimal digits.
pub open spec fn escape_byte(b: u8) -> Seq<u8> {
    if unreserved(b) {
        seq![b]
    } else {
        seq![0x25u8, hex_digit(b / 16), hex_digit(b % 16)]
    }
}

/// The percent-encoding of a byte sequence, byte by byte in order.
pub open spec fn percent_encode(bs: Seq<u8>) -> Seq<u8>
    decreases bs.len(),
{
    if bs.len() == 0 {
        seq![]
    } else {
        escape_byte(bs[0]) + percent_encode(bs.drop_first())
    }
}

/// Bytes read one for one as characters.
pub open spec fn ascii_text(bs: Seq<u8>) -> Seq<char> {
    bs.map_values(|b: u8| b as char)
}

/// The text that encoding `s` yields: the percent-encoding of its UTF-8 bytes.
pub open spec fn encoded_text(s: Seq<char>) -> Seq<char> {
    ascii_text(percent_encode(encode_utf8(s)))
}

/// Relies on `String::push`: the character is appended at the end.
#[verifier::external_body]
fn push_char(s: &mut String, c: char)
    ensures
        final(s)@ == old(s)@.push(c),
{
    s.push(c);
}

/// Percent-encodes the UTF-8 bytes of `str_to_encode`: unreserved bytes are
/// kept, every other byte becomes `%` and two uppercase hexadecimal digits.
pub fn encode(str_to_encode: &str) -> (r: String)
    ensures
        r@ == encoded_text(str_to_encode@),
{
    let bytes = str_to_encode.as_bytes();
    let mut encoded_string = String::new();
    let mut i: usize = 0;
    while i < bytes.len()
        invariant
            bytes@ == encode_utf8(str_to_encode@),
            0 <= i <= bytes@.len(),
            encoded_string@ == ascii_text(percent_encode(bytes@.take(i as int))),
        decreases bytes@.len() - i,
    {
        let current_byte = bytes[i];
        proof {
            percent_encode_append(bytes@.take(i as int), seq![current_byte]);
            assert(bytes@.take(i + 1) =~= bytes@.take(i as int) + seq![current_byte]);
            percent_encode_single(current_byte);
        }
        if is_unreserved(current_byte) {
            push_char(&mut encoded_string, current_byte as char);
        } else {
            assert(current_byte >> 4 == current_byte / 16 && current_byte & 0xF == current_byte % 16)
                by (bit_vector);
            push_char(&mut encoded_string, '%');
            push_char(&mut encoded_string, to_hex_digit(current_byte >> 4) as char);
            push_char(&mut encoded_string, to_hex_digit(current_byte & 0xF) as char);
        }
        assert(encoded_string@ =~= ascii_text(percent_encode(bytes@.take(i + 1))));
        i += 1;
    }
    assert(bytes@.take(i as int) =~= bytes@);
    encoded_string
}

/// The bytes that decoding yields: `%` with two hexadecimal digits of either
/// case becomes the byte they spell; `%` with fewer than two bytes after it
/// stands for itself; `%` with two bytes that are not both digits is kept
/// with them, all three as they are; `+` becomes a space; any other byte is
/// kept.
pub open spec fn percent_decode(bs: Seq<u8>) -> Seq<u8>
    decreases bs.len(),
{
    if bs.len() == 0 {
        seq![]
    } else if bs[0] == 0x25 && bs.len() >= 3 {
        let rest = percent_decode(bs.skip(3));
        match (hex_value(bs[1]), hex_value(bs[2])) {
            (Some(hi), Some(lo)) => seq![(hi * 16 + lo) as u8] + rest,
            _ => seq![0x25u8, bs[1], bs[2]] + rest,
        }
    } else if bs[0] == 0x2B {
        seq![0x20u8] + percent_decode(bs.drop_first())
    } else {
        seq![bs[0]] + percent_decode(bs.drop_first())
    }
}

/// What `String::from_utf8_lossy` makes of bytes that are not valid UTF-8.
pub uninterp spec fn lossy_utf8(b: Seq<u8>) -> Seq<char>;

/// Bytes read as UTF-8 text: decoded exactly where they are valid UTF-8,
/// else with invalid sequences replaced.
pub open spec fn utf8_text(b: Seq<u8>) -> Seq<char> {
    if valid_utf8(b) {
        decode_utf8(b)
    } else {
        lossy_utf8(b)
    }
}

/// The text that decoding `s` yields.
pub open spec fn decoded_text(s: Seq<char>) -> Seq<char> {
    utf8_text(percent_decode(encode_utf8(s)))
}

/// Relies on `String::from_utf8_lossy`: valid UTF-8 comes back as the text it
/// encodes, anything else with invalid sequences replaced.
#[verifier::external_body]
fn text_from_utf8_lossy(b: &[u8]) -> (r: String)
    ensures
        valid_utf8(b@) ==> r@ == decode_utf8(b@),
        !valid_utf8(b@) ==> r@ == lossy_utf8(b@),
{
    String::from_utf8_lossy(b).into_owned()
}

/// Decodes the UTF-8 bytes of `str_to_decode` into bytes: `%XX` escapes with
/// two hexadecimal digits of either case give the byte they spell, malformed
/// escapes are kept as they stand, and `+` gives a space.
pub fn decode_to_bytes(str_to_decode: &str) -> (r: Vec<u8>)
    ensures
        r@ == percent_decode(encode_utf8(str_to_decode@)),
{
    let bytes = str_to_decode.as_bytes();
    let mut decoded_bytes: Vec<u8> = Vec::new();
    let mut i: usize = 0;
    assert(bytes@.skip(0) =~= bytes@);
    assert(decoded_bytes@ + percent_decode(bytes@) =~= percent_decode(bytes@));
    while i < bytes.len()
        invariant
            bytes@ == encode_utf8(str_to_decode@),
            0 <= i <= bytes@.len(),
            percent_decode(bytes@) == decoded_bytes@ + percent_decode(bytes@.skip(i as int)),
        decreases bytes@.len() - i,
    {
        let ghost rest = bytes@.skip(i as int);
        let ghost before = decoded_bytes@;
        assert(rest[0] == bytes@[i as int]);
        if bytes[i] == 0x25 && bytes.len() - i > 2 {
            assert(rest.skip(3) =~= bytes@.skip(i + 3));
            assert(rest[1] == bytes@[i + 1] && rest[2] == bytes@[i + 2]);
            match (from_hex(bytes[i + 1]), from_hex(bytes[i + 2])) {
                (Some(n1), Some(n2)) => {
                    assert((n1 << 4) | n2 == n1 * 16 + n2) by (bit_vector)
                        requires
                            n1 < 16,
                            n2 < 16,
                    ;
                    decoded_bytes.push((n1 << 4) | n2);
                },
                _ => {
                    decoded_bytes.push(0x25);
                    decoded_bytes.push(bytes[i + 1]);
                    decoded_bytes.push(bytes[i + 2]);
                },
            }
            assert(decoded_bytes@ + percent_decode(bytes@.skip(i + 3)) =~= before + percent_decode(rest));
            i += 3;
        } else {
            assert(rest.drop_first() =~= bytes@.skip(i + 1));
            if bytes[i] == 0x2B {
                decoded_bytes.push(0x20);
            } else {
                decoded_bytes.push(bytes[i]);
            }
            assert(decoded_bytes@ + percent_decode(bytes@.skip(i + 1)) =~= before + percent_decode(rest));
            i += 1;
        }
    }
    assert(bytes@.skip(i as int) =~= Seq::<u8>::empty());
    assert(decoded_bytes@ + Seq::<u8>::empty() =~= decoded_bytes@);
    decoded_bytes
}

/// Decodes `str_to_decode` and reads the resulting bytes as UTF-8 text,
/// replacing invalid sequences.
pub fn decode(str_to_decode: &str) -> (r: String)
    ensures
        r@ == decoded_text(str_to_decode@),
{
    let decoded_bytes = decode_to_bytes(str_to_decode);
    text_from_utf8_lossy(decoded_bytes.as_slice())
}

} // verus!
