//! Byte classification and hexadecimal digits.
use vstd::prelude::*;

verus! {

/// The uppercase hexadecimal digits, in order of value.
pub const HEX_DIGITS: [u8; 16] = [
    0x30, 0x31, 0x32, 0x33, 0x34, 0x35, 0x36, 0x37, 0x38, 0x39, 0x41, 0x42, 0x43, 0x44, 0x45, 0x46,
];

/// The classification table as `preprocess_ascii_convertable` builds it:
/// 1 for a byte that is kept, 0 for one that is escaped.
pub const PREPROCESSED_ARRAY: [u8; 256] = [
    0, 0, 0, 0, 0, 0, 0, 0, 0, 0, 0, 0, 0, 0, 0, 0,
    0, 0, 0, 0, 0, 0, 0, 0, 0, 0, 0, 0, 0, 0, 0, 0,
    0, 0, 0, 0, 0, 0, 0, 0, 0, 0, 0, 0, 0, 1, 1, 0,
    1, 1, 1, 1, 1, 1, 1, 1, 1, 1, 0, 0, 0, 0, 0, 0,
    0, 1, 1, 1, 1, 1, 1, 1, 1, 1, 1, 1, 1, 1, 1, 1,
    1, 1, 1, 1, 1, 1, 1, 1, 1, 1, 1, 0, 0, 0, 0, 1,
    0, 1, 1, 1, 1, 1, 1, 1, 1, 1, 1, 1, 1, 1, 1, 1,
    1, 1, 1, 1, 1, 1, 1, 1, 1, 1, 1, 0, 0, 0, 1, 0,
    0, 0, 0, 0, 0, 0, 0, 0, 0, 0, 0, 0, 0, 0, 0, 0,
    0, 0, 0, 0, 0, 0, 0, 0, 0, 0, 0, 0, 0, 0, 0, 0,
    0, 0, 0, 0, 0, 0, 0, 0, 0, 0, 0, 0, 0, 0, 0, 0,
    0, 0, 0, 0, 0, 0, 0, 0, 0, 0, 0, 0, 0, 0, 0, 0,
    0, 0, 0, 0, 0, 0, 0, 0, 0, 0, 0, 0, 0, 0, 0, 0,
    0, 0, 0, 0, 0, 0, 0, 0, 0, 0, 0, 0, 0, 0, 0, 0,
    0, 0, 0, 0, 0, 0, 0, 0, 0, 0, 0, 0, 0, 0, 0, 0,
    0, 0, 0, 0, 0, 0, 0, 0, 0, 0, 0, 0, 0, 0, 0, 0,
];

/// The hexadecimal value table as `from_hex_bytes_to_value_bytes` builds it:
/// the value of each digit byte, -1 for any other byte.
pub const HEX_BYTE_TO_HEX_VALUE: [i16; 256] = [
    -1, -1, -1, -1, -1, -1, -1, -1, -1, -1, -1, -1, -1, -1, -1, -1,
    -1, -1, -1, -1, -1, -1, -1, -1, -1, -1, -1, -1, -1, -1, -1, -1,
    -1, -1, -1, -1, -1, -1, -1, -1, -1, -1, -1, -1, -1, -1, -1, -1,
    0, 1, 2, 3, 4, 5, 6, 7, 8, 9, -1, -1, -1, -1, -1, -1,
    -1, 10, 11, 12, 13, 14, 15, -1, -1, -1, -1, -1, -1, -1, -1, -1,
    -1, -1, -1, -1, -1, -1, -1, -1, -1, -1, -1, -1, -1, -1, -1, -1,
    -1, 10, 11, 12, 13, 14, 15, -1, -1, -1, -1, -1, -1, -1, -1, -1,
    -1, -1, -1, -1, -1, -1, -1, -1, -1, -1, -1, -1, -1, -1, -1, -1,
    -1, -1, -1, -1, -1, -1, -1, -1, -1, -1, -1, -1, -1, -1, -1, -1,
    -1, -1, -1, -1, -1, -1, -1, -1, -1, -1, -1, -1, -1, -1, -1, -1,
    -1, -1, -1, -1, -1, -1, -1, -1, -1, -1, -1, -1, -1, -1, -1, -1,
    -1, -1, -1, -1, -1, -1, -1, -1, -1, -1, -1, -1, -1, -1, -1, -1,
    -1, -1, -1, -1, -1, -1, -1, -1, -1, -1, -1, -1, -1, -1, -1, -1,
    -1, -1, -1, -1, -1, -1, -1, -1, -1, -1, -1, -1, -1, -1, -1, -1,
    -1, -1, -1, -1, -1, -1, -1, -1, -1, -1, -1, -1, -1, -1, -1, -1,
    -1, -1, -1, -1, -1, -1, -1, -1, -1, -1, -1, -1, -1, -1, -1, -1,
];

/// A byte that passes through encoding unchanged: an ASCII letter or digit,
/// or one of `-`, `_`, `.`, `~`.
pub open spec fn unreserved(b: u8) -> bool {
    ||| 0x30 <= b <= 0x39
    ||| 0x41 <= b <= 0x5A
    ||| 0x61 <= b <= 0x7A
    ||| b == 0x2D
    ||| b == 0x5F
    ||| b == 0x2E
    ||| b == 0x7E
}

/// The value of an ASCII hexadecimal digit of either case; `None` for any
/// other byte.
pub open spec fn hex_value(b: u8) -> Option<u8> {
    if 0x30 <= b <= 0x39 {
        Some((b - 0x30) as u8)
    } else if 0x41 <= b <= 0x46 {
        Some((b - 0x41 + 10) as u8)
    } else if 0x61 <= b <= 0x66 {
        Some((b - 0x61 + 10) as u8)
    } else {
        None
    }
}

/// The uppercase ASCII digit for a value below 16.
pub open spec fn hex_digit(n: u8) -> u8
    recommends
        n < 16,
{
    if n < 10 {
        (0x30 + n) as u8
    } else {
        (0x41 + n - 10) as u8
    }
}

/// Entry `b` of the classification table: 1 where `b` is unreserved, else 0.
pub open spec fn classification_entry(b: u8) -> u8 {
    if unreserved(b) {
        1
    } else {
        0
    }
}

/// Entry `b` of the hexadecimal value table: the digit's value, or -1 where
/// `b` is no hexadecimal digit.
pub open spec fn hex_value_entry(b: u8) -> i16 {
    match hex_value(b) {
        Some(v) => v as i16,
        None => -1i16,
    }
}

/// The three constant tables hold what the spec functions say.
pub proof fn tables_agree()
    ensures
        forall|i: int| 0 <= i < 256 ==> #[trigger] PREPROCESSED_ARRAY@[i] == classification_entry(i as u8),
        forall|i: int| 0 <= i < 256 ==> #[trigger] HEX_BYTE_TO_HEX_VALUE@[i] == hex_value_entry(i as u8),
        forall|i: int| 0 <= i < 16 ==> #[trigger] HEX_DIGITS@[i] == hex_digit(i as u8),
{
}

/// Whether `b` is left as it is by encoding, read from the classification
/// table.
pub fn is_unreserved(b: u8) -> (r: bool)
    ensures
        r == unreserved(b),
{
    proof {
        tables_agree();
    }
    PREPROCESSED_ARRAY[b as usize] == 1
}

/// The value of the hexadecimal digit `c`, if it is one, read from the
/// hexadecimal value table.
pub fn from_hex(c: u8) -> (r: Option<u8>)
    ensures
        r == hex_value(c),
{
    proof {
        tables_agree();
    }
    let v = HEX_BYTE_TO_HEX_VALUE[c as usize];
    if v >= 0 {
        Some(v as u8)
    } else {
        None
    }
}

/// The uppercase hexadecimal digit for `n`.
pub fn to_hex_digit(n: u8) -> (r: u8)
    requires
        n < 16,
    ensures
        r == hex_digit(n),
{
    proof {
        tables_agree();
    }
    HEX_DIGITS[n as usize]
}

/// Builds the classification table: entry `b` is 1 where byte `b` is left as
/// it is by encoding, 0 where it is escaped.
pub fn preprocess_ascii_convertable() -> (r: [u8; 256])
    ensures
        forall|i: int| 0 <= i < 256 ==> #[trigger] r@[i] == classification_entry(i as u8),
        r@ == PREPROCESSED_ARRAY@,
{
    let mut array = [0u8; 256];
    let mut index: usize = 0;
    while index < 256
        invariant
            0 <= index <= 256,
            forall|j: int| 0 <= j < index ==> #[trigger] array@[j] == classification_entry(j as u8),
        decreases 256 - index,
    {
        let b = index as u8;
        if (0x30 <= b && b <= 0x39) || (0x41 <= b && b <= 0x5A) || (0x61 <= b && b <= 0x7A) || b
            == 0x2D || b == 0x5F || b == 0x2E || b == 0x7E {
            array[index] = 1;
        } else {
            array[index] = 0;
        }
        index += 1;
    }
    proof {
        tables_agree();
    }
    assert(array@ =~= PREPROCESSED_ARRAY@);
    array
}

/// Builds the hexadecimal value table: entry `b` is the value of the digit
/// `b` of either case, -1 where `b` is no hexadecimal digit.
pub fn from_hex_bytes_to_value_bytes() -> (r: [i16; 256])
    ensures
        forall|i: int| 0 <= i < 256 ==> #[trigger] r@[i] == hex_value_entry(i as u8),
        r@ == HEX_BYTE_TO_HEX_VALUE@,
{
    let mut array = [-1i16; 256];
    let mut index: usize = 0;
    while index < 256
        invariant
            0 <= index <= 256,
            forall|j: int| 0 <= j < index ==> #[trigger] array@[j] == hex_value_entry(j as u8),
            forall|j: int| index <= j < 256 ==> #[trigger] array@[j] == -1,
        decreases 256 - index,
    {
        let b = index as u8;
        if 0x30 <= b && b <= 0x39 {
            array[index] = (b - 0x30) as i16;
        } else if 0x41 <= b && b <= 0x46 {
            array[index] = (b - 0x41 + 10) as i16;
        } else if 0x61 <= b && b <= 0x66 {
            array[index] = (b - 0x61 + 10) as i16;
        }
        index += 1;
    }
    proof {
        tables_agree();
    }
    assert(array@ =~= HEX_BYTE_TO_HEX_VALUE@);
    array
}

} // verus!
