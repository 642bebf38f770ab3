use url_encor::{
    from_hex, from_hex_bytes_to_value_bytes, is_unreserved, preprocess_ascii_convertable,
    to_hex_digit, HEX_BYTE_TO_HEX_VALUE, HEX_DIGITS, PREPROCESSED_ARRAY,
};

#[test]
fn test_preprocessed_hex_conversion() {
    assert_eq!(HEX_BYTE_TO_HEX_VALUE, from_hex_bytes_to_value_bytes())
}

#[test]
fn test_preprocessed_ascii_convertable() {
    assert_eq!(PREPROCESSED_ARRAY, preprocess_ascii_convertable())
}

#[test]
fn test_hex_values() {
    let hex_chars: [char; 16] = [
        '0', '1', '2', '3', '4', '5', '6', '7', '8', '9', 'A', 'B', 'C', 'D', 'E', 'F',
    ];

    for i in 0..16usize {
        assert_eq!(HEX_DIGITS[i], hex_chars[i] as u8);
    }
}

#[test]
fn test_from_hex_function() {
    for i in 0..HEX_BYTE_TO_HEX_VALUE.len() {
        let result1 = from_hex(i as u8);
        let result2 = HEX_BYTE_TO_HEX_VALUE[i];
        if let (None, -1) = (result1, result2) {
            continue;
        } else if result1.is_none() {
            assert!(false, "{}", format!("The function returned {:?} but {} was expected", result1, result2))
        }

        assert_eq!(result2, result1.unwrap() as i16)
    }
}

#[test]
fn classification_table_edges() {
    let table = preprocess_ascii_convertable();
    for b in [b'0', b'9', b'A', b'Z', b'a', b'z', b'-', b'_', b'.', b'~'] {
        assert_eq!(table[b as usize], 1);
        assert!(is_unreserved(b));
    }
    for b in [0u8, b'/', b':', b'@', b'[', b'`', b'{', b' ', b'%', b'+', 0x7F, 0x80, 0xFF] {
        assert_eq!(table[b as usize], 0);
        assert!(!is_unreserved(b));
    }
    assert_eq!(table.iter().filter(|&&v| v == 1).count(), 66);
}

#[test]
fn hex_value_table_edges() {
    let table = from_hex_bytes_to_value_bytes();
    assert_eq!(table[b'0' as usize], 0);
    assert_eq!(table[b'9' as usize], 9);
    assert_eq!(table[b'A' as usize], 10);
    assert_eq!(table[b'f' as usize], 15);
    assert_eq!(table[b'G' as usize], -1);
    assert_eq!(table[b'g' as usize], -1);
    assert_eq!(table[b'/' as usize], -1);
    assert_eq!(table[b':' as usize], -1);
    assert_eq!(table[b'@' as usize], -1);
    assert_eq!(table[b'`' as usize], -1);
    assert_eq!(table.iter().filter(|&&v| v >= 0).count(), 22);
}

#[test]
fn from_hex_both_cases() {
    assert_eq!(from_hex(b'c'), Some(12));
    assert_eq!(from_hex(b'C'), Some(12));
    assert_eq!(from_hex(b'x'), None);
    assert_eq!(to_hex_digit(0), b'0');
    assert_eq!(to_hex_digit(11), b'B');
    assert_eq!(to_hex_digit(15), b'F');
}
