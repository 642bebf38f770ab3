use url_encor::{decode, decode_to_bytes, encode, Encoder};

#[test]
fn round_trip_all_bytes_of_text() {
    let text: String = (1u32..0x800).filter_map(char::from_u32).collect();
    assert_eq!(decode(&encode(&text)), text);
    assert_eq!(decode(&encode("")), "");
}

#[test]
fn unreserved_text_is_unchanged() {
    let s = "ABCXYZabcxyz0123456789-_.~";
    assert_eq!(encode(s), s);
    assert_eq!(encode(""), "");
}

#[test]
fn reserved_bytes_triple_in_length() {
    let s = " !/:@[`{\u{7f}é€";
    assert_eq!(encode(s).len(), 3 * s.len());
    assert_eq!(encode(" "), "%20");
    assert_eq!(encode("\u{0}"), "%00");
    assert_eq!(encode("\u{ff}"), "%C3%BF");
}

#[test]
fn tolerant_decode_keeps_malformed_escapes() {
    assert_eq!(decode("%"), "%");
    assert_eq!(decode("%2"), "%2");
    assert_eq!(decode("%2G"), "%2G");
    assert_eq!(decode("100%"), "100%");
    assert_eq!(decode("%G2"), "%G2");
    assert_eq!(decode("%%41"), "%%41");
    assert_eq!(decode("a%+b"), "a%+b");
    assert_eq!(decode("%+20"), "%+20");
    assert_eq!(decode("%41%"), "A%");
}

#[test]
fn plus_becomes_space() {
    assert_eq!(decode("Hello+World"), "Hello World");
    assert_eq!(decode("1+2+3"), "1 2 3");
    assert_eq!(decode("%2B+"), "+ ");
}

#[test]
fn literal_scenarios() {
    assert_eq!(encode("Hello, World!"), "Hello%2C%20World%21");
    assert_eq!(decode("Hello%2C%20World%21"), "Hello, World!");
    assert_eq!(encode("user@example.com"), "user%40example.com");
    assert_eq!(encode("abc123"), "abc123");
    assert_eq!(encode("世界"), "%E4%B8%96%E7%95%8C");
    assert_eq!(decode("%E4%B8%96%E7%95%8C"), "世界");
}

#[test]
fn hex_decode_ignores_case() {
    assert_eq!(decode("%2c"), ",");
    assert_eq!(decode("%2C"), ",");
    assert_eq!(decode("%e4%b8%96"), "世");
    assert_eq!(decode("%aB%Cd"), decode("%AB%CD"));
}

#[test]
fn decode_to_bytes_gives_raw_bytes() {
    assert_eq!(decode_to_bytes("%FF%00a+%zz"), vec![0xFF, 0x00, b'a', b' ', b'%', b'z', b'z']);
    assert_eq!(decode_to_bytes(""), Vec::<u8>::new());
}

#[test]
fn invalid_utf8_is_replaced() {
    assert_eq!(decode("%FF"), "\u{FFFD}");
    assert_eq!(decode("a%C3"), "a\u{FFFD}");
    assert_eq!(decode("%E4%B8"), "\u{FFFD}");
}

#[test]
fn encoder_on_str_and_vectors() {
    let s: &str = "a b";
    assert_eq!(s.url_encode(), "a%20b");
    assert_eq!("a%20b+c".url_decode(), "a b c");
    let v = vec![String::from("x y"), String::from("1+1")];
    let e = v.url_encode();
    assert_eq!(e, vec![String::from("x%20y"), String::from("1%2B1")]);
    assert_eq!(e.url_decode(), v);
    assert_eq!(String::from("%41").url_decode(), "A");
}
