use bluetodo_tui::chars::{eq_ignore_ascii_case, is_control, is_whitespace};
use bluetodo_tui::codec::{decode_value, encode_value, from_hex};
use bluetodo_tui::crc::{crc32, crc32_hex, hex_digit};
use bluetodo_tui::error::ProtoError;

#[test]
fn crc32_check_value() {
    assert_eq!(crc32(b"123456789"), 0xCBF4_3926);
    assert_eq!(crc32(b""), 0);
}

#[test]
fn crc32_hex_is_eight_upper_case_digits() {
    assert_eq!(crc32_hex(b"123456789"), "CBF43926");
    assert_eq!(crc32_hex(b""), "00000000");
    assert_eq!(crc32_hex(b"HELLO seq=1"), "506B7578");
}

#[test]
fn hex_digits() {
    assert_eq!(hex_digit(0), '0');
    assert_eq!(hex_digit(9), '9');
    assert_eq!(hex_digit(10), 'A');
    assert_eq!(hex_digit(15), 'F');
}

#[test]
fn from_hex_both_cases() {
    assert_eq!(from_hex(b'0'), Some(0));
    assert_eq!(from_hex(b'9'), Some(9));
    assert_eq!(from_hex(b'a'), Some(10));
    assert_eq!(from_hex(b'F'), Some(15));
    assert_eq!(from_hex(b'g'), None);
    assert_eq!(from_hex(b'%'), None);
}

#[test]
fn encode_keeps_unreserved_bytes() {
    assert_eq!(encode_value("Abc-_.~09"), "Abc-_.~09");
    assert_eq!(encode_value(""), "");
}

#[test]
fn encode_escapes_other_bytes() {
    assert_eq!(encode_value("a b"), "a%20b");
    assert_eq!(encode_value("x=y&z"), "x%3Dy%26z");
    assert_eq!(encode_value("\u{e4}"), "%C3%A4");
    assert_eq!(encode_value("100%"), "100%25");
}

#[test]
fn decode_plain_and_escaped() {
    assert_eq!(decode_value("a%20b").unwrap(), "a b");
    assert_eq!(decode_value("%41%62").unwrap(), "Ab");
    assert_eq!(decode_value("%c3%a4").unwrap(), "\u{e4}");
    assert_eq!(decode_value("").unwrap(), "");
    assert_eq!(decode_value("\u{e4}").unwrap(), "\u{e4}");
}

#[test]
fn decode_bad_escapes() {
    assert!(matches!(decode_value("%4"), Err(ProtoError::BadEscape)));
    assert!(matches!(decode_value("%"), Err(ProtoError::BadEscape)));
    assert!(matches!(decode_value("a%zz"), Err(ProtoError::BadEscape)));
    assert!(matches!(decode_value("%4g"), Err(ProtoError::BadEscape)));
}

#[test]
fn decode_bad_utf8() {
    assert!(matches!(decode_value("%FF"), Err(ProtoError::BadUtf8)));
    assert!(matches!(decode_value("%C3"), Err(ProtoError::BadUtf8)));
}

#[test]
fn decode_of_encode_gives_back_the_text() {
    for text in ["", "hello world", "a=b c%d", "\u{e4}\u{f6}\u{fc} \u{1F600}", "line\nbreak\ttab", "~._-"] {
        assert_eq!(decode_value(&encode_value(text)).unwrap(), text);
    }
}

#[test]
fn whitespace_matches_std() {
    for u in 0u32..0x11_0000 {
        if let Some(c) = char::from_u32(u) {
            assert_eq!(is_whitespace(c), c.is_whitespace(), "U+{:04X}", u);
            assert_eq!(is_control(c), c.is_control(), "U+{:04X}", u);
        }
    }
}

#[test]
fn ascii_case_insensitive_compare() {
    let a: Vec<char> = "cbf43926".chars().collect();
    let b: Vec<char> = "CBF43926".chars().collect();
    let c: Vec<char> = "CBF43927".chars().collect();
    let d: Vec<char> = "CBF4392".chars().collect();
    assert!(eq_ignore_ascii_case(&a, &b));
    assert!(!eq_ignore_ascii_case(&a, &c));
    assert!(!eq_ignore_ascii_case(&a, &d));
}

#[test]
fn crc32_of_data_and_its_checksum_is_the_residue() {
    let inputs: [&[u8]; 4] = [b"", b"123456789", b"HELLO seq=1", &[0xFF, 0x00, 0x7F, 0x80, 0x01]];
    for data in inputs {
        let framed = [data, &crc32(data).to_le_bytes()[..]].concat();
        assert_eq!(crc32(&framed), 0x2144_DF1C);
    }
}
