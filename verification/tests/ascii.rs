use monkey::ascii::{ascii_string, bytes_eq, is_digit, is_letter, is_whitespace, str_eq};

#[test]
fn letters_are_ascii_letters_and_underscore() {
    for byte in 0..=255u8 {
        assert_eq!(is_letter(byte), byte.is_ascii_alphabetic() || byte == b'_', "{byte}");
    }
    assert!(is_letter(b'a') && is_letter(b'z') && is_letter(b'A') && is_letter(b'Z'));
    assert!(is_letter(b'_'));
    assert!(!is_letter(b'`') && !is_letter(b'{') && !is_letter(b'@') && !is_letter(b'['));
    assert!(!is_letter(b'0') && !is_letter(0));
}

#[test]
fn digits_are_ascii_decimal_digits() {
    for byte in 0..=255u8 {
        assert_eq!(is_digit(byte), byte.is_ascii_digit(), "{byte}");
    }
    assert!(is_digit(b'0') && is_digit(b'9'));
    assert!(!is_digit(b'/') && !is_digit(b':'));
}

#[test]
fn whitespace_is_ascii_whitespace() {
    for byte in 0..=255u8 {
        assert_eq!(is_whitespace(byte), byte.is_ascii_whitespace(), "{byte}");
    }
    assert!(is_whitespace(b' ') && is_whitespace(b'\t') && is_whitespace(b'\n'));
    assert!(is_whitespace(0x0c) && is_whitespace(b'\r'));
    assert!(!is_whitespace(0x0b) && !is_whitespace(0) && !is_whitespace(0xa0));
}

#[test]
fn byte_slices_compare_by_content() {
    assert!(bytes_eq(b"", b""));
    assert!(bytes_eq(b"let", b"let"));
    assert!(!bytes_eq(b"let", b"le"));
    assert!(!bytes_eq(b"le", b"let"));
    assert!(!bytes_eq(b"let", b"lex"));
    assert!(!bytes_eq(b"let", b"met"));
    assert!(!bytes_eq(b"", b"a"));
}

#[test]
fn strings_compare_by_content() {
    assert!(str_eq("", ""));
    assert!(str_eq("return", "return"));
    assert!(!str_eq("return", "returned"));
    assert!(!str_eq("Return", "return"));
    assert!(str_eq("é", "é"));
    assert!(!str_eq("é", "e"));
}

#[test]
fn ascii_bytes_spell_their_text() {
    assert_eq!(ascii_string(b""), "");
    assert_eq!(ascii_string(b"five"), "five");
    assert_eq!(ascii_string(b"foo_bar 123 ;"), "foo_bar 123 ;");
    assert_eq!(ascii_string(&[0x61, 0x62]), "ab");
    assert_eq!(ascii_string(&[0x7f, 0x00]), "\x7f\0");
}
