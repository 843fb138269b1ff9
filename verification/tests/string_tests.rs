//! The UTF-8 decoding layer: code-point cursors, first and last
//! code-point decoding, lead-byte classification and display widths.

use dangerous::string::{
    count_digits, first_codepoint, last_codepoint, parse_char, utf8_char_display_width,
    utf8_char_len, utf8_is_cont_byte, CharIter,
};

#[test]
fn test_char_iter() {
    let mut char_iter = CharIter::new("\u{10348}a\u{10347}".as_bytes());
    assert_eq!(char_iter.next().unwrap().unwrap(), '\u{10348}');
    assert_eq!(char_iter.next_back().unwrap().unwrap(), '\u{10347}');
    assert_eq!(char_iter.next().unwrap().unwrap(), 'a');
}

#[test]
fn test_last_codepoint() {
    assert!(last_codepoint(b"").is_err());
    assert!(last_codepoint(b"\xFF").is_err());
    assert!(last_codepoint(b"a\xFF").is_err());
    assert_eq!(last_codepoint(b"a").unwrap(), 'a');
    assert_eq!(last_codepoint(b"ab").unwrap(), 'b');
    assert_eq!(
        last_codepoint("a\u{10348}".as_bytes()).unwrap(),
        '\u{10348}'
    );
    assert_eq!(last_codepoint("\u{10348}".as_bytes()).unwrap(), '\u{10348}');
}

#[test]
fn test_first_codepoint() {
    assert!(first_codepoint(b"").is_err());
    assert!(first_codepoint(b"\xFF").is_err());
    assert!(first_codepoint(b"\xFFa").is_err());
    assert_eq!(first_codepoint(b"a").unwrap(), 'a');
    assert_eq!(first_codepoint(b"ab").unwrap(), 'a');
    assert_eq!(
        first_codepoint("\u{10348}a".as_bytes()).unwrap(),
        '\u{10348}'
    );
    assert_eq!(
        first_codepoint("\u{10348}".as_bytes()).unwrap(),
        '\u{10348}'
    );
}

#[test]
fn parse_char_decodes_first_of_valid_text() {
    assert_eq!(parse_char("a".as_bytes()).unwrap(), 'a');
    assert_eq!(parse_char("é".as_bytes()).unwrap(), 'é');
    assert_eq!(parse_char("€".as_bytes()).unwrap(), '€');
    assert_eq!(parse_char("\u{10348}".as_bytes()).unwrap(), '\u{10348}');
    // later code points are checked but otherwise ignored
    assert_eq!(parse_char(b"ab").unwrap(), 'a');
    assert_eq!(parse_char("é€".as_bytes()).unwrap(), 'é');
    // empty, overlong, surrogate-range, truncated and trailing-invalid
    // slices are refused
    assert!(parse_char(b"").is_err());
    assert!(parse_char(b"\xC0\x80").is_err());
    assert!(parse_char(b"\xED\xA0\x80").is_err());
    assert!(parse_char(b"\xF0\x90").is_err());
    assert!(parse_char(b"a\xFF").is_err());
}

#[test]
fn utf8_lead_byte_classification() {
    assert_eq!(utf8_char_len(b'a'), 1);
    assert_eq!(utf8_char_len(0xC3), 2);
    assert_eq!(utf8_char_len(0xE2), 3);
    assert_eq!(utf8_char_len(0xF0), 4);
    // continuation bytes and the bytes no encoding starts with
    assert_eq!(utf8_char_len(0x80), 0);
    assert_eq!(utf8_char_len(0xC0), 0);
    assert_eq!(utf8_char_len(0xC1), 0);
    assert_eq!(utf8_char_len(0xF5), 0);
    assert_eq!(utf8_char_len(0xFF), 0);
    assert!(utf8_is_cont_byte(0x80));
    assert!(utf8_is_cont_byte(0xBF));
    assert!(!utf8_is_cont_byte(b'a'));
    assert!(!utf8_is_cont_byte(0xC3));
}

#[test]
fn char_iter_slices_and_hints() {
    let mut iter = CharIter::new("abc".as_bytes());
    assert_eq!(iter.as_slice(), b"abc");
    assert_eq!(iter.size_hint(), (3, Some(3)));
    assert_eq!(iter.next().unwrap().unwrap(), 'a');
    assert_eq!(iter.as_slice(), b"bc");
    assert_eq!(iter.next_back().unwrap().unwrap(), 'c');
    assert_eq!(iter.as_slice(), b"b");
    assert_eq!(iter.next().unwrap().unwrap(), 'b');
    assert!(iter.next().is_none());
    assert!(iter.next_back().is_none());
}

#[test]
fn char_iter_stops_on_invalid() {
    let mut iter = CharIter::new(b"a\xFFb");
    assert_eq!(iter.next().unwrap().unwrap(), 'a');
    assert!(iter.next().unwrap().is_err());
}

#[test]
fn count_digits_exact() {
    assert_eq!(count_digits(0), 1);
    assert_eq!(count_digits(9), 1);
    assert_eq!(count_digits(10), 2);
    assert_eq!(count_digits(12345), 5);
    assert_eq!(count_digits(u32::MAX), 10);
}

#[test]
fn display_width_of_chars() {
    // printable ASCII is one column wide; this exercises the real
    // unicode-width tables
    assert_eq!(utf8_char_display_width('a', false), 1);
    assert_eq!(utf8_char_display_width('a', true), 1);
    // a fullwidth CJK character is two columns wide
    assert_eq!(utf8_char_display_width('世', false), 2);
    // the NUL character renders as its five-character escape
    assert_eq!(utf8_char_display_width('\0', false), 5);
    // a control character renders as `\u{..}` plus its decimal digits
    assert_eq!(utf8_char_display_width('\u{1}', false), 5);
}
