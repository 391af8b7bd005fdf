use leaderboard::text::{
    bytes_equal, is_utf8, matches_at, position_of_byte, position_of_pattern, push_bytes,
    starts_with, trim_start_matches,
};
use leaderboard::whitespace::{
    nth_word, skip_spaces_from, space_width_at, space_width_before_end, trim, word_end_from,
};

#[test]
fn searching_bytes() {
    assert_eq!(position_of_byte(b"a:b:c", b':', 0), 1);
    assert_eq!(position_of_byte(b"a:b:c", b':', 2), 3);
    assert_eq!(position_of_byte(b"a:b:c", b':', 4), 5);
    assert_eq!(position_of_byte(b"", b':', 0), 0);
    assert_eq!(position_of_pattern(b"Host: x: y", b": "), 4);
    assert_eq!(position_of_pattern(b"Host:x", b": "), 6);
    assert_eq!(position_of_pattern(b"ab:", b": "), 3);
    assert!(matches_at(b"hello", b"llo", 2));
    assert!(!matches_at(b"hello", b"llo", 3));
    assert!(!matches_at(b"hello", b"hello!", 0));
    assert!(matches_at(b"hello", b"", 5));
    assert!(!matches_at(b"hello", b"", 6));
}

#[test]
fn prefixes() {
    assert!(starts_with(b"GET /players/top?x", b"GET /players/top"));
    assert!(!starts_with(b"GET /players/to", b"GET /players/top"));
    assert!(starts_with(b"abc", b""));
    assert!(bytes_equal(b"abc", b"abc"));
    assert!(!bytes_equal(b"abc", b"abd"));
    assert!(!bytes_equal(b"abc", b"ab"));
}

#[test]
fn every_leading_repetition_of_a_prefix_is_taken_off() {
    assert_eq!(trim_start_matches(b"Bearer XYZ", b"Bearer "), b"XYZ");
    assert_eq!(trim_start_matches(b"Bearer Bearer XYZ", b"Bearer "), b"XYZ");
    assert_eq!(trim_start_matches(b"XYZ", b"Bearer "), b"XYZ");
    assert_eq!(trim_start_matches(b"Bearer ", b"Bearer "), b"");
    assert_eq!(trim_start_matches(b"Bearer", b"Bearer "), b"Bearer");
    assert_eq!(trim_start_matches(b"abc", b""), b"abc");
    assert_eq!(
        "Bearer Bearer XYZ".trim_start_matches("Bearer ").as_bytes(),
        trim_start_matches(b"Bearer Bearer XYZ", b"Bearer ")
    );
}

#[test]
fn utf8_is_recognised() {
    assert!(is_utf8(b"plain"));
    assert!(is_utf8("h\u{e9}llo \u{2603}".as_bytes()));
    assert!(is_utf8(b""));
    assert!(!is_utf8(&[0x66, 0xff, 0x6f]));
    assert!(!is_utf8(&[0xc3]));
    assert!(!is_utf8(&[0xed, 0xa0, 0x80]));
}

#[test]
fn bytes_are_appended() {
    let mut out = b"ab".to_vec();
    push_bytes(&mut out, b"cd");
    push_bytes(&mut out, b"");
    assert_eq!(out, b"abcd");
}

#[test]
fn white_space_is_every_unicode_white_space() {
    for c in '\u{0}'..='\u{ffff}' {
        let mut text = String::new();
        text.push(c);
        text.push('x');
        let bytes = text.as_bytes();
        let expected = if c.is_whitespace() { c.len_utf8() } else { 0 };
        assert_eq!(space_width_at(bytes, 0), expected, "at U+{:04X}", c as u32);
        let mut back = String::from("x");
        back.push(c);
        assert_eq!(space_width_before_end(back.as_bytes(), back.len()), expected);
    }
    assert_eq!(space_width_at(b"", 0), 0);
    assert_eq!(space_width_at(b"a ", 5), 0);
    assert_eq!(space_width_at(&[0xe2, 0x80], 0), 0);
    assert_eq!(space_width_before_end(b" ", 0), 0);
    assert_eq!(space_width_before_end(b" ", 2), 0);
}

#[test]
fn trimming_agrees_with_the_standard_trim() {
    for text in [
        "", " ", "a", " a ", "\t\r\n a b \u{a0}", "\u{2003}x\u{3000}", "x\u{85}", "\u{1680}\u{205f}",
        "  Content  ", "\u{2028}\u{2029}\u{202f}5\u{200a}",
    ] {
        assert_eq!(trim(text.as_bytes()), text.trim().as_bytes(), "for {:?}", text);
    }
}

#[test]
fn words_agree_with_the_standard_split() {
    for text in [
        "GET /players/top HTTP/1.1", "  GET   /x  ", "", "   ", "one", "a\tb\nc", "a\u{a0}b\u{3000}c d",
        "POST /player HTTP/1.1", "\u{e9}t\u{e9} \u{2603}",
    ] {
        let expected: Vec<&str> = text.split_whitespace().collect();
        for n in 0..4 {
            assert_eq!(
                nth_word(text.as_bytes(), n),
                expected.get(n).map(|w| w.as_bytes()),
                "word {} of {:?}",
                n,
                text
            );
        }
    }
}

#[test]
fn skipping_spaces_and_words() {
    assert_eq!(skip_spaces_from(b"   x", 0), 3);
    assert_eq!(skip_spaces_from(b"   x", 3), 3);
    assert_eq!(skip_spaces_from(b"   ", 1), 3);
    assert_eq!(word_end_from(b"ab cd", 0), 2);
    assert_eq!(word_end_from(b"ab cd", 3), 5);
    assert_eq!(word_end_from(b"ab cd", 2), 2);
}
