use quiz_app::text::{checksum_utf8, chars_of, decimal_string, is_blank, is_white_space_char, lex_le_chars, trim_str};

#[test]
fn trim_removes_unicode_whitespace_at_both_ends() {
    assert_eq!(trim_str("  hello world \t\n"), "hello world");
    assert_eq!(trim_str("\u{3000}\u{2009}x\u{85}"), "x");
    assert_eq!(trim_str(""), "");
    assert_eq!(trim_str(" \u{A0} "), "");
    assert_eq!(trim_str("a"), "a");
    assert_eq!(trim_str("\u{200B}a"), "\u{200B}a");
    for s in ["  a b ", "\t", "x\u{3000}", "é "] {
        assert_eq!(trim_str(s), s.trim());
        assert_eq!(trim_str(&trim_str(s)), trim_str(s));
    }
}

#[test]
fn blank_means_only_whitespace() {
    assert!(is_blank(""));
    assert!(is_blank(" \r\n\t\u{2028}"));
    assert!(!is_blank(" . "));
    for c in ['\u{9}', '\u{D}', ' ', '\u{85}', '\u{A0}', '\u{1680}', '\u{200A}', '\u{202F}', '\u{205F}', '\u{3000}', 'a', '\u{200B}', '\u{FEFF}'] {
        assert_eq!(is_white_space_char(c), c.is_whitespace());
    }
}

#[test]
fn decimal_rendering_matches_display() {
    for n in [0i64, 7, 10, 42, -1, -10, 1234567890, i64::MAX, i64::MIN] {
        assert_eq!(decimal_string(n), n.to_string());
    }
}

#[test]
fn checksum_sums_utf8_bytes() {
    assert_eq!(checksum_utf8(""), 0);
    assert_eq!(checksum_utf8("abc"), 97 + 98 + 99);
    assert_eq!(checksum_utf8("é"), 0xC3 + 0xA9);
}

#[test]
fn lexicographic_order_of_code_points() {
    let le = |a: &str, b: &str| lex_le_chars(&chars_of(a), &chars_of(b));
    assert!(le("", "a"));
    assert!(le("ab", "ab"));
    assert!(le("ab", "abc"));
    assert!(!le("abc", "ab"));
    assert!(le("Z", "a"));
    assert!(le("z", "é"));
    assert!(!le("b", "a"));
    for (a, b) in [("x", "y"), ("é", "e"), ("10", "2"), ("a", "A")] {
        assert_eq!(le(a, b), a <= b);
    }
}
