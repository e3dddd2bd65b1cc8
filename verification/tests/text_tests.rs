use leaf::text::{
    compare_text, find_last, first_nonblank_line_of, i32_to_decimal, is_blank_text, is_white_char,
    last_segment_of, parse_i32, parse_u64, same_text, starts_with_text, trim_text, u64_to_decimal,
};

#[test]
fn decimal_spelling_of_u64() {
    assert_eq!(u64_to_decimal(0), "0");
    assert_eq!(u64_to_decimal(7), "7");
    assert_eq!(u64_to_decimal(12345), "12345");
    assert_eq!(u64_to_decimal(u64::MAX), "18446744073709551615");
}

#[test]
fn decimal_spelling_of_i32() {
    assert_eq!(i32_to_decimal(0), "0");
    assert_eq!(i32_to_decimal(-45), "-45");
    assert_eq!(i32_to_decimal(2024), "2024");
    assert_eq!(i32_to_decimal(i32::MIN), "-2147483648");
    assert_eq!(i32_to_decimal(i32::MAX), "2147483647");
}

#[test]
fn parse_u64_accepts_digits_only() {
    assert_eq!(parse_u64("42"), Some(42));
    assert_eq!(parse_u64("+7"), Some(7));
    assert_eq!(parse_u64("007"), Some(7));
    assert_eq!(parse_u64("18446744073709551615"), Some(u64::MAX));
    assert_eq!(parse_u64("18446744073709551616"), None);
    assert_eq!(parse_u64(""), None);
    assert_eq!(parse_u64("+"), None);
    assert_eq!(parse_u64("-1"), None);
    assert_eq!(parse_u64("1a"), None);
    assert_eq!(parse_u64(" 1"), None);
}

#[test]
fn parse_i32_accepts_signed_digits() {
    assert_eq!(parse_i32("-2147483648"), Some(i32::MIN));
    assert_eq!(parse_i32("2147483647"), Some(i32::MAX));
    assert_eq!(parse_i32("2147483648"), None);
    assert_eq!(parse_i32("-2147483649"), None);
    assert_eq!(parse_i32("-"), None);
    assert_eq!(parse_i32("+5"), Some(5));
    assert_eq!(parse_i32("-0"), Some(0));
    assert_eq!(parse_i32("14px"), None);
}

#[test]
fn parse_agrees_with_std_on_samples() {
    for s in ["0", "12", "+3", "-4", "", "x", "99999999999", "-2147483648", "2147483648"] {
        assert_eq!(parse_i32(s), s.parse::<i32>().ok(), "{}", s);
        assert_eq!(parse_u64(s), s.parse::<u64>().ok(), "{}", s);
    }
}

#[test]
fn number_written_then_read_back() {
    for n in [0, 1, -1, 8, 72, 14, i32::MIN, i32::MAX, -100] {
        assert_eq!(parse_i32(&i32_to_decimal(n)), Some(n));
    }
    for n in [0u64, 9, 10, 1_700_000_000_000, u64::MAX] {
        assert_eq!(parse_u64(&u64_to_decimal(n)), Some(n));
    }
}

#[test]
fn same_text_compares_characters() {
    assert!(same_text("abc", "abc"));
    assert!(!same_text("abc", "abd"));
    assert!(!same_text("abc", "ab"));
    assert!(same_text("", ""));
}

#[test]
fn last_segment_after_last_dot() {
    assert_eq!(last_segment_of("a.b.c", '.'), "c");
    assert_eq!(last_segment_of("abc", '.'), "abc");
    assert_eq!(last_segment_of("abc.", '.'), "");
    assert_eq!(last_segment_of(".hidden", '.'), "hidden");
    assert_eq!(find_last("a.b.c", '.'), Some(3));
    assert_eq!(find_last("abc", '.'), None);
}

#[test]
fn compare_text_is_lexicographic() {
    assert_eq!(compare_text("abc", "abd"), -1);
    assert_eq!(compare_text("abc", "abc"), 0);
    assert_eq!(compare_text("b", "a"), 1);
    assert_eq!(compare_text("ab", "abc"), -1);
    assert_eq!(compare_text("", ""), 0);
    assert_eq!(compare_text("é", "z"), 1);
}

#[test]
fn prefix_test() {
    assert!(starts_with_text("__TERM__1", "__TERM__"));
    assert!(!starts_with_text("__TERM", "__TERM__"));
    assert!(starts_with_text("anything", ""));
}

#[test]
fn trimming_white_space() {
    assert_eq!(trim_text("  hi there \n"), "hi there");
    assert_eq!(trim_text("\u{3000}x\u{a0}"), "x");
    assert_eq!(trim_text("   "), "");
    assert_eq!(trim_text("a"), "a");
    for s in ["  x ", "\t\n", "a b", "\u{2003}y\u{2028}"] {
        assert_eq!(trim_text(s), s.trim());
    }
}

#[test]
fn blank_texts() {
    assert!(is_blank_text("  \t\n"));
    assert!(is_blank_text(""));
    assert!(!is_blank_text(" a"));
    assert!(is_white_char('\u{85}'));
    assert!(!is_white_char('\u{200b}'));
    for c in ['\t', ' ', '\u{a0}', '\u{3000}', 'x', '\u{feff}', '\u{180e}'] {
        assert_eq!(is_white_char(c), c.is_whitespace(), "{:?}", c);
    }
}

#[test]
fn first_line_with_text() {
    assert_eq!(first_nonblank_line_of("\n  \n  first line  \nsecond"), "first line");
    assert_eq!(first_nonblank_line_of("   "), "");
    assert_eq!(first_nonblank_line_of(""), "");
    assert_eq!(first_nonblank_line_of("a\r\nb"), "a");
    assert_eq!(first_nonblank_line_of("\r\n\r\n  # Title\r\n"), "# Title");
    for s in ["x\ny", "\n\n z \n", " \t ", "one"] {
        let expected = s.lines().find(|l| !l.trim().is_empty()).unwrap_or("").trim().to_string();
        assert_eq!(first_nonblank_line_of(s), expected);
    }
}
