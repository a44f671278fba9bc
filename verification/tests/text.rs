use workhorse::text::{
    chars_of, contains_str, decimal, find_char, is_whitespace, join_range, parse_u64,
    split_whitespace, str_eq, trimmed,
};

#[test]
fn trimming_follows_unicode_white_space() {
    assert_eq!(trimmed("  a b \t\n"), "a b");
    assert_eq!(trimmed("\u{3000}x\u{a0}"), "x");
    assert_eq!(trimmed("   "), "");
    assert!(is_whitespace('\u{2028}'));
    assert!(!is_whitespace('\u{200b}'));
    assert!(!is_whitespace('x'));
}

#[test]
fn words_split_on_white_space() {
    assert_eq!(split_whitespace("  one two\tthree\n"), vec!["one", "two", "three"]);
    assert!(split_whitespace("   ").is_empty());
}

#[test]
fn joining_a_range() {
    let parts = vec!["a".to_string(), "b".to_string(), "c".to_string()];
    assert_eq!(join_range(&parts, 0, 3, ", "), "a, b, c");
    assert_eq!(join_range(&parts, 1, 2, "-"), "b");
    assert_eq!(join_range(&parts, 2, 2, "-"), "");
}

#[test]
fn searching() {
    assert!(contains_str("please read the file", "read the file"));
    assert!(!contains_str("read the fil", "read the file"));
    assert!(contains_str("abc", ""));
    assert_eq!(find_char(&chars_of("a/b/c"), '/'), Some(1));
    assert_eq!(find_char(&chars_of("abc"), '/'), None);
    assert!(str_eq("é", "é"));
    assert!(!str_eq("a", "A"));
}

#[test]
fn decimal_text() {
    assert_eq!(decimal(0), "0");
    assert_eq!(decimal(4096), "4096");
    assert_eq!(decimal(u64::MAX), "18446744073709551615");
}

#[test]
fn decimal_parsing_matches_std() {
    for s in ["0", "42", "+42", "007", "", "+", "-1", " 1", "1a", "18446744073709551615", "18446744073709551616", "99999999999999999999"] {
        assert_eq!(parse_u64(s), s.parse::<u64>().ok(), "input {s:?}");
    }
}
