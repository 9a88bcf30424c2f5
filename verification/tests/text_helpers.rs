use restaapp_printer::text::{
    contains_str, i64_to_decimal, is_blank_str, starts_with, starts_with_ascii_lower,
    strip_trailing_char, text_after_last, text_before_first, trim, u64_to_decimal,
};

#[test]
fn trimming_matches_std() {
    for s in ["", "  a b  ", "\u{3000}x\u{a0}", "\t\r\n", "x"] {
        assert_eq!(trim(s), s.trim());
        assert_eq!(is_blank_str(s), s.trim().is_empty());
    }
}

#[test]
fn decimals_match_std() {
    for n in [0u64, 7, 10, 12345, u64::MAX] {
        assert_eq!(u64_to_decimal(n), n.to_string());
    }
    for n in [0i64, -1, 42, i64::MIN, i64::MAX] {
        assert_eq!(i64_to_decimal(n), n.to_string());
    }
}

#[test]
fn cutting_text() {
    assert_eq!(strip_trailing_char("a///", '/'), "a");
    assert_eq!(text_before_first("a?b?c", '?'), "a");
    assert_eq!(text_before_first("abc", '?'), "abc");
    assert_eq!(text_after_last("a.b.c", '.'), "c");
    assert_eq!(text_after_last("abc", '.'), "abc");
    assert!(starts_with("order-1", "order-"));
    assert!(starts_with_ascii_lower("SpLiT-9", "split-"));
    assert!(!starts_with_ascii_lower("kot-9", "order-"));
    assert!(contains_str("x112y", "112"));
    assert!(!contains_str("x11", "112"));
}
