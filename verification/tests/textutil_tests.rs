use texdesk::textutil::is_blank_str;
use texdesk::textutil::str_has_prefix;
use texdesk::textutil::str_has_suffix;
use texdesk::textutil::str_le;
use texdesk::textutil::trim_str;

#[test]
fn trim_removes_unicode_whitespace() {
    assert_eq!(trim_str("  x  "), "x");
    assert_eq!(trim_str("\t\na b\r\n"), "a b");
    assert_eq!(trim_str("\u{a0}c\u{2028}"), "c");
    assert_eq!(trim_str("   "), "");
    assert_eq!(trim_str(""), "");
    assert_eq!(trim_str("inner  spaces"), "inner  spaces");
}

#[test]
fn blankness_means_whitespace_only() {
    assert!(is_blank_str(""));
    assert!(is_blank_str(" \t\n"));
    assert!(!is_blank_str(" x "));
}

#[test]
fn prefix_and_suffix_tests_are_exact() {
    assert!(str_has_prefix("```latex rest", "```latex"));
    assert!(!str_has_prefix("``latex", "```"));
    assert!(str_has_suffix("code```", "```"));
    assert!(!str_has_suffix("``", "```"));
    assert!(str_has_prefix("abc", ""));
    assert!(str_has_suffix("abc", ""));
}

#[test]
fn lexicographic_order_is_by_code_point() {
    assert!(str_le("a", "b"));
    assert!(!str_le("b", "a"));
    assert!(str_le("a", "a"));
    assert!(str_le("a", "ab"));
    assert!(!str_le("ab", "a"));
    assert!(str_le("A", "a"));
    assert!(str_le("", "anything"));
}
