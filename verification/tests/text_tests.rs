use mercenary_board::text::{
    contains_str, decimal_string, join_strings, lex_less, replace_all_str, replace_char_str,
    same_text, starts_with_str, trim_str,
};

#[test]
fn decimal_numerals() {
    assert_eq!(decimal_string(0), "0");
    assert_eq!(decimal_string(7), "7");
    assert_eq!(decimal_string(10), "10");
    assert_eq!(decimal_string(1234567890), "1234567890");
    assert_eq!(decimal_string(u64::MAX), u64::MAX.to_string());
}

#[test]
fn substring_search() {
    assert!(contains_str("Total Blackout (Blind)", "Blackout"));
    assert!(!contains_str("Full Sweep", "Blackout"));
    assert!(contains_str("abc", ""));
    assert!(!contains_str("", "a"));
}

#[test]
fn lexicographic_order() {
    assert!(lex_less("10x A", "2x B"));
    assert!(lex_less("ab", "abc"));
    assert!(!lex_less("abc", "abc"));
    assert!(!lex_less("b", "a"));
    assert!(lex_less("Z", "a"));
}

#[test]
fn trimming_unicode_white_space() {
    assert_eq!(trim_str("  dice \t\n"), "dice");
    assert_eq!(trim_str("\u{3000}maps\u{a0}"), "maps");
    assert_eq!(trim_str(" \t "), "");
    assert_eq!(trim_str(""), "");
    assert_eq!(trim_str("a b"), "a b");
}

#[test]
fn replacing() {
    assert_eq!(replace_char_str("a_b_c", '_', " "), "a b c");
    assert_eq!(replace_all_str("rule_rule_x", "rule_", ""), "x");
    assert_eq!(replace_all_str("rrule_", "rule_", "-"), "r-");
    assert_eq!(replace_all_str("abc", "zz", "y"), "abc");
}

#[test]
fn joining_and_comparing() {
    let parts = vec!["A".to_string(), "B".to_string(), "C".to_string()];
    assert_eq!(join_strings(&parts, ", "), "A, B, C");
    assert_eq!(join_strings(&Vec::new(), ", "), "");
    assert!(same_text("Wolf", "Wolf"));
    assert!(!same_text("Wolf", "Wolfe"));
    assert!(starts_with_str("rule_x", "rule_"));
    assert!(!starts_with_str("rul", "rule_"));
}
