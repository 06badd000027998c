use rust_validation_hooks::{sanitize_zero_width_chars, should_validate_file, truncate_utf8_safe};

#[test]
fn zero_width_characters_are_removed() {
    assert_eq!(sanitize_zero_width_chars("a\u{200B}b\u{FEFF}c\u{2060}"), "abc");
    assert_eq!(sanitize_zero_width_chars("plain"), "plain");
}

#[test]
fn sanitizing_twice_changes_nothing_more() {
    let once = sanitize_zero_width_chars("x\u{200C}\u{200D}y");
    assert_eq!(sanitize_zero_width_chars(&once), once);
}

#[test]
fn truncation_keeps_short_text_and_marks_cuts() {
    assert_eq!(truncate_utf8_safe("hello", 10), "hello");
    assert_eq!(truncate_utf8_safe("hello world", 5), "hell…");
    assert_eq!(truncate_utf8_safe("привет мир", 4), "при…");
    assert_eq!(truncate_utf8_safe("abc", 0), "");
}

#[test]
fn truncation_counts_visible_characters() {
    assert_eq!(truncate_utf8_safe("a\u{200B}bc", 3), "a\u{200B}bc");
    assert_eq!(truncate_utf8_safe("a\u{200B}bcd", 3), "ab…");
}

#[test]
fn code_files_are_validated() {
    assert!(should_validate_file("src/main.rs"));
    assert!(should_validate_file("APP.JS"));
    assert!(should_validate_file("scripts/deploy.sh"));
    assert!(!should_validate_file("README.md"));
    assert!(!should_validate_file("data.json"));
}
