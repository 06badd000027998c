use rust_validation_hooks::formatting::formatters::yaml::YamlFormatter;
use rust_validation_hooks::formatting::SupportedLanguage;

#[test]
fn test_format_basic_yaml() {
    let formatter = YamlFormatter::new();
    let input = "name:   test\nage:30\nitems:\n  - a\n  -b\n  - c";

    let result = formatter.format_code(input).unwrap();
    assert!(result.changed);
    assert!(result.messages.is_empty());

    let formatted = result.formatted;
    assert!(formatted.contains("name: test"));
    assert!(formatted.contains("age: 30"));
    assert!(formatted.contains("  - a"));
    assert!(formatted.contains("  - b"));
}

#[test]
fn test_format_with_comments() {
    let formatter = YamlFormatter::new();

    // Test with unformatted input that needs formatting
    let unformatted_input = "#comment\nname:test\nage:30";
    let result = formatter.format_code(unformatted_input).unwrap();

    assert!(result.changed);
    assert!(result.messages.is_empty());

    let formatted = result.formatted;
    assert!(formatted.contains("# comment"));
    assert!(formatted.contains("name: test"));
    assert!(formatted.contains("age: 30"));
}

#[test]
fn test_validate_yaml_syntax_errors() {
    let formatter = YamlFormatter::new();

    // Test tab after colon
    let input_with_tabs = "name:\ttest";
    let result = formatter.format_code(input_with_tabs).unwrap();
    assert!(!result.changed);
    assert!(!result.messages.is_empty());
    assert!(result.messages[0].contains("tabs after colon"));

    // Test improper list syntax that formatter can fix
    let input_bad_list = "-item without space";
    let result = formatter.format_code(input_bad_list).unwrap();
    assert!(result.changed); // Formatter should fix this
    assert!(result.messages.is_empty()); // No errors, just fixed
    assert!(result.formatted.contains("- item without space")); // Should be fixed
}

#[test]
fn test_security_warnings() {
    let formatter = YamlFormatter::new();
    let input = "data: !!python/object:some.class {}";

    let result = formatter.format_code(input).unwrap();
    assert!(!result.messages.is_empty());
    assert!(result
        .messages
        .iter()
        .any(|msg| msg.contains("dangerous Python object")));
}

#[test]
fn test_is_available() {
    let formatter = YamlFormatter::new();
    assert!(formatter.is_available());
}

#[test]
fn test_supports_language() {
    let formatter = YamlFormatter::new();
    assert_eq!(formatter.language(), SupportedLanguage::Yaml);
}

#[test]
fn test_empty_yaml() {
    let formatter = YamlFormatter::new();
    let input = "";

    let result = formatter.format_code(input).unwrap();
    assert!(result.messages.is_empty());
    assert_eq!(result.formatted.trim(), "");
}

#[test]
fn test_yaml_with_nested_structure() {
    let formatter = YamlFormatter::new();
    let input = "parent:\n  child1: value1\n  child2:\n    grandchild: value2";

    let result = formatter.format_code(input).unwrap();
    assert!(result.messages.is_empty());

    let formatted = result.formatted;
    assert!(formatted.contains("parent:"));
    assert!(formatted.contains("  child1: value1"));
    assert!(formatted.contains("  child2:"));
    assert!(formatted.contains("    grandchild: value2"));
}
