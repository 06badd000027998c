use rust_validation_hooks::formatting::formatters::yaml::YamlFormatter;

#[test]
fn indentation_is_rounded_up_to_even() {
    let f = YamlFormatter::new();
    let r = f.format_code("a:\n   b: 1\n").unwrap();
    assert_eq!(r.formatted, "a:\n    b: 1\n");
    assert!(r.changed);
}

#[test]
fn already_tidy_yaml_is_unchanged() {
    let f = YamlFormatter::new();
    let r = f.format_code("a: 1\nb:\n  - x\n").unwrap();
    assert_eq!(r.formatted, "a: 1\nb:\n  - x\n");
    assert!(!r.changed);
    assert!(r.messages.is_empty());
}

#[test]
fn unmatched_brackets_are_reported() {
    let f = YamlFormatter::new();
    let r = f.format_code("a: [1, 2\n").unwrap();
    assert!(!r.changed);
    assert_eq!(r.formatted, "a: [1, 2\n");
    assert_eq!(r.messages, vec!["YAML syntax error: YAML syntax error: Unmatched brackets []".to_string()]);
    assert_eq!(f.validate_yaml_syntax("a: {b: 1\n"), Err("YAML syntax error: Unmatched braces {}".to_string()));
    assert_eq!(
        f.validate_yaml_syntax("ok: 1\nbad:\tx\n"),
        Err("YAML syntax error at line 2: Use spaces instead of tabs after colon".to_string())
    );
}

#[test]
fn anchors_and_aliases_are_flagged() {
    let f = YamlFormatter::new();
    let r = f.format_code("base: &b 1\nother: *b\n").unwrap();
    assert_eq!(
        r.messages,
        vec![
            "YAML security warning: YAML anchors detected - verify they're used safely".to_string(),
            "YAML security warning: YAML aliases detected - verify they're used safely".to_string(),
        ]
    );
}

#[test]
fn single_lines() {
    let f = YamlFormatter::new();
    assert_eq!(f.format_yaml_line("- - x", 2), "  - x");
    assert_eq!(f.format_yaml_line("key:value: more", 0), "key: value: more");
    assert_eq!(f.format_yaml_line("key:", 4), "    key:");
    assert_eq!(f.format_yaml_line("plain", 1), " plain");
    assert_eq!(f.format_yaml_line("--- doc", 0), "--- doc");
    assert_eq!(f.formatter_info(), "Built-in YAML formatter with security checking");
}

#[test]
fn nested_dash_items_settle_after_two_passes() {
    let f = YamlFormatter::new();
    let once = f.format_code("-  - x\n").unwrap().formatted;
    assert_eq!(once, "- - x\n");
    let twice = f.format_code(&once).unwrap().formatted;
    assert_eq!(twice, "- x\n");
    let thrice = f.format_code(&twice).unwrap().formatted;
    assert_eq!(thrice, "- x\n");
}
