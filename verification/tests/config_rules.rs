use rust_validation_hooks::config::{
    code_contains_allowlisted_vars, is_test_context, load_config, parse_comma_list,
    parse_environment, parse_sensitivity, should_ignore_path, Config, Environment, Sensitivity,
};

#[test]
fn defaults() {
    let c = Config::default();
    assert_eq!(c.sensitivity, Sensitivity::Medium);
    assert_eq!(c.env, Environment::Production);
    assert!(c.ignore_globs.is_none());
    assert_eq!(c.allowlist_vars.len(), 6);
}

#[test]
fn names_are_read_in_any_case() {
    assert_eq!(parse_sensitivity("LOW"), Sensitivity::Low);
    assert_eq!(parse_sensitivity("High"), Sensitivity::High);
    assert_eq!(parse_sensitivity("extreme"), Sensitivity::Medium);
    assert_eq!(parse_environment("TeSt"), Environment::Test);
    assert_eq!(parse_environment("prod"), Environment::Production);
}

#[test]
fn comma_lists_drop_blank_items() {
    assert_eq!(parse_comma_list(" a , ,b,, c "), vec!["a".to_string(), "b".to_string(), "c".to_string()]);
    assert!(parse_comma_list(" , ").is_empty());
}

#[test]
fn environment_then_file() {
    let c = load_config(Some("high"), Some("test"), Some("foo_, bar_"), Some("*.gen.rs"), None);
    assert_eq!(c.sensitivity, Sensitivity::High);
    assert_eq!(c.env, Environment::Test);
    assert_eq!(c.allowlist_vars, vec!["foo_".to_string(), "bar_".to_string()]);
    assert_eq!(c.ignore_globs, Some(vec!["*.gen.rs".to_string()]));

    let file = r#"{"sensitivity": "low", "allowlist_vars": ["x_", 3, "y_"], "ignore_globs": ["*.md"]}"#;
    let c = load_config(Some("high"), None, Some(" , "), None, Some(file));
    assert_eq!(c.sensitivity, Sensitivity::Low);
    assert_eq!(c.env, Environment::Production);
    assert_eq!(c.allowlist_vars, vec!["x_".to_string(), "y_".to_string()]);
    assert_eq!(c.ignore_globs, Some(vec!["*.md".to_string()]));

    let broken = load_config(None, None, None, None, Some("{not json"));
    assert_eq!(broken.sensitivity, Sensitivity::Medium);
}

#[test]
fn ignoring_paths_needs_a_set_and_a_path() {
    let c = load_config(None, None, None, Some("*.md"), None);
    assert!(should_ignore_path(&c, "docs/readme.md"));
    assert!(!should_ignore_path(&c, "src/main.rs"));
    assert!(!should_ignore_path(&c, ""));
    assert!(!should_ignore_path(&Config::default(), "docs/readme.md"));
}

#[test]
fn test_contexts() {
    let c = Config::default();
    assert!(is_test_context(&c, "src\\Tests\\a.rs"));
    assert!(is_test_context(&c, "web/__tests__/x.js"));
    assert!(is_test_context(&c, "src/parser_test.rs"));
    assert!(!is_test_context(&c, "src/main.rs"));
    let t = load_config(None, Some("test"), None, None, None);
    assert!(is_test_context(&t, "src/main.rs"));
}

#[test]
fn allowlisted_fragments() {
    let c = Config::default();
    assert!(code_contains_allowlisted_vars(&c, "let EXAMPLE_KEY = 1;"));
    assert!(!code_contains_allowlisted_vars(&c, "let api_key = 1;"));
}
