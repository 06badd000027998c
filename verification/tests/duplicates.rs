use rust_validation_hooks::duplicate_detector::{
    detect_duplicate_pattern, find_numeric_duplicate, find_original_file, format_duplicate_type,
    is_explicit_duplicate_request, levenshtein_distance, normalize_path_separators,
    remove_duplicate_indicators, split_filename, DuplicateType, name_verdict, NameVerdict,
};

#[test]
fn duplicate_kinds_by_name() {
    assert_eq!(detect_duplicate_pattern("service_v2"), DuplicateType::VersionVariant);
    assert_eq!(detect_duplicate_pattern("app_demo"), DuplicateType::DemoExample);
    assert_eq!(detect_duplicate_pattern("main_simple"), DuplicateType::SimpleVariant);
    assert_eq!(detect_duplicate_pattern("db_backup"), DuplicateType::BackupCopy);
    assert_eq!(detect_duplicate_pattern("~draft"), DuplicateType::TempFile);
    assert_eq!(detect_duplicate_pattern("parser_fixed"), DuplicateType::Experimental);
    assert_eq!(detect_duplicate_pattern("view_alt"), DuplicateType::Alternative);
    assert_eq!(detect_duplicate_pattern("handler"), DuplicateType::NotDuplicate);
}

#[test]
fn explicit_requests_are_recognised() {
    assert!(is_explicit_duplicate_request("create a demo version called main_demo.rs"));
    assert!(is_explicit_duplicate_request("Please KEEP the original and add a v2"));
    assert!(!is_explicit_duplicate_request("fix the bug in main.rs"));
}

#[test]
fn file_names_split_at_the_last_dot() {
    assert_eq!(split_filename("service_v2.js"), ("service_v2".to_string(), "js".to_string()));
    assert_eq!(split_filename("archive.tar.gz"), ("archive.tar".to_string(), "gz".to_string()));
    assert_eq!(split_filename("Makefile"), ("Makefile".to_string(), String::new()));
}

#[test]
fn labels_and_indicators() {
    assert_eq!(format_duplicate_type(&DuplicateType::VersionVariant), "version");
    assert_eq!(format_duplicate_type(&DuplicateType::NotDuplicate), "unique");
    assert_eq!(remove_duplicate_indicators("service_v2", &DuplicateType::VersionVariant), "service");
    assert_eq!(remove_duplicate_indicators("app_demo", &DuplicateType::DemoExample), "app");
}

#[test]
fn edit_distance_values() {
    assert_eq!(levenshtein_distance("kitten", "sitting"), 3);
    assert_eq!(levenshtein_distance("", "abc"), 3);
    assert_eq!(levenshtein_distance("é", "a"), 1);
    assert_eq!(levenshtein_distance("héllo", "hello"), 1);
    assert_eq!(levenshtein_distance("same", "same"), 0);
    assert_eq!(levenshtein_distance("userservice.js", "user_service.js"), 1);
}

#[test]
fn numeric_copies_find_their_original() {
    let existing = vec!["config.json".to_string()];
    assert_eq!(find_numeric_duplicate("config2", "json", &existing), Some("config.json".to_string()));
    assert_eq!(find_numeric_duplicate("config1", "json", &existing), None);
    let numbered = vec!["src/page1.ts".to_string()];
    assert_eq!(find_numeric_duplicate("page3", "ts", &numbered), Some("src/page1.ts".to_string()));
}

#[test]
fn originals_prefer_the_shallowest_exact_name() {
    let existing = vec!["a/b/service.js".to_string(), "src/service.js".to_string()];
    let found = find_original_file(
        "service_v2",
        "js",
        None,
        &existing,
        &DuplicateType::VersionVariant,
        &[None, None],
        None,
    );
    assert_eq!(found, Some("src/service.js".to_string()));
}

#[test]
fn separators_are_normalised() {
    assert_eq!(normalize_path_separators("a\\b\\c.rs"), "a/b/c.rs");
}

#[test]
fn name_rules_decide_in_order() {
    let existing = vec!["src/service.js".to_string(), "config.json".to_string()];
    let none = vec![None, None];
    assert!(matches!(
        name_verdict("src/service_v2.js", &existing, Some("create a demo version called main_demo.rs"), &none, None),
        NameVerdict::Requested
    ));
    match name_verdict("src/service_v2.js", &existing, None, &none, None) {
        NameVerdict::Variant(kind, original) => {
            assert_eq!(kind, DuplicateType::VersionVariant);
            assert_eq!(original, "src/service.js");
        }
        _ => panic!("expected a version variant"),
    }
    match name_verdict("src/config2.json", &existing, Some("fix the bug"), &none, None) {
        NameVerdict::Numbered(original) => assert_eq!(original, "config.json"),
        _ => panic!("expected a numbered copy"),
    }
    assert!(matches!(name_verdict("src/main.rs", &existing, None, &none, None), NameVerdict::Unmatched));
}

fn is_duplicate_kind(v: &NameVerdict) -> Option<DuplicateType> {
    match v {
        NameVerdict::Variant(kind, _) => Some(*kind),
        NameVerdict::Numbered(_) => Some(DuplicateType::NumericSuffix),
        _ => None,
    }
}

#[test]
fn test_detect_version_duplicate() {
    let existing = vec!["src/service.js".to_string()];
    let result = name_verdict("src/service_v2.js", &existing, None, &[None], None);
    assert_eq!(is_duplicate_kind(&result), Some(DuplicateType::VersionVariant));
}

#[test]
fn test_detect_demo_duplicate() {
    let existing = vec!["app.py".to_string()];
    let result = name_verdict("app_demo.py", &existing, None, &[None], None);
    assert_eq!(is_duplicate_kind(&result), Some(DuplicateType::DemoExample));
}

#[test]
fn test_detect_numeric_duplicate() {
    let existing = vec!["config.json".to_string()];
    let result = name_verdict("config2.json", &existing, None, &[None], None);
    assert_eq!(is_duplicate_kind(&result), Some(DuplicateType::NumericSuffix));
}

#[test]
fn test_allow_explicit_request() {
    let existing = vec!["main.rs".to_string()];
    let context = "create a demo version called main_demo.rs";
    let result = name_verdict("main_demo.rs", &existing, Some(context), &[None], None);
    assert!(is_duplicate_kind(&result).is_none());
}
