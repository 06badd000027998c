use rust_validation_hooks::memory::{
    determine_project_dir, parse_max_stdin_size, parse_xml_size_limit, parse_xml_size_value, validate_stdin_size,
    validate_xml_size, xml_escape, ProjectDirError, StopEventInput, XmlSizeError, DEFAULT_MAX_STDIN_SIZE,
    DEFAULT_MAX_XML_SIZE, MAX_STDIN_SIZE, MIN_STDIN_SIZE,
};

#[test]
fn test_max_stdin_size_valid() {
    assert_eq!(parse_max_stdin_size(Some("2048")), 2048);
}

#[test]
fn test_max_stdin_size_too_small() {
    assert_eq!(parse_max_stdin_size(Some("512")), DEFAULT_MAX_STDIN_SIZE);
}

#[test]
fn test_max_stdin_size_too_large() {
    assert_eq!(parse_max_stdin_size(Some("2000000")), DEFAULT_MAX_STDIN_SIZE);
}

#[test]
fn test_max_stdin_size_invalid() {
    assert_eq!(parse_max_stdin_size(Some("invalid")), DEFAULT_MAX_STDIN_SIZE);
}

#[test]
fn test_max_stdin_size_empty_string() {
    assert_eq!(parse_max_stdin_size(Some("")), DEFAULT_MAX_STDIN_SIZE);
}

#[test]
fn test_max_stdin_size_zero() {
    assert_eq!(parse_max_stdin_size(Some("0")), DEFAULT_MAX_STDIN_SIZE);
}

#[test]
fn test_max_stdin_size_negative() {
    assert_eq!(parse_max_stdin_size(Some("-1024")), DEFAULT_MAX_STDIN_SIZE);
}

#[test]
fn test_max_stdin_size_whitespace() {
    assert_eq!(parse_max_stdin_size(Some("  2048  ")), 2048);
}

#[test]
fn test_max_stdin_size_whitespace_only() {
    assert_eq!(parse_max_stdin_size(Some("   ")), DEFAULT_MAX_STDIN_SIZE);
}

#[test]
fn test_max_stdin_size_very_large_number() {
    assert_eq!(parse_max_stdin_size(Some("99999999999999999999999999")), DEFAULT_MAX_STDIN_SIZE);
}

#[test]
fn test_max_stdin_size_boundary_min() {
    assert_eq!(parse_max_stdin_size(Some(&MIN_STDIN_SIZE.to_string())), MIN_STDIN_SIZE);
}

#[test]
fn test_max_stdin_size_boundary_max() {
    assert_eq!(parse_max_stdin_size(Some(&MAX_STDIN_SIZE.to_string())), MAX_STDIN_SIZE);
}

#[test]
fn test_max_stdin_size_unset() {
    assert_eq!(parse_max_stdin_size(None), DEFAULT_MAX_STDIN_SIZE);
}

#[test]
fn test_max_stdin_size_non_ascii() {
    assert_eq!(parse_max_stdin_size(Some("2048€")), DEFAULT_MAX_STDIN_SIZE);
}

#[test]
fn test_max_stdin_size_unicode_digits() {
    assert_eq!(parse_max_stdin_size(Some("２０４８")), DEFAULT_MAX_STDIN_SIZE);
}

#[test]
fn test_max_stdin_size_mixed_characters() {
    assert_eq!(parse_max_stdin_size(Some("20abc48")), DEFAULT_MAX_STDIN_SIZE);
}

#[test]
fn stdin_size_plus_sign_is_accepted() {
    assert_eq!(parse_max_stdin_size(Some("+4096")), 4096);
    assert_eq!(parse_max_stdin_size(Some("+")), DEFAULT_MAX_STDIN_SIZE);
}

#[test]
fn stdin_size_range_is_inclusive() {
    assert_eq!(validate_stdin_size(1_024), 1_024);
    assert_eq!(validate_stdin_size(1_023), DEFAULT_MAX_STDIN_SIZE);
    assert_eq!(validate_stdin_size(1_048_576), 1_048_576);
    assert_eq!(validate_stdin_size(1_048_577), DEFAULT_MAX_STDIN_SIZE);
}

#[test]
fn xml_size_rejects_bad_values() {
    assert_eq!(parse_xml_size_value(""), DEFAULT_MAX_XML_SIZE);
    assert_eq!(parse_xml_size_value("  "), DEFAULT_MAX_XML_SIZE);
    assert_eq!(parse_xml_size_value("-5"), DEFAULT_MAX_XML_SIZE);
    assert_eq!(parse_xml_size_value("lots"), DEFAULT_MAX_XML_SIZE);
    assert_eq!(parse_xml_size_value("99999999999999999999"), DEFAULT_MAX_XML_SIZE);
    assert_eq!(parse_xml_size_limit(None), DEFAULT_MAX_XML_SIZE);
}

#[test]
fn xml_size_guard_compares_with_usize_max_as_i64() {
    // `usize::MAX as i64` is -1 on 64-bit targets, so every non-negative
    // setting falls back to the default there.
    let expected = if (usize::MAX as i64) < 0 { DEFAULT_MAX_XML_SIZE } else { 2_000 };
    assert_eq!(parse_xml_size_value("2000"), expected);
    assert_eq!(parse_xml_size_limit(Some("2000")), expected);
}

#[test]
fn xml_size_bounds() {
    let small = "x".repeat(99);
    assert_eq!(validate_xml_size(&small, 1_000), Err(XmlSizeError::TooSmall { size: 99 }));
    let ok = "x".repeat(100);
    assert_eq!(validate_xml_size(&ok, 1_000), Ok(()));
    let big = "x".repeat(1_001);
    assert_eq!(validate_xml_size(&big, 1_000), Err(XmlSizeError::TooLarge { size: 1_001, max: 1_000 }));
    assert_eq!(
        XmlSizeError::TooLarge { size: 1_001, max: 1_000 }.message(),
        "XML content size (1001 bytes) exceeds maximum allowed size (1000 bytes)"
    );
    assert_eq!(
        XmlSizeError::TooSmall { size: 99 }.message(),
        "XML content size (99 bytes) is too small, minimum is 100"
    );
}

#[test]
fn xml_escape_writes_entities() {
    assert_eq!(xml_escape(r#"a & b < c > "d" 'e'"#), "a &amp; b &lt; c &gt; &quot;d&quot; &apos;e&apos;");
    assert_eq!(xml_escape("&amp;"), "&amp;amp;");
    assert_eq!(xml_escape("plain"), "plain");
}

#[test]
fn project_dir_is_the_working_directory() {
    let ok = determine_project_dir(&StopEventInput { cwd: Some("/home/u/proj".to_string()) });
    assert!(matches!(ok, Ok(ref d) if d == "/home/u/proj"));
    assert!(matches!(
        determine_project_dir(&StopEventInput { cwd: None }),
        Err(ProjectDirError::MissingCwd)
    ));
    assert!(matches!(
        determine_project_dir(&StopEventInput { cwd: Some(String::new()) }),
        Err(ProjectDirError::EmptyPath)
    ));
    assert!(matches!(
        determine_project_dir(&StopEventInput { cwd: Some("/a/../b".to_string()) }),
        Err(ProjectDirError::ParentComponents(ref p)) if p == "/a/../b"
    ));
    assert!(matches!(
        determine_project_dir(&StopEventInput { cwd: Some("/a\u{1}b".to_string()) }),
        Err(ProjectDirError::ControlCharacters)
    ));
    assert!(determine_project_dir(&StopEventInput { cwd: Some("/a\tb".to_string()) }).is_ok());
}
