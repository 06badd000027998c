use rust_validation_hooks::path_guard::{
    validate_file_path_text, validate_transcript_canonical, validate_transcript_parent, validate_transcript_path_text,
    FilePathError, TranscriptPathError,
};

#[test]
fn validate_file_path_rejects_home_prefix_on_unix() {
    let res = validate_file_path_text("~/secrets.txt", false);
    assert!(res.is_err(), "expected ~/ to be rejected on non-Windows");
}

#[test]
fn validate_transcript_path_rejects_unc_on_non_windows() {
    let unc = r"\\server\share\file.jsonl";
    let err = validate_transcript_path_text(unc, false).unwrap_err();
    assert!(err.message().to_lowercase().contains("unc"));
}

#[test]
fn file_path_text_checks_in_order() {
    assert!(matches!(validate_file_path_text("", false), Err(FilePathError::Empty)));
    assert!(matches!(validate_file_path_text("a\0b", false), Err(FilePathError::NullByte)));
    match validate_file_path_text("dir/%2E%2e/x", false) {
        Err(FilePathError::SuspiciousEncoding(e)) => assert_eq!(e, "%2e"),
        _ => panic!("expected an encoding refusal"),
    }
    assert!(validate_file_path_text("~/secrets.txt", true).is_ok());
    assert!(validate_file_path_text("src/../main.rs", false).is_ok());
    assert_eq!(
        validate_file_path_text("~\\x", false).unwrap_err().message(),
        "Invalid file path: leading ~ home shortcut not allowed"
    );
}

#[test]
fn transcript_path_text_checks_in_order() {
    assert!(validate_transcript_path_text("../../etc/passwd", false).is_err());
    assert!(validate_transcript_path_text("~/secrets", false).is_err());
    assert!(validate_transcript_path_text("file%2e%2e/secrets", false).is_err());
    assert!(validate_transcript_path_text("file\0with\0nulls", false).is_err());
    match validate_transcript_path_text("../../etc/passwd", false) {
        Err(TranscriptPathError::Traversal(p)) => assert_eq!(p, ".."),
        _ => panic!("expected a traversal refusal"),
    }
    assert_eq!(
        validate_transcript_path_text("a/$HOME/t.jsonl", false).unwrap_err().message(),
        "Path contains potential traversal pattern: $"
    );
    assert!(validate_transcript_path_text("\\\\server\\share", true).is_ok());
    assert!(validate_transcript_path_text("/tmp/transcript.jsonl", false).is_ok());
}

#[test]
fn transcript_scope_checks_use_whole_components() {
    let allowed = vec!["/tmp".to_string(), "/work".to_string()];
    assert!(validate_transcript_canonical("/tmp/t.jsonl", &allowed, false).is_ok());
    assert!(matches!(
        validate_transcript_canonical("/tmpx/t.jsonl", &allowed, false),
        Err(TranscriptPathError::OutsideAllowedDirectories)
    ));
    assert!(validate_transcript_parent("/work/sub", &allowed).is_ok());
    assert_eq!(
        validate_transcript_parent("/home/u", &allowed).unwrap_err().message(),
        "Parent directory is outside allowed directories"
    );
}
