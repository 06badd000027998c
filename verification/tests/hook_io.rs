use rust_validation_hooks::hooks::{
    escape_json_string, extract_content_from_tool_input, extract_file_path, extract_old_new_contents,
    format_error_message, format_quality_message, PostToolUseOutput, PreToolUseOutput, ToolEdit, ToolInput,
    UserPromptSubmitOutput,
};

fn input() -> ToolInput {
    ToolInput { file_path: None, content: None, old_string: None, new_string: None, edits: None }
}

fn s(v: &str) -> Option<String> {
    Some(v.to_string())
}

#[test]
fn content_of_each_tool() {
    let mut w = input();
    w.content = s("all of it");
    assert_eq!(extract_content_from_tool_input("Write", &w), "all of it");
    assert_eq!(extract_content_from_tool_input("Edit", &w), "");
    let mut e = input();
    e.new_string = s("new part");
    assert_eq!(extract_content_from_tool_input("Edit", &e), "new part");
    let mut m = input();
    m.edits = Some(vec![
        ToolEdit { old_string: s("a"), new_string: s("one") },
        ToolEdit { old_string: None, new_string: None },
        ToolEdit { old_string: s("b"), new_string: s("two") },
    ]);
    assert_eq!(extract_content_from_tool_input("MultiEdit", &m), "one\ntwo");
    assert_eq!(extract_content_from_tool_input("MultiEdit", &input()), "");
    assert_eq!(extract_content_from_tool_input("Bash", &w), "");
}

#[test]
fn file_path_or_empty() {
    let mut i = input();
    assert_eq!(extract_file_path(&i), "");
    i.file_path = s("src/a.rs");
    assert_eq!(extract_file_path(&i), "src/a.rs");
}

#[test]
fn old_and_new_contents() {
    let mut e = input();
    e.file_path = s("a.py");
    e.old_string = s("x = 1");
    e.new_string = s("x = 2");
    assert_eq!(
        extract_old_new_contents("Edit", &e, None),
        ("a.py".to_string(), s("x = 1"), s("x = 2"))
    );
    let mut m = input();
    m.file_path = s("b.py");
    m.edits = Some(vec![
        ToolEdit { old_string: s("o1"), new_string: s("n1") },
        ToolEdit { old_string: s("o2"), new_string: None },
    ]);
    assert_eq!(
        extract_old_new_contents("MultiEdit", &m, s("disk")),
        ("b.py".to_string(), s("o1\no2\n"), s("n1\n"))
    );
    let mut m2 = input();
    m2.edits = Some(vec![]);
    assert_eq!(extract_old_new_contents("MultiEdit", &m2, s("disk")), (String::new(), None, None));
    assert_eq!(extract_old_new_contents("MultiEdit", &input(), s("disk")), (String::new(), s("disk"), None));
    let mut w = input();
    w.content = s("fresh");
    assert_eq!(extract_old_new_contents("Write", &w, s("disk")), (String::new(), s("disk"), s("fresh")));
    assert_eq!(extract_old_new_contents("Read", &w, s("disk")), (String::new(), None, None));
}

#[test]
fn multi_edit_reads_at_most_1000_edits() {
    let mut m = input();
    m.edits = Some((0..1001).map(|_| ToolEdit { old_string: s("o"), new_string: s("n") }).collect());
    let (_, old, new) = extract_old_new_contents("MultiEdit", &m, None);
    assert_eq!(old.unwrap().len(), 2000);
    assert_eq!(new.unwrap().len(), 2000);
}

#[test]
fn hook_answers() {
    let a = PreToolUseOutput::allow();
    assert_eq!(a.hook_specific_output.hook_event_name, "PreToolUse");
    assert_eq!(a.hook_specific_output.permission_decision, "allow");
    assert_eq!(a.hook_specific_output.permission_decision_reason, None);
    let d = PreToolUseOutput::deny("bad".to_string());
    assert_eq!(d.hook_specific_output.permission_decision, "deny");
    assert_eq!(d.hook_specific_output.permission_decision_reason, s("bad"));
    let p = PostToolUseOutput::with_context("ctx", 5);
    assert_eq!(p.hook_specific_output.hook_event_name, "PostToolUse");
    assert_eq!(p.hook_specific_output.additional_context, "ctx");
    let long = "y".repeat(20_000);
    let p2 = PostToolUseOutput::with_context(&long, 10);
    assert_eq!(p2.hook_specific_output.additional_context.chars().count(), 10_000);
    let u = UserPromptSubmitOutput::with_context("hello".to_string());
    assert_eq!(u.hook_specific_output.hook_event_name, "UserPromptSubmit");
    assert_eq!(u.hook_specific_output.additional_context, "hello");
}

#[test]
fn json_escaping() {
    assert_eq!(escape_json_string("a\"b\\c\nd\re\tf"), "a\\\"b\\\\c\\nd\\re\\tf");
    assert_eq!(escape_json_string("\u{8}\u{c}\u{1}\u{7f}\u{9f}"), "\\b\\f\\u0001\\u007f\\u009f");
    assert_eq!(escape_json_string("héllo ✓"), "héllo ✓");
}

#[test]
fn error_messages() {
    assert_eq!(format_error_message(&[]), "Unknown error occurred");
    assert_eq!(format_error_message(&["top".to_string()]), "top");
    assert_eq!(
        format_error_message(&["top".to_string(), "mid".to_string(), "root".to_string()]),
        "top\nDetails: mid <- root"
    );
}

#[test]
fn quality_message_turns_written_newlines_into_breaks() {
    let m = format_quality_message("one\\ntwo");
    assert!(m.contains("\none\ntwo\n"));
    assert!(m.starts_with("РЕАЛИЗУЙТЕ КОД С КАЧЕСТВОМ"));
    assert!(m.ends_with("[попытки сделать это также будут заблокированы]"));
}
