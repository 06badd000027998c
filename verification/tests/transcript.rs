use rust_validation_hooks::transcript::{parse_transcript_line, transcript_summary};

fn lines(items: &[&str]) -> Vec<String> {
    items.iter().map(|s| s.to_string()).collect()
}

#[test]
fn transcript_line_with_string_content() {
    let r = parse_transcript_line(r#"{"message":{"role":"user","content":"Help me"}}"#);
    assert_eq!(r, Some(("user".to_string(), "Help me".to_string())));
}

#[test]
fn transcript_line_with_content_list() {
    let r = parse_transcript_line(
        r#"{"message":{"role":"assistant","content":[{"type":"text","text":"Sure"},{"type":"tool_use","name":"Edit"},{"type":"other"}]}}"#,
    );
    assert_eq!(r, Some(("assistant".to_string(), "Sure [Tool: Edit]".to_string())));
}

#[test]
fn transcript_line_without_message_gives_nothing() {
    assert_eq!(parse_transcript_line("not json"), None);
    assert_eq!(parse_transcript_line(r#"{"role":"user","content":"x"}"#), None);
    assert_eq!(parse_transcript_line(r#"{"message":{"content":"no role"}}"#), None);
    assert_eq!(parse_transcript_line(r#"{"message":{"role":"user","content":""}}"#), None);
    assert_eq!(parse_transcript_line(r#"{"message":{"role":"assistant","content":[]}}"#), None);
}

#[test]
fn transcript_summary_marks_current_task() {
    let l = lines(&[
        r#"{"message":{"role":"user","content":"Help me write a function"}}"#,
        r#"{"message":{"role":"assistant","content":[{"text":"Sure"},{"name":"Edit"}]}}"#,
        "   ",
        "not json",
        r#"{"message":{"role":"user","content":"Make it handle errors"}}"#,
    ]);
    assert_eq!(
        transcript_summary(&l, 10, 1000),
        "CURRENT USER TASK: Make it handle errors\n\nRECENT CONVERSATION:\n[user]: Help me write a function\n[assistant]: Sure [Tool: Edit]\n[user] (CURRENT TASK): Make it handle errors\n"
    );
}

#[test]
fn transcript_summary_keeps_last_messages() {
    let l = lines(&[
        r#"{"message":{"role":"assistant","content":"one"}}"#,
        r#"{"message":{"role":"assistant","content":"two"}}"#,
    ]);
    assert_eq!(transcript_summary(&l, 1, 1000), "[assistant]: two\n");
    assert_eq!(transcript_summary(&l, 0, 1000), "");
}

#[test]
fn transcript_summary_shortens_long_messages() {
    let long = "a".repeat(120);
    let line = format!(r#"{{"message":{{"role":"assistant","content":"{}"}}}}"#, long);
    let l = vec![line];
    assert_eq!(transcript_summary(&l, 10, 1000), format!("[assistant]: {}...\n", "a".repeat(97)));
}

#[test]
fn transcript_summary_stops_at_byte_budget() {
    let long = "b".repeat(100);
    let line = format!(r#"{{"message":{{"role":"assistant","content":"{}"}}}}"#, long);
    let l: Vec<String> = (0..20).map(|_| line.clone()).collect();
    let s = transcript_summary(&l, 20, 1000);
    // each line is 114 bytes: 17 fit in 2000 bytes, then the marker
    assert_eq!(s.matches("[assistant]").count(), 17);
    assert!(s.ends_with("...\n"));
}

#[test]
fn transcript_summary_of_nothing_is_empty() {
    assert_eq!(transcript_summary(&Vec::new(), 10, 1000), "");
}
