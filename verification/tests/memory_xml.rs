use rust_validation_hooks::memory_xml::{
    convert_json_to_xml, json_to_claude_xml, validate_gpt5_response, validate_xml_output, JsonNumber, JsonValue,
    MemoryResponseError, XmlOutputError,
};

const ROOT: &str = "memory-context";

fn text(s: &str) -> JsonValue {
    JsonValue::Text(s.to_string())
}

fn count(n: u64) -> JsonValue {
    JsonValue::Number(JsonNumber { as_u64: Some(n), f64_text: n.to_string() })
}

fn obj(entries: Vec<(&str, JsonValue)>) -> JsonValue {
    JsonValue::Object(entries.into_iter().map(|(k, v)| (k.to_string(), v)).collect())
}

fn arr(items: Vec<JsonValue>) -> JsonValue {
    JsonValue::Array(items)
}

fn sp(n: usize) -> String {
    " ".repeat(n)
}

fn sample() -> JsonValue {
    obj(vec![
        ("ai_dynamic_context", obj(vec![
            ("current_session", obj(vec![
                ("active_context", obj(vec![
                    ("current_task", text("Fix <bug> & test")),
                    ("next_steps", arr(vec![text("a")])),
                ])),
                ("key_insights", arr(vec![text("k")])),
            ])),
            ("metadata", obj(vec![
                ("last_updated", text("t")),
                ("optimization_stats", obj(vec![
                    ("memories_count", count(3)),
                    ("reduction_ratio", JsonValue::Number(JsonNumber { as_u64: None, f64_text: "0.5".to_string() })),
                    ("total_tokens", count(10)),
                ])),
                ("source", text("s")),
            ])),
            ("solutions_archive", arr(vec![obj(vec![
                ("problem", text("p")),
                ("solution", text("x")),
                ("files_changed", arr(vec![text("f")])),
            ])])),
        ])),
        ("project_info", obj(vec![("name", text("n"))])),
        ("api_configuration", obj(vec![("gpt5_settings", obj(vec![("model", text("m"))]))])),
    ])
}

fn expected_body() -> String {
    let mut e = String::new();
    e.push_str("<memory-context>\n  <ai-dynamic-context>\n");
    e.push_str(&format!("{}<current-session>\n", sp(6)));
    e.push_str(&format!("{}<active-context>\n", sp(8)));
    e.push_str(&format!("{}<current-task>Fix &lt;bug&gt; &amp; test</current-task>\n", sp(10)));
    e.push_str(&format!("{}<next-steps>\n{}<step>a</step>\n{}</next-steps>\n", sp(10), sp(12), sp(10)));
    e.push_str(&format!("{}</active-context>\n", sp(8)));
    e.push_str(&format!("{}<key-insights>\n{}<insight>k</insight>\n{}</key-insights>\n", sp(8), sp(10), sp(8)));
    e.push_str(&format!("{}</current-session>\n", sp(6)));
    e.push_str(&format!("{}<metadata>\n{}<last-updated>t</last-updated>\n", sp(6), sp(8)));
    e.push_str(&format!("{}<optimization-stats>\n", sp(8)));
    e.push_str(&format!("{}<memories-count>3</memories-count>\n", sp(10)));
    e.push_str(&format!("{}<reduction-ratio>0.5</reduction-ratio>\n", sp(10)));
    e.push_str(&format!("{}<total-tokens>10</total-tokens>\n", sp(10)));
    e.push_str(&format!("{}</optimization-stats>\n", sp(8)));
    e.push_str(&format!("{}<source>s</source>\n{}</metadata>\n", sp(8), sp(6)));
    e.push_str(&format!("{}<solutions-archive>\n{}<solution>\n", sp(6), sp(8)));
    e.push_str(&format!("{}<problem>p</problem>\n{}<solution-text>x</solution-text>\n", sp(10), sp(10)));
    e.push_str(&format!("{}<files-changed>\n{}<file>f</file>\n{}</files-changed>\n", sp(10), sp(12), sp(10)));
    e.push_str(&format!("{}</solution>\n{}</solutions-archive>\n", sp(8), sp(6)));
    e.push_str("  </ai-dynamic-context>\n");
    e.push_str("\n  <project-info>\n    <name>n</name>\n  </project-info>\n");
    e.push_str("\n  <api-configuration>\n    <gpt5-settings>\n      <model>m</model>\n    </gpt5-settings>\n  </api-configuration>\n");
    e.push_str("\n</memory-context>");
    e
}

#[test]
fn memory_document_writes_every_section() {
    let xml = json_to_claude_xml(&sample(), ROOT).ok().unwrap();
    assert_eq!(xml, expected_body());
}

#[test]
fn memory_file_starts_with_the_declaration_and_passes_its_checks() {
    let xml = convert_json_to_xml(&sample(), ROOT).ok().unwrap();
    assert_eq!(xml, format!("<?xml version=\"1.0\" encoding=\"UTF-8\"?>\n{}", expected_body()));
    assert!(validate_xml_output(&xml, ROOT).is_ok());
}

#[test]
fn object_without_dynamic_context_is_taken_as_one() {
    let v = obj(vec![("metadata", obj(vec![("source", text("s"))]))]);
    let xml = json_to_claude_xml(&v, ROOT).ok().unwrap();
    assert_eq!(
        xml,
        "<memory-context>\n  <ai-dynamic-context>\n      <metadata>\n        <source>s</source>\n      </metadata>\n  </ai-dynamic-context>\n\n</memory-context>"
    );
}

#[test]
fn only_objects_become_memory_documents() {
    assert!(json_to_claude_xml(&text("x"), ROOT).is_err());
    assert!(convert_json_to_xml(&arr(vec![]), ROOT).is_err());
}

#[test]
fn model_answer_needs_an_object_with_memory_fields() {
    assert!(matches!(validate_gpt5_response(&text("x")), Err(MemoryResponseError::NotAnObject)));
    assert!(matches!(validate_gpt5_response(&obj(vec![("x", count(1))])), Err(MemoryResponseError::MissingFields)));
    assert!(validate_gpt5_response(&obj(vec![("current_task", text("t"))])).is_ok());
    assert_eq!(MemoryResponseError::NotAnObject.message(), "GPT-5 response is not a JSON object");
}

#[test]
fn written_document_checks() {
    let decl = "<?xml version=\"1.0\" encoding=\"UTF-8\"?>\n";
    assert!(matches!(validate_xml_output("<memory-context></memory-context>", ROOT), Err(XmlOutputError::MissingDeclaration)));
    let no_root = format!("{}<other></other>", decl);
    let e = validate_xml_output(&no_root, ROOT).unwrap_err();
    assert_eq!(e.message(ROOT), "XML output missing required memory-context root element");
    let unbalanced = format!("{}<memory-context><a><b><c><d></memory-context>", decl);
    assert!(matches!(validate_xml_output(&unbalanced, ROOT), Err(XmlOutputError::Unbalanced)));
}
