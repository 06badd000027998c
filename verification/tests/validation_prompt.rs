use rust_validation_hooks::hooks::ToolInput;
use rust_validation_hooks::validation_prompt::{
    build_validation_prompt, AstFigures, DependencyOverview, ProjectOverview, PromptSources,
};

fn bare() -> PromptSources {
    PromptSources {
        base: "BASE".to_string(),
        anti_patterns: String::new(),
        language: None,
        diff_context: String::new(),
        heuristic_summary: "no red flags".to_string(),
        transcript: None,
        project_dir: None,
        structure: None,
        dependencies: None,
        ast: None,
    }
}

fn edit(path: &str, old: &str, new: &str) -> ToolInput {
    ToolInput {
        file_path: Some(path.to_string()),
        content: None,
        old_string: Some(old.to_string()),
        new_string: Some(new.to_string()),
        edits: None,
    }
}

#[test]
fn prompt_with_nothing_gathered_names_the_default_language() {
    let input = ToolInput { file_path: None, content: None, old_string: None, new_string: None, edits: None };
    let p = build_validation_prompt(&bare(), "Write", &input, None, "");
    assert_eq!(p, "BASE\n\nHEURISTIC SUMMARY: no red flags\n\nIMPORTANT: Respond in RUSSIAN language.");
}

#[test]
fn prompt_lists_every_gathered_piece_in_order() {
    let mut s = bare();
    s.anti_patterns = "AP".to_string();
    s.language = Some("  ENGLISH\n".to_string());
    s.diff_context = "-a\n+b".to_string();
    s.transcript = Some("user: hi".to_string());
    s.project_dir = Some("/p".to_string());
    s.structure = Some(ProjectOverview { formatted: "src/".to_string(), total_files: 3, estimated_loc: 120, code_files: 2 });
    s.dependencies = Some(DependencyOverview { total: 5, dev: 2, by_manager: vec![("cargo".to_string(), 5)] });
    s.ast = Some(AstFigures { cyclomatic: 4, cognitive: 6, nesting_depth: 2, functions: 1, lines: 9 });
    let input = edit("src/lib.rs", "fn f(a: u8) {}", "fn f(a: u8) { }");
    let p = build_validation_prompt(&s, "Edit", &input, None, "fn f(a: u8) { }");
    let expected = "BASE\n\nANTI-PATTERNS REFERENCE:\nAP\n\nFILE BEING MODIFIED: src/lib.rs\n\nCODE CHANGES (diff format):\n-a\n+b\n\nHEURISTIC SUMMARY: no red flags\n\nCONTEXT - Recent chat history:\nuser: hi\n\nPROJECT: /p\n\nPROJECT STRUCTURE:\nsrc/\n\nPROJECT METRICS:\n  Total files: 3\n  Estimated LOC: 120\n  Code files: 2\n\nPROJECT DEPENDENCIES:\nTotal: 5 dependencies (2 dev, 3 production)\ncargo: 5 dependencies\n\nAST ANALYSIS:\n  Cyclomatic Complexity: 4\n  Cognitive Complexity: 6\n  Nesting Depth: 2\n  Functions: 1\n  Lines: 9\n\nIMPORTANT: Respond in ENGLISH language.";
    assert_eq!(p, expected);
}

#[test]
fn prompt_notes_api_weakening_of_an_edit() {
    let input = edit("m.py", "def f(a, b):\n    return a + b\n", "def f(a):\n    return a\n");
    let p = build_validation_prompt(&bare(), "Edit", &input, None, "");
    assert!(p.ends_with("language.\n\nHEURISTIC SUMMARY:\nAPI contract weakening suspected:\n- Function `f`: parameter count reduced (2 -> 1)\n"), "{}", p);
}

#[test]
fn prompt_skips_complexity_without_content_or_known_language() {
    let mut s = bare();
    s.ast = Some(AstFigures { cyclomatic: 1, cognitive: 1, nesting_depth: 1, functions: 1, lines: 1 });
    let input = edit("notes.txt", "a", "b");
    let p = build_validation_prompt(&s, "Write", &input, None, "text");
    assert!(!p.contains("AST ANALYSIS"));
    let input = edit("m.py", "a", "b");
    let p = build_validation_prompt(&s, "Write", &input, None, "");
    assert!(!p.contains("AST ANALYSIS"));
}
