use rust_validation_hooks::entity_context::{build_entity_context_snippets, entity_context_of_tree};
use rust_validation_hooks::formatting::SupportedLanguage;
use rust_validation_hooks::messages::glossary::{ConcreteIssue, IssueCategory, IssueSeverity, QualityScore};
use rust_validation_hooks::report::ChangedLines;
use rust_validation_hooks::syntax::SyntaxNode;

fn issue(sev: IssueSeverity, line: usize, rule: &str, msg: &str) -> ConcreteIssue {
    ConcreteIssue {
        severity: sev,
        category: IssueCategory::LongLine,
        message: msg.to_string(),
        file: "f.py".to_string(),
        line,
        column: 1,
        rule_id: rule.to_string(),
        points_deducted: 1,
    }
}

fn score(issues: Vec<ConcreteIssue>) -> QualityScore {
    QualityScore {
        total_score: 90,
        functionality_score: 20,
        reliability_score: 20,
        maintainability_score: 20,
        performance_score: 10,
        security_score: 10,
        standards_score: 10,
        concrete_issues: issues,
    }
}

fn node(kind: &str, named: bool, src: &str, start: usize, end: usize, rows: (usize, usize), children: Vec<SyntaxNode>) -> SyntaxNode {
    SyntaxNode {
        kind: kind.to_string(),
        named,
        text: Some(src[start..end].to_string()),
        start_byte: start,
        end_byte: end,
        start_row: rows.0,
        end_row: rows.1,
        children,
    }
}

const SRC: &str = "import os\ndef f(x):\n    y = 1\n    return x\n";

/// The tree of `SRC`: an import on row 0, then `f` on rows 1 to 3.
fn tree() -> SyntaxNode {
    let s = SRC;
    let import = node("import_statement", true, s, 0, 9, (0, 0), vec![]);
    let block = node("block", true, s, 24, 42, (2, 3), vec![
        node("expression_statement", true, s, 24, 29, (2, 2), vec![]),
        node("return_statement", true, s, 34, 42, (3, 3), vec![]),
    ]);
    let func = node("function_definition", true, s, 10, 42, (1, 3), vec![
        node("def", false, s, 10, 13, (1, 1), vec![]),
        node("identifier", true, s, 14, 15, (1, 1), vec![]),
        node("parameters", true, s, 15, 18, (1, 1), vec![]),
        node(":", false, s, 18, 19, (1, 1), vec![]),
        block,
    ]);
    node("module", true, s, 0, 43, (0, 4), vec![import, func])
}

fn row(mark: char, n: usize, line: &str) -> String {
    format!("{} {:4} | {}\n", mark, n, line)
}

#[test]
fn entity_snippet_names_the_enclosing_function() {
    let t = tree();
    let sc = score(vec![issue(IssueSeverity::Major, 3, "r1", "msg")]);
    let changed = ChangedLines { windows: vec![] };
    let out = entity_context_of_tree(SupportedLanguage::Python, SRC, Some(&t), &sc, &changed, 1, 3, 1500);
    let expected = format!(
        "=== CHANGE CONTEXT ===\n- [Major] Line 3 in function_definition f: msg [r1]\n{}{}{}",
        row(' ', 2, "def f(x):"),
        row('>', 3, "    y = 1"),
        row(' ', 4, "    return x"),
    );
    assert_eq!(out, expected);
}

#[test]
fn entity_snippet_outside_any_function_uses_context() {
    let t = tree();
    let sc = score(vec![issue(IssueSeverity::Minor, 1, "r2", "unused import")]);
    let changed = ChangedLines { windows: vec![(1, 1)] };
    let out = entity_context_of_tree(SupportedLanguage::Python, SRC, Some(&t), &sc, &changed, 1, 3, 1500);
    let expected = format!(
        "=== CHANGE CONTEXT ===\n- [Minor] Line 1 in context: unused import [r2]\n{}",
        row('>', 1, "import os"),
    );
    assert_eq!(out, expected);
}

#[test]
fn entity_snippets_skip_unchanged_lines() {
    let t = tree();
    let sc = score(vec![issue(IssueSeverity::Major, 3, "r1", "msg")]);
    let changed = ChangedLines { windows: vec![(10, 12)] };
    let out = entity_context_of_tree(SupportedLanguage::Python, SRC, Some(&t), &sc, &changed, 1, 3, 1500);
    assert_eq!(out, "=== CHANGE CONTEXT ===\nNo localized snippets available.\n");
}

#[test]
fn entity_snippets_need_issues_a_tree_and_a_supported_language() {
    let t = tree();
    let sc = score(vec![issue(IssueSeverity::Major, 3, "r1", "msg")]);
    let changed = ChangedLines { windows: vec![] };
    assert_eq!(entity_context_of_tree(SupportedLanguage::Python, SRC, None, &sc, &changed, 1, 3, 1500), "");
    assert_eq!(entity_context_of_tree(SupportedLanguage::Rust, SRC, Some(&t), &sc, &changed, 1, 3, 1500), "");
    let empty = score(vec![]);
    assert_eq!(entity_context_of_tree(SupportedLanguage::Python, SRC, Some(&t), &empty, &changed, 1, 3, 1500), "");
}

#[test]
fn entity_snippets_stop_at_the_byte_budget() {
    let t = tree();
    let sc = score(vec![issue(IssueSeverity::Major, 3, "r1", "msg")]);
    let changed = ChangedLines { windows: vec![] };
    // Room for the header line only.
    let head = "=== CHANGE CONTEXT ===\n- [Major] Line 3 in function_definition f: msg [r1]\n";
    let out = entity_context_of_tree(SupportedLanguage::Python, SRC, Some(&t), &sc, &changed, 1, 3, head.len());
    assert_eq!(out, head);
}

fn mk_quality_score(lines: &[usize]) -> QualityScore {
    let mut s = QualityScore {
        total_score: 1000,
        functionality_score: 300,
        reliability_score: 200,
        maintainability_score: 200,
        performance_score: 150,
        security_score: 100,
        standards_score: 50,
        concrete_issues: Vec::new(),
    };
    for &ln in lines {
        s.concrete_issues.push(ConcreteIssue {
            severity: IssueSeverity::Major,
            category: IssueCategory::LongMethod,
            message: format!("issue at {ln}"),
            file: String::new(),
            line: ln,
            column: 1,
            rule_id: "TST001".to_string(),
            points_deducted: 0,
        });
    }
    s
}

fn changed_lines(lines: &[usize]) -> ChangedLines {
    ChangedLines { windows: lines.iter().map(|&l| (l, l)).collect() }
}

fn has_marked_line_for(out: &str, target: usize) -> bool {
    for l in out.lines() {
        let lt = l.trim_start();
        if !lt.starts_with('>') {
            continue;
        }
        if let Some(pipe_idx) = lt.find('|') {
            let num_part = &lt[1..pipe_idx];
            let num = num_part.trim();
            if let Ok(n) = num.parse::<usize>() {
                if n == target {
                    return true;
                }
            }
        }
    }
    false
}

/// A node over the bytes of `src` where `piece` starts at or after `from`.
fn at(src: &str, kind: &str, named: bool, piece: &str, from: usize, rows: (usize, usize), children: Vec<SyntaxNode>) -> SyntaxNode {
    let start = from + src[from..].find(piece).expect("piece in source");
    node(kind, named, src, start, start + piece.len(), rows, children)
}

/// The tree a Python parser gives for one-line-body functions.
fn py_function(src: &str, from: usize, header: &str, name: &str, body: &str, rows: (usize, usize)) -> SyntaxNode {
    let h = at(src, "def", false, "def", from, (rows.0, rows.0), vec![]);
    let start = h.start_byte;
    let whole = &src[start..start + src[start..].find(body).unwrap() + body.len()];
    let params_from = start + header.find('(').unwrap();
    let body_node = at(src, "block", true, body.trim_start(), start, (rows.1, rows.1), vec![at(
        src,
        "return_statement",
        true,
        body.trim_start(),
        start,
        (rows.1, rows.1),
        vec![],
    )]);
    at(src, "function_definition", true, whole, start, rows, vec![
        h,
        at(src, "identifier", true, name, start, (rows.0, rows.0), vec![]),
        at(src, "parameters", true, &header[header.find('(').unwrap()..header.find(')').unwrap() + 1], params_from, (rows.0, rows.0), vec![]),
        at(src, ":", false, ":", params_from, (rows.0, rows.0), vec![]),
        body_node,
    ])
}

#[test]
fn unit_entity_snippet_python_captures_function_scope() {
    let lang = SupportedLanguage::Python;
    let content = "\n\
def add(a, b):\n\
    s = a + b\n\
    return s\n\
\n";
    let score = mk_quality_score(&[3]);
    let changed = changed_lines(&[3]);
    let out = build_entity_context_snippets(lang, content, &score, &changed, 1, 3, 2000);
    assert!(out.contains("=== CHANGE CONTEXT ==="));
    assert!(has_marked_line_for(&out, 3));
}

#[test]
fn unit_entity_snippet_js_captures_function_scope() {
    let lang = SupportedLanguage::JavaScript;
    let content = "\nfunction sum(a, b){\n  const c = a + b;\n  return c;\n}\n";
    let score = mk_quality_score(&[3]);
    let changed = changed_lines(&[3]);
    let out = build_entity_context_snippets(lang, content, &score, &changed, 1, 3, 2000);
    assert!(out.contains("=== CHANGE CONTEXT ==="));
    assert!(has_marked_line_for(&out, 3));
}

#[test]
fn unit_entity_snippet_respects_max_snippets_cap() {
    let lang = SupportedLanguage::Python;
    let content = "\n\
def f1():\n  return 1\n\n\
def f2():\n  return 2\n\n\
def f3():\n  return 3\n";
    let score = mk_quality_score(&[2, 5, 8]);
    let changed = changed_lines(&[2, 5, 8]);
    let out = build_entity_context_snippets(lang, content, &score, &changed, 1, 2, 10_000);
    let headers = out.lines().filter(|l| l.starts_with("- [")).count();
    assert_eq!(headers, 2);
}

#[test]
fn entity_snippet_from_parsed_python_names_the_function() {
    let content = "x = 1\ndef add(a, b):\n    s = a + b\n    return s\n";
    let score = mk_quality_score(&[3]);
    let changed = changed_lines(&[3]);
    let out = build_entity_context_snippets(SupportedLanguage::Python, content, &score, &changed, 1, 3, 2000);
    assert!(out.contains("in function_definition add"), "{out}");
    assert!(has_marked_line_for(&out, 3));
    assert_eq!(build_entity_context_snippets(SupportedLanguage::Rust, content, &score, &changed, 1, 3, 2000), "");
}
