use rust_validation_hooks::api_contract::{api_contract_report_of_trees, build_api_contract_report};
use rust_validation_hooks::formatting::SupportedLanguage;
use rust_validation_hooks::hooks::{ToolEdit, ToolInput};
use rust_validation_hooks::locate::{is_param_used_in_function, param_used_in_tree};
use rust_validation_hooks::syntax::SyntaxNode;

fn span(kind: &str, named: bool, text: &str, start: usize, children: Vec<SyntaxNode>) -> SyntaxNode {
    SyntaxNode {
        kind: kind.to_string(),
        named,
        text: Some(text.to_string()),
        start_byte: start,
        end_byte: start + text.len(),
        start_row: 0,
        end_row: 0,
        children,
    }
}

fn edit(old: &str, new: &str) -> ToolInput {
    ToolInput {
        file_path: Some("m.py".to_string()),
        content: None,
        old_string: Some(old.to_string()),
        new_string: Some(new.to_string()),
        edits: None,
    }
}

/// `def f(x):\n    return <body>\n` as a tree, with byte offsets.
fn py_function(body: &str) -> (String, SyntaxNode) {
    let src = format!("def f(x):\n    return {}\n", body);
    let ret_start = 14;
    let body_start = 21;
    let ret = span(
        "return_statement",
        true,
        &src[ret_start..body_start + body.len()],
        ret_start,
        vec![span("return", false, "return", ret_start, vec![]), span("identifier", true, body, body_start, vec![])],
    );
    let params = span(
        "parameters",
        true,
        "(x)",
        5,
        vec![span("(", false, "(", 5, vec![]), span("identifier", true, "x", 6, vec![]), span(")", false, ")", 7, vec![])],
    );
    let func = span(
        "function_definition",
        true,
        &src[0..body_start + body.len()],
        0,
        vec![
            span("def", false, "def", 0, vec![]),
            span("identifier", true, "f", 4, vec![]),
            params,
            span(":", false, ":", 8, vec![]),
            span("block", true, &src[ret_start..body_start + body.len()], ret_start, vec![ret]),
        ],
    );
    let module = span("module", true, &src, 0, vec![func]);
    (src, module)
}

#[test]
fn parameter_used_in_the_function_body_is_found_in_the_tree() {
    let (src, tree) = py_function("x");
    let end = src.len() - 1;
    assert!(param_used_in_tree(SupportedLanguage::Python, Some(&tree), 0, end, "x"));
}

#[test]
fn parameter_list_alone_does_not_count_as_use() {
    let (src, tree) = py_function("y");
    let end = src.len() - 1;
    assert!(!param_used_in_tree(SupportedLanguage::Python, Some(&tree), 0, end, "x"));
    assert!(param_used_in_tree(SupportedLanguage::Python, Some(&tree), 0, end, "y"));
}

#[test]
fn no_tree_means_no_use_found() {
    assert!(!param_used_in_tree(SupportedLanguage::Python, None, 0, 10, "x"));
}

#[test]
fn api_contract_reports_reduced_parameter_count() {
    let new = "def f(a):\n    return a\n";
    let input = edit("def f(a, b):\n    return a + b\n", new);
    let r = api_contract_report_of_trees(SupportedLanguage::Python, "Edit", &input, new, None, None, None);
    assert_eq!(
        r,
        Some("=== API CONTRACT ===\n- Function `f`: parameter count reduced (2 -> 1)\n".to_string())
    );
}

#[test]
fn api_contract_reports_removed_function() {
    // Without a tree the whole file is searched, signature included, so `y`
    // counts as used.
    let new = "def h(y):\n    return 1\n";
    let input = edit("def g(x):\n    return x\n", new);
    let r = api_contract_report_of_trees(SupportedLanguage::Python, "Edit", &input, new, None, None, None);
    assert_eq!(
        r,
        Some("=== API CONTRACT ===\n- Function `g`: removed from module (possible breaking change)\n".to_string())
    );
}

#[test]
fn api_contract_reports_unused_parameter_from_the_tree_range() {
    // The new code's tree gives `f` the bytes of its body only, where `x`
    // does not occur.
    let (src, _) = py_function("y");
    let body = span("function_definition", true, "return y", 14, vec![
        span("identifier", true, "f", 14, vec![]),
        span("parameters", true, "(x)", 14, vec![span("identifier", true, "x", 14, vec![])]),
    ]);
    let after_tree = span("module", true, &src, 0, vec![body]);
    let input = edit("def f(x):\n    return x\n", &src);
    let r = api_contract_report_of_trees(SupportedLanguage::Python, "Edit", &input, &src, None, Some(&after_tree), None);
    assert_eq!(
        r,
        Some("=== API CONTRACT ===\n- Function `f`: parameter `x` appears unused\n".to_string())
    );
}

#[test]
fn api_contract_reports_renamed_parameter() {
    let new = "function sum(a, c){ return a + c }\n";
    let input = edit("function sum(a, b){ return a + b }\n", new);
    let r = api_contract_report_of_trees(SupportedLanguage::JavaScript, "Edit", &input, new, None, None, None);
    assert_eq!(
        r,
        Some("=== API CONTRACT ===\n- Function `sum`: parameter `b` removed or renamed\n".to_string())
    );
}

#[test]
fn api_contract_is_empty_for_unchanged_signatures() {
    let new = "function sum(a, b){ const c = a + b; return c }\n";
    let input = edit("function sum(a, b){ return a + b }\n", new);
    let r = api_contract_report_of_trees(SupportedLanguage::JavaScript, "Edit", &input, new, None, None, None);
    assert_eq!(r, Some(String::new()));
}

#[test]
fn api_contract_is_empty_for_a_write() {
    let input = ToolInput {
        file_path: Some("m.py".to_string()),
        content: Some("def f(a):\n    pass\n".to_string()),
        old_string: None,
        new_string: None,
        edits: None,
    };
    let r = api_contract_report_of_trees(SupportedLanguage::Python, "Write", &input, "def f(a):\n    pass\n", None, None, None);
    assert_eq!(r, Some(String::new()));
}

#[test]
fn api_contract_reads_multi_edits_in_order() {
    let input = ToolInput {
        file_path: Some("m.py".to_string()),
        content: None,
        old_string: None,
        new_string: None,
        edits: Some(vec![
            ToolEdit { old_string: Some("def a(p, q):\n    return p + q".to_string()), new_string: Some("def a(p):\n    return p".to_string()) },
            ToolEdit { old_string: Some("def b(z):\n    return z".to_string()), new_string: None },
        ]),
    };
    let content = "def a(p):\n    return p\n";
    let r = api_contract_report_of_trees(SupportedLanguage::Python, "MultiEdit", &input, content, None, None, None);
    assert_eq!(
        r,
        Some(
            "=== API CONTRACT ===\n- Function `a`: parameter count reduced (2 -> 1)\n- Function `b`: removed from module (possible breaking change)\n"
                .to_string()
        )
    );
}

#[test]
fn api_contract_none_where_the_function_bytes_split_a_character() {
    // The new code's tree puts `f` at bytes 1..3 of a file whose first
    // character takes two bytes.
    let f = span(
        "function_definition",
        true,
        "ab",
        1,
        vec![
            span("identifier", true, "f", 1, vec![]),
            span("parameters", true, "(a)", 1, vec![span("identifier", true, "a", 1, vec![])]),
        ],
    );
    let after_tree = span("module", true, "xxx", 0, vec![f]);
    let input = edit("def f(a):\n    return a\n", "def f(a):\n    return a\n");
    let r = api_contract_report_of_trees(SupportedLanguage::Python, "Edit", &input, "éé", None, Some(&after_tree), None);
    assert_eq!(r, None);
}

#[test]
fn api_contract_from_parsed_sources_reports_reduced_parameter_count() {
    let new = "def f(a):\n    return a\n";
    let input = edit("def f(a, b):\n    return a + b\n", new);
    let r = build_api_contract_report(SupportedLanguage::Python, "Edit", &input, new);
    assert_eq!(
        r,
        Some("=== API CONTRACT ===\n- Function `f`: parameter count reduced (2 -> 1)\n".to_string())
    );
}

#[test]
fn parameter_use_is_found_in_parsed_source() {
    let src = "def f(x, y):\n    return x\n";
    assert!(is_param_used_in_function(SupportedLanguage::Python, src, 0, src.len(), "x"));
    assert!(!is_param_used_in_function(SupportedLanguage::Python, src, 0, src.len(), "y"));
}
