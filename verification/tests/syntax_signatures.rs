use rust_validation_hooks::formatting::SupportedLanguage;
use rust_validation_hooks::syntax::{
    collect_params_js_ts, collect_params_py, extract_member_property_name, extract_signatures_ast, signatures_of_tree,
    render_computed_name, SyntaxNode,
};

fn node(kind: &str, text: &str, children: Vec<SyntaxNode>) -> SyntaxNode {
    let named = kind.chars().next().map_or(false, |c| c.is_alphabetic() || c == '_');
    SyntaxNode {
        kind: kind.to_string(),
        named,
        text: Some(text.to_string()),
        start_byte: 0,
        end_byte: text.len(),
        start_row: 0,
        end_row: 0,
        children,
    }
}

fn leaf(kind: &str, text: &str) -> SyntaxNode {
    node(kind, text, vec![])
}

fn names(sigs: &[(String, rust_validation_hooks::syntax::FuncSignature)]) -> Vec<(String, Vec<String>)> {
    sigs.iter().map(|(n, s)| (n.clone(), s.params.clone())).collect()
}

fn py_def(name: &str, params: &[&str]) -> SyntaxNode {
    let mut ps = vec![leaf("(", "(")];
    for p in params {
        ps.push(leaf("identifier", p));
        ps.push(leaf(",", ","));
    }
    ps.push(leaf(")", ")"));
    node(
        "function_definition",
        "def ...",
        vec![leaf("def", "def"), leaf("identifier", name), node("parameters", "(...)", ps), leaf(":", ":"), leaf("block", "pass")],
    )
}

#[test]
fn python_functions_and_parameters() {
    let module = node("module", "", vec![py_def("add", &["a", "b"]), py_def("neg", &["x"])]);
    let sigs = signatures_of_tree(SupportedLanguage::Python, Some(&module));
    // The tree is read from the last child to the first; parameter names
    // come in the same order.
    assert_eq!(
        names(&sigs),
        vec![("neg".to_string(), vec!["x".to_string()]), ("add".to_string(), vec!["b".to_string(), "a".to_string()])]
    );
}

#[test]
fn later_function_of_the_same_name_replaces_earlier() {
    let module = node("module", "", vec![py_def("f", &["a"]), py_def("f", &["a", "b"])]);
    let sigs = signatures_of_tree(SupportedLanguage::Python, Some(&module));
    assert_eq!(names(&sigs), vec![("f".to_string(), vec!["a".to_string()])]);
}

#[test]
fn other_languages_and_missing_trees_give_nothing() {
    let module = node("module", "", vec![py_def("add", &["a"])]);
    assert!(signatures_of_tree(SupportedLanguage::Rust, Some(&module)).is_empty());
    assert!(signatures_of_tree(SupportedLanguage::Python, None).is_empty());
}

#[test]
fn javascript_arrow_takes_its_variable_name() {
    let arrow = node(
        "arrow_function",
        "(a) => a",
        vec![node("formal_parameters", "(a)", vec![leaf("(", "("), leaf("identifier", "a"), leaf(")", ")")]), leaf("=>", "=>"), leaf("identifier", "a")],
    );
    let decl = node("lexical_declaration", "const f = (a) => a", vec![
        leaf("const", "const"),
        node("variable_declarator", "f = (a) => a", vec![leaf("identifier", "f"), leaf("=", "="), arrow]),
    ]);
    let program = node("program", "", vec![decl]);
    let sigs = signatures_of_tree(SupportedLanguage::JavaScript, Some(&program));
    assert_eq!(names(&sigs), vec![("f".to_string(), vec!["a".to_string()])]);
}

#[test]
fn javascript_assignment_to_a_member() {
    let func = node(
        "function_expression",
        "function(x) {}",
        vec![leaf("function", "function"), node("formal_parameters", "(x)", vec![leaf("identifier", "x")]), leaf("statement_block", "{}")],
    );
    let member = node("member_expression", "obj.run", vec![leaf("identifier", "obj"), leaf(".", "."), leaf("property_identifier", "run")]);
    // The first child that can name a member is the object's identifier.
    assert_eq!(extract_member_property_name(&member), Some("obj".to_string()));
    let assign = node("assignment_expression", "obj.run = ...", vec![member, leaf("=", "="), func]);
    let program = node("program", "", vec![node("expression_statement", "", vec![assign])]);
    let sigs = signatures_of_tree(SupportedLanguage::TypeScript, Some(&program));
    assert_eq!(names(&sigs), vec![("obj".to_string(), vec!["x".to_string()])]);
}

#[test]
fn method_with_computed_name() {
    let key = leaf("computed_property_name", "[\"go\"]");
    assert_eq!(render_computed_name(&key), "[computed: go]");
    assert_eq!(render_computed_name(&leaf("computed_property_name", "[]")), "[computed]");
    let method = node(
        "method_definition",
        "[\"go\"](p) {}",
        vec![key, node("formal_parameters", "(p)", vec![leaf("identifier", "p")]), leaf("statement_block", "{}")],
    );
    let class = node("class_body", "", vec![method]);
    let sigs = signatures_of_tree(SupportedLanguage::JavaScript, Some(&class));
    assert_eq!(names(&sigs), vec![("[computed: go]".to_string(), vec!["p".to_string()])]);
}

#[test]
fn js_parameters_skip_types_defaults_and_this() {
    let params = node(
        "formal_parameters",
        "",
        vec![
            leaf("identifier", "this"),
            node("required_parameter", "", vec![leaf("identifier", "a"), node("type_annotation", "", vec![leaf("identifier", "T")])]),
            node("assignment_pattern", "", vec![leaf("identifier", "b"), leaf("=", "="), leaf("identifier", "c")]),
        ],
    );
    assert_eq!(collect_params_js_ts(&params), vec!["b".to_string(), "a".to_string()]);
}

#[test]
fn python_parameters_are_listed_once() {
    let params = node("parameters", "", vec![leaf("identifier", "a"), leaf("identifier", "a"), leaf("identifier", "b")]);
    assert_eq!(collect_params_py(&params), vec!["b".to_string(), "a".to_string()]);
}

#[test]
fn subscript_names() {
    let sub = node("subscript_expression", "obj['k']", vec![leaf("identifier", "obj"), leaf("[", "["), leaf("string", "'k'"), leaf("]", "]")]);
    // The first index-kind child with text is the object itself.
    assert_eq!(extract_member_property_name(&sub), Some("[computed: obj]".to_string()));
    let empty = node("subscript_expression", "", vec![leaf("[", "[")]);
    assert_eq!(extract_member_property_name(&empty), Some("[computed]".to_string()));
    assert_eq!(extract_member_property_name(&leaf("identifier", "x")), None);
}

#[test]
fn signatures_from_parsed_source() {
    let py = extract_signatures_ast(SupportedLanguage::Python, "def add(a, b):\n    return a + b\n");
    assert_eq!(py.len(), 1);
    assert_eq!(py[0].0, "add");
    let mut ps = py[0].1.params.clone();
    ps.sort();
    assert_eq!(ps, vec!["a".to_string(), "b".to_string()]);

    let js = extract_signatures_ast(
        SupportedLanguage::JavaScript,
        "function sum(x, y) { return x + y; }\nconst neg = (z) => -z;\n",
    );
    let mut found: Vec<(String, Vec<String>)> = js.iter().map(|(n, s)| (n.clone(), s.params.clone())).collect();
    found.sort();
    assert_eq!(found.len(), 2);
    assert_eq!(found[0].0, "neg");
    assert_eq!(found[0].1, vec!["z".to_string()]);
    assert_eq!(found[1].0, "sum");

    let ts = extract_signatures_ast(SupportedLanguage::TypeScript, "function f(a: number): void {}\n");
    assert_eq!(ts.len(), 1);
    assert_eq!(ts[0].1.params, vec!["a".to_string()]);

    assert!(extract_signatures_ast(SupportedLanguage::Rust, "fn f(a: i32) {}").is_empty());
}
