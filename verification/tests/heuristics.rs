use rust_validation_hooks::contracts::{
    contract_weakening_reasons, extract_functions_signatures, extract_signatures_regex,
    find_contract_callsite_issues,
};
use rust_validation_hooks::formatting::SupportedLanguage;
use rust_validation_hooks::heuristics::{
    assess_change, count_call_like_tokens, detect_const_return_ignores_params,
    detect_empty_catch_except, detect_function_stub, detect_print_only, detect_return_constant,
    detect_silent_result_discard, detect_todo_placeholder, normalize_code_for_signal,
};

#[test]
fn unit_contract_detects_python_param_reduction() {
    let old = "def f(a, b):\n    return a + b\n";
    let new = "def f(a):\n    return a\n";
    let reasons = contract_weakening_reasons(Some(SupportedLanguage::Python), old, new);
    assert!(!reasons.is_empty(), "expected contract weakening reasons");
    assert!(reasons.iter().any(|r| r.contains("parameter count reduced")));
}

#[test]
fn unit_contract_preserves_js_same_signature() {
    let old = "function sum(a, b){ return a + b }\n";
    let new = "function sum(a, b){ const c = a + b; return c }\n";
    let reasons = contract_weakening_reasons(Some(SupportedLanguage::JavaScript), old, new);
    assert!(reasons.is_empty(), "no weakening expected for same signature");
    let sig_old = extract_signatures_regex(Some(SupportedLanguage::JavaScript), old);
    assert_eq!(sig_old.iter().find(|(n, _)| n == "sum").map(|(_, v)| v.len()), Some(2));
}

#[test]
fn unit_detects_return_constant_python() {
    let code = "def f(x):\n    return 1\n";
    assert!(detect_return_constant(code), "should detect return literal in python");
}

#[test]
fn unit_detects_return_constant_js() {
    let code = "function f(){ return true; }";
    assert!(detect_return_constant(code), "should detect return literal in js");
}

#[test]
fn unit_detects_function_stub_python_pass() {
    let code = "def f(x):\n    # TODO\n    pass\n";
    assert!(
        detect_function_stub(Some(SupportedLanguage::Python), code),
        "should detect python pass stub"
    );
}

#[test]
fn unit_detects_function_stub_js_throw() {
    let code = "function f(){ throw new Error('Not implemented'); }";
    assert!(
        detect_function_stub(Some(SupportedLanguage::JavaScript), code),
        "should detect js throw Not implemented stub"
    );
}

#[test]
fn signal_drops_comments_and_whitespace() {
    assert_eq!(normalize_code_for_signal("let a = 1; // one\n/* two */ let b=2;\n# x\n"), "leta=1;letb=2;");
    assert_eq!(normalize_code_for_signal("a /* open"), "an");
    assert_eq!(normalize_code_for_signal("é"), "\u{c3}\u{a9}");
}

#[test]
fn call_tokens_skip_keywords() {
    assert_eq!(count_call_like_tokens("if (x) { foo(1); bar (2); Return(3); baz(4) }"), 2);
    assert_eq!(count_call_like_tokens("a("), 1);
    assert_eq!(count_call_like_tokens("f"), 0);
}

#[test]
fn print_only_changes() {
    assert!(detect_print_only("console.log('hi')"));
    assert!(detect_print_only("PRINT(x)"));
    assert!(!detect_print_only("print(compute_total(items))"));
    assert!(!detect_print_only("return a + b"));
}

#[test]
fn placeholders() {
    assert!(detect_todo_placeholder("// ToDo later"));
    assert!(detect_todo_placeholder("def f():\n    pass\n"));
    assert!(!detect_todo_placeholder("def f():\n    return 1\n"));
}

#[test]
fn swallowed_errors() {
    assert!(detect_empty_catch_except("try { a(); } catch (e) { }"));
    assert!(detect_empty_catch_except("try:\n    x()\nexcept:\n    pass\n"));
    assert!(detect_empty_catch_except("p.catch(() => {})"));
    assert!(!detect_empty_catch_except("try { a(); } catch (e) { log(e); }"));
}

#[test]
fn go_error_discards() {
    let old = "if err := save(); err != nil { return err }";
    assert!(detect_silent_result_discard(old, "_ = save()"));
    assert!(!detect_silent_result_discard(old, "if err := save(); err != nil { panic(err) }"));
}

#[test]
fn constant_returns_ignoring_parameters() {
    assert_eq!(detect_const_return_ignores_params("(a, b) => 42"), Some(true));
    assert_eq!(detect_const_return_ignores_params("def f(a):\n    return a\n"), Some(false));
    assert_eq!(detect_const_return_ignores_params(""), Some(false));
}

#[test]
fn assessment_of_a_stubbed_function() {
    let old = "function total(xs) { return sum(xs.map(price)).add(tax(xs)); }";
    let new = "return 0;";
    let a = assess_change("src/cart.js", Some(old), Some(new)).unwrap();
    assert!(a.is_return_constant_only);
    assert!(a.logic_calls_removed);
    assert!(!a.is_whitespace_or_comments_only);
    assert!(!a.is_allowed_minimal_context);
    assert!(a.summary.starts_with("returns constant only"));
    assert!(a.summary.contains("logic/calls removed"));
}

#[test]
fn assessment_of_a_comment_only_change() {
    let a = assess_change("src/Version.rs", Some("let x = 1;"), Some("let x = 1; // why")).unwrap();
    assert!(a.is_whitespace_or_comments_only);
    assert!(a.is_allowed_minimal_context);
    assert_eq!(a.summary, "no-op change (whitespace/comments only)");
}

#[test]
fn assessment_without_flags() {
    let a = assess_change("src/x.rs", Some("fn a() -> u8 { b() }"), Some("fn a() -> u8 { c() + d() }")).unwrap();
    assert_eq!(a.summary, "no red flags");
    let n = assess_change("src/new.py", None, Some("print('ok')")).unwrap();
    assert!(n.is_new_file_minimal);
    assert!(n.is_print_or_log_only);
}

#[test]
fn contracts_in_detail() {
    let old = "def f(a, b, *args):\n    pass\ndef g(self, x):\n    pass\ndef h(y):\n    pass\n";
    let new = "def f(a):\n    pass\ndef g(self, z):\n    pass\n";
    let reasons = contract_weakening_reasons(Some(SupportedLanguage::Python), old, new);
    assert_eq!(
        reasons,
        vec![
            "Function `f`: parameter count reduced (2 -> 1)".to_string(),
            "Function `g`: parameter `x` removed or renamed".to_string(),
            "Function `h`: removed from module".to_string(),
        ]
    );
}

#[test]
fn call_sites_of_weakened_contracts() {
    let old = "def f(a, b):\n    pass\n";
    let new = "def f(a):\n    pass\nf(1, b=2)\nf(1)\nf(1, 2)\n";
    let issues = find_contract_callsite_issues(Some(SupportedLanguage::Python), old, new);
    assert_eq!(
        issues,
        vec![
            "Calls to `f` still pass removed named params: b".to_string(),
            "Calls to `f` exceed new arity (2 -> 1): 2 occurrences".to_string(),
        ]
    );
    let gone = find_contract_callsite_issues(Some(SupportedLanguage::Python), "def k(a):\n    pass\n", "x = 1\n");
    assert_eq!(gone, vec!["Function `k` removed; consider migration plan".to_string()]);
    assert!(find_contract_callsite_issues(None, old, new).is_empty());
}

#[test]
fn functions_signatures_python_drop_receivers_and_defaults() {
    let code = "def run(self, a: int, b=2, *args, **kwargs):\n    pass\ndef g():\n    pass\n";
    let sigs = extract_functions_signatures(SupportedLanguage::Python, code);
    assert_eq!(sigs.len(), 2);
    assert_eq!(sigs[0].0, "run");
    assert_eq!(sigs[0].1, vec!["a".to_string(), "b".to_string()]);
    assert_eq!(sigs[1].0, "g");
    assert!(sigs[1].1.is_empty());
}

#[test]
fn functions_signatures_js_strip_rest_types_and_optional_marks() {
    let code = "function load(...items: string[], opt?: number) { return items; }";
    let sigs = extract_functions_signatures(SupportedLanguage::TypeScript, code);
    assert_eq!(sigs.len(), 1);
    assert_eq!(sigs[0].0, "load");
    assert_eq!(sigs[0].1, vec!["items".to_string(), "opt".to_string()]);
}

#[test]
fn functions_signatures_other_language_is_empty() {
    let sigs = extract_functions_signatures(SupportedLanguage::Rust, "fn main() {}");
    assert!(sigs.is_empty());
}
