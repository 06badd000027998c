use rust_validation_hooks::config::Sensitivity;
use rust_validation_hooks::formatting::SupportedLanguage;
use rust_validation_hooks::gate::{
    contract_gate, contract_summary, is_security_sensitive, language_from_extension,
};
use rust_validation_hooks::hooks::ToolInput;

fn edit(path: Option<&str>, old: &str, new: &str) -> ToolInput {
    ToolInput {
        file_path: path.map(|p| p.to_string()),
        content: None,
        old_string: Some(old.to_string()),
        new_string: Some(new.to_string()),
        edits: None,
    }
}

const OLD: &str = "def f(a, b):\n    return a + b\n";
const NEW: &str = "def f(a):\n    return a\n";

#[test]
fn high_sensitivity_denies_weakened_contracts() {
    let v = contract_gate(Sensitivity::High, "Edit", &edit(Some("m.py"), OLD, NEW), "").expect("denial");
    assert_eq!(v.decision, "deny");
    assert_eq!(v.risk_level, "medium");
    assert_eq!(v.security_concerns, Some(vec!["api_contract".to_string()]));
    assert!(v.reason.starts_with(
        "Please preserve API contract (do not remove/rename parameters) or provide a migration strategy.\nDetected issues:\n- "
    ));
    assert!(v.reason.contains("parameter count reduced"));
}

#[test]
fn low_sensitivity_lets_it_pass() {
    assert!(contract_gate(Sensitivity::Low, "Edit", &edit(Some("m.py"), OLD, NEW), "").is_none());
}

#[test]
fn medium_sensitivity_needs_risk_or_broken_calls() {
    assert!(contract_gate(Sensitivity::Medium, "Edit", &edit(Some("m.py"), OLD, NEW), "").is_none());
    let risky = "def f(a):\n    password = 'x'\n    return a\n";
    let v = contract_gate(Sensitivity::Medium, "Edit", &edit(Some("m.py"), OLD, risky), "").expect("denial");
    assert_eq!(v.risk_level, "high");
    assert!(v.reason.starts_with("Security-sensitive change combined with API weakening. "));
}

#[test]
fn gate_needs_a_path_an_edit_and_both_texts() {
    assert!(contract_gate(Sensitivity::High, "Edit", &edit(None, OLD, NEW), "").is_none());
    assert!(contract_gate(Sensitivity::High, "Write", &edit(Some("m.py"), OLD, NEW), "").is_none());
    let mut only_old = edit(Some("m.py"), OLD, NEW);
    only_old.new_string = None;
    assert!(contract_gate(Sensitivity::High, "Edit", &only_old, "").is_none());
    assert!(contract_gate(Sensitivity::High, "Edit", &edit(Some("m.py"), OLD, OLD), "").is_none());
}

#[test]
fn sensitive_code_is_spotted() {
    assert!(is_security_sensitive("let API_KEY = 1"));
    assert!(is_security_sensitive("SELECT * FROM t WHERE x"));
    assert!(is_security_sensitive("os.system('ls')"));
    assert!(!is_security_sensitive("SELECT 1"));
    assert!(!is_security_sensitive("fn add(a: i32) -> i32 { a }"));
}

#[test]
fn extensions_name_languages() {
    assert_eq!(language_from_extension("py"), Some(SupportedLanguage::Python));
    assert_eq!(language_from_extension("tsx"), Some(SupportedLanguage::TypeScript));
    assert_eq!(language_from_extension("md"), None);
}

#[test]
fn summary_of_reasons() {
    assert_eq!(contract_summary(&vec![]), "");
    assert_eq!(
        contract_summary(&vec!["a".to_string(), "b".to_string()]),
        "\n\nHEURISTIC SUMMARY:\nAPI contract weakening suspected:\n- a\n- b\n"
    );
}
