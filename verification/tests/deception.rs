use rust_validation_hooks::deception_detector::{detect_deception, DeceptionSeverity};

#[test]
fn test_detect_todo() {
    let code = "function test() {\n  // TODO: implement this\n  return true;\n}";
    let report = detect_deception(code, "src/test.js");
    assert!(report.is_deceptive);
    assert_eq!(report.severity, DeceptionSeverity::High);
}

#[test]
fn test_detect_mock_name() {
    let code = "const mockUserService = { getData: () => {} };";
    let report = detect_deception(code, "src/service.js");
    assert!(report.is_deceptive);
}

#[test]
fn test_detect_empty_catch() {
    let code = "try { doSomething(); } catch(e) {}";
    let report = detect_deception(code, "src/app.js");
    assert!(report.is_deceptive);
    assert_eq!(report.severity, DeceptionSeverity::Critical);
}

#[test]
fn test_legitimate_code() {
    let code = "function calculate(a, b) {\n  if (a > b) {\n    return a - b;\n  }\n  return b - a;\n}";
    let report = detect_deception(code, "src/math.js");
    assert!(!report.is_deceptive);
}

#[test]
fn clean_code_gets_the_all_clear() {
    let report = detect_deception("fn add(a: i32, b: i32) -> i32 { a + b }", "src/lib.rs");
    assert!(report.violations.is_empty());
    assert_eq!(report.severity, DeceptionSeverity::NoIssue);
    assert_eq!(report.recommendation, "Code appears to be legitimate implementation");
}

#[test]
fn findings_come_in_rule_order_with_exact_messages() {
    let code = "// TODO fix\n// FIXME too\nlet x = 1; // placeholder";
    let report = detect_deception(code, "src/fake_api.js");
    assert_eq!(
        report.violations,
        vec![
            "Filename contains mock/fake/stub outside test directory".to_string(),
            "Found 2 TODO/FIXME markers - incomplete implementation".to_string(),
            "Found 'placeholder' - clear fake implementation".to_string(),
        ]
    );
    assert_eq!(report.severity, DeceptionSeverity::Critical);
    assert_eq!(
        report.recommendation,
        "REJECT: This is clearly fake/mock code masquerading as real implementation"
    );
}

#[test]
fn test_directories_excuse_mock_names() {
    let code = "const mockUserService = 1;";
    let inside = detect_deception(code, "src/tests/service.js");
    assert!(!inside.violations.iter().any(|v| v.starts_with("Function/variable with mock name")));
    let outside = detect_deception(code, "src/service.js");
    assert_eq!(outside.violations, vec!["Function/variable with mock name: mockU".to_string()]);
    assert_eq!(outside.severity, DeceptionSeverity::High);
}

#[test]
fn faked_waiting_is_medium() {
    let report = detect_deception("setTimeout(done, 500)", "src/app.js");
    assert_eq!(report.violations, vec!["setTimeout used to fake async work".to_string()]);
    assert_eq!(report.severity, DeceptionSeverity::Medium);
    assert_eq!(report.recommendation, "WARNING: Suspicious patterns detected. Review carefully.");
}

#[test]
fn bare_return_without_nearby_logic() {
    let report = detect_deception("function ok() {\n  return true; }\n", "src/a.js");
    assert!(report.violations.contains(&"Hardcoded 'return true' without logic".to_string()));
    let with_logic = detect_deception(
        "function ok(x) {\n  if (x) { y(); }\n  return true; }\n",
        "src/a.js",
    );
    assert!(!with_logic.violations.contains(&"Hardcoded 'return true' without logic".to_string()));
}

#[test]
fn deceptive_only_when_something_is_listed() {
    for (code, path) in [
        ("let a = b + c;", "src/x.rs"),
        ("// quick and dirty", "src/x.rs"),
        ("except: pass", "src/x.py"),
        ("x = random.choice(xs)", "src/x.py"),
        ("x = random.choice(xs)", "src/test/x.py"),
    ] {
        let report = detect_deception(code, path);
        assert_eq!(report.is_deceptive, !report.violations.is_empty());
        assert_eq!(report.is_deceptive, report.severity != DeceptionSeverity::NoIssue);
    }
}
