use rust_validation_hooks::formatting::SupportedLanguage;
use rust_validation_hooks::messages::glossary::{ConcreteIssue, IssueCategory, IssueSeverity, QualityScore};
use rust_validation_hooks::project_analysis::{gitignore_patterns, walk_decision, ProjectAnalysis, WalkStep};

fn issue(sev: IssueSeverity, cat: IssueCategory, line: usize, msg: &str) -> ConcreteIssue {
    ConcreteIssue {
        severity: sev,
        category: cat,
        message: msg.to_string(),
        file: String::new(),
        line,
        column: 1,
        rule_id: "R".to_string(),
        points_deducted: 1,
    }
}

fn score(issues: Vec<ConcreteIssue>) -> QualityScore {
    QualityScore {
        total_score: 100,
        functionality_score: 30,
        reliability_score: 20,
        maintainability_score: 20,
        performance_score: 10,
        security_score: 10,
        standards_score: 10,
        concrete_issues: issues,
    }
}

#[test]
fn walk_decides_by_depth_kind_and_name() {
    let none: Vec<String> = vec![];
    assert!(matches!(walk_decision("src/main.rs", true, false, 0, &none), WalkStep::Analyze(SupportedLanguage::Rust)));
    assert!(matches!(walk_decision("README.md", true, false, 0, &none), WalkStep::Skip));
    assert!(matches!(walk_decision("notes.unknown", true, false, 0, &none), WalkStep::Skip));
    assert!(matches!(walk_decision("src", false, true, 0, &none), WalkStep::Descend));
    assert!(matches!(walk_decision("node_modules", false, true, 0, &none), WalkStep::Skip));
    assert!(matches!(walk_decision(".cache", false, true, 0, &none), WalkStep::Skip));
    assert!(matches!(walk_decision("src/a.py", true, false, 10, &none), WalkStep::Skip));
    assert!(matches!(walk_decision("src/a.py", true, false, 9, &none), WalkStep::Analyze(SupportedLanguage::Python)));
    let pats = vec!["*.py".to_string()];
    assert!(matches!(walk_decision("src/a.py", true, false, 0, &pats), WalkStep::Skip));
}

#[test]
fn gitignore_patterns_drop_blank_and_comment_lines() {
    let text = "# comment\n\n  target/  \n*.log\n   \n#x\n";
    assert_eq!(gitignore_patterns(text), vec!["target/".to_string(), "*.log".to_string()]);
}

#[test]
fn empty_analysis_reports_nothing() {
    assert_eq!(ProjectAnalysis::new().format_report(), "");
}

#[test]
fn oversized_files_are_counted_and_reported() {
    let mut a = ProjectAnalysis::new();
    assert!(a.accept_content(500_000));
    assert!(!a.accept_content(500_001));
    a.record_failure();
    assert_eq!(
        a.format_report(),
        "\n## PROJECT-WIDE AST ANALYSIS\n- Files analyzed: 0\n- Total issues found: 0\n- Critical issues: 0\n- Skipped (too large): 1\n- Skipped (errors): 1\n"
    );
}

#[test]
fn report_orders_critical_issues_and_files() {
    let mut a = ProjectAnalysis::new();
    a.record_analysis("b.py", &score(vec![
        issue(IssueSeverity::Critical, IssueCategory::SqlInjection, 4, "sql"),
        issue(IssueSeverity::Minor, IssueCategory::LongLine, 9, "long"),
    ]));
    a.record_analysis("a.py", &score(vec![issue(IssueSeverity::Critical, IssueCategory::HardcodedCredentials, 2, "key")]));
    a.record_analysis("c.py", &score(vec![]));
    assert_eq!(a.total_files, 3);
    assert_eq!(a.total_issues, 3);
    assert_eq!(a.results[0].2, vec!["SqlInjection".to_string(), "LongLine".to_string()]);
    let expected = "\n## PROJECT-WIDE AST ANALYSIS\n- Files analyzed: 3\n- Total issues found: 3\n- Critical issues: 2\n- Skipped (too large): 0\n- Skipped (errors): 0\n\n### Critical Issues in Project:\n1. a.py: key (line 2)\n2. b.py: sql (line 4)\n\n### Files with Issues:\n- `b.py`: 2 issues\n- `a.py`: 1 issues\n";
    assert_eq!(a.format_report(), expected);
}

#[test]
fn report_counts_what_is_left_out() {
    let mut a = ProjectAnalysis::new();
    for k in 0..12 {
        let path = format!("f{:02}.py", k);
        a.record_analysis(&path, &score(vec![issue(IssueSeverity::Critical, IssueCategory::SqlInjection, k + 1, "x")]));
    }
    let r = a.format_report();
    assert!(r.contains("5. f04.py: x (line 5)\n... and 7 more critical issues\n"));
    assert!(r.contains("- `f09.py`: 1 issues\n... and 2 more files with issues\n"));
}
