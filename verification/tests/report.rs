use rust_validation_hooks::messages::glossary::{ConcreteIssue, IssueCategory, IssueSeverity, QualityScore};
use rust_validation_hooks::report::{
    build_code_health, build_next_steps, build_quick_tips_section, build_risk_report,
    build_risk_report_with_caps, extract_changed_lines, filter_issues_to_diff, format_ast_results,
    build_change_context_snippets, build_unfinished_work_section, normalize_tool_name, report_order_exec, should_ignore_path, soft_budget_note,
    ToolKind,
};

fn issue(sev: IssueSeverity, cat: IssueCategory, line: usize, rule: &str, msg: &str) -> ConcreteIssue {
    ConcreteIssue {
        severity: sev,
        category: cat,
        message: msg.to_string(),
        file: "f.py".to_string(),
        line,
        column: 1,
        rule_id: rule.to_string(),
        points_deducted: 3,
    }
}

fn score(issues: Vec<ConcreteIssue>) -> QualityScore {
    QualityScore {
        total_score: 80,
        functionality_score: 20,
        reliability_score: 20,
        maintainability_score: 20,
        performance_score: 10,
        security_score: 5,
        standards_score: 5,
        concrete_issues: issues,
    }
}

fn sample() -> QualityScore {
    score(vec![
        issue(IssueSeverity::Minor, IssueCategory::LongLine, 5, "b", "m1"),
        issue(IssueSeverity::Critical, IssueCategory::SqlInjection, 10, "a", "m2"),
        issue(IssueSeverity::Major, IssueCategory::DeepNesting, 3, "r", "m3"),
        issue(IssueSeverity::Minor, IssueCategory::LongLine, 5, "a", "m4"),
    ])
}

#[test]
fn report_order_sorts_by_severity_line_and_rule() {
    let s = sample();
    assert_eq!(report_order_exec(&s.concrete_issues), vec![1, 2, 3, 0]);
}

#[test]
fn report_order_keeps_equal_keys_in_place() {
    let s = score(vec![
        issue(IssueSeverity::Major, IssueCategory::LongLine, 2, "x", "first"),
        issue(IssueSeverity::Critical, IssueCategory::LongLine, 9, "x", "crit"),
        issue(IssueSeverity::Major, IssueCategory::LongLine, 2, "x", "second"),
    ]);
    assert_eq!(report_order_exec(&s.concrete_issues), vec![1, 0, 2]);
}

#[test]
fn risk_report_lists_issues_in_order() {
    assert_eq!(
        build_risk_report(&sample()),
        "=== RISK REPORT ===\n\
         - [Critical] Line 10: m2 [a]\n\
         - [Major] Line 3: m3 [r]\n\
         - [Minor] Line 5: m4 [a]\n\
         - [Minor] Line 5: m1 [b]\n"
    );
}

#[test]
fn risk_report_without_issues() {
    assert_eq!(build_risk_report(&score(vec![])), "=== RISK REPORT ===\nNo issues detected.\n");
}

#[test]
fn risk_report_caps_minor_issues_and_notes_the_rest() {
    let issues: Vec<ConcreteIssue> = (1..=7)
        .map(|l| issue(IssueSeverity::Minor, IssueCategory::LongLine, l, "w", "long"))
        .collect();
    let r = build_risk_report_with_caps(&score(issues), Some(10), Some(5), Some(5));
    assert_eq!(r.matches("- [Minor]").count(), 5);
    assert!(r.contains("Line 5: long"));
    assert!(!r.contains("Line 6: long"));
    assert!(r.ends_with("… truncated: showing 5 of 7 issues\n"));
}

#[test]
fn risk_report_caps_are_clamped() {
    let issues: Vec<ConcreteIssue> = (1..=12)
        .map(|l| issue(IssueSeverity::Critical, IssueCategory::SqlInjection, l, "s", "x"))
        .collect();
    // An overall cap below 10 is raised to 10.
    let r = build_risk_report_with_caps(&score(issues), Some(1), None, None);
    assert_eq!(r.matches("- [Critical]").count(), 10);
    assert!(r.ends_with("… truncated: showing 10 of 12 issues\n"));
}

#[test]
fn ast_results_group_by_severity() {
    let r = format_ast_results(&sample());
    assert_eq!(
        r,
        "\n\nAST DETECTED ISSUES (Automated, top sorted):\n\
         \n🔴 CRITICAL (P1 - Fix immediately):\n  Line 10: m2 [a] (-3 points)\n\
         \n🟡 MAJOR (P2 - Fix soon):\n  Line 3: m3 [r] (-3 points)\n\
         \n🟢 MINOR (P3 - Nice to fix):\n  Line 5: m4 [a] (-3 points)\n  Line 5: m1 [b] (-3 points)\n\
         \nNote: Use AST issues as baseline. Add context-aware insights.\n"
    );
}

#[test]
fn ast_results_are_empty_without_issues() {
    assert_eq!(format_ast_results(&score(vec![])), "");
}

#[test]
fn next_steps_follow_the_issues() {
    let r = build_next_steps(&sample());
    assert_eq!(
        r,
        "=== NEXT STEPS ===\n\
         - Fix security-critical issues first (creds/SQL/path/command).\n\
         - Use parameterized queries; avoid concatenating SQL with inputs.\n\
         - Flatten deep nesting (>4). Extract helpers/early returns.\n\
         - Wrap lines >120 chars; split expressions/format strings; adjust formatter width if needed.\n\
         - Add/Update unit tests covering changed functions and edge cases.\n"
    );
}

#[test]
fn next_steps_always_mention_tests() {
    assert_eq!(
        build_next_steps(&score(vec![])),
        "=== NEXT STEPS ===\n- Add/Update unit tests covering changed functions and edge cases.\n"
    );
}

#[test]
fn code_health_counts_structural_issues() {
    let s = score(vec![
        issue(IssueSeverity::Major, IssueCategory::DeepNesting, 1, "n", ""),
        issue(IssueSeverity::Major, IssueCategory::DeepNesting, 2, "n", ""),
        issue(IssueSeverity::Minor, IssueCategory::LongMethod, 3, "l", ""),
        issue(IssueSeverity::Minor, IssueCategory::LongLine, 4, "w", ""),
    ]);
    assert_eq!(
        build_code_health(&s),
        "=== CODE HEALTH ===\nToo many params: 0\nDeep nesting: 2\nHigh complexity: 0\nLong methods: 1\n"
    );
}

#[test]
fn quick_tips_section_lists_distinct_tips() {
    let r = build_quick_tips_section(&sample());
    assert!(r.starts_with("=== QUICK TIPS ===\n- "));
    assert_eq!(r.lines().count(), 4);
    assert_eq!(build_quick_tips_section(&score(vec![])), "");
}

#[test]
fn tool_names_are_classified() {
    assert_eq!(normalize_tool_name("WriteFile"), (ToolKind::Write, false));
    assert_eq!(normalize_tool_name("AppendToFile"), (ToolKind::Write, true));
    assert_eq!(normalize_tool_name("append"), (ToolKind::Write, true));
    assert_eq!(normalize_tool_name("Edit"), (ToolKind::Edit, false));
    assert_eq!(normalize_tool_name("MultiEdit"), (ToolKind::MultiEdit, false));
    assert_eq!(normalize_tool_name("Bash"), (ToolKind::Other, false));
    assert_eq!(normalize_tool_name("appendtext"), (ToolKind::Other, false));
}

#[test]
fn soft_budget_only_for_large_files() {
    assert_eq!(soft_budget_note("a\nb\n", "x.rs"), None);
    let big = "x\n".repeat(10_001);
    assert_eq!(
        soft_budget_note(&big, "big.py"),
        Some(
            "[ANALYSIS] Skipped AST analysis due to soft budget (20002 bytes, 10001 lines) for big.py (limits: 500000 bytes, 10000 lines)"
                .to_string()
        )
    );
}

#[test]
fn changed_lines_come_from_added_lines() {
    let c = extract_changed_lines("  12 + foo\n 13 - bar\nxx\n   1 +top\n", 1);
    assert_eq!(c.windows, vec![(11, 13), (0, 2)]);
    assert!(c.contains(12));
    assert!(c.contains(1));
    assert!(!c.contains(0));
    assert!(!c.contains(14));
    assert!(!c.is_empty());
    assert!(extract_changed_lines("no numbers\n5 - gone\n", 3).is_empty());
}

#[test]
fn changed_line_numbers_saturate() {
    let c = extract_changed_lines("99999999999999999999999 +x\n", 2);
    assert_eq!(c.windows, vec![(usize::MAX - 2, usize::MAX)]);
}

#[test]
fn diff_filter_keeps_issues_on_changed_lines() {
    let f = filter_issues_to_diff(&sample(), "3 +changed\n", 0);
    assert_eq!(f.total_score, 80);
    assert_eq!(f.concrete_issues.len(), 1);
    assert_eq!(f.concrete_issues[0].message, "m3");
    let all = filter_issues_to_diff(&sample(), "nothing added\n", 2);
    assert_eq!(all.concrete_issues.len(), 4);
}

fn mk_quality_score(lines: &[usize]) -> QualityScore {
    let mut s = score(vec![]);
    for &ln in lines {
        s.concrete_issues.push(ConcreteIssue {
            severity: IssueSeverity::Minor,
            category: IssueCategory::LongLine,
            message: "long line".to_string(),
            file: "file.py".to_string(),
            line: ln,
            column: 1,
            rule_id: "TST001".to_string(),
            points_deducted: 0,
        });
    }
    s
}

#[test]
fn normalize_tool_name_aliases() {
    let cases = [
        ("Write", ToolKind::Write, false),
        ("WriteFile", ToolKind::Write, false),
        ("CreateFile", ToolKind::Write, false),
        ("AppendToFile", ToolKind::Write, true),
        ("Append", ToolKind::Write, true),
        ("Edit", ToolKind::Edit, false),
        ("ReplaceInFile", ToolKind::Edit, false),
        ("MultiEdit", ToolKind::MultiEdit, false),
        ("BatchEdit", ToolKind::MultiEdit, false),
        ("SomethingElse", ToolKind::Other, false),
    ];
    for (name, kind, append) in cases {
        let (k, a) = normalize_tool_name(name);
        assert_eq!(k, kind, "kind mismatch for {}", name);
        assert_eq!(a, append, "append mismatch for {}", name);
    }
}

#[test]
fn unit_extract_changed_lines_and_filter_match_plus_lines() {
    let diff = "--- a/file\n+++ b/file\n@@ -4,3 +4,3 @@\n  4   same\n  5 - old\n  5 + new\n  6   same\n";
    let changed = extract_changed_lines(diff, 0);
    assert!(changed.contains(5));
    let score = mk_quality_score(&[2, 5, 10]);
    let filtered = filter_issues_to_diff(&score, diff, 0);
    assert_eq!(filtered.concrete_issues.len(), 1);
    assert_eq!(filtered.concrete_issues[0].line, 5);
}

#[test]
fn unit_next_steps_recommendations_cover_common_categories() {
    let mut score = QualityScore {
        total_score: 900,
        functionality_score: 300,
        reliability_score: 200,
        maintainability_score: 200,
        performance_score: 100,
        security_score: 50,
        standards_score: 50,
        concrete_issues: Vec::new(),
    };
    let mut push = |cat: IssueCategory| {
        score.concrete_issues.push(ConcreteIssue {
            severity: IssueSeverity::Major,
            category: cat,
            message: String::new(),
            file: String::new(),
            line: 1,
            column: 1,
            rule_id: "TST".into(),
            points_deducted: 0,
        });
    };
    push(IssueCategory::UnreachableCode);
    push(IssueCategory::LongLine);
    push(IssueCategory::UnusedImports);
    push(IssueCategory::MissingDocumentation);
    let steps = build_next_steps(&score);
    assert!(steps.contains("Unreachable") || steps.contains("dead/unreachable"));
    assert!(steps.contains("Wrap lines") || steps.contains(">120"));
    assert!(steps.contains("unused imports"));
    assert!(steps.contains("docstrings") || steps.contains("public APIs"));
    assert!(steps.contains("Add/Update unit tests"));
}

#[test]
fn should_ignore_path_normalizes_windows_separators() {
    let path = "dir\\node_modules\\file.js";
    let patterns = vec!["node_modules/".to_string()];
    assert!(should_ignore_path(path, false, &patterns));
}

#[test]
fn ignore_patterns_by_kind() {
    let p = |v: &[&str]| v.iter().map(|s| s.to_string()).collect::<Vec<String>>();
    assert!(should_ignore_path("src/app.log", false, &p(&["*.log"])));
    assert!(!should_ignore_path("src/app.rs", false, &p(&["*.log"])));
    assert!(!should_ignore_path("src/app.rs", false, &p(&["#src", ""])));
    assert!(should_ignore_path("build/out.o", false, &p(&["/build"])));
    assert!(should_ignore_path("a/target", true, &p(&["target/"])));
    assert!(should_ignore_path("README.md", false, &p(&["README.md"])));
    assert!(!should_ignore_path("src/main.rs", false, &p(&["dist", "*.py"])));
}

#[test]
fn unfinished_work_by_line_and_message() {
    let s = score(vec![
        issue(IssueSeverity::Minor, IssueCategory::UnfinishedWork, 9, "u", "later"),
        issue(IssueSeverity::Minor, IssueCategory::LongLine, 1, "w", "not listed"),
        issue(IssueSeverity::Major, IssueCategory::UnfinishedWork, 2, "u", "b todo"),
        issue(IssueSeverity::Minor, IssueCategory::UnfinishedWork, 2, "u", "a todo"),
    ]);
    assert_eq!(
        build_unfinished_work_section(&s, 6, 120),
        Some("=== UNFINISHED WORK ===\n- Line 2: a todo\n- Line 2: b todo\n- Line 9: later\n".to_string())
    );
    assert_eq!(
        build_unfinished_work_section(&s, 1, 120),
        Some("=== UNFINISHED WORK ===\n- Line 2: a todo\n".to_string())
    );
    assert_eq!(build_unfinished_work_section(&sample(), 6, 120), Some(String::new()));
}

#[test]
fn unfinished_work_cuts_long_messages() {
    let s = score(vec![issue(IssueSeverity::Minor, IssueCategory::UnfinishedWork, 1, "u", "abcdefghij")]);
    assert_eq!(
        build_unfinished_work_section(&s, 6, 5),
        Some("=== UNFINISHED WORK ===\n- Line 1: abcd…\n".to_string())
    );
    // A cut that would split a character is refused.
    let w = score(vec![issue(IssueSeverity::Minor, IssueCategory::UnfinishedWork, 1, "u", "ééééé")]);
    assert_eq!(build_unfinished_work_section(&w, 6, 4), None);
    assert_eq!(
        build_unfinished_work_section(&w, 6, 5),
        Some("=== UNFINISHED WORK ===\n- Line 1: éé…\n".to_string())
    );
}

#[test]
fn change_context_shows_lines_around_issues() {
    let content = "a\nb\nc\nd\ne\n";
    let s = score(vec![issue(IssueSeverity::Minor, IssueCategory::LongLine, 3, "r", "m")]);
    let changed = extract_changed_lines("3 +c\n", 0);
    assert_eq!(
        build_change_context_snippets(content, &s, &changed, 1, 3, 2000),
        "=== CHANGE CONTEXT ===\n- [Minor] Line 3: m [r]\n     2 | b\n>    3 | c\n     4 | d\n"
    );
}

#[test]
fn change_context_without_changes_or_issues() {
    let content = "a\n";
    let s = score(vec![issue(IssueSeverity::Minor, IssueCategory::LongLine, 1, "r", "m")]);
    let none = extract_changed_lines("", 0);
    let note = "=== CHANGE CONTEXT ===\nNo localized snippets available.\n";
    assert_eq!(build_change_context_snippets(content, &s, &none, 1, 3, 2000), note);
    let changed = extract_changed_lines("1 +a\n", 0);
    assert_eq!(build_change_context_snippets(content, &score(vec![]), &changed, 1, 3, 2000), note);
}

#[test]
fn change_context_respects_caps() {
    let content = "l1\nl2\nl3\nl4\nl5\nl6\n";
    let s = score(vec![
        issue(IssueSeverity::Minor, IssueCategory::LongLine, 2, "r", "first"),
        issue(IssueSeverity::Minor, IssueCategory::LongLine, 5, "r", "second"),
    ]);
    let changed = extract_changed_lines("2 +x\n5 +y\n", 0);
    let one = build_change_context_snippets(content, &s, &changed, 0, 1, 2000);
    assert_eq!(one.lines().filter(|l| l.starts_with("- [")).count(), 1);
    let both = build_change_context_snippets(content, &s, &changed, 0, 3, 2000);
    assert_eq!(both.lines().filter(|l| l.starts_with("- [")).count(), 2);
    // The header of the first issue does not fit in 30 bytes.
    assert_eq!(build_change_context_snippets(content, &s, &changed, 0, 3, 30), "=== CHANGE CONTEXT ===\n");
    // Rows stop as soon as one would pass the limit.
    let tight = build_change_context_snippets(content, &s, &changed, 1, 3, 60);
    assert_eq!(tight, "=== CHANGE CONTEXT ===\n- [Minor] Line 2: first [r]\n");
}
