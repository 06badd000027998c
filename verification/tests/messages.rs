use rust_validation_hooks::messages::glossary::{
    build_quick_tips, tip_for_category, ConcreteIssue, IssueCategory, IssueSeverity, QualityScore,
};

fn score(cats: &[IssueCategory]) -> QualityScore {
    QualityScore {
        total_score: 100,
        functionality_score: 0,
        reliability_score: 0,
        maintainability_score: 0,
        performance_score: 0,
        security_score: 0,
        standards_score: 0,
        concrete_issues: cats
            .iter()
            .map(|c| ConcreteIssue {
                severity: IssueSeverity::Minor,
                category: *c,
                message: String::new(),
                file: String::new(),
                line: 1,
                column: 1,
                rule_id: String::new(),
                points_deducted: 0,
            })
            .collect(),
    }
}

#[test]
fn each_category_has_its_tip() {
    assert_eq!(
        tip_for_category(&IssueCategory::SqlInjection),
        "Use parameterized queries; avoid string-concatenated SQL."
    );
    assert_eq!(
        tip_for_category(&IssueCategory::UnfinishedWork),
        "Refactor for clarity; keep functions short and single-purpose."
    );
}

#[test]
fn quick_tips_are_distinct_in_first_seen_order() {
    let s = score(&[
        IssueCategory::LongLine,
        IssueCategory::SqlInjection,
        IssueCategory::LongLine,
        IssueCategory::DeepNesting,
    ]);
    let tips = build_quick_tips(&s, 10, 200);
    assert_eq!(
        tips,
        vec![
            tip_for_category(&IssueCategory::LongLine).to_string(),
            tip_for_category(&IssueCategory::SqlInjection).to_string(),
            tip_for_category(&IssueCategory::DeepNesting).to_string(),
        ]
    );
}

#[test]
fn quick_tips_are_bounded_and_clipped() {
    let s = score(&[IssueCategory::LongLine, IssueCategory::SqlInjection]);
    let tips = build_quick_tips(&s, 1, 10);
    assert_eq!(tips.len(), 1);
    assert_eq!(tips[0], "Wrap line…");
    assert!(build_quick_tips(&score(&[]), 5, 50).is_empty());
}
