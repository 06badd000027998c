use rust_validation_hooks::messages::glossary::IssueCategory;
use rust_validation_hooks::risk_health::{
    build_quality_section, category_name_exec, context_limit, is_ignored_dir_name, is_recent_candidate,
    is_test_like_dir, is_test_or_backup_file, recent_work_section, scan_limit, should_ignore_path,
    strict_classify, top_languages, RiskHealth, RiskTally, StrictSeverity,
};

#[test]
fn categories_are_weighed() {
    assert_eq!(strict_classify(IssueCategory::SqlInjection), Some((StrictSeverity::Critical, "Security")));
    assert_eq!(strict_classify(IssueCategory::RaceCondition), Some((StrictSeverity::Major, "Correctness")));
    assert_eq!(strict_classify(IssueCategory::LongLine), Some((StrictSeverity::Minor, "Maintainability")));
    assert_eq!(category_name_exec(IssueCategory::NullPointerRisk), "NullPointerRisk");
}

#[test]
fn scan_skips_tooling_tests_and_backups() {
    assert!(is_ignored_dir_name("node_modules"));
    assert!(!is_ignored_dir_name("src"));
    assert!(is_test_like_dir("__tests__"));
    assert!(!is_test_like_dir("lib"));
    assert!(is_test_or_backup_file("main.rs.bak"));
    assert!(is_test_or_backup_file("test_main.py"));
    assert!(!is_test_or_backup_file("main.rs"));
    assert!(should_ignore_path("./target/debug/x.rs"));
    assert!(should_ignore_path("src/tests/a.rs"));
    assert!(should_ignore_path("src/util_test.go"));
    assert!(!should_ignore_path("src/lib.rs"));
}

#[test]
fn scan_limit_setting() {
    assert_eq!(scan_limit(None), 400);
    assert_eq!(scan_limit(Some("10")), 50);
    assert_eq!(scan_limit(Some("100")), 100);
    assert_eq!(scan_limit(Some("5000")), 2000);
    assert_eq!(scan_limit(Some("many")), 400);
}

#[test]
fn tally_counts_and_ranks() {
    let mut t = RiskTally::new();
    t.record_file(
        "src/a.py",
        &[IssueCategory::SqlInjection, IssueCategory::LongLine, IssueCategory::LongLine],
    );
    t.record_file("src/b.py", &[IssueCategory::UnhandledError]);
    t.record_file("src/c.py", &[]);
    assert_eq!((t.total, t.critical, t.major, t.minor), (4, 1, 1, 2));
    let h = t.snapshot();
    assert_eq!(h.total, 4);
    assert_eq!(
        h.top_categories,
        vec![
            ("LongLine".to_string(), 2),
            ("SqlInjection".to_string(), 1),
            ("UnhandledError".to_string(), 1)
        ]
    );
    assert_eq!(h.top_files, vec![("src/a.py".to_string(), 3), ("src/b.py".to_string(), 1)]);
}

#[test]
fn tally_replaces_a_file_seen_again() {
    let mut t = RiskTally::new();
    t.record_file("x.rs", &[IssueCategory::LongLine]);
    t.record_file("x.rs", &[IssueCategory::LongLine, IssueCategory::DeadCode]);
    assert_eq!(t.total, 3);
    assert_eq!(t.by_file, vec![("x.rs".to_string(), 2)]);
}

#[test]
fn empty_tally_gives_zero_snapshot() {
    let h = RiskTally::new().snapshot();
    assert_eq!((h.total, h.critical, h.major, h.minor), (0, 0, 0, 0));
    assert!(h.top_categories.is_empty() && h.top_files.is_empty());
}

#[test]
fn snapshot_keeps_five_of_each() {
    let mut t = RiskTally::new();
    let cats = [
        IssueCategory::LongLine,
        IssueCategory::DeadCode,
        IssueCategory::DeepNesting,
        IssueCategory::LongMethod,
        IssueCategory::UnusedImports,
        IssueCategory::UnusedVariables,
    ];
    for (i, c) in cats.iter().enumerate() {
        t.record_file(&format!("f{}.py", i), &[*c]);
    }
    let h = t.snapshot();
    assert_eq!(h.top_categories.len(), 5);
    assert_eq!(h.top_categories[0].0, "DeadCode");
    assert_eq!(h.top_files.len(), 5);
    assert_eq!(h.top_files[0].0, "f0.py");
}

#[test]
fn quality_section_text() {
    let h = RiskHealth {
        total: 9,
        critical: 3,
        major: 2,
        minor: 4,
        top_categories: vec![("TestSmell".to_string(), 4), ("LongLine".to_string(), 3)],
        top_files: vec![
            (".\\src\\main.rs".to_string(), 5),
            ("src/test_util.rs".to_string(), 2),
            ("bench/b.rs".to_string(), 1),
        ],
    };
    assert_eq!(
        build_quality_section(&Some(h)),
        "\n=== QUALITY ===\nReal issues: 6 (Crit: 2 | Major: 2 | Minor: 4)\nProblems: LongLine:3\nHotspots: src/main.rs:5\n"
    );
    assert_eq!(build_quality_section(&None), "\n=== QUALITY ===\n✓ No critical issues in source code\n");
}

#[test]
fn hotspot_paths_are_cut() {
    let h = RiskHealth {
        total: 1,
        critical: 0,
        major: 0,
        minor: 1,
        top_categories: vec![],
        top_files: vec![("a/very/long/path/that/goes/on/and/on/file.rs".to_string(), 1)],
    };
    let s = build_quality_section(&Some(h));
    assert!(s.contains("Hotspots: a/very/long/path/that/goes/on…:1\n"));
    assert!(!s.contains("Problems"));
}

#[test]
fn languages_and_recent_work() {
    let langs = vec![
        ("Rust".to_string(), 10),
        ("Python".to_string(), 12),
        ("backup".to_string(), 50),
        ("Go".to_string(), 10),
        ("C".to_string(), 1),
    ];
    assert_eq!(top_languages(&langs), "Python: 12, Go: 10, Rust: 10");
    assert_eq!(top_languages(&vec![]), "");
    assert_eq!(recent_work_section(&vec![]), "");
    assert_eq!(
        recent_work_section(&vec!["a.rs".to_string(), "b.py".to_string()]),
        "\n=== RECENT WORK ===\nActive files: a.rs, b.py\n"
    );
}

#[test]
fn context_settings_and_candidates() {
    assert_eq!(context_limit(None), 4000);
    assert_eq!(context_limit(Some("500")), 1000);
    assert_eq!(context_limit(Some("6000")), 6000);
    assert_eq!(context_limit(Some("9000")), 8000);
    assert!(is_recent_candidate("rs", "main.rs"));
    assert!(!is_recent_candidate("md", "README.md"));
    assert!(!is_recent_candidate("py", "test_x.py"));
    assert!(!is_recent_candidate("rs", "lib.rs.bak"));
}

#[test]
fn snapshot_lists_are_ranked_and_within_the_total() {
    let mut t = RiskTally::new();
    t.record_file("a.py", &[IssueCategory::LongLine, IssueCategory::LongLine, IssueCategory::DeadCode]);
    t.record_file("b.py", &[IssueCategory::DeadCode]);
    t.record_file("a.py", &[IssueCategory::DeepNesting]);
    let h = t.snapshot();
    assert_eq!(h.total, h.critical + h.major + h.minor);
    let cat_sum: usize = h.top_categories.iter().map(|e| e.1).sum();
    let file_sum: usize = h.top_files.iter().map(|e| e.1).sum();
    assert_eq!(cat_sum, 5);
    assert!(file_sum <= h.total);
    assert_eq!(file_sum, 2);
    for w in h.top_categories.windows(2) {
        assert!(w[0].1 > w[1].1 || (w[0].1 == w[1].1 && w[0].0 < w[1].0));
    }
}
