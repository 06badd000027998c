use rust_validation_hooks::ignore::{glob_match, CombinedIgnore, Patterns};

#[test]
fn globs_match_by_pieces() {
    assert!(glob_match("main.rs", "*.rs"));
    assert!(glob_match("main.rs", "main.rs"));
    assert!(!glob_match("main.rs", "main.r"));
    assert!(glob_match("a_test_b.py", "a*test*.py"));
    assert!(!glob_match("test.py", "a*test*.py"));
    assert!(glob_match("anything", "*"));
}

#[test]
fn gitignore_lines_join_the_builtin_patterns() {
    let p = Patterns::from_gitignore("/proj", Some("# comment\n\n  secrets.env  \nlogs/\n*.tmp\n"));
    assert!(p.entries.contains(&"secrets.env".to_string()));
    assert!(p.entries.contains(&"logs/".to_string()));
    assert!(p.entries.contains(&"target/".to_string()));
    assert!(!p.entries.iter().any(|e| e.starts_with('#')));
    let mut sorted = p.entries.clone();
    sorted.sort();
    sorted.dedup();
    assert_eq!(sorted.len(), p.entries.len());
}

#[test]
fn paths_are_matched_relative_to_the_root() {
    let p = Patterns::from_gitignore("/proj", Some("secrets.env\nlogs/\n"));
    assert!(rust_validation_hooks::ignore::matches(&p, "/proj", "/proj/target/debug/app"));
    assert!(rust_validation_hooks::ignore::matches(&p, "/proj", "/proj/config/secrets.env"));
    assert!(rust_validation_hooks::ignore::matches(&p, "/proj", "/proj/logs/today.txt"));
    assert!(rust_validation_hooks::ignore::matches(&p, "/proj", "/proj/src/x.log"));
    assert!(!rust_validation_hooks::ignore::matches(&p, "/proj", "/proj/src/main.rs"));
    assert!(rust_validation_hooks::ignore::matches(&p, "/proj", "/elsewhere/main.rs"));
}

#[test]
fn overlay_adds_patterns() {
    let p = Patterns::from_gitignore("/proj", None).overlay(&["generated/", "*.snap"]);
    assert!(rust_validation_hooks::ignore::matches(&p, "/proj", "/proj/generated/a.rs"));
    assert!(rust_validation_hooks::ignore::matches(&p, "/proj", "/proj/tests/x.snap"));
}

#[test]
fn combined_rules_check_globs_then_patterns() {
    let p = Patterns::from_gitignore("/proj", None);
    let globs = vec!["**/*.md".to_string()];
    let c = CombinedIgnore::new("/proj", p, Some(&globs));
    assert!(c.is_ignored("/proj/docs/readme.md"));
    assert!(c.is_ignored("/proj/node_modules/x.js"));
    assert!(!c.is_ignored("/proj/src/lib.rs"));
    let empty = CombinedIgnore::empty_for("/proj");
    assert!(!empty.is_ignored("/proj/target/x"));
}
