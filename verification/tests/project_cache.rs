use rust_validation_hooks::project_cache::{compress_structure, compress_tree, short_language_name};

fn paths(v: &[&str]) -> Vec<String> {
    v.iter().map(|s| s.to_string()).collect()
}

#[test]
fn compress_tree_groups_files_by_short_directory_names() {
    let p = paths(&[
        "src/a.rs",
        "src/b.py",
        "README.md",
        "tests/x.ts",
        "lib/mod.json",
        "docs/guide.md",
        "node_modules/pkg/index.js",
        "src/gen/a.js.js",
    ]);
    assert_eq!(
        compress_tree(&p),
        "README.md;d[guide.md];l[mod:jn];nm/pkg[index:j];s[a:r,b:p];s/gen[a:j];t[x:t]"
    );
}

#[test]
fn compress_tree_of_nothing_is_empty() {
    assert_eq!(compress_tree(&Vec::new()), "");
}

#[test]
fn compress_tree_keeps_top_level_files_in_order() {
    let p = paths(&["b.txt", "a.txt", "Cargo.toml"]);
    assert_eq!(compress_tree(&p), "b.txt,a.txt,Cargo.toml");
}

#[test]
fn compress_structure_keeps_top_five_names_and_estimates_tokens() {
    let p = paths(&["src/main.rs", "README.md"]);
    let metrics = "L10,r:10/1/1.0/2.0;Q5/0/0;C1.0/2.0/3/4/1+0+0+0";
    let ranked = paths(&["src/main.rs", "b", "c/d/e.py", "f", "g", "h"]);
    let c = compress_structure(&p, metrics, &ranked);
    assert_eq!(c.format_version, 3);
    assert_eq!(c.tree, "README.md;s[main:r]");
    assert_eq!(c.metrics, metrics);
    assert_eq!(c.important_files, paths(&["main.rs", "b", "e.py", "f", "g"]));
    let full = format!("{};{}", c.tree, metrics);
    assert_eq!(c.token_estimate, (full.len() + 2) / 3);
    assert_eq!(c.token_estimate, 22);
}

#[test]
fn short_language_names_for_the_metrics_text() {
    assert_eq!(short_language_name("rs"), "r");
    assert_eq!(short_language_name("cpp"), "c+");
    assert_eq!(short_language_name("java"), "jv");
    assert_eq!(short_language_name("rb"), "rb");
    assert_eq!(short_language_name("kotlin"), "kotlin");
}
