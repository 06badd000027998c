use vstd::prelude::*;

verus! {

/// `globset::Glob::new` accepts `pattern`.
pub uninterp spec fn glob_accepted(pattern: Seq<char>) -> bool;

/// `globset::GlobSetBuilder::build` succeeds on the globs of `patterns`.
pub uninterp spec fn globset_builds(patterns: Seq<Seq<char>>) -> bool;

/// The set built from `patterns` matches `path` (`GlobSet::is_match`).
pub uninterp spec fn globset_hit(patterns: Seq<Seq<char>>, path: Seq<char>) -> bool;

/// Whether `globset::Glob::new` accepts `pattern`; the answer is named, not spelled out.
#[verifier::external_body]
pub fn glob_compiles(pattern: &str) -> (r: bool)
    ensures
        r == glob_accepted(pattern@),
{
    globset::Glob::new(pattern).is_ok()
}

/// Whether `globset::GlobSetBuilder::build` succeeds after adding the globs
/// of `patterns` (each given to `Glob::new`, those it rejects left out).
#[verifier::external_body]
pub fn globset_build_ok(patterns: &Vec<String>) -> (r: bool)
    ensures
        r == globset_builds(patterns.deep_view()),
{
    let mut builder = globset::GlobSetBuilder::new();
    for p in patterns {
        if let Ok(g) = globset::Glob::new(p) {
            builder.add(g);
        }
    }
    builder.build().is_ok()
}

/// `globset::GlobSet::is_match` on the set built from `patterns` (as in
/// `globset_build_ok`; a set that fails to build matches nothing). An empty
/// set matches nothing, as `GlobSet::is_match_candidate` returns `false`
/// for it; beyond that the answer is named, not spelled out.
#[verifier::external_body]
pub fn globset_is_match(patterns: &Vec<String>, path: &str) -> (r: bool)
    ensures
        r == globset_hit(patterns.deep_view(), path@),
        patterns@.len() == 0 ==> !r,
{
    let mut builder = globset::GlobSetBuilder::new();
    for p in patterns {
        if let Ok(g) = globset::Glob::new(p) {
            builder.add(g);
        }
    }
    builder.build().map(|set| set.is_match(path)).unwrap_or(false)
}

} // verus!
