use vstd::prelude::*;
use crate::strings::{chars_eq, chars_of, slice_chars, string_of};

verus! {

/// Kinds of issue that the quality scorer reports.
#[derive(Clone, Copy, Debug, PartialEq, Eq)]
pub enum IssueCategory {
    HardcodedCredentials,
    SqlInjection,
    CommandInjection,
    PathTraversal,
    UnhandledError,
    UnreachableCode,
    TooManyParameters,
    DeepNesting,
    HighComplexity,
    LongMethod,
    NamingConvention,
    MissingDocumentation,
    UnusedImports,
    UnusedVariables,
    LongLine,
    UnfinishedWork,
    MissingReturnValue,
    InfiniteLoop,
    ResourceLeak,
    RaceCondition,
    NullPointerRisk,
    InsecureRandom,
    DeadCode,
    DuplicateCode,
    InefficientAlgorithm,
    UnboundedRecursion,
    ExcessiveMemoryUse,
    SynchronousBlocking,
    MissingErrorHandling,
}

/// How serious an issue is, most serious first.
#[derive(Clone, Copy, Debug, PartialEq, Eq)]
pub enum IssueSeverity {
    Critical,
    Major,
    Minor,
}

/// One concrete issue found in the code.
#[derive(Clone, Debug)]
pub struct ConcreteIssue {
    pub severity: IssueSeverity,
    pub category: IssueCategory,
    pub message: String,
    pub file: String,
    pub line: usize,
    pub column: usize,
    pub rule_id: String,
    pub points_deducted: u32,
}

/// The result of scoring a file: its scores and the issues, in the order the
/// scorer reported them.
pub struct QualityScore {
    pub total_score: u32,
    pub functionality_score: u32,
    pub reliability_score: u32,
    pub maintainability_score: u32,
    pub performance_score: u32,
    pub security_score: u32,
    pub standards_score: u32,
    pub concrete_issues: Vec<ConcreteIssue>,
}

/// The tip for an issue category.
pub open spec fn tip_text(cat: IssueCategory) -> Seq<char> {
    match cat {
        IssueCategory::HardcodedCredentials => "Never hardcode secrets; use env vars or a secret manager."@,
        IssueCategory::SqlInjection => "Use parameterized queries; avoid string-concatenated SQL."@,
        IssueCategory::CommandInjection => "Avoid shell concatenation; prefer exec APIs with arg arrays."@,
        IssueCategory::PathTraversal => "Join + normalize paths; validate against allowed roots."@,
        IssueCategory::UnhandledError => "Handle Result/Exception; replace unwrap/panic with proper errors."@,
        IssueCategory::UnreachableCode => "Remove code after early-returns/raise/break; simplify control flow."@,
        IssueCategory::TooManyParameters => "Reduce params (>5); group into struct/object to simplify calls."@,
        IssueCategory::DeepNesting => "Flatten nesting (>4): early return/guard clauses + extract helpers."@,
        IssueCategory::HighComplexity => "Split large functions; extract pure helpers; simplify branches."@,
        IssueCategory::LongMethod => "Shorten method (>50 stmts); extract cohesive blocks into helpers."@,
        IssueCategory::NamingConvention => "Use consistent, descriptive names; follow project naming rules."@,
        IssueCategory::MissingDocumentation => "Document public APIs briefly (what, params, returns)."@,
        IssueCategory::UnusedImports => "Remove unused imports; keep build/lint fast and clean."@,
        IssueCategory::UnusedVariables => "Remove or underscore unused variables for clarity."@,
        IssueCategory::LongLine => "Wrap lines >120 chars; extract expressions; split format strings."@,
        _ => "Refactor for clarity; keep functions short and single-purpose."@,
    }
}

/// A concise, action-oriented tip for an issue category.
pub fn tip_for_category(cat: &IssueCategory) -> (r: &'static str)
    ensures
        r@ == tip_text(*cat),
{
    match cat {
        IssueCategory::HardcodedCredentials => "Never hardcode secrets; use env vars or a secret manager.",
        IssueCategory::SqlInjection => "Use parameterized queries; avoid string-concatenated SQL.",
        IssueCategory::CommandInjection => "Avoid shell concatenation; prefer exec APIs with arg arrays.",
        IssueCategory::PathTraversal => "Join + normalize paths; validate against allowed roots.",
        IssueCategory::UnhandledError => "Handle Result/Exception; replace unwrap/panic with proper errors.",
        IssueCategory::UnreachableCode => "Remove code after early-returns/raise/break; simplify control flow.",
        IssueCategory::TooManyParameters => "Reduce params (>5); group into struct/object to simplify calls.",
        IssueCategory::DeepNesting => "Flatten nesting (>4): early return/guard clauses + extract helpers.",
        IssueCategory::HighComplexity => "Split large functions; extract pure helpers; simplify branches.",
        IssueCategory::LongMethod => "Shorten method (>50 stmts); extract cohesive blocks into helpers.",
        IssueCategory::NamingConvention => "Use consistent, descriptive names; follow project naming rules.",
        IssueCategory::MissingDocumentation => "Document public APIs briefly (what, params, returns).",
        IssueCategory::UnusedImports => "Remove unused imports; keep build/lint fast and clean.",
        IssueCategory::UnusedVariables => "Remove or underscore unused variables for clarity.",
        IssueCategory::LongLine => "Wrap lines >120 chars; extract expressions; split format strings.",
        _ => "Refactor for clarity; keep functions short and single-purpose.",
    }
}

/// The tips of the issues in order, each kept only the first time it appears.
pub open spec fn distinct_tips(issues: Seq<ConcreteIssue>) -> Seq<Seq<char>>
    decreases issues.len(),
{
    if issues.len() == 0 {
        Seq::empty()
    } else {
        let d = distinct_tips(issues.drop_last());
        let t = tip_text(issues.last().category);
        if d.contains(t) {
            d
        } else {
            d.push(t)
        }
    }
}

/// A tip cut to `max_chars` characters, the last of which is `…`, when it is
/// longer; with a limit of zero nothing of it is kept.
pub open spec fn clip(tip: Seq<char>, max_chars: nat) -> Seq<char> {
    if tip.len() <= max_chars {
        tip
    } else if max_chars == 0 {
        Seq::empty()
    } else {
        tip.take(max_chars - 1).push('…')
    }
}

/// How many tips are given: all distinct ones, up to `max_tips`.
pub open spec fn tip_count(n: nat, max_tips: nat) -> nat {
    if n < max_tips {
        n
    } else {
        max_tips
    }
}

/// The quick tips for a score.
pub open spec fn quick_tips(issues: Seq<ConcreteIssue>, max_tips: nat, max_chars: nat) -> Seq<Seq<char>> {
    let d = distinct_tips(issues);
    Seq::new(tip_count(d.len(), max_tips), |i: int| clip(d[i], max_chars))
}

/// The distinct tips of a prefix are a prefix of the distinct tips of the whole.
proof fn lemma_distinct_prefix(issues: Seq<ConcreteIssue>, i: int)
    requires
        0 <= i <= issues.len(),
    ensures
        distinct_tips(issues.take(i)).len() <= distinct_tips(issues).len(),
        distinct_tips(issues.take(i)) == distinct_tips(issues).take(distinct_tips(issues.take(i)).len() as int),
    decreases issues.len() - i,
{
    if i < issues.len() {
        lemma_distinct_prefix(issues, i + 1);
        assert(issues.take(i + 1).drop_last() == issues.take(i));
    } else {
        assert(issues.take(i) == issues);
    }
}

proof fn lemma_distinct_unique(issues: Seq<ConcreteIssue>)
    ensures
        forall|a: int, b: int|
            0 <= a < b < distinct_tips(issues).len() ==> distinct_tips(issues)[a] != distinct_tips(issues)[b],
    decreases issues.len(),
{
    if issues.len() > 0 {
        lemma_distinct_unique(issues.drop_last());
        let d = distinct_tips(issues.drop_last());
        let t = tip_text(issues.last().category);
        if !d.contains(t) {
            assert forall|a: int| 0 <= a < d.len() implies d[a] != t by {
                if d[a] == t {
                    assert(d.contains(t));
                }
            }
        }
    }
}

fn clip_exec(tip: &[char], max_chars: usize) -> (r: Vec<char>)
    ensures
        r@ == clip(tip@, max_chars as nat),
{
    if tip.len() <= max_chars {
        slice_chars(tip, 0, tip.len())
    } else if max_chars == 0 {
        Vec::new()
    } else {
        let mut s = slice_chars(tip, 0, max_chars - 1);
        s.push('…');
        s
    }
}

/// Up to `max_tips` distinct tips for the categories of the score's issues, in
/// the order they first appear, each cut to `max_line_chars` characters.
pub fn build_quick_tips(score: &QualityScore, max_tips: usize, max_line_chars: usize) -> (r: Vec<String>)
    ensures
        r@.len() <= max_tips,
        forall|i: int| 0 <= i < r@.len() ==> (#[trigger] r@[i])@.len() <= max_line_chars,
        r@.len() == quick_tips(score.concrete_issues@, max_tips as nat, max_line_chars as nat).len(),
        forall|i: int|
            0 <= i < r@.len() ==> (#[trigger] r@[i])@ == quick_tips(
                score.concrete_issues@,
                max_tips as nat,
                max_line_chars as nat,
            )[i],
{
    let issues = &score.concrete_issues;
    let ghost all = issues@;
    if max_tips == 0 {
        return Vec::new();
    }
    let mut seen: Vec<Vec<char>> = Vec::new();
    let mut out: Vec<String> = Vec::new();
    let mut i: usize = 0;
    while i < issues.len()
        invariant
            all == issues@,
            all == score.concrete_issues@,
            i <= all.len(),
            seen@.len() == distinct_tips(all.take(i as int)).len(),
            forall|k: int| 0 <= k < seen@.len() ==> (#[trigger] seen@[k])@ == distinct_tips(all.take(i as int))[k],
            out@.len() == seen@.len(),
            forall|k: int| 0 <= k < out@.len() ==> (#[trigger] out@[k])@ == clip(distinct_tips(all.take(i as int))[k], max_line_chars as nat),
            max_tips > 0,
            out@.len() < max_tips,
        decreases all.len() - i,
    {
        let ghost d0 = distinct_tips(all.take(i as int));
        assert(all.take(i + 1).drop_last() == all.take(i as int));
        let tip = chars_of(tip_for_category(&issues[i].category));
        let mut found = false;
        let mut k: usize = 0;
        while k < seen.len()
            invariant
                k <= seen@.len(),
                forall|m: int| 0 <= m < seen@.len() ==> (#[trigger] seen@[m])@ == d0[m],
                seen@.len() == d0.len(),
                found ==> d0.contains(tip@),
                !found ==> forall|m: int| 0 <= m < k ==> d0[m] != tip@,
            decreases seen@.len() - k,
        {
            if chars_eq(seen[k].as_slice(), tip.as_slice()) {
                found = true;
                assert(d0[k as int] == tip@);
            }
            k = k + 1;
        }
        if !found {
            assert(!d0.contains(tip@));
            assert(distinct_tips(all.take(i + 1)) == d0.push(tip@));
            let clipped = clip_exec(tip.as_slice(), max_line_chars);
            out.push(string_of(clipped.as_slice()));
            seen.push(tip);
            if out.len() >= max_tips {
                proof {
                    lemma_distinct_prefix(all, i + 1);
                    let dd = distinct_tips(all);
                    let q = quick_tips(all, max_tips as nat, max_line_chars as nat);
                    assert(q.len() == out@.len());
                    assert forall|m: int| 0 <= m < out@.len() implies (#[trigger] out@[m])@ == q[m] by {
                        assert(distinct_tips(all.take(i + 1))[m] == dd[m]);
                    }
                }
                return out;
            }
        }
        i = i + 1;
    }
    proof {
        assert(all.take(all.len() as int) == all);
    }
    out
}

/// At most `max_tips` tips come out, and no tip is longer than the line limit.
pub proof fn law_quick_tips_bounded(issues: Seq<ConcreteIssue>, max_tips: nat, max_chars: nat)
    ensures
        quick_tips(issues, max_tips, max_chars).len() <= max_tips,
        forall|i: int|
            0 <= i < quick_tips(issues, max_tips, max_chars).len() ==> (#[trigger] quick_tips(
                issues,
                max_tips,
                max_chars,
            )[i]).len() <= max_chars,
{
}

/// The tips come from distinct categories' texts: no tip text is used twice
/// before clipping.
pub proof fn law_tips_distinct(issues: Seq<ConcreteIssue>)
    ensures
        forall|a: int, b: int|
            0 <= a < b < distinct_tips(issues).len() ==> distinct_tips(issues)[a] != distinct_tips(issues)[b],
{
    lemma_distinct_unique(issues);
}

} // verus!
