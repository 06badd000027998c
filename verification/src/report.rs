use vstd::prelude::*;
use crate::messages::glossary::{ConcreteIssue, IssueCategory, IssueSeverity, QualityScore};
use crate::strings::{
    append_chars, append_str, chars_eq, chars_of, contains, contains_exec, decimal, decimal_exec, lines, lines_of,
    lower, lower_chars, split, split_chars, slashes, slashes_exec, starts_with, starts_with_exec, ends_with,
    string_of, starts_with_lit, ends_with_lit, trim, trim_bounds, trim_chars, trim_start,
};
use crate::paths::{extension_of, file_name_of, path_extension, path_file_name};
use crate::strings::{utf8_size, utf8_size_exec, utf8_width, char_width};

verus! {

// ---------------------------------------------------------------------------
// The order in which issues are reported
// ---------------------------------------------------------------------------

/// Severity as a rank: critical first, then major, then minor.
pub open spec fn severity_rank(s: IssueSeverity) -> nat {
    match s {
        IssueSeverity::Critical => 0,
        IssueSeverity::Major => 1,
        IssueSeverity::Minor => 2,
    }
}

/// Lexicographic order of texts by character code (the order of `String`'s `<`).
pub open spec fn text_less(a: Seq<char>, b: Seq<char>) -> bool
    decreases a.len(),
{
    if a.len() == 0 {
        b.len() > 0
    } else if b.len() == 0 {
        false
    } else if a[0] != b[0] {
        (a[0] as int) < (b[0] as int)
    } else {
        text_less(a.drop_first(), b.drop_first())
    }
}

/// Issue `a` is reported before issue `b`: by severity, then line, then rule id.
pub open spec fn issue_less(a: ConcreteIssue, b: ConcreteIssue) -> bool {
    ||| severity_rank(a.severity) < severity_rank(b.severity)
    ||| (severity_rank(a.severity) == severity_rank(b.severity) && a.line < b.line)
    ||| (severity_rank(a.severity) == severity_rank(b.severity) && a.line == b.line
        && text_less(a.rule_id@, b.rule_id@))
}

/// Two issues have the same sort key.
pub open spec fn same_key(a: ConcreteIssue, b: ConcreteIssue) -> bool {
    &&& severity_rank(a.severity) == severity_rank(b.severity)
    &&& a.line == b.line
    &&& a.rule_id@ == b.rule_id@
}

/// `r` lists the positions of `s`, each once, in report order; issues with the
/// same key keep the order they had in `s`.
pub open spec fn is_report_order(s: Seq<ConcreteIssue>, r: Seq<usize>) -> bool {
    &&& r.len() == s.len()
    &&& forall|a: int| 0 <= a < r.len() ==> #[trigger] r[a] < s.len()
    &&& forall|a: int, b: int| 0 <= a < b < r.len() ==> r[a] != r[b]
    &&& forall|a: int, b: int| 0 <= a < b < r.len() ==> !issue_less(s[r[b] as int], s[r[a] as int])
    &&& forall|a: int, b: int|
        0 <= a < b < r.len() && same_key(s[r[a] as int], s[r[b] as int]) ==> r[a] < r[b]
}

pub(crate) proof fn lemma_text_less_irreflexive(a: Seq<char>)
    ensures
        !text_less(a, a),
    decreases a.len(),
{
    if a.len() > 0 {
        lemma_text_less_irreflexive(a.drop_first());
    }
}

pub(crate) proof fn lemma_text_less_transitive(a: Seq<char>, b: Seq<char>, c: Seq<char>)
    requires
        text_less(a, b),
        text_less(b, c),
    ensures
        text_less(a, c),
    decreases a.len(),
{
    if a.len() > 0 && b.len() > 0 && c.len() > 0 && a[0] == b[0] && b[0] == c[0] {
        lemma_text_less_transitive(a.drop_first(), b.drop_first(), c.drop_first());
    }
}

proof fn lemma_text_less_total(a: Seq<char>, b: Seq<char>)
    ensures
        a == b || text_less(a, b) || text_less(b, a),
    decreases a.len(),
{
    if a.len() > 0 && b.len() > 0 {
        if a[0] == b[0] {
            lemma_text_less_total(a.drop_first(), b.drop_first());
            if a.drop_first() == b.drop_first() {
                assert(a == seq![a[0]] + a.drop_first());
                assert(b == seq![b[0]] + b.drop_first());
            }
        } else {
            assert((a[0] as int) != (b[0] as int));
        }
    } else if a.len() == 0 && b.len() == 0 {
        assert(a == b);
    }
}

proof fn lemma_text_less_asymmetric(a: Seq<char>, b: Seq<char>)
    requires
        text_less(a, b),
    ensures
        !text_less(b, a),
{
    if text_less(b, a) {
        lemma_text_less_transitive(a, b, a);
        lemma_text_less_irreflexive(a);
    }
}

/// The report order is a strict weak order: irreflexive, transitive, and
/// issues that are not ordered either way have the same key.
proof fn lemma_issue_order_facts(a: ConcreteIssue, b: ConcreteIssue, c: ConcreteIssue)
    ensures
        !issue_less(a, a),
        issue_less(a, b) && issue_less(b, c) ==> issue_less(a, c),
        issue_less(a, b) ==> !issue_less(b, a),
        !issue_less(a, b) && !issue_less(b, a) ==> same_key(a, b),
{
    lemma_text_less_irreflexive(a.rule_id@);
    if issue_less(a, b) && issue_less(b, c) {
        if text_less(a.rule_id@, b.rule_id@) && text_less(b.rule_id@, c.rule_id@) {
            lemma_text_less_transitive(a.rule_id@, b.rule_id@, c.rule_id@);
        }
    }
    if issue_less(a, b) && text_less(a.rule_id@, b.rule_id@) {
        lemma_text_less_asymmetric(a.rule_id@, b.rule_id@);
    }
    lemma_text_less_total(a.rule_id@, b.rule_id@);
}

/// Where issue `i` goes among the already ordered positions `r`: before the
/// first one that it precedes.
pub open spec fn insert_pos(s: Seq<ConcreteIssue>, r: Seq<usize>, i: int) -> nat
    decreases r.len(),
{
    if r.len() == 0 {
        0
    } else if issue_less(s[i], s[r[0] as int]) {
        0
    } else {
        1 + insert_pos(s, r.drop_first(), i)
    }
}

/// The report order of the first `n` issues, built by stable insertion.
pub open spec fn report_order(s: Seq<ConcreteIssue>, n: nat) -> Seq<usize>
    decreases n,
{
    if n == 0 {
        Seq::empty()
    } else {
        let r = report_order(s, (n - 1) as nat);
        r.insert(insert_pos(s, r, n - 1) as int, (n - 1) as usize)
    }
}

proof fn lemma_insert_pos_facts(s: Seq<ConcreteIssue>, r: Seq<usize>, i: int)
    ensures
        insert_pos(s, r, i) <= r.len(),
        forall|q: int| 0 <= q < insert_pos(s, r, i) ==> !issue_less(s[i], #[trigger] s[r[q] as int]),
        insert_pos(s, r, i) < r.len() ==> issue_less(s[i], s[r[insert_pos(s, r, i) as int] as int]),
    decreases r.len(),
{
    if r.len() > 0 && !issue_less(s[i], s[r[0] as int]) {
        lemma_insert_pos_facts(s, r.drop_first(), i);
        let p = insert_pos(s, r, i);
        assert forall|q: int| 0 <= q < p implies !issue_less(s[i], #[trigger] s[r[q] as int]) by {
            if q > 0 {
                assert(r[q] == r.drop_first()[q - 1]);
            }
        }
        if p < r.len() {
            assert(r[p as int] == r.drop_first()[p - 1]);
        }
    }
}

/// The insertion order is a report order.
pub proof fn lemma_report_order(s: Seq<ConcreteIssue>, n: nat)
    requires
        n <= s.len(),
        s.len() <= usize::MAX,
    ensures
        report_order(s, n).len() == n,
        forall|a: int| 0 <= a < n ==> #[trigger] report_order(s, n)[a] < n,
        is_report_order(s.take(n as int), report_order(s, n)),
    decreases n,
{
    if n > 0 {
        let m = (n - 1) as nat;
        lemma_report_order(s, m);
        let r = report_order(s, m);
        let i = m as int;
        let p = insert_pos(s, r, i);
        lemma_insert_pos_facts(s, r, i);
        let r2 = r.insert(p as int, m as usize);
        assert(report_order(s, n) == r2);
        let t = s.take(n as int);
        let t0 = s.take(m as int);
        assert forall|a: int| 0 <= a < r.len() implies t[r[a] as int] == s[r[a] as int] && t0[r[a] as int]
            == s[r[a] as int] by {
            assert(r[a] < m);
        }
        assert forall|a: int| 0 <= a < n implies #[trigger] r2[a] < n by {
            if a < p {
                assert(r2[a] == r[a]);
            } else if a > p {
                assert(r2[a] == r[a - 1]);
            }
        }
        assert forall|a: int, b: int| 0 <= a < b < r2.len() implies r2[a] != r2[b] by {
            if a < p && b < p {
                assert(r2[a] == r[a] && r2[b] == r[b]);
            } else if a < p && b == p {
                assert(r2[a] == r[a]);
            } else if a < p && b > p {
                assert(r2[a] == r[a] && r2[b] == r[b - 1]);
            } else if a == p {
                assert(r2[b] == r[b - 1]);
            } else {
                assert(r2[a] == r[a - 1] && r2[b] == r[b - 1]);
            }
        }
        assert forall|a: int, b: int|
            0 <= a < b < r2.len() implies !issue_less(t[r2[b] as int], t[r2[a] as int]) && (same_key(
            t[r2[a] as int],
            t[r2[b] as int],
        ) ==> r2[a] < r2[b]) by {
            let x = s[i];
            if a < p && b < p {
                assert(r2[a] == r[a] && r2[b] == r[b]);
                assert(t0[r[b] as int] == s[r[b] as int]);
            } else if a < p && b == p {
                assert(r2[a] == r[a]);
                assert(!issue_less(x, s[r[a] as int]));
                assert(r[a] < m);
            } else if a < p && b > p {
                assert(r2[a] == r[a] && r2[b] == r[b - 1]);
            } else if a == p {
                assert(r2[b] == r[b - 1]);
                let y = s[r[p as int] as int];
                let z = s[r[b - 1] as int];
                assert(issue_less(x, y));
                if b - 1 > p {
                    assert(!issue_less(z, y));
                }
                lemma_issue_order_facts(z, x, y);
                lemma_issue_order_facts(x, z, y);
            } else {
                assert(r2[a] == r[a - 1] && r2[b] == r[b - 1]);
            }
        }
    } else {
        assert(s.take(0) == Seq::<ConcreteIssue>::empty());
    }
}

pub(crate) fn text_less_exec(a: &[char], b: &[char]) -> (r: bool)
    ensures
        r == text_less(a@, b@),
{
    let mut i: usize = 0;
    assert(a@.skip(0) == a@ && b@.skip(0) == b@);
    while i < a.len() && i < b.len() && a[i] == b[i]
        invariant
            i <= a@.len(),
            i <= b@.len(),
            text_less(a@, b@) == text_less(a@.skip(i as int), b@.skip(i as int)),
        decreases a@.len() - i,
    {
        assert(a@.skip(i as int).drop_first() == a@.skip(i + 1));
        assert(b@.skip(i as int).drop_first() == b@.skip(i + 1));
        i = i + 1;
    }
    if i == a.len() {
        i < b.len()
    } else if i == b.len() {
        false
    } else {
        a[i] < b[i]
    }
}

fn severity_rank_exec(s: IssueSeverity) -> (r: u8)
    ensures
        r as nat == severity_rank(s),
{
    match s {
        IssueSeverity::Critical => 0,
        IssueSeverity::Major => 1,
        IssueSeverity::Minor => 2,
    }
}

fn issue_less_exec(a: &ConcreteIssue, b: &ConcreteIssue) -> (r: bool)
    ensures
        r == issue_less(*a, *b),
{
    let ra = severity_rank_exec(a.severity);
    let rb = severity_rank_exec(b.severity);
    if ra != rb {
        ra < rb
    } else if a.line != b.line {
        a.line < b.line
    } else {
        let ca = chars_of(a.rule_id.as_str());
        let cb = chars_of(b.rule_id.as_str());
        text_less_exec(ca.as_slice(), cb.as_slice())
    }
}

/// The positions of the issues in report order: by severity, then line, then
/// rule id, keeping the given order among equal keys.
pub fn report_order_exec(issues: &Vec<ConcreteIssue>) -> (r: Vec<usize>)
    ensures
        r@ == report_order(issues@, issues@.len()),
        is_report_order(issues@, r@),
{
    let n = issues.len();
    let mut r: Vec<usize> = Vec::new();
    let mut i: usize = 0;
    while i < n
        invariant
            n == issues@.len(),
            i <= n,
            r@ == report_order(issues@, i as nat),
        decreases n - i,
    {
        let ghost r0 = r@;
        let mut p: usize = 0;
        proof {
            lemma_report_order(issues@, i as nat);
            assert(r0.skip(0) == r0);
        }
        while p < r.len() && !issue_less_exec(&issues[i], &issues[r[p]])
            invariant
                r@ == r0,
                r0 == report_order(issues@, i as nat),
                r0.len() == i,
                forall|a: int| 0 <= a < i ==> #[trigger] r0[a] < i,
                i < n,
                n == issues@.len(),
                p <= r@.len(),
                insert_pos(issues@, r0, i as int) == p + insert_pos(issues@, r0.skip(p as int), i as int),
            decreases r@.len() - p,
        {
            assert(r0.skip(p as int)[0] == r0[p as int]);
            assert(r0.skip(p as int).drop_first() == r0.skip(p + 1));
            p = p + 1;
        }
        proof {
            if p < r@.len() {
                assert(r0.skip(p as int)[0] == r0[p as int]);
            }
        }
        r.insert(p, i);
        i = i + 1;
    }
    proof {
        lemma_report_order(issues@, n as nat);
        assert(issues@.take(n as int) == issues@);
    }
    r
}

// ---------------------------------------------------------------------------
// Risk report
// ---------------------------------------------------------------------------

/// The name of a severity as it is printed.
pub open spec fn severity_name(s: IssueSeverity) -> Seq<char> {
    match s {
        IssueSeverity::Critical => "Critical"@,
        IssueSeverity::Major => "Major"@,
        IssueSeverity::Minor => "Minor"@,
    }
}

/// The first `k` items, or all of them when there are fewer.
pub open spec fn prefix<A>(x: Seq<A>, k: nat) -> Seq<A> {
    if k < x.len() {
        x.take(k as int)
    } else {
        x
    }
}

/// `v` clamped to `lo..=hi`.
pub open spec fn clamp(v: nat, lo: nat, hi: nat) -> nat {
    if v < lo {
        lo
    } else if v > hi {
        hi
    } else {
        v
    }
}

/// Whether the issue at a position has the given severity.
pub open spec fn has_severity(s: Seq<ConcreteIssue>, sev: IssueSeverity) -> spec_fn(usize) -> bool {
    |j: usize| s[j as int].severity == sev
}

/// The positions of the issues of severity `sev`, in report order.
pub open spec fn by_severity(s: Seq<ConcreteIssue>, sev: IssueSeverity) -> Seq<usize> {
    report_order(s, s.len()).filter(has_severity(s, sev))
}

/// The issues a risk report lists: all critical ones, then at most
/// `cap_major` major and `cap_minor` minor ones, at most `cap` in all.
pub open spec fn risk_selection(s: Seq<ConcreteIssue>, cap: nat, cap_major: nat, cap_minor: nat) -> Seq<usize> {
    prefix(
        by_severity(s, IssueSeverity::Critical) + prefix(by_severity(s, IssueSeverity::Major), cap_major)
            + prefix(by_severity(s, IssueSeverity::Minor), cap_minor),
        cap,
    )
}

/// One listed issue: `- [Severity] Line N: message [rule]`.
pub open spec fn risk_line(i: ConcreteIssue) -> Seq<char> {
    "- ["@ + severity_name(i.severity) + "] Line "@ + decimal(i.line as nat) + ": "@ + i.message@ + " ["@
        + i.rule_id@ + "]\n"@
}

/// The lines of the listed issues, in order.
pub open spec fn risk_lines(s: Seq<ConcreteIssue>, sel: Seq<usize>) -> Seq<char>
    decreases sel.len(),
{
    if sel.len() == 0 {
        Seq::empty()
    } else {
        risk_lines(s, sel.drop_last()) + risk_line(s[sel.last() as int])
    }
}

/// The note that says how many issues were left out.
pub open spec fn truncation_note(shown: nat, total: nat) -> Seq<char> {
    "… truncated: showing "@ + decimal(shown) + " of "@ + decimal(total) + " issues\n"@
}

/// The risk report of a score under the given caps.
pub open spec fn risk_report(s: Seq<ConcreteIssue>, cap: nat, cap_major: nat, cap_minor: nat) -> Seq<char> {
    let sel = risk_selection(s, cap, cap_major, cap_minor);
    if sel.len() == 0 {
        "=== RISK REPORT ===\n"@ + "No issues detected.\n"@
    } else if s.len() > sel.len() {
        "=== RISK REPORT ===\n"@ + risk_lines(s, sel) + truncation_note(sel.len(), s.len())
    } else {
        "=== RISK REPORT ===\n"@ + risk_lines(s, sel)
    }
}

fn same_severity(a: IssueSeverity, b: IssueSeverity) -> (r: bool)
    ensures
        r == (a == b),
{
    match (a, b) {
        (IssueSeverity::Critical, IssueSeverity::Critical) => true,
        (IssueSeverity::Major, IssueSeverity::Major) => true,
        (IssueSeverity::Minor, IssueSeverity::Minor) => true,
        _ => false,
    }
}

/// Appends to `out` the first `cap` positions of `ord` whose issue has
/// severity `sev`.
fn select_severity(
    issues: &Vec<ConcreteIssue>,
    ord: &Vec<usize>,
    sev: IssueSeverity,
    cap: usize,
    out: &mut Vec<usize>,
)
    requires
        forall|a: int| 0 <= a < ord@.len() ==> #[trigger] ord@[a] < issues@.len(),
        forall|a: int| 0 <= a < old(out)@.len() ==> #[trigger] old(out)@[a] < issues@.len(),
    ensures
        final(out)@ == old(out)@ + prefix(ord@.filter(has_severity(issues@, sev)), cap as nat),
        forall|a: int| 0 <= a < final(out)@.len() ==> #[trigger] final(out)@[a] < issues@.len(),
{
    let ghost start = out@;
    let ghost p = has_severity(issues@, sev);
    let mut count: usize = 0;
    let mut k: usize = 0;
    assert(ord@.take(0) =~= Seq::<usize>::empty());
    proof {
        reveal(Seq::filter);
    }
    while k < ord.len()
        invariant
            p == has_severity(issues@, sev),
            forall|a: int| 0 <= a < ord@.len() ==> #[trigger] ord@[a] < issues@.len(),
            k <= ord@.len(),
            forall|a: int| 0 <= a < out@.len() ==> #[trigger] out@[a] < issues@.len(),
            out@ == start + prefix(ord@.take(k as int).filter(p), cap as nat),
            count as nat == prefix(ord@.take(k as int).filter(p), cap as nat).len(),
        decreases ord@.len() - k,
    {
        let j = ord[k];
        let ghost f0 = ord@.take(k as int).filter(p);
        assert(ord@.take(k + 1) == ord@.take(k as int).push(j));
        proof {
            ord@.take(k as int).lemma_filter_push(j, p);
        }
        assert(p(j) == (issues@[j as int].severity == sev));
        if same_severity(issues[j].severity, sev) {
            assert(ord@.take(k + 1).filter(p) == f0.push(j));
            if count < cap {
                out.push(j);
                count = count + 1;
                assert(prefix(f0.push(j), cap as nat) =~= prefix(f0, cap as nat).push(j));
            } else {
                assert(prefix(f0.push(j), cap as nat) =~= prefix(f0, cap as nat));
            }
        } else {
            assert(ord@.take(k + 1).filter(p) == f0);
        }
        k = k + 1;
    }
    assert(ord@.take(ord@.len() as int) == ord@);
}

fn risk_line_exec(i: &ConcreteIssue, out: &mut Vec<char>)
    ensures
        final(out)@ == old(out)@ + risk_line(*i),
{
    append_str(out, "- [");
    match i.severity {
        IssueSeverity::Critical => append_str(out, "Critical"),
        IssueSeverity::Major => append_str(out, "Major"),
        IssueSeverity::Minor => append_str(out, "Minor"),
    }
    append_str(out, "] Line ");
    let d = decimal_exec(i.line);
    append_chars(out, d.as_slice());
    append_str(out, ": ");
    append_str(out, i.message.as_str());
    append_str(out, " [");
    append_str(out, i.rule_id.as_str());
    append_str(out, "]\n");
}

fn risk_lines_exec(issues: &Vec<ConcreteIssue>, sel: &Vec<usize>, out: &mut Vec<char>)
    requires
        forall|a: int| 0 <= a < sel@.len() ==> #[trigger] sel@[a] < issues@.len(),
    ensures
        final(out)@ == old(out)@ + risk_lines(issues@, sel@),
{
    let ghost start = out@;
    let mut k: usize = 0;
    assert(sel@.take(0) =~= Seq::<usize>::empty());
    while k < sel.len()
        invariant
            forall|a: int| 0 <= a < sel@.len() ==> #[trigger] sel@[a] < issues@.len(),
            k <= sel@.len(),
            out@ == start + risk_lines(issues@, sel@.take(k as int)),
        decreases sel@.len() - k,
    {
        assert(sel@.take(k + 1).drop_last() == sel@.take(k as int));
        risk_line_exec(&issues[sel[k]], out);
        k = k + 1;
    }
    assert(sel@.take(sel@.len() as int) == sel@);
}

fn clamp_exec(v: usize, lo: usize, hi: usize) -> (r: usize)
    ensures
        r as nat == clamp(v as nat, lo as nat, hi as nat),
{
    if v < lo {
        lo
    } else if v > hi {
        hi
    } else {
        v
    }
}

/// The risk report with caps taken from optional settings: the overall cap
/// defaults to 100 and is clamped to 10..=500; the major and minor caps default
/// to the overall cap and are clamped to 5..=500.
pub fn build_risk_report_with_caps(
    score: &QualityScore,
    max_issues: Option<usize>,
    max_major: Option<usize>,
    max_minor: Option<usize>,
) -> (r: String)
    ensures
        ({
            let cap = clamp(
                match max_issues {
                    Some(v) => v as nat,
                    None => 100,
                },
                10,
                500,
            );
            let cm = clamp(
                match max_major {
                    Some(v) => v as nat,
                    None => cap,
                },
                5,
                500,
            );
            let cn = clamp(
                match max_minor {
                    Some(v) => v as nat,
                    None => cap,
                },
                5,
                500,
            );
            r@ == risk_report(score.concrete_issues@, cap, cm, cn)
        }),
{
    let cap = clamp_exec(
        match max_issues {
            Some(v) => v,
            None => 100,
        },
        10,
        500,
    );
    let cm = clamp_exec(
        match max_major {
            Some(v) => v,
            None => cap,
        },
        5,
        500,
    );
    let cn = clamp_exec(
        match max_minor {
            Some(v) => v,
            None => cap,
        },
        5,
        500,
    );
    risk_report_exec(&score.concrete_issues, cap, cm, cn)
}

fn risk_selection_exec(issues: &Vec<ConcreteIssue>, cap: usize, cm: usize, cn: usize) -> (sel: Vec<usize>)
    ensures
        sel@ == risk_selection(issues@, cap as nat, cm as nat, cn as nat),
        forall|a: int| 0 <= a < sel@.len() ==> #[trigger] sel@[a] < issues@.len(),
{
    let ord = report_order_exec(issues);
    let ghost s = issues@;
    assert(s.len() == issues.len());
    proof {
        lemma_report_order(s, s.len());
        assert(s.take(s.len() as int) == s);
    }
    let mut sel: Vec<usize> = Vec::new();
    select_severity(issues, &ord, IssueSeverity::Critical, usize::MAX, &mut sel);
    proof {
        ord@.lemma_filter_len(has_severity(s, IssueSeverity::Critical));
        assert(sel@ =~= by_severity(s, IssueSeverity::Critical));
    }
    select_severity(issues, &ord, IssueSeverity::Major, cm, &mut sel);
    select_severity(issues, &ord, IssueSeverity::Minor, cn, &mut sel);
    let ghost all = sel@;
    sel.truncate(cap);
    assert(sel@ == prefix(all, cap as nat));
    sel
}

fn risk_report_exec(issues: &Vec<ConcreteIssue>, cap: usize, cm: usize, cn: usize) -> (r: String)
    ensures
        r@ == risk_report(issues@, cap as nat, cm as nat, cn as nat),
{
    let sel = risk_selection_exec(issues, cap, cm, cn);
    let mut out: Vec<char> = Vec::new();
    append_str(&mut out, "=== RISK REPORT ===\n");
    if sel.len() == 0 {
        append_str(&mut out, "No issues detected.\n");
        return string_of(out.as_slice());
    }
    risk_lines_exec(issues, &sel, &mut out);
    if issues.len() > sel.len() {
        append_str(&mut out, "… truncated: showing ");
        let a = decimal_exec(sel.len());
        append_chars(&mut out, a.as_slice());
        append_str(&mut out, " of ");
        let b = decimal_exec(issues.len());
        append_chars(&mut out, b.as_slice());
        append_str(&mut out, " issues\n");
    }
    string_of(out.as_slice())
}

/// The risk report: every critical issue, then major and minor ones, in report
/// order, at most 100 of each and of all; a note says how many were left out.
pub fn build_risk_report(score: &QualityScore) -> (r: String)
    ensures
        r@ == risk_report(score.concrete_issues@, 100, 100, 100),
{
    build_risk_report_with_caps(score, None, None, None)
}

// ---------------------------------------------------------------------------
// Issues listed for the analysing model
// ---------------------------------------------------------------------------

/// One issue line: `  Line N: message [rule] (-P points)`.
pub open spec fn ast_line(i: ConcreteIssue) -> Seq<char> {
    "  Line "@ + decimal(i.line as nat) + ": "@ + i.message@ + " ["@ + i.rule_id@ + "] (-"@ + decimal(
        i.points_deducted as nat,
    ) + " points)\n"@
}

/// The issue lines of the listed positions, in order.
pub open spec fn ast_lines(s: Seq<ConcreteIssue>, sel: Seq<usize>) -> Seq<char>
    decreases sel.len(),
{
    if sel.len() == 0 {
        Seq::empty()
    } else {
        ast_lines(s, sel.drop_last()) + ast_line(s[sel.last() as int])
    }
}

/// A titled group: the listed issues of one severity, or nothing when there is none.
pub open spec fn ast_group(s: Seq<ConcreteIssue>, shown: Seq<usize>, sev: IssueSeverity, title: Seq<char>) -> Seq<char> {
    let g = shown.filter(has_severity(s, sev));
    if g.len() == 0 {
        Seq::empty()
    } else {
        title + "\n"@ + ast_lines(s, g)
    }
}

/// The issues listed for the analysing model, grouped by severity, with at most `cap` of
/// them in report order; empty when there is no issue.
pub open spec fn ast_results(s: Seq<ConcreteIssue>, cap: nat) -> Seq<char> {
    let shown = prefix(report_order(s, s.len()), cap);
    if s.len() == 0 {
        Seq::empty()
    } else {
        "\n\nAST DETECTED ISSUES (Automated, top sorted):\n"@ + ast_group(
            s,
            shown,
            IssueSeverity::Critical,
            "\n🔴 CRITICAL (P1 - Fix immediately):"@,
        ) + ast_group(s, shown, IssueSeverity::Major, "\n🟡 MAJOR (P2 - Fix soon):"@) + ast_group(
            s,
            shown,
            IssueSeverity::Minor,
            "\n🟢 MINOR (P3 - Nice to fix):"@,
        ) + (if s.len() > shown.len() {
            "\n… truncated: showing "@ + decimal(shown.len()) + " of "@ + decimal(s.len())
                + " issues (AST_MAX_ISSUES).\n"@
        } else {
            Seq::empty()
        }) + "\nNote: Use AST issues as baseline. Add context-aware insights.\n"@
    }
}

fn ast_lines_exec(issues: &Vec<ConcreteIssue>, sel: &Vec<usize>, out: &mut Vec<char>)
    requires
        forall|a: int| 0 <= a < sel@.len() ==> #[trigger] sel@[a] < issues@.len(),
    ensures
        final(out)@ == old(out)@ + ast_lines(issues@, sel@),
{
    let ghost start = out@;
    let mut k: usize = 0;
    assert(sel@.take(0) =~= Seq::<usize>::empty());
    while k < sel.len()
        invariant
            forall|a: int| 0 <= a < sel@.len() ==> #[trigger] sel@[a] < issues@.len(),
            k <= sel@.len(),
            out@ == start + ast_lines(issues@, sel@.take(k as int)),
        decreases sel@.len() - k,
    {
        assert(sel@.take(k + 1).drop_last() == sel@.take(k as int));
        let i = &issues[sel[k]];
        append_str(out, "  Line ");
        let d = decimal_exec(i.line);
        append_chars(out, d.as_slice());
        append_str(out, ": ");
        append_str(out, i.message.as_str());
        append_str(out, " [");
        append_str(out, i.rule_id.as_str());
        append_str(out, "] (-");
        let pts = decimal_u32(i.points_deducted);
        append_chars(out, pts.as_slice());
        append_str(out, " points)\n");
        k = k + 1;
    }
    assert(sel@.take(sel@.len() as int) == sel@);
}

fn decimal_u32(n: u32) -> (r: Vec<char>)
    ensures
        r@ == decimal(n as nat),
{
    crate::strings::decimal_u64(n as u64)
}

fn ast_group_exec(
    issues: &Vec<ConcreteIssue>,
    shown: &Vec<usize>,
    sev: IssueSeverity,
    title: &str,
    out: &mut Vec<char>,
)
    requires
        forall|a: int| 0 <= a < shown@.len() ==> #[trigger] shown@[a] < issues@.len(),
    ensures
        final(out)@ == old(out)@ + ast_group(issues@, shown@, sev, title@),
{
    let mut g: Vec<usize> = Vec::new();
    select_severity(issues, shown, sev, usize::MAX, &mut g);
    proof {
        shown@.lemma_filter_len(has_severity(issues@, sev));
        assert(shown@.len() == shown.len());
        assert(g@ =~= shown@.filter(has_severity(issues@, sev)));
    }
    if g.len() > 0 {
        append_str(out, title);
        append_str(out, "\n");
        ast_lines_exec(issues, &g, out);
    }
}

/// The issues listed for the analysing model, with the limit taken from an optional setting
/// (default 100, clamped to 10..=500).
pub fn format_ast_results_with_limit(score: &QualityScore, max_issues: Option<usize>) -> (r: String)
    ensures
        r@ == ast_results(
            score.concrete_issues@,
            clamp(
                match max_issues {
                    Some(v) => v as nat,
                    None => 100,
                },
                10,
                500,
            ),
        ),
{
    let issues = &score.concrete_issues;
    if issues.len() == 0 {
        return String::new();
    }
    let cap = clamp_exec(
        match max_issues {
            Some(v) => v,
            None => 100,
        },
        10,
        500,
    );
    let mut shown = report_order_exec(issues);
    let total = shown.len();
    let ghost ord = shown@;
    shown.truncate(cap);
    assert(shown@ == prefix(ord, cap as nat));
    assert(total == issues@.len());
    let mut out: Vec<char> = Vec::new();
    append_str(&mut out, "\n\nAST DETECTED ISSUES (Automated, top sorted):\n");
    ast_group_exec(issues, &shown, IssueSeverity::Critical, "\n🔴 CRITICAL (P1 - Fix immediately):", &mut out);
    ast_group_exec(issues, &shown, IssueSeverity::Major, "\n🟡 MAJOR (P2 - Fix soon):", &mut out);
    ast_group_exec(issues, &shown, IssueSeverity::Minor, "\n🟢 MINOR (P3 - Nice to fix):", &mut out);
    if total > shown.len() {
        append_str(&mut out, "\n… truncated: showing ");
        let a = decimal_exec(shown.len());
        append_chars(&mut out, a.as_slice());
        append_str(&mut out, " of ");
        let b = decimal_exec(total);
        append_chars(&mut out, b.as_slice());
        append_str(&mut out, " issues (AST_MAX_ISSUES).\n");
    }
    append_str(&mut out, "\nNote: Use AST issues as baseline. Add context-aware insights.\n");
    string_of(out.as_slice())
}

/// The issues listed for the analysing model, at most 100 in report order.
pub fn format_ast_results(score: &QualityScore) -> (r: String)
    ensures
        r@ == ast_results(score.concrete_issues@, 100),
{
    format_ast_results_with_limit(score, None)
}

// ---------------------------------------------------------------------------
// Next steps, code health and tips
// ---------------------------------------------------------------------------

/// Some issue has the given severity.
pub open spec fn any_severity(s: Seq<ConcreteIssue>, sev: IssueSeverity) -> bool {
    exists|k: int| 0 <= k < s.len() && #[trigger] s[k].severity == sev
}

/// Some issue has the given category.
pub open spec fn any_category(s: Seq<ConcreteIssue>, cat: IssueCategory) -> bool {
    exists|k: int| 0 <= k < s.len() && #[trigger] s[k].category == cat
}

/// `t` when `b` holds, else nothing.
pub open spec fn when(b: bool, t: Seq<char>) -> Seq<char> {
    if b {
        t
    } else {
        Seq::empty()
    }
}

/// The advice lines for a score, one for each kind of issue present, and a
/// closing line about tests that is always there.
pub open spec fn next_steps(s: Seq<ConcreteIssue>) -> Seq<char> {
    "=== NEXT STEPS ===\n"@
        + when(any_severity(s, IssueSeverity::Critical), "- Fix security-critical issues first (creds/SQL/path/command).\n"@)
        + when(any_category(s, IssueCategory::HardcodedCredentials), "- Move secrets to env/secret manager; avoid hardcoding credentials.\n"@)
        + when(any_category(s, IssueCategory::SqlInjection), "- Use parameterized queries; avoid concatenating SQL with inputs.\n"@)
        + when(any_category(s, IssueCategory::CommandInjection), "- Avoid shell concatenation; use exec APIs with args arrays and validation.\n"@)
        + when(any_category(s, IssueCategory::PathTraversal), "- Normalize and validate paths; restrict to allowed roots.\n"@)
        + when(any_category(s, IssueCategory::TooManyParameters), "- Reduce function parameters (>5). Consider grouping.\n"@)
        + when(any_category(s, IssueCategory::DeepNesting), "- Flatten deep nesting (>4). Extract helpers/early returns.\n"@)
        + when(any_category(s, IssueCategory::HighComplexity), "- Reduce cyclomatic complexity. Split large functions.\n"@)
        + when(any_category(s, IssueCategory::LongLine), "- Wrap lines >120 chars; split expressions/format strings; adjust formatter width if needed.\n"@)
        + when(any_category(s, IssueCategory::UnreachableCode), "- Remove dead/unreachable code after return/raise/break; keep control flow linear.\n"@)
        + when(any_category(s, IssueCategory::UnusedImports), "- Remove unused imports to reduce noise and speed up builds.\n"@)
        + when(any_category(s, IssueCategory::UnusedVariables), "- Remove or underscore unused variables to clarify intent.\n"@)
        + when(any_category(s, IssueCategory::NamingConvention), "- Align names with project conventions (snake_case for Python, camelCase for JS/TS).\n"@)
        + when(any_category(s, IssueCategory::MissingDocumentation), "- Add short docstrings/comments for public APIs (what, params, returns).\n"@)
        + "- Add/Update unit tests covering changed functions and edge cases.\n"@
}

fn any_severity_exec(issues: &Vec<ConcreteIssue>, sev: IssueSeverity) -> (r: bool)
    ensures
        r == any_severity(issues@, sev),
{
    let mut k: usize = 0;
    while k < issues.len()
        invariant
            k <= issues@.len(),
            forall|m: int| 0 <= m < k ==> (#[trigger] issues@[m]).severity != sev,
        decreases issues@.len() - k,
    {
        if same_severity(issues[k].severity, sev) {
            return true;
        }
        k = k + 1;
    }
    false
}

pub(crate) fn same_category(a: IssueCategory, b: IssueCategory) -> (r: bool)
    ensures
        r == (a == b),
{
    match (a, b) {
        (IssueCategory::HardcodedCredentials, IssueCategory::HardcodedCredentials) => true,
        (IssueCategory::SqlInjection, IssueCategory::SqlInjection) => true,
        (IssueCategory::CommandInjection, IssueCategory::CommandInjection) => true,
        (IssueCategory::PathTraversal, IssueCategory::PathTraversal) => true,
        (IssueCategory::UnhandledError, IssueCategory::UnhandledError) => true,
        (IssueCategory::UnreachableCode, IssueCategory::UnreachableCode) => true,
        (IssueCategory::TooManyParameters, IssueCategory::TooManyParameters) => true,
        (IssueCategory::DeepNesting, IssueCategory::DeepNesting) => true,
        (IssueCategory::HighComplexity, IssueCategory::HighComplexity) => true,
        (IssueCategory::LongMethod, IssueCategory::LongMethod) => true,
        (IssueCategory::NamingConvention, IssueCategory::NamingConvention) => true,
        (IssueCategory::MissingDocumentation, IssueCategory::MissingDocumentation) => true,
        (IssueCategory::UnusedImports, IssueCategory::UnusedImports) => true,
        (IssueCategory::UnusedVariables, IssueCategory::UnusedVariables) => true,
        (IssueCategory::LongLine, IssueCategory::LongLine) => true,
        (IssueCategory::UnfinishedWork, IssueCategory::UnfinishedWork) => true,
        (IssueCategory::MissingReturnValue, IssueCategory::MissingReturnValue) => true,
        (IssueCategory::InfiniteLoop, IssueCategory::InfiniteLoop) => true,
        (IssueCategory::ResourceLeak, IssueCategory::ResourceLeak) => true,
        (IssueCategory::RaceCondition, IssueCategory::RaceCondition) => true,
        (IssueCategory::NullPointerRisk, IssueCategory::NullPointerRisk) => true,
        (IssueCategory::InsecureRandom, IssueCategory::InsecureRandom) => true,
        (IssueCategory::DeadCode, IssueCategory::DeadCode) => true,
        (IssueCategory::DuplicateCode, IssueCategory::DuplicateCode) => true,
        (IssueCategory::InefficientAlgorithm, IssueCategory::InefficientAlgorithm) => true,
        (IssueCategory::UnboundedRecursion, IssueCategory::UnboundedRecursion) => true,
        (IssueCategory::ExcessiveMemoryUse, IssueCategory::ExcessiveMemoryUse) => true,
        (IssueCategory::SynchronousBlocking, IssueCategory::SynchronousBlocking) => true,
        (IssueCategory::MissingErrorHandling, IssueCategory::MissingErrorHandling) => true,
        _ => false,
    }
}

fn any_category_exec(issues: &Vec<ConcreteIssue>, cat: IssueCategory) -> (r: bool)
    ensures
        r == any_category(issues@, cat),
{
    let mut k: usize = 0;
    while k < issues.len()
        invariant
            k <= issues@.len(),
            forall|m: int| 0 <= m < k ==> (#[trigger] issues@[m]).category != cat,
        decreases issues@.len() - k,
    {
        if same_category(issues[k].category, cat) {
            return true;
        }
        k = k + 1;
    }
    false
}

fn advise_category(issues: &Vec<ConcreteIssue>, cat: IssueCategory, text: &str, out: &mut Vec<char>)
    ensures
        final(out)@ == old(out)@ + when(any_category(issues@, cat), text@),
{
    if any_category_exec(issues, cat) {
        append_str(out, text);
    } else {
        assert(old(out)@ + Seq::<char>::empty() =~= old(out)@);
    }
}

/// Advice for the score: security first when anything is critical, then one
/// line for each kind of issue present, then a reminder about tests.
pub fn build_next_steps(score: &QualityScore) -> (r: String)
    ensures
        r@ == next_steps(score.concrete_issues@),
{
    let issues = &score.concrete_issues;
    let mut out: Vec<char> = Vec::new();
    append_str(&mut out, "=== NEXT STEPS ===\n");
    if any_severity_exec(issues, IssueSeverity::Critical) {
        append_str(&mut out, "- Fix security-critical issues first (creds/SQL/path/command).\n");
    } else {
        assert(out@ + Seq::<char>::empty() =~= out@);
    }
    advise_category(issues, IssueCategory::HardcodedCredentials, "- Move secrets to env/secret manager; avoid hardcoding credentials.\n", &mut out);
    advise_category(issues, IssueCategory::SqlInjection, "- Use parameterized queries; avoid concatenating SQL with inputs.\n", &mut out);
    advise_category(issues, IssueCategory::CommandInjection, "- Avoid shell concatenation; use exec APIs with args arrays and validation.\n", &mut out);
    advise_category(issues, IssueCategory::PathTraversal, "- Normalize and validate paths; restrict to allowed roots.\n", &mut out);
    advise_category(issues, IssueCategory::TooManyParameters, "- Reduce function parameters (>5). Consider grouping.\n", &mut out);
    advise_category(issues, IssueCategory::DeepNesting, "- Flatten deep nesting (>4). Extract helpers/early returns.\n", &mut out);
    advise_category(issues, IssueCategory::HighComplexity, "- Reduce cyclomatic complexity. Split large functions.\n", &mut out);
    advise_category(issues, IssueCategory::LongLine, "- Wrap lines >120 chars; split expressions/format strings; adjust formatter width if needed.\n", &mut out);
    advise_category(issues, IssueCategory::UnreachableCode, "- Remove dead/unreachable code after return/raise/break; keep control flow linear.\n", &mut out);
    advise_category(issues, IssueCategory::UnusedImports, "- Remove unused imports to reduce noise and speed up builds.\n", &mut out);
    advise_category(issues, IssueCategory::UnusedVariables, "- Remove or underscore unused variables to clarify intent.\n", &mut out);
    advise_category(issues, IssueCategory::NamingConvention, "- Align names with project conventions (snake_case for Python, camelCase for JS/TS).\n", &mut out);
    advise_category(issues, IssueCategory::MissingDocumentation, "- Add short docstrings/comments for public APIs (what, params, returns).\n", &mut out);
    append_str(&mut out, "- Add/Update unit tests covering changed functions and edge cases.\n");
    string_of(out.as_slice())
}

/// How many issues have the given category.
pub open spec fn count_category(s: Seq<ConcreteIssue>, cat: IssueCategory) -> nat
    decreases s.len(),
{
    if s.len() == 0 {
        0
    } else {
        count_category(s.drop_last(), cat) + if s.last().category == cat {
            1nat
        } else {
            0nat
        }
    }
}

/// The code health summary: how many issues of four structural kinds there are.
pub open spec fn code_health(s: Seq<ConcreteIssue>) -> Seq<char> {
    "=== CODE HEALTH ===\n"@ + "Too many params: "@ + decimal(count_category(s, IssueCategory::TooManyParameters))
        + "\nDeep nesting: "@ + decimal(count_category(s, IssueCategory::DeepNesting)) + "\nHigh complexity: "@
        + decimal(count_category(s, IssueCategory::HighComplexity)) + "\nLong methods: "@ + decimal(
        count_category(s, IssueCategory::LongMethod),
    ) + "\n"@
}

proof fn lemma_count_bound(s: Seq<ConcreteIssue>, cat: IssueCategory)
    ensures
        count_category(s, cat) <= s.len(),
    decreases s.len(),
{
    if s.len() > 0 {
        lemma_count_bound(s.drop_last(), cat);
    }
}

fn count_category_exec(issues: &Vec<ConcreteIssue>, cat: IssueCategory) -> (r: usize)
    ensures
        r as nat == count_category(issues@, cat),
{
    let mut n: usize = 0;
    let mut k: usize = 0;
    while k < issues.len()
        invariant
            k <= issues@.len(),
            n as nat == count_category(issues@.take(k as int), cat),
        decreases issues@.len() - k,
    {
        assert(issues@.take(k + 1).drop_last() == issues@.take(k as int));
        proof {
            lemma_count_bound(issues@.take(k as int), cat);
        }
        if same_category(issues[k].category, cat) {
            n = n + 1;
        }
        k = k + 1;
    }
    assert(issues@.take(issues@.len() as int) == issues@);
    n
}

/// The code health summary of a score.
pub fn build_code_health(score: &QualityScore) -> (r: String)
    ensures
        r@ == code_health(score.concrete_issues@),
{
    let issues = &score.concrete_issues;
    let mut out: Vec<char> = Vec::new();
    append_str(&mut out, "=== CODE HEALTH ===\n");
    append_str(&mut out, "Too many params: ");
    let a = decimal_exec(count_category_exec(issues, IssueCategory::TooManyParameters));
    append_chars(&mut out, a.as_slice());
    append_str(&mut out, "\nDeep nesting: ");
    let b = decimal_exec(count_category_exec(issues, IssueCategory::DeepNesting));
    append_chars(&mut out, b.as_slice());
    append_str(&mut out, "\nHigh complexity: ");
    let c = decimal_exec(count_category_exec(issues, IssueCategory::HighComplexity));
    append_chars(&mut out, c.as_slice());
    append_str(&mut out, "\nLong methods: ");
    let d = decimal_exec(count_category_exec(issues, IssueCategory::LongMethod));
    append_chars(&mut out, d.as_slice());
    append_str(&mut out, "\n");
    string_of(out.as_slice())
}

/// The tip lines, each `- tip`.
pub open spec fn tip_lines(tips: Seq<Seq<char>>) -> Seq<char>
    decreases tips.len(),
{
    if tips.len() == 0 {
        Seq::empty()
    } else {
        tip_lines(tips.drop_last()) + "- "@ + tips.last() + "\n"@
    }
}

/// The quick tips section: up to six tips of at most 120 characters, or
/// nothing when there is no tip.
pub open spec fn quick_tips_section(s: Seq<ConcreteIssue>) -> Seq<char> {
    let tips = crate::messages::glossary::quick_tips(s, 6, 120);
    if tips.len() == 0 {
        Seq::empty()
    } else {
        "=== QUICK TIPS ===\n"@ + tip_lines(tips)
    }
}

/// The quick tips section of a score.
pub fn build_quick_tips_section(score: &QualityScore) -> (r: String)
    ensures
        r@ == quick_tips_section(score.concrete_issues@),
{
    let tips = crate::messages::glossary::build_quick_tips(score, 6, 120);
    let ghost q = crate::messages::glossary::quick_tips(score.concrete_issues@, 6, 120);
    if tips.len() == 0 {
        return String::new();
    }
    let mut out: Vec<char> = Vec::new();
    append_str(&mut out, "=== QUICK TIPS ===\n");
    let ghost start = out@;
    let mut k: usize = 0;
    assert(q.take(0) =~= Seq::<Seq<char>>::empty());
    while k < tips.len()
        invariant
            k <= tips@.len(),
            tips@.len() == q.len(),
            forall|i: int| 0 <= i < tips@.len() ==> (#[trigger] tips@[i])@ == q[i],
            out@ == start + tip_lines(q.take(k as int)),
        decreases tips@.len() - k,
    {
        assert(q.take(k + 1).drop_last() == q.take(k as int));
        append_str(&mut out, "- ");
        append_str(&mut out, tips[k].as_str());
        append_str(&mut out, "\n");
        k = k + 1;
    }
    assert(q.take(q.len() as int) == q);
    string_of(out.as_slice())
}

// ---------------------------------------------------------------------------
// Tool names and the analysis budget
// ---------------------------------------------------------------------------

/// What a tool call does to a file.
#[derive(Clone, Copy, Debug, PartialEq, Eq)]
pub enum ToolKind {
    Write,
    Edit,
    MultiEdit,
    Other,
}

/// The tool names, in lower case, that write a whole file.
pub open spec fn write_names() -> Seq<Seq<char>> {
    seq![
        "write"@,
        "writefile"@,
        "createfile"@,
        "create"@,
        "savefile"@,
        "save"@,
        "appendtofile"@,
        "append"@,
    ]
}

/// The tool names, in lower case, that edit part of a file.
pub open spec fn edit_names() -> Seq<Seq<char>> {
    seq!["edit"@, "replace"@, "editfile"@, "replaceinfile"@, "modify"@]
}

/// The tool names, in lower case, that apply several edits.
pub open spec fn multi_edit_names() -> Seq<Seq<char>> {
    seq!["multiedit"@, "applyedits"@, "multireplace"@, "batchedit"@]
}

/// The kind of a tool, known by its name in any ASCII case, and whether a
/// writing tool appends.
pub open spec fn tool_kind(name: Seq<char>) -> (ToolKind, bool) {
    let n = lower(name);
    if write_names().contains(n) {
        (ToolKind::Write, contains(n, "append"@))
    } else if edit_names().contains(n) {
        (ToolKind::Edit, false)
    } else if multi_edit_names().contains(n) {
        (ToolKind::MultiEdit, false)
    } else {
        (ToolKind::Other, false)
    }
}

fn is_one_of(n: &[char], names: &[&str]) -> (r: bool)
    ensures
        r == exists|k: int| 0 <= k < names@.len() && n@ == (#[trigger] names@[k])@,
{
    let mut k: usize = 0;
    while k < names.len()
        invariant
            k <= names@.len(),
            forall|m: int| 0 <= m < k ==> n@ != (#[trigger] names@[m])@,
        decreases names@.len() - k,
    {
        let c = chars_of(names[k]);
        if chars_eq(n, c.as_slice()) {
            return true;
        }
        k = k + 1;
    }
    false
}

proof fn lemma_names(names: Seq<&str>, lits: Seq<Seq<char>>, n: Seq<char>)
    requires
        names.len() == lits.len(),
        forall|k: int| 0 <= k < names.len() ==> (#[trigger] names[k])@ == lits[k],
    ensures
        (exists|k: int| 0 <= k < names.len() && n == (#[trigger] names[k])@) == lits.contains(n),
{
    if lits.contains(n) {
        let k = choose|k: int| 0 <= k < lits.len() && lits[k] == n;
        assert(n == names[k]@);
    }
}

/// The kind of a tool by its name, and whether it appends.
pub fn normalize_tool_name(name: &str) -> (r: (ToolKind, bool))
    ensures
        r == tool_kind(name@),
{
    let c = chars_of(name);
    let n = lower_chars(c.as_slice());
    let w = ["write", "writefile", "createfile", "create", "savefile", "save", "appendtofile", "append"];
    let e = ["edit", "replace", "editfile", "replaceinfile", "modify"];
    let m = ["multiedit", "applyedits", "multireplace", "batchedit"];
    proof {
        lemma_names(w@, write_names(), n@);
        lemma_names(e@, edit_names(), n@);
        lemma_names(m@, multi_edit_names(), n@);
    }
    if is_one_of(n.as_slice(), &w) {
        let app = chars_of("append");
        (ToolKind::Write, contains_exec(n.as_slice(), app.as_slice()))
    } else if is_one_of(n.as_slice(), &e) {
        (ToolKind::Edit, false)
    } else if is_one_of(n.as_slice(), &m) {
        (ToolKind::MultiEdit, false)
    } else {
        (ToolKind::Other, false)
    }
}

/// The note given when a file is too large to analyse: more than `max_bytes`
/// bytes or more than `max_lines` lines.
pub open spec fn budget_note(bytes: nat, line_count: nat, path: Seq<char>, max_bytes: nat, max_lines: nat) -> Option<
    Seq<char>,
> {
    if bytes > max_bytes || line_count > max_lines {
        Some(
            "[ANALYSIS] Skipped AST analysis due to soft budget ("@ + decimal(bytes) + " bytes, "@ + decimal(
                line_count,
            ) + " lines) for "@ + path + " (limits: "@ + decimal(max_bytes) + " bytes, "@ + decimal(max_lines)
                + " lines)"@,
        )
    } else {
        None
    }
}

/// A note that analysis was skipped when the content is over 500 000 bytes or
/// 10 000 lines.
pub fn soft_budget_note(content: &str, file_path: &str) -> (r: Option<String>)
    ensures
        r matches Some(t) ==> budget_note(content.len() as nat, lines(content@).len(), file_path@, 500_000, 10_000)
            == Some(t@),
        r is None ==> budget_note(content.len() as nat, lines(content@).len(), file_path@, 500_000, 10_000)
            is None,
{
    let bytes = content.len();
    let c = chars_of(content);
    let ls = lines_of(c.as_slice());
    let line_count = ls.len();
    let max_bytes: usize = 500_000;
    let max_lines: usize = 10_000;
    if bytes > max_bytes || line_count > max_lines {
        let mut out: Vec<char> = Vec::new();
        append_str(&mut out, "[ANALYSIS] Skipped AST analysis due to soft budget (");
        let a = decimal_exec(bytes);
        append_chars(&mut out, a.as_slice());
        append_str(&mut out, " bytes, ");
        let b = decimal_exec(line_count);
        append_chars(&mut out, b.as_slice());
        append_str(&mut out, " lines) for ");
        append_str(&mut out, file_path);
        append_str(&mut out, " (limits: ");
        let x = decimal_exec(max_bytes);
        append_chars(&mut out, x.as_slice());
        append_str(&mut out, " bytes, ");
        let y = decimal_exec(max_lines);
        append_chars(&mut out, y.as_slice());
        append_str(&mut out, " lines)");
        return Some(string_of(out.as_slice()));
    }
    None
}

// ---------------------------------------------------------------------------
// Lines touched by a diff
// ---------------------------------------------------------------------------

/// An ASCII digit.
pub open spec fn is_digit(c: char) -> bool {
    '0' <= c && c <= '9'
}

/// How many ASCII digits `s` starts with.
pub open spec fn digit_run(s: Seq<char>) -> nat
    decreases s.len(),
{
    if s.len() > 0 && is_digit(s[0]) {
        1 + digit_run(s.drop_first())
    } else {
        0
    }
}

/// The value of a run of digits, saturating at `usize::MAX` as the digits are
/// read.
pub open spec fn saturating_value(d: Seq<char>) -> nat
    decreases d.len(),
{
    if d.len() == 0 {
        0
    } else {
        let v = 10 * saturating_value(d.drop_last()) + ((d.last() as int) - 48);
        if v > usize::MAX {
            usize::MAX as nat
        } else {
            v as nat
        }
    }
}

/// The line number of a diff line that adds a line: it starts (after
/// whitespace) with a number followed, after more whitespace, by `+`.
pub open spec fn added_line_number(line: Seq<char>) -> Option<nat> {
    let t = trim_start(line);
    let k = digit_run(t);
    let rest = trim_start(t.skip(k as int));
    if k > 0 && rest.len() > 0 && rest[0] == '+' {
        Some(saturating_value(t.take(k as int)))
    } else {
        None
    }
}

/// The window of `ctx` lines around line `num`, saturating at both ends.
pub open spec fn window(num: nat, ctx: nat) -> (usize, usize) {
    (
        (if num >= ctx {
            num - ctx
        } else {
            0
        }) as usize,
        (if num + ctx > usize::MAX {
            usize::MAX as nat
        } else {
            num + ctx
        }) as usize,
    )
}

/// The windows of the added lines of a diff, in order.
pub open spec fn diff_windows(ls: Seq<Seq<char>>, ctx: nat) -> Seq<(usize, usize)>
    decreases ls.len(),
{
    if ls.len() == 0 {
        Seq::empty()
    } else {
        let w = diff_windows(ls.drop_last(), ctx);
        match added_line_number(ls.last()) {
            Some(num) => w.push(window(num, ctx)),
            None => w,
        }
    }
}

/// Line `ln` (counting from one) lies in one of the windows.
pub open spec fn covers(w: Seq<(usize, usize)>, ln: nat) -> bool {
    ln > 0 && exists|k: int| 0 <= k < w.len() && (#[trigger] w[k]).0 <= ln <= w[k].1
}

/// The lines a diff changed, with context: windows of line numbers.
pub struct ChangedLines {
    pub windows: Vec<(usize, usize)>,
}

impl ChangedLines {
    /// Line `ln` is among the changed lines.
    pub fn contains(&self, ln: usize) -> (r: bool)
        ensures
            r == covers(self.windows@, ln as nat),
    {
        if ln == 0 {
            return false;
        }
        let mut k: usize = 0;
        while k < self.windows.len()
            invariant
                ln > 0,
                k <= self.windows@.len(),
                forall|m: int| 0 <= m < k ==> !((#[trigger] self.windows@[m]).0 <= ln <= self.windows@[m].1),
            decreases self.windows@.len() - k,
        {
            let (a, b) = self.windows[k];
            if a <= ln && ln <= b {
                assert(self.windows@[k as int].0 <= ln as nat <= self.windows@[k as int].1);
                return true;
            }
            k = k + 1;
        }
        false
    }

    /// No line is among the changed lines.
    pub fn is_empty(&self) -> (r: bool)
        ensures
            r == forall|ln: nat| !covers(self.windows@, ln),
    {
        let mut k: usize = 0;
        while k < self.windows.len()
            invariant
                k <= self.windows@.len(),
                forall|m: int| 0 <= m < k ==> #[trigger] self.windows@[m].1 == 0 || self.windows@[m].0 > self.windows@[m].1,
            decreases self.windows@.len() - k,
        {
            let (a, b) = self.windows[k];
            if b > 0 && a <= b {
                assert(covers(self.windows@, b as nat));
                return false;
            }
            k = k + 1;
        }
        true
    }
}

fn digit_value_step(num: usize, c: char) -> (r: usize)
    requires
        is_digit(c),
    ensures
        ({
            let v = 10 * num + ((c as int) - 48);
            r == if v > usize::MAX {
                usize::MAX as nat
            } else {
                v as nat
            }
        }),
{
    let d: u128 = (c as u32 - 48) as u128;
    let v: u128 = (num as u128) * 10 + d;
    if v > usize::MAX as u128 {
        usize::MAX
    } else {
        v as usize
    }
}

/// The line number of an added diff line, as `added_line_number`.
fn added_line_number_exec(line: &[char]) -> (r: Option<usize>)
    ensures
        r matches Some(n) ==> added_line_number(line@) == Some(n as nat),
        r is None ==> added_line_number(line@) is None,
{
    let a = trim_bounds(line).0;
    let ghost t = trim_start(line@);
    assert(t == line@.skip(a as int));
    let mut j: usize = a;
    let mut num: usize = 0;
    assert(t.take(0) =~= Seq::<char>::empty());
    assert(t.skip(0) == t);
    while j < line.len() && '0' <= line[j] && line[j] <= '9'
        invariant
            a <= j <= line@.len(),
            t == line@.skip(a as int),
            digit_run(t) == (j - a) + digit_run(t.skip(j - a)),
            num as nat == saturating_value(t.take(j - a)),
        decreases line@.len() - j,
    {
        assert(t.skip(j - a)[0] == line@[j as int]);
        assert(t.skip(j - a).drop_first() == t.skip(j - a + 1));
        assert(t.take(j - a + 1).drop_last() == t.take(j - a));
        assert(t.take(j - a + 1).last() == line@[j as int]);
        num = digit_value_step(num, line[j]);
        j = j + 1;
    }
    proof {
        if j < line@.len() {
            assert(t.skip(j - a)[0] == line@[j as int]);
        }
        assert(digit_run(t) == j - a);
    }
    if j == a {
        return None;
    }
    let rest = vstd::slice::slice_subrange(line, j, line.len());
    assert(rest@ == t.skip(digit_run(t) as int));
    let b = trim_bounds(rest).0;
    if b < rest.len() && rest[b] == '+' {
        Some(num)
    } else {
        None
    }
}

/// The lines a diff touches: for each line that adds a line numbered `n`, the
/// lines `n - ctx ..= n + ctx` (saturating), leaving out line 0.
pub fn extract_changed_lines(diff_text: &str, ctx: usize) -> (r: ChangedLines)
    ensures
        r.windows@ == diff_windows(lines(diff_text@), ctx as nat),
{
    let c = chars_of(diff_text);
    let ls = lines_of(c.as_slice());
    let ghost l = lines(diff_text@);
    let mut w: Vec<(usize, usize)> = Vec::new();
    let mut k: usize = 0;
    assert(l.take(0) =~= Seq::<Seq<char>>::empty());
    while k < ls.len()
        invariant
            l == lines(diff_text@),
            ls@.len() == l.len(),
            forall|j: int| 0 <= j < ls@.len() ==> (#[trigger] ls@[j])@ == l[j],
            k <= ls@.len(),
            w@ == diff_windows(l.take(k as int), ctx as nat),
        decreases ls@.len() - k,
    {
        assert(l.take(k + 1).drop_last() == l.take(k as int));
        assert(l.take(k + 1).last() == ls@[k as int]@);
        match added_line_number_exec(ls[k].as_slice()) {
            Some(num) => {
                let start: usize = if num >= ctx {
                    num - ctx
                } else {
                    0
                };
                let end: usize = if num as u128 + ctx as u128 > usize::MAX as u128 {
                    usize::MAX
                } else {
                    num + ctx
                };
                w.push((start, end));
            },
            None => {},
        }
        k = k + 1;
    }
    assert(l.take(l.len() as int) == l);
    ChangedLines { windows: w }
}

/// An exact copy of an issue.
pub fn copy_issue(i: &ConcreteIssue) -> (r: ConcreteIssue)
    ensures
        r == *i,
{
    ConcreteIssue {
        severity: i.severity,
        category: i.category,
        message: i.message.clone(),
        file: i.file.clone(),
        line: i.line,
        column: i.column,
        rule_id: i.rule_id.clone(),
        points_deducted: i.points_deducted,
    }
}

/// The issue's line is among the changed lines.
pub open spec fn on_changed_line(w: Seq<(usize, usize)>) -> spec_fn(ConcreteIssue) -> bool {
    |i: ConcreteIssue| covers(w, i.line as nat)
}

/// The issues kept by the diff filter: those on changed lines, or all of them
/// when the diff changed no line.
pub open spec fn issues_in_diff(s: Seq<ConcreteIssue>, w: Seq<(usize, usize)>) -> Seq<ConcreteIssue> {
    if forall|ln: nat| !covers(w, ln) {
        s
    } else {
        s.filter(on_changed_line(w))
    }
}

/// The score restricted to the issues on the lines the diff touches (with
/// `ctx` lines of context); unchanged when the diff touches no line.
pub fn filter_issues_to_diff(score: &QualityScore, diff_text: &str, ctx: usize) -> (r: QualityScore)
    ensures
        r.total_score == score.total_score,
        r.functionality_score == score.functionality_score,
        r.reliability_score == score.reliability_score,
        r.maintainability_score == score.maintainability_score,
        r.performance_score == score.performance_score,
        r.security_score == score.security_score,
        r.standards_score == score.standards_score,
        r.concrete_issues@ == issues_in_diff(
            score.concrete_issues@,
            diff_windows(lines(diff_text@), ctx as nat),
        ),
{
    let changed = extract_changed_lines(diff_text, ctx);
    let issues = &score.concrete_issues;
    let empty = changed.is_empty();
    let ghost p = on_changed_line(changed.windows@);
    let mut kept: Vec<ConcreteIssue> = Vec::new();
    let mut k: usize = 0;
    assert(issues@.take(0) =~= Seq::<ConcreteIssue>::empty());
    proof {
        reveal(Seq::filter);
    }
    while k < issues.len()
        invariant
            p == on_changed_line(changed.windows@),
            k <= issues@.len(),
            empty ==> kept@ == issues@.take(k as int),
            !empty ==> kept@ == issues@.take(k as int).filter(p),
        decreases issues@.len() - k,
    {
        let i = &issues[k];
        assert(issues@.take(k + 1) == issues@.take(k as int).push(*i));
        proof {
            issues@.take(k as int).lemma_filter_push(*i, p);
        }
        if empty || changed.contains(i.line) {
            kept.push(copy_issue(i));
        }
        k = k + 1;
    }
    assert(issues@.take(issues@.len() as int) == issues@);
    QualityScore {
        total_score: score.total_score,
        functionality_score: score.functionality_score,
        reliability_score: score.reliability_score,
        maintainability_score: score.maintainability_score,
        performance_score: score.performance_score,
        security_score: score.security_score,
        standards_score: score.standards_score,
        concrete_issues: kept,
    }
}

// ---------------------------------------------------------------------------
// Ignore patterns for project scans
// ---------------------------------------------------------------------------

/// `o`'s text, or nothing.
pub open spec fn text_or_empty(o: Option<Seq<char>>) -> Seq<char> {
    match o {
        Some(t) => t,
        None => Seq::empty(),
    }
}

/// One ignore pattern matches the path. `path` is the path with `/`
/// separators, `name` its file name, `ext` its extension.
pub open spec fn pattern_ignores(raw: Seq<char>, path: Seq<char>, name: Seq<char>, ext: Option<Seq<char>>, is_dir: bool) -> bool {
    let p = trim(raw);
    &&& raw.len() > 0
    &&& !starts_with(raw, "#"@)
    &&& {
        ||| p == name
        ||| (ends_with(p, "/"@) && is_dir && (name == p.drop_last() || contains(path, "/"@ + p.drop_last() + "/"@)))
        ||| (starts_with(p, "*."@) && ext == Some(p.skip(2)))
        ||| contains(path, p)
        ||| (starts_with(p, "/"@) && starts_with(path, p.skip(1)))
        ||| split(path, '/').contains(p)
    }
}

/// Some pattern ignores the path.
pub open spec fn ignored_by(path: Seq<char>, is_dir: bool, patterns: Seq<Seq<char>>) -> bool {
    exists|k: int|
        0 <= k < patterns.len() && pattern_ignores(
            #[trigger] patterns[k],
            slashes(path),
            text_or_empty(file_name_of(path)),
            extension_of(path),
            is_dir,
        )
}

fn pattern_ignores_exec(raw: &[char], path: &[char], name: &[char], ext: &Option<String>, is_dir: bool) -> (r: bool)
    ensures
        r == pattern_ignores(
            raw@,
            path@,
            name@,
            match ext {
                Some(e) => Some(e@),
                None => None,
            },
            is_dir,
        ),
{
    proof {
        reveal_strlit("/");
        reveal_strlit("*.");
    }
    if raw.len() == 0 || starts_with_lit(raw, "#") {
        return false;
    }
    let p = trim_chars(raw);
    if chars_eq(p.as_slice(), name) {
        return true;
    }
    if ends_with_lit(p.as_slice(), "/") && is_dir {
        let dir = crate::strings::slice_chars(p.as_slice(), 0, p.len() - 1);
        assert(dir@ == p@.drop_last());
        if chars_eq(name, dir.as_slice()) {
            return true;
        }
        let mut wrapped: Vec<char> = Vec::new();
        append_str(&mut wrapped, "/");
        append_chars(&mut wrapped, dir.as_slice());
        append_str(&mut wrapped, "/");
        if contains_exec(path, wrapped.as_slice()) {
            return true;
        }
    }
    if starts_with_lit(p.as_slice(), "*.") {
        let rest = crate::strings::slice_chars(p.as_slice(), 2, p.len());
        assert(rest@ == p@.skip(2));
        match ext {
            Some(e) => {
                let ec = chars_of(e.as_str());
                if chars_eq(ec.as_slice(), rest.as_slice()) {
                    return true;
                }
            },
            None => {},
        }
    }
    if contains_exec(path, p.as_slice()) {
        return true;
    }
    if starts_with_lit(p.as_slice(), "/") {
        let rest = crate::strings::slice_chars(p.as_slice(), 1, p.len());
        assert(rest@ == p@.skip(1));
        if starts_with_exec(path, rest.as_slice()) {
            return true;
        }
    }
    let segs = split_chars(path, '/');
    let mut k: usize = 0;
    while k < segs.len()
        invariant
            k <= segs@.len(),
            segs@.len() == split(path@, '/').len(),
            forall|j: int| 0 <= j < segs@.len() ==> (#[trigger] segs@[j])@ == split(path@, '/')[j],
            forall|j: int| 0 <= j < k ==> split(path@, '/')[j] != p@,
            raw@.len() > 0,
            !starts_with(raw@, "#"@),
            p@ == trim(raw@),
        decreases segs@.len() - k,
    {
        if chars_eq(segs[k].as_slice(), p.as_slice()) {
            assert(split(path@, '/')[k as int] == p@);
            return true;
        }
        k = k + 1;
    }
    false
}

/// Some ignore pattern matches the path: its file name, a directory name
/// (`dir/`, for directories), an extension (`*.ext`), a piece of the path, a
/// path prefix (`/prefix`) or a whole path segment. Patterns that are empty or
/// start with `#` are skipped; `\` in the path counts as `/`.
pub fn should_ignore_path(path: &str, is_dir: bool, gitignore_patterns: &[String]) -> (r: bool)
    ensures
        r == ignored_by(path@, is_dir, gitignore_patterns@.map_values(|p: String| p@)),
{
    let pc = chars_of(path);
    let norm = slashes_exec(pc.as_slice());
    let name: Vec<char> = match path_file_name(path) {
        Some(n) => chars_of(n.as_str()),
        None => Vec::new(),
    };
    let ext = path_extension(path);
    let ghost pats = gitignore_patterns@.map_values(|p: String| p@);
    let mut k: usize = 0;
    while k < gitignore_patterns.len()
        invariant
            k <= gitignore_patterns@.len(),
            pats == gitignore_patterns@.map_values(|p: String| p@),
            norm@ == slashes(path@),
            name@ == text_or_empty(file_name_of(path@)),
            (match ext {
                Some(e) => Some(e@),
                None => None,
            }) == extension_of(path@),
            forall|j: int|
                0 <= j < k ==> !pattern_ignores(
                    #[trigger] pats[j],
                    slashes(path@),
                    text_or_empty(file_name_of(path@)),
                    extension_of(path@),
                    is_dir,
                ),
        decreases gitignore_patterns@.len() - k,
    {
        let raw = chars_of(gitignore_patterns[k].as_str());
        assert(pats[k as int] == raw@);
        if pattern_ignores_exec(raw.as_slice(), norm.as_slice(), name.as_slice(), &ext, is_dir) {
            return true;
        }
        k = k + 1;
    }
    false
}

// ---------------------------------------------------------------------------
// Unfinished work
// ---------------------------------------------------------------------------

/// Unfinished-work issues come by line, then message.
pub open spec fn unfinished_less(a: ConcreteIssue, b: ConcreteIssue) -> bool {
    a.line < b.line || (a.line == b.line && text_less(a.message@, b.message@))
}

/// Where `x` goes among the ordered issues `r`.
pub open spec fn unfinished_pos(r: Seq<ConcreteIssue>, x: ConcreteIssue) -> nat
    decreases r.len(),
{
    if r.len() == 0 {
        0
    } else if unfinished_less(x, r[0]) {
        0
    } else {
        1 + unfinished_pos(r.drop_first(), x)
    }
}

/// The issues ordered by line and message, keeping the given order among equal ones.
pub open spec fn unfinished_sorted(s: Seq<ConcreteIssue>) -> Seq<ConcreteIssue>
    decreases s.len(),
{
    if s.len() == 0 {
        Seq::empty()
    } else {
        let r = unfinished_sorted(s.drop_last());
        r.insert(unfinished_pos(r, s.last()) as int, s.last())
    }
}

/// The issue is unfinished work.
pub open spec fn is_unfinished() -> spec_fn(ConcreteIssue) -> bool {
    |i: ConcreteIssue| i.category == IssueCategory::UnfinishedWork
}

/// The first characters of `s` that take exactly `b` bytes in UTF-8, if
/// `b` falls between two characters.
pub open spec fn byte_prefix(s: Seq<char>, b: nat) -> Option<Seq<char>> {
    if exists|k: int| 0 <= k <= s.len() && utf8_size(#[trigger] s.take(k)) == b {
        Some(s.take(choose|k: int| 0 <= k <= s.len() && utf8_size(#[trigger] s.take(k)) == b))
    } else {
        None
    }
}

/// A message of more than `max_chars` bytes cut to `max_chars - 1` bytes and
/// ended with `…`; `None` when that cut falls inside a character.
pub open spec fn clipped_message(m: Seq<char>, max_chars: nat) -> Option<Seq<char>> {
    if utf8_size(m) > max_chars {
        match byte_prefix(m, if max_chars >= 1 { (max_chars - 1) as nat } else { 0 }) {
            Some(p) => Some(p.push('…')),
            None => None,
        }
    } else {
        Some(m)
    }
}

/// The lines for the listed issues; `None` when a message cannot be cut.
pub open spec fn unfinished_lines(items: Seq<ConcreteIssue>, max_chars: nat) -> Option<Seq<char>>
    decreases items.len(),
{
    if items.len() == 0 {
        Some(Seq::empty())
    } else {
        match (unfinished_lines(items.drop_last(), max_chars), clipped_message(items.last().message@, max_chars)) {
            (Some(t), Some(m)) => Some(t + "- Line "@ + decimal(items.last().line as nat) + ": "@ + m + "\n"@),
            _ => None,
        }
    }
}

/// The unfinished-work section: nothing when there is no such issue, else
/// the first `max_items` of them by line and message, long messages cut.
pub open spec fn unfinished_section(s: Seq<ConcreteIssue>, max_items: nat, max_chars: nat) -> Option<Seq<char>> {
    let items = unfinished_sorted(s.filter(is_unfinished()));
    if items.len() == 0 {
        Some(Seq::empty())
    } else {
        match unfinished_lines(prefix(items, max_items), max_chars) {
            Some(t) => Some("=== UNFINISHED WORK ===\n"@ + t),
            None => None,
        }
    }
}

proof fn lemma_utf8_size_take_mono(s: Seq<char>, j: int, k: int)
    requires
        0 <= j < k <= s.len(),
    ensures
        utf8_size(s.take(j)) < utf8_size(s.take(k)),
    decreases k - j,
{
    assert(s.take(k).drop_last() == s.take(k - 1));
    if j < k - 1 {
        lemma_utf8_size_take_mono(s, j, k - 1);
    }
}

fn byte_prefix_exec(s: &[char], b: u128) -> (r: Option<Vec<char>>)
    ensures
        match r {
            Some(p) => byte_prefix(s@, b as nat) == Some(p@),
            None => byte_prefix(s@, b as nat) is None,
        },
{
    let mut n: u128 = 0;
    let mut i: usize = 0;
    assert(s@.take(0) =~= Seq::<char>::empty());
    while i < s.len() && n < b
        invariant
            i <= s@.len(),
            n == utf8_size(s@.take(i as int)),
            n <= 4 * i,
            forall|j: int| 0 <= j < i ==> utf8_size(#[trigger] s@.take(j)) < b,
        decreases s@.len() - i,
    {
        assert(s@.take(i + 1).drop_last() == s@.take(i as int));
        n = n + char_width(s[i]);
        i = i + 1;
    }
    if n == b {
        let p = crate::strings::slice_chars(s, 0, i);
        assert(p@ == s@.take(i as int));
        proof {
            let k = choose|k: int| 0 <= k <= s@.len() && utf8_size(#[trigger] s@.take(k)) == b;
            if k != i {
                if k < i {
                    lemma_utf8_size_take_mono(s@, k, i as int);
                } else {
                    lemma_utf8_size_take_mono(s@, i as int, k);
                }
            }
        }
        Some(p)
    } else {
        proof {
            assert forall|k: int| 0 <= k <= s@.len() implies utf8_size(#[trigger] s@.take(k)) != b by {
                if k < i {
                } else if k == i {
                } else {
                    lemma_utf8_size_take_mono(s@, i as int, k);
                }
            }
        }
        None
    }
}

fn unf_less_exec(a: &ConcreteIssue, b: &ConcreteIssue) -> (r: bool)
    ensures
        r == unfinished_less(*a, *b),
{
    if a.line != b.line {
        a.line < b.line
    } else {
        let x = chars_of(a.message.as_str());
        let y = chars_of(b.message.as_str());
        text_less_exec(x.as_slice(), y.as_slice())
    }
}

fn unfinished_items(issues: &Vec<ConcreteIssue>) -> (r: Vec<usize>)
    ensures
        r@.map_values(|j: usize| issues@[j as int]) == unfinished_sorted(issues@.filter(is_unfinished())),
        forall|a: int| 0 <= a < r@.len() ==> #[trigger] r@[a] < issues@.len(),
{
    let ghost p = is_unfinished();
    let mut r: Vec<usize> = Vec::new();
    let mut i: usize = 0;
    assert(issues@.take(0) =~= Seq::<ConcreteIssue>::empty());
    proof {
        reveal(Seq::filter);
    }
    assert(r@.map_values(|j: usize| issues@[j as int]) =~= unfinished_sorted(issues@.take(0).filter(p)));
    while i < issues.len()
        invariant
            i <= issues@.len(),
            p == is_unfinished(),
            forall|a: int| 0 <= a < r@.len() ==> #[trigger] r@[a] < issues@.len(),
            r@.map_values(|j: usize| issues@[j as int]) == unfinished_sorted(issues@.take(i as int).filter(p)),
        decreases issues@.len() - i,
    {
        let x = &issues[i];
        assert(issues@.take(i + 1) == issues@.take(i as int).push(*x));
        proof {
            issues@.take(i as int).lemma_filter_push(*x, p);
        }
        if same_category(x.category, IssueCategory::UnfinishedWork) {
            let ghost r0 = r@.map_values(|j: usize| issues@[j as int]);
            let ghost f0 = issues@.take(i as int).filter(p);
            assert(issues@.take(i as int).filter(p).push(*x).drop_last() == f0);
            let mut q: usize = 0;
            assert(r0.skip(0) == r0);
            while q < r.len() && !unf_less_exec(x, &issues[r[q]])
                invariant
                    r0 == r@.map_values(|j: usize| issues@[j as int]),
                    forall|a: int| 0 <= a < r@.len() ==> #[trigger] r@[a] < issues@.len(),
                    q <= r@.len(),
                    i < issues@.len(),
                    *x == issues@[i as int],
                    unfinished_pos(r0, *x) == q + unfinished_pos(r0.skip(q as int), *x),
                decreases r@.len() - q,
            {
                assert(r0.skip(q as int)[0] == r0[q as int]);
                assert(r0.skip(q as int).drop_first() == r0.skip(q + 1));
                q = q + 1;
            }
            proof {
                if q < r@.len() {
                    assert(r0.skip(q as int)[0] == r0[q as int]);
                }
            }
            let ghost before = r@;
            r.insert(q, i);
            assert(r@.map_values(|j: usize| issues@[j as int]) =~= r0.insert(q as int, *x));
            assert forall|a: int| 0 <= a < r@.len() implies #[trigger] r@[a] < issues@.len() by {
                if a < q {
                    assert(r@[a] == before[a]);
                } else if a > q {
                    assert(r@[a] == before[a - 1]);
                }
            }
        }
        i = i + 1;
    }
    assert(issues@.take(issues@.len() as int) == issues@);
    r
}

proof fn lemma_lines_none(items: Seq<ConcreteIssue>, k: int, max_chars: nat)
    requires
        0 <= k < items.len(),
        clipped_message(items[k].message@, max_chars) is None,
    ensures
        unfinished_lines(items, max_chars) is None,
    decreases items.len(),
{
    if k < items.len() - 1 {
        assert(items.drop_last()[k] == items[k]);
        lemma_lines_none(items.drop_last(), k, max_chars);
    }
}

fn unfinished_line_exec(i: &ConcreteIssue, max_chars: usize, out: &mut Vec<char>) -> (ok: bool)
    ensures
        ok == (clipped_message(i.message@, max_chars as nat) is Some),
        ok ==> final(out)@ == old(out)@ + "- Line "@ + decimal(i.line as nat) + ": "@ + clipped_message(
            i.message@,
            max_chars as nat,
        )->0 + "\n"@,
{
    let m = chars_of(i.message.as_str());
    let size = utf8_size_exec(m.as_slice());
    let text: Vec<char> = if size > max_chars as u128 {
        let b: usize = if max_chars >= 1 {
            max_chars - 1
        } else {
            0
        };
        match byte_prefix_exec(m.as_slice(), b as u128) {
            Some(mut p) => {
                p.push('…');
                p
            },
            None => {
                return false;
            },
        }
    } else {
        m
    };
    append_str(out, "- Line ");
    let d = decimal_exec(i.line);
    append_chars(out, d.as_slice());
    append_str(out, ": ");
    append_chars(out, text.as_slice());
    append_str(out, "\n");
    true
}

/// The unfinished-work section: the first `max_items` such issues by line
/// and message, each message of more than `max_chars` bytes cut to
/// `max_chars - 1` bytes and ended with `…`. Empty when there is none;
/// `None` when a cut would fall inside a character.
pub fn build_unfinished_work_section(score: &QualityScore, max_items: usize, max_chars: usize) -> (r: Option<String>)
    ensures
        match r {
            Some(t) => unfinished_section(score.concrete_issues@, max_items as nat, max_chars as nat) == Some(t@),
            None => unfinished_section(score.concrete_issues@, max_items as nat, max_chars as nat) is None,
        },
{
    let issues = &score.concrete_issues;
    let order = unfinished_items(issues);
    let ghost items = unfinished_sorted(issues@.filter(is_unfinished()));
    assert(order@.len() == items.len());
    if order.len() == 0 {
        return Some(String::new());
    }
    let n: usize = if order.len() < max_items {
        order.len()
    } else {
        max_items
    };
    assert(prefix(items, max_items as nat) == items.take(n as int));
    let mut out: Vec<char> = Vec::new();
    append_str(&mut out, "=== UNFINISHED WORK ===\n");
    let ghost start = out@;
    let mut k: usize = 0;
    assert(items.take(0) =~= Seq::<ConcreteIssue>::empty());
    while k < n
        invariant
            k <= n <= order@.len(),
            order@.len() == items.len(),
            issues@ == score.concrete_issues@,
            items.len() > 0,
            items == unfinished_sorted(issues@.filter(is_unfinished())),
            prefix(items, max_items as nat) == items.take(n as int),
            order@.map_values(|j: usize| issues@[j as int]) == items,
            forall|a: int| 0 <= a < order@.len() ==> #[trigger] order@[a] < issues@.len(),
            unfinished_lines(items.take(k as int), max_chars as nat) == Some(out@.skip(start.len() as int)),
            out@.len() >= start.len(),
            out@.take(start.len() as int) == start,
        decreases n - k,
    {
        assert(items.take(k + 1).drop_last() == items.take(k as int));
        assert(items[k as int] == issues@[order@[k as int] as int]);
        let ghost before = out@;
        let ok = unfinished_line_exec(&issues[order[k]], max_chars, &mut out);
        if !ok {
            proof {
                assert(items.take(n as int)[k as int] == items[k as int]);
                lemma_lines_none(items.take(n as int), k as int, max_chars as nat);
            }
            return None;
        }
        assert(out@.skip(start.len() as int) =~= before.skip(start.len() as int) + (out@.skip(before.len() as int)));
        assert(out@.take(start.len() as int) =~= start);
        k = k + 1;
    }
    assert(out@ =~= start + out@.skip(start.len() as int));
    Some(string_of(out.as_slice()))
}

// ---------------------------------------------------------------------------
// Code around the changed lines
// ---------------------------------------------------------------------------

/// A number right-aligned in four columns (`{:4}`).
pub open spec fn pad4(n: nat) -> Seq<char> {
    let d = decimal(n);
    if d.len() < 4 {
        Seq::new((4 - d.len()) as nat, |i: int| ' ') + d
    } else {
        d
    }
}

/// One row of a snippet: `>` on the issue's line, a space elsewhere, the line
/// number (from one) and the line.
pub open spec fn snippet_row(ls: Seq<Seq<char>>, idx: nat, ln: nat) -> Seq<char> {
    seq![if idx + 1 == ln { '>' } else { ' ' }] + " "@ + pad4(idx + 1) + " | "@ + line_at(ls, idx) + "\n"@
}

/// Line `idx` of `ls`, or nothing past the last line.
pub open spec fn line_at(ls: Seq<Seq<char>>, idx: nat) -> Seq<char> {
    if idx < ls.len() {
        ls[idx as int]
    } else {
        Seq::empty()
    }
}

/// The rows `idx..end` appended to `out` while the text stays within
/// `max_chars` bytes; the flag tells whether a row did not fit.
pub open spec fn snippet_rows(ls: Seq<Seq<char>>, idx: nat, end: nat, ln: nat, out: Seq<char>, max_chars: nat) -> (
    Seq<char>,
    bool,
)
    decreases end - idx,
{
    if idx >= end {
        (out, false)
    } else {
        let row = snippet_row(ls, idx, ln);
        if utf8_size(out) + utf8_size(row) > max_chars {
            (out, true)
        } else {
            snippet_rows(ls, idx + 1, end, ln, out + row, max_chars)
        }
    }
}

/// The snippets for the issues at the positions `ord`, appended to `out`:
/// each issue on a changed line gets its risk line and the lines around it,
/// until `max_snippets` were given or `max_chars` bytes would be passed.
pub open spec fn snippets_from(
    s: Seq<ConcreteIssue>,
    ls: Seq<Seq<char>>,
    w: Seq<(usize, usize)>,
    ctx: nat,
    max_snippets: nat,
    max_chars: nat,
    ord: Seq<usize>,
    out: Seq<char>,
    used: nat,
) -> Seq<char>
    decreases ord.len(),
{
    if ord.len() == 0 || used >= max_snippets {
        out
    } else {
        let i = s[ord[0] as int];
        let ln = i.line as nat;
        if !covers(w, ln) {
            snippets_from(s, ls, w, ctx, max_snippets, max_chars, ord.drop_first(), out, used)
        } else {
            let h = risk_line(i);
            if utf8_size(out) + utf8_size(h) > max_chars {
                out
            } else {
                let start = (if ln > ctx { (ln - ctx) as nat } else { 1nat }) - 1;
                let end = if ln + ctx < ls.len() { ln + ctx } else { ls.len() };
                let (o2, stop) = snippet_rows(ls, start as nat, end, ln, out + h, max_chars);
                if stop {
                    o2
                } else {
                    snippets_from(s, ls, w, ctx, max_snippets, max_chars, ord.drop_first(), o2, used + 1)
                }
            }
        }
    }
}

/// The change-context section of the post-tool report.
pub open spec fn change_context(
    content: Seq<char>,
    s: Seq<ConcreteIssue>,
    w: Seq<(usize, usize)>,
    ctx: nat,
    max_snippets: nat,
    max_chars: nat,
) -> Seq<char> {
    if (forall|ln: nat| !covers(w, ln)) || s.len() == 0 {
        "=== CHANGE CONTEXT ===\n"@ + "No localized snippets available.\n"@
    } else {
        snippets_from(
            s,
            lines(content),
            w,
            ctx,
            max_snippets,
            max_chars,
            report_order(s, s.len()),
            "=== CHANGE CONTEXT ===\n"@,
            0,
        )
    }
}

pub(crate) proof fn lemma_utf8_size_concat(a: Seq<char>, b: Seq<char>)
    ensures
        utf8_size(a + b) == utf8_size(a) + utf8_size(b),
    decreases b.len(),
{
    if b.len() > 0 {
        lemma_utf8_size_concat(a, b.drop_last());
        assert((a + b).drop_last() == a + b.drop_last());
    } else {
        assert(a + b == a);
    }
}

fn pad4_exec(n: usize) -> (r: Vec<char>)
    ensures
        r@ == pad4(n as nat),
{
    let d = decimal_exec(n);
    if d.len() < 4 {
        let mut out: Vec<char> = Vec::new();
        let k = 4 - d.len();
        let mut i: usize = 0;
        while i < k
            invariant
                i <= k,
                out@ == Seq::new(i as nat, |j: int| ' '),
            decreases k - i,
        {
            out.push(' ');
            assert(out@ =~= Seq::new((i + 1) as nat, |j: int| ' '));
            i = i + 1;
        }
        append_chars(&mut out, d.as_slice());
        out
    } else {
        d
    }
}

pub(crate) fn snippet_rows_exec(
    ls: &Vec<Vec<char>>,
    start: usize,
    end: usize,
    ln: usize,
    out: &mut Vec<char>,
    bytes: &mut u128,
    max_chars: usize,
) -> (stop: bool)
    requires
        *old(bytes) == utf8_size(old(out)@),
        *old(bytes) <= max_chars,
    ensures
        (final(out)@, stop) == snippet_rows(views_of(ls@), start as nat, end as nat, ln as nat, old(out)@, max_chars as nat),
        *final(bytes) == utf8_size(final(out)@),
        *final(bytes) <= max_chars,
{
    let ghost lv = views_of(ls@);
    let mut idx: usize = start;
    let ghost o0 = out@;
    while idx < end
        invariant
            lv == views_of(ls@),
            o0 == old(out)@,
            *bytes == utf8_size(out@),
            *bytes <= max_chars,
            snippet_rows(lv, start as nat, end as nat, ln as nat, o0, max_chars as nat) == snippet_rows(
                lv,
                idx as nat,
                end as nat,
                ln as nat,
                out@,
                max_chars as nat,
            ),
        decreases end - idx,
    {
        let mut row: Vec<char> = Vec::new();
        row.push(if idx + 1 == ln { '>' } else { ' ' });
        append_str(&mut row, " ");
        let p = pad4_exec(idx + 1);
        append_chars(&mut row, p.as_slice());
        append_str(&mut row, " | ");
        if idx < ls.len() {
            append_chars(&mut row, ls[idx].as_slice());
        }
        append_str(&mut row, "\n");
        assert(row@ =~= snippet_row(lv, idx as nat, ln as nat));
        let rb = utf8_size_exec(row.as_slice());
        let rl = row.len();
        assert(rb <= 4 * (rl as u128));
        if *bytes + rb > max_chars as u128 {
            assert(snippet_rows(lv, idx as nat, end as nat, ln as nat, out@, max_chars as nat) == (out@, true));
            return true;
        }
        proof {
            lemma_utf8_size_concat(out@, row@);
        }
        append_chars(out, row.as_slice());
        *bytes = *bytes + rb;
        idx = idx + 1;
    }
    false
}

/// The texts of character vectors.
pub open spec fn views_of(v: Seq<Vec<char>>) -> Seq<Seq<char>> {
    v.map_values(|l: Vec<char>| l@)
}

/// The change-context section: for the issues on changed lines, in report
/// order, the risk line and the lines within `ctx_lines` of it (the issue's
/// own line marked `>`), at most `max_snippets` issues and `max_chars`
/// bytes; a fixed note when no line changed or there is no issue.
pub fn build_change_context_snippets(
    content: &str,
    score: &QualityScore,
    changed: &ChangedLines,
    ctx_lines: usize,
    max_snippets: usize,
    max_chars: usize,
) -> (r: String)
    requires
        forall|k: int|
            0 <= k < score.concrete_issues@.len() ==> (#[trigger] score.concrete_issues@[k]).line + ctx_lines
                <= usize::MAX,
    ensures
        r@ == change_context(
            content@,
            score.concrete_issues@,
            changed.windows@,
            ctx_lines as nat,
            max_snippets as nat,
            max_chars as nat,
        ),
{
    let issues = &score.concrete_issues;
    if changed.is_empty() || issues.len() == 0 {
        let mut out: Vec<char> = Vec::new();
        append_str(&mut out, "=== CHANGE CONTEXT ===\n");
        append_str(&mut out, "No localized snippets available.\n");
        return string_of(out.as_slice());
    }
    let ord = report_order_exec(issues);
    proof {
        lemma_report_order(issues@, issues@.len());
        assert(issues@.take(issues@.len() as int) == issues@);
    }
    let cc = chars_of(content);
    let ls = lines_of(cc.as_slice());
    let ghost lv = views_of(ls@);
    assert(lv =~= lines(content@));
    let mut out: Vec<char> = Vec::new();
    append_str(&mut out, "=== CHANGE CONTEXT ===\n");
    assert(out@ =~= "=== CHANGE CONTEXT ===\n"@);
    let mut bytes: u128 = utf8_size_exec(out.as_slice());
    assert(out@.len() == out.len());
    let hdr = bytes;
    let ghost total = snippets_from(
        issues@,
        lv,
        changed.windows@,
        ctx_lines as nat,
        max_snippets as nat,
        max_chars as nat,
        ord@,
        out@,
        0,
    );
    assert(total == change_context(
        content@,
        score.concrete_issues@,
        changed.windows@,
        ctx_lines as nat,
        max_snippets as nat,
        max_chars as nat,
    ));
    let mut used: usize = 0;
    let mut k: usize = 0;
    assert(ord@.skip(0) == ord@);
    while k < ord.len()
        invariant
            k <= ord@.len(),
            ord@.len() == issues@.len(),
            forall|a: int| 0 <= a < ord@.len() ==> #[trigger] ord@[a] < issues@.len(),
            forall|j: int| 0 <= j < issues@.len() ==> (#[trigger] issues@[j]).line + ctx_lines <= usize::MAX,
            issues@ == score.concrete_issues@,
            lv == views_of(ls@),
            bytes == utf8_size(out@),
            hdr <= 4 * (usize::MAX as u128),
            bytes <= max_chars as u128 + hdr,
            used <= k,
            total == change_context(
                content@,
                score.concrete_issues@,
                changed.windows@,
                ctx_lines as nat,
                max_snippets as nat,
                max_chars as nat,
            ),
            total == snippets_from(
                issues@,
                lv,
                changed.windows@,
                ctx_lines as nat,
                max_snippets as nat,
                max_chars as nat,
                ord@.skip(k as int),
                out@,
                used as nat,
            ),
        decreases ord@.len() - k,
    {
        let ghost rest = ord@.skip(k as int);
        assert(rest[0] == ord@[k as int]);
        assert(rest.drop_first() == ord@.skip(k + 1));
        if used >= max_snippets {
            return string_of(out.as_slice());
        }
        let i = &issues[ord[k]];
        let ln = i.line;
        if !changed.contains(ln) {
            k = k + 1;
            continue;
        }
        let mut h: Vec<char> = Vec::new();
        risk_line_exec(i, &mut h);
        assert(h@ =~= risk_line(*i));
        let hb = utf8_size_exec(h.as_slice());
        assert(h@.len() == h.len());
        if bytes + hb > max_chars as u128 {
            return string_of(out.as_slice());
        }
        proof {
            lemma_utf8_size_concat(out@, h@);
        }
        append_chars(&mut out, h.as_slice());
        bytes = bytes + hb;
        let start: usize = (if ln > ctx_lines { ln - ctx_lines } else { 1 }) - 1;
        let end: usize = if ln + ctx_lines < ls.len() { ln + ctx_lines } else { ls.len() };
        let stop = snippet_rows_exec(&ls, start, end, ln, &mut out, &mut bytes, max_chars);
        if stop {
            return string_of(out.as_slice());
        }
        used = used + 1;
        k = k + 1;
    }
    assert(ord@.skip(k as int).len() == 0);
    string_of(out.as_slice())
}

// ---------------------------------------------------------------------------
// Laws of the report
// ---------------------------------------------------------------------------

/// Issues are reported by severity, then line, then rule id; every issue
/// appears once, and issues with the same key keep their order.
pub proof fn law_report_order(s: Seq<ConcreteIssue>)
    requires
        s.len() <= usize::MAX,
    ensures
        is_report_order(s, report_order(s, s.len())),
{
    lemma_report_order(s, s.len());
    assert(s.take(s.len() as int) == s);
}

/// Critical issues come first in a risk report, and only the overall cap
/// can leave one out: the first listed issues are the critical ones, as many
/// as there are or as the cap allows.
pub proof fn law_critical_first(s: Seq<ConcreteIssue>, cap: nat, cap_major: nat, cap_minor: nat)
    ensures
        ({
            let c = by_severity(s, IssueSeverity::Critical);
            let k = if cap < c.len() { cap } else { c.len() };
            risk_selection(s, cap, cap_major, cap_minor).take(k as int) == c.take(k as int)
        }),
{
    let c = by_severity(s, IssueSeverity::Critical);
    let all = c + prefix(by_severity(s, IssueSeverity::Major), cap_major) + prefix(
        by_severity(s, IssueSeverity::Minor),
        cap_minor,
    );
    let k = if cap < c.len() { cap } else { c.len() };
    assert(all.take(k as int) =~= c.take(k as int));
    if cap < all.len() {
        assert(all.take(cap as int).take(k as int) =~= all.take(k as int));
    }
}

} // verus!
