use vstd::prelude::*;
use crate::strings::{
    chars_of, concat3, contains, contains_exec, contains_lit, decimal, decimal_exec, lines, lines_of, split,
    split_chars, starts_with, starts_with_lit, string_of, strs, to_lowercase, trim, trim_chars,
    unicode_lower, lemma_split_len, lemma_strs_push, views, owned,
};
use crate::regexes::{
    regex_all, regex_all_matches, regex_count, regex_found, regex_is_match, regex_match_count,
};

verus! {

// ---------------------------------------------------------------------------
// Severity
// ---------------------------------------------------------------------------

/// How serious a deception is.
#[derive(Clone, Copy, Debug, PartialEq, Eq, Structural)]
pub enum DeceptionSeverity {
    NoIssue,
    Low,
    Medium,
    High,
    Critical,
}

/// The place of a severity in the order NoIssue < Low < Medium < High < Critical.
pub open spec fn rank(s: DeceptionSeverity) -> nat {
    match s {
        DeceptionSeverity::NoIssue => 0,
        DeceptionSeverity::Low => 1,
        DeceptionSeverity::Medium => 2,
        DeceptionSeverity::High => 3,
        DeceptionSeverity::Critical => 4,
    }
}

/// The more serious of two severities.
pub open spec fn higher(a: DeceptionSeverity, b: DeceptionSeverity) -> DeceptionSeverity {
    if rank(a) >= rank(b) {
        a
    } else {
        b
    }
}

/// Raises a severity to `new` when that is more serious.
pub fn upgrade_severity(current: DeceptionSeverity, new: DeceptionSeverity) -> (r: DeceptionSeverity)
    ensures
        r == higher(current, new),
{
    match (current, new) {
        (DeceptionSeverity::Critical, _) => DeceptionSeverity::Critical,
        (_, DeceptionSeverity::Critical) => DeceptionSeverity::Critical,
        (DeceptionSeverity::High, _) => DeceptionSeverity::High,
        (_, DeceptionSeverity::High) => DeceptionSeverity::High,
        (DeceptionSeverity::Medium, _) => DeceptionSeverity::Medium,
        (_, DeceptionSeverity::Medium) => DeceptionSeverity::Medium,
        (DeceptionSeverity::Low, _) => DeceptionSeverity::Low,
        (_, DeceptionSeverity::Low) => DeceptionSeverity::Low,
        _ => DeceptionSeverity::NoIssue,
    }
}

/// Upgrading never lowers a severity, the order of upgrades does not matter,
/// upgrading twice with the same level changes nothing more, and `NoIssue`
/// leaves a severity as it is.
pub proof fn law_upgrade_is_max(a: DeceptionSeverity, b: DeceptionSeverity, c: DeceptionSeverity)
    ensures
        rank(higher(a, b)) >= rank(a),
        rank(higher(a, b)) >= rank(b),
        higher(a, b) == a || higher(a, b) == b,
        higher(a, b) == higher(b, a),
        higher(higher(a, b), c) == higher(a, higher(b, c)),
        higher(a, a) == a,
        higher(a, DeceptionSeverity::NoIssue) == a,
{
}

/// What a scan found: whether the code deceives, how badly, each finding,
/// and the advice.
#[derive(Clone, Debug)]
pub struct DeceptionReport {
    pub is_deceptive: bool,
    pub severity: DeceptionSeverity,
    pub violations: Vec<String>,
    pub recommendation: String,
}

// ---------------------------------------------------------------------------
// Pattern lists
// ---------------------------------------------------------------------------

pub open spec fn todo_regex() -> Seq<char> {
    "(?i)(TODO|FIXME|HACK|XXX|NOTE|REFACTOR|OPTIMIZE)"@
}

pub open spec fn not_impl_phrases() -> Seq<Seq<char>> {
    seq![
        "not implemented"@, "not yet implemented"@, "to be implemented"@, "will implement"@,
        "coming soon"@, "work in progress"@, "placeholder"@, "temporary"@, "dummy"@,
        "// implement"@, "# implement"@,
    ]
}

pub open spec fn hardcoded_regexes() -> Seq<Seq<char>> {
    seq![
        "return\\s+true\\s*;?\\s*}"@, "return\\s+false\\s*;?\\s*}"@, "return\\s+[0-9]+\\s*;?\\s*}"@,
        "return\\s+['\"][^'\"]+['\"]\\s*;?\\s*}"@, "return\\s+\\{\\s*\\}\\s*;?"@,
        "return\\s+\\[\\s*\\]\\s*;?"@, "return\\s+None\\s*$"@, "return\\s+null\\s*;?\\s*}"@,
    ]
}

pub open spec fn hardcoded_messages() -> Seq<Seq<char>> {
    seq![
        "Hardcoded 'return true' without logic"@, "Hardcoded 'return false' without logic"@,
        "Hardcoded numeric return without calculation"@, "Hardcoded string return"@,
        "Empty object return"@, "Empty array return"@, "Python None return without logic"@,
        "Null return without error handling"@,
    ]
}

pub open spec fn fake_impl_regexes() -> Seq<Seq<char>> {
    seq![
        "console\\.(log|error|warn)\\(['\"].*not.*implemented"@,
        "print\\(['\"].*not.*implemented"@, "console\\.(log|error|warn)\\(['\"].*todo"@,
        "print\\(['\"].*todo"@,
    ]
}

pub open spec fn fake_impl_messages() -> Seq<Seq<char>> {
    seq![
        "Using console.log instead of real implementation"@,
        "Using print instead of real implementation"@, "Console.log with TODO"@,
        "Print with TODO"@,
    ]
}

pub open spec fn error_hiding_regexes() -> Seq<Seq<char>> {
    seq![
        "catch\\s*\\([^)]*\\)\\s*\\{\\s*\\}"@, "except:\\s*pass"@,
        "rescue\\s*=>\\s*[a-z]+\\s*\\n\\s*end"@, "on\\s+error\\s+resume\\s+next"@,
        "try\\s*\\{[^}]*\\}\\s*catch\\s*\\{\\s*\\}"@,
    ]
}

pub open spec fn error_hiding_messages() -> Seq<Seq<char>> {
    seq![
        "Empty catch block - swallowing errors"@, "Python except:pass - hiding all errors"@,
        "Ruby empty rescue - hiding errors"@, "VB error suppression"@, "Empty try-catch"@,
    ]
}

pub open spec fn mock_name_regex() -> Seq<char> {
    "(?i)(mock|fake|stub|dummy|test|temp|tmp|sample|demo|example)[A-Z_]"@
}

pub open spec fn fake_async_regexes() -> Seq<Seq<char>> {
    seq![
        "setTimeout\\([^,]+,\\s*[0-9]+\\)"@, "time\\.sleep\\([0-9]+\\)"@,
        "Thread\\.sleep\\([0-9]+\\)"@, "delay\\([0-9]+\\)"@,
    ]
}

pub open spec fn fake_async_messages() -> Seq<Seq<char>> {
    seq![
        "setTimeout used to fake async work"@, "time.sleep used to fake processing"@,
        "Thread.sleep used to fake work"@, "Delay used to simulate work"@,
    ]
}

pub open spec fn fake_data_regexes() -> Seq<Seq<char>> {
    seq![
        "Math\\.random\\(\\)\\s*\\*"@, "random\\.(randint|choice|random)"@, "faker\\."@,
        "uuid\\.(uuid4|v4)\\(\\)"@,
    ]
}

pub open spec fn fake_data_messages() -> Seq<Seq<char>> {
    seq![
        "Using Math.random for fake data"@, "Using random for fake data"@,
        "Using faker library for mock data"@, "Generating fake IDs"@,
    ]
}

pub open spec fn deceptive_comments() -> Seq<Seq<char>> {
    seq![
        "this is just for testing"@, "remove this later"@, "temporary solution"@,
        "quick and dirty"@, "hacky solution"@, "this is a workaround"@,
        "don't use in production"@, "for demo purposes"@, "mock implementation"@, "simulated"@,
    ]
}

pub open spec fn logic_indicators() -> Seq<Seq<char>> {
    seq![
        "if"@, "else"@, "for"@, "while"@, "switch"@, "case"@, "map"@, "filter"@, "reduce"@,
        "forEach"@, "try"@, "catch"@, "async"@, "await"@, "calculate"@, "process"@, "validate"@,
        "check"@, "+"@, "-"@, "*"@, "/"@, "%"@, "&&"@, "||"@,
    ]
}

// ---------------------------------------------------------------------------
// Messages of each rule
// ---------------------------------------------------------------------------

/// For each phrase found in `text`, in order, the message `pre + phrase + post`.
pub open spec fn found_msgs(text: Seq<char>, pats: Seq<Seq<char>>, pre: Seq<char>, post: Seq<char>) -> Seq<Seq<char>>
    decreases pats.len(),
{
    if pats.len() == 0 {
        Seq::empty()
    } else {
        let r = found_msgs(text, pats.drop_last(), pre, post);
        if contains(text, pats.last()) {
            r.push(pre + pats.last() + post)
        } else {
            r
        }
    }
}

/// For each regex that matches `text`, in order, its message.
pub open spec fn regex_msgs(text: Seq<char>, pats: Seq<Seq<char>>, msgs: Seq<Seq<char>>) -> Seq<Seq<char>>
    decreases pats.len(),
{
    if pats.len() == 0 || msgs.len() != pats.len() {
        Seq::empty()
    } else {
        let r = regex_msgs(text, pats.drop_last(), msgs.drop_last());
        if regex_found(pats.last(), text) {
            r.push(msgs.last())
        } else {
            r
        }
    }
}

/// A trimmed line that is neither empty nor a comment.
pub open spec fn code_line(l: Seq<char>) -> bool {
    !(l.len() == 0 || starts_with(l, "//"@) || starts_with(l, "#"@))
}

/// A line holds one of the logic indicators.
pub open spec fn has_logic(l: Seq<char>) -> bool {
    exists|k: int| 0 <= k < logic_indicators().len() && contains(l, #[trigger] logic_indicators()[k])
}

/// Some other line within `range` before (up to `range` lines) or after
/// (fewer than `range` lines) the line at `index` is code with logic in it.
pub open spec fn logic_near(ls: Seq<Seq<char>>, index: int, range: int) -> bool {
    let start = if index > range { index - range } else { 0 };
    let end = if index + range < ls.len() { index + range } else { ls.len() as int };
    exists|i: int|
        start <= i < end && i != index && code_line(trim(#[trigger] ls[i])) && has_logic(trim(ls[i]))
}

/// The regex matches line `i`, and no logic is near that line.
pub open spec fn bare_line(ls: Seq<Seq<char>>, pat: Seq<char>, i: int) -> bool {
    regex_found(pat, ls[i]) && !logic_near(ls, i, 5)
}

/// A hard-coded return without logic near it: the regex matches the whole
/// text and some line on which no logic is near.
pub open spec fn bare_return(content: Seq<char>, ls: Seq<Seq<char>>, pat: Seq<char>) -> bool {
    regex_found(pat, content) && exists|i: int| 0 <= i < ls.len() && #[trigger] bare_line(ls, pat, i)
}

/// For each hard-coded-return regex, in order, its message when it finds a bare return.
pub open spec fn hardcoded_msgs(content: Seq<char>, ls: Seq<Seq<char>>, pats: Seq<Seq<char>>, msgs: Seq<Seq<char>>) -> Seq<Seq<char>>
    decreases pats.len(),
{
    if pats.len() == 0 || msgs.len() != pats.len() {
        Seq::empty()
    } else {
        let r = hardcoded_msgs(content, ls, pats.drop_last(), msgs.drop_last());
        if bare_return(content, ls, pats.last()) {
            r.push(msgs.last())
        } else {
            r
        }
    }
}

/// The path is not under a test or spec directory.
pub open spec fn outside_tests(path: Seq<char>) -> bool {
    !contains(path, "/test"@) && !contains(path, "/spec"@)
}

/// The last `/`-separated part of a path.
pub open spec fn last_part(path: Seq<char>) -> Seq<char> {
    split(path, '/').last()
}

pub open spec fn filename_msgs(path: Seq<char>) -> Seq<Seq<char>> {
    let f = unicode_lower(last_part(path));
    if outside_tests(path) && (contains(f, "mock"@) || contains(f, "fake"@) || contains(f, "stub"@)) {
        seq!["Filename contains mock/fake/stub outside test directory"@]
    } else {
        Seq::empty()
    }
}

pub open spec fn todo_msgs(content: Seq<char>) -> Seq<Seq<char>> {
    if regex_found(todo_regex(), content) {
        seq!["Found "@ + decimal(regex_count(todo_regex(), content)) + " TODO/FIXME markers - incomplete implementation"@]
    } else {
        Seq::empty()
    }
}

/// Each text of `ms`, in order, with `pre` in front of it.
pub open spec fn prefixed(pre: Seq<char>, ms: Seq<Seq<char>>) -> Seq<Seq<char>> {
    ms.map_values(|m: Seq<char>| pre + m)
}

pub open spec fn mock_msgs(content: Seq<char>, path: Seq<char>) -> Seq<Seq<char>> {
    if outside_tests(path) {
        prefixed("Function/variable with mock name: "@, regex_all(mock_name_regex(), content))
    } else {
        Seq::empty()
    }
}

pub open spec fn fake_data_msgs(content: Seq<char>, path: Seq<char>) -> Seq<Seq<char>> {
    if !contains(path, "/test"@) {
        regex_msgs(content, fake_data_regexes(), fake_data_messages())
    } else {
        Seq::empty()
    }
}

/// Every violation found in `content` at `path`, rule by rule in the order
/// the rules are checked.
pub open spec fn violations_of(content: Seq<char>, path: Seq<char>) -> Seq<Seq<char>> {
    let lc = unicode_lower(content);
    filename_msgs(path) + todo_msgs(content) + found_msgs(
        lc,
        not_impl_phrases(),
        "Found '"@,
        "' - clear fake implementation"@,
    ) + hardcoded_msgs(content, lines(content), hardcoded_regexes(), hardcoded_messages())
        + regex_msgs(lc, fake_impl_regexes(), fake_impl_messages()) + regex_msgs(
        lc,
        error_hiding_regexes(),
        error_hiding_messages(),
    ) + mock_msgs(content, path) + regex_msgs(content, fake_async_regexes(), fake_async_messages())
        + fake_data_msgs(content, path) + found_msgs(
        lc,
        deceptive_comments(),
        "Deceptive comment found: '"@,
        "'"@,
    )
}

/// The severity of what was found: critical for a fake implementation,
/// printed "not implemented" or hidden errors; high for a mock file name,
/// TODO markers, bare hard-coded returns, mock names or deceptive comments;
/// medium for faked work or fake data; none otherwise.
pub open spec fn severity_of(content: Seq<char>, path: Seq<char>) -> DeceptionSeverity {
    let lc = unicode_lower(content);
    if found_msgs(lc, not_impl_phrases(), "Found '"@, "' - clear fake implementation"@).len() > 0
        || regex_msgs(lc, fake_impl_regexes(), fake_impl_messages()).len() > 0 || regex_msgs(
        lc,
        error_hiding_regexes(),
        error_hiding_messages(),
    ).len() > 0 {
        DeceptionSeverity::Critical
    } else if filename_msgs(path).len() > 0 || todo_msgs(content).len() > 0 || hardcoded_msgs(
        content,
        lines(content),
        hardcoded_regexes(),
        hardcoded_messages(),
    ).len() > 0 || mock_msgs(content, path).len() > 0 || found_msgs(
        lc,
        deceptive_comments(),
        "Deceptive comment found: '"@,
        "'"@,
    ).len() > 0 {
        DeceptionSeverity::High
    } else if regex_msgs(content, fake_async_regexes(), fake_async_messages()).len() > 0
        || fake_data_msgs(content, path).len() > 0 {
        DeceptionSeverity::Medium
    } else {
        DeceptionSeverity::NoIssue
    }
}

/// The advice that goes with a result.
pub open spec fn recommendation_for(no_violations: bool, severity: DeceptionSeverity) -> Seq<char> {
    if no_violations {
        "Code appears to be legitimate implementation"@
    } else if severity == DeceptionSeverity::Critical {
        "REJECT: This is clearly fake/mock code masquerading as real implementation"@
    } else if severity == DeceptionSeverity::High {
        "REJECT: Multiple deception indicators found. Demand real implementation."@
    } else if severity == DeceptionSeverity::Medium {
        "WARNING: Suspicious patterns detected. Review carefully."@
    } else {
        "CAUTION: Minor issues found that may indicate incomplete implementation."@
    }
}


/// Code is rated deceptive exactly when at least one finding is listed, and
/// the all-clear advice is given exactly then too; the rating is never
/// `Low`, and the advice is to reject exactly when the rating is `High` or
/// `Critical`.
pub proof fn law_deceptive_iff_findings(content: Seq<char>, path: Seq<char>)
    ensures
        (severity_of(content, path) != DeceptionSeverity::NoIssue) == (violations_of(content, path).len() > 0),
        (recommendation_for(violations_of(content, path).len() == 0, severity_of(content, path))
            == "Code appears to be legitimate implementation"@) == (violations_of(content, path).len() == 0),
        severity_of(content, path) != DeceptionSeverity::Low,
        starts_with(
            recommendation_for(violations_of(content, path).len() == 0, severity_of(content, path)),
            "REJECT"@,
        ) == (severity_of(content, path) == DeceptionSeverity::High || severity_of(content, path)
            == DeceptionSeverity::Critical),
{
    let lc = unicode_lower(content);
    let m = regex_all(mock_name_regex(), content);
    assert(prefixed("Function/variable with mock name: "@, m).len() == m.len());
    reveal_strlit("Code appears to be legitimate implementation");
    reveal_strlit("REJECT: This is clearly fake/mock code masquerading as real implementation");
    reveal_strlit("REJECT: Multiple deception indicators found. Demand real implementation.");
    reveal_strlit("WARNING: Suspicious patterns detected. Review carefully.");
    reveal_strlit("CAUTION: Minor issues found that may indicate incomplete implementation.");
    let ok = "Code appears to be legitimate implementation"@;
    assert("REJECT: This is clearly fake/mock code masquerading as real implementation"@[0] != ok[0]);
    assert("REJECT: Multiple deception indicators found. Demand real implementation."@[0] != ok[0]);
    assert("WARNING: Suspicious patterns detected. Review carefully."@[0] != ok[0]);
    assert("CAUTION: Minor issues found that may indicate incomplete implementation."@[1] != ok[1]);
    reveal_strlit("REJECT");
    let rj = "REJECT"@;
    assert("REJECT: This is clearly fake/mock code masquerading as real implementation"@.subrange(0, 6) =~= rj);
    assert("REJECT: Multiple deception indicators found. Demand real implementation."@.subrange(0, 6) =~= rj);
    assert("WARNING: Suspicious patterns detected. Review carefully."@[0] != rj[0]);
    assert("CAUTION: Minor issues found that may indicate incomplete implementation."@[0] != rj[0]);
    assert(ok[0] != rj[0]);
}

proof fn lemma_regex_msgs_has(text: Seq<char>, pats: Seq<Seq<char>>, msgs: Seq<Seq<char>>, i: int)
    requires
        pats.len() == msgs.len(),
        0 <= i < pats.len(),
        regex_found(pats[i], text),
    ensures
        regex_msgs(text, pats, msgs).contains(msgs[i]),
    decreases pats.len(),
{
    if i == pats.len() - 1 {
        let r = regex_msgs(text, pats.drop_last(), msgs.drop_last());
        assert(regex_msgs(text, pats, msgs) == r.push(msgs.last()));
        assert(r.push(msgs.last())[r.len() as int] == msgs[i]);
    } else {
        lemma_regex_msgs_has(text, pats.drop_last(), msgs.drop_last(), i);
        let r = regex_msgs(text, pats.drop_last(), msgs.drop_last());
        let k = choose|k: int| 0 <= k < r.len() && r[k] == msgs[i];
        if regex_found(pats.last(), text) {
            assert(r.push(msgs.last())[k] == msgs[i]);
        }
    }
}

proof fn lemma_listed_in_violations(content: Seq<char>, path: Seq<char>, fake: bool, i: int)
    requires
        0 <= i < (if fake { fake_impl_regexes().len() } else { error_hiding_regexes().len() }),
        regex_found(
            if fake { fake_impl_regexes()[i] } else { error_hiding_regexes()[i] },
            unicode_lower(content),
        ),
    ensures
        violations_of(content, path).contains(
            if fake { fake_impl_messages()[i] } else { error_hiding_messages()[i] },
        ),
        severity_of(content, path) == DeceptionSeverity::Critical,
{
    let lc = unicode_lower(content);
    let a0 = filename_msgs(path) + todo_msgs(content) + found_msgs(
        lc,
        not_impl_phrases(),
        "Found '"@,
        "' - clear fake implementation"@,
    ) + hardcoded_msgs(content, lines(content), hardcoded_regexes(), hardcoded_messages());
    let fk = regex_msgs(lc, fake_impl_regexes(), fake_impl_messages());
    let hide = regex_msgs(lc, error_hiding_regexes(), error_hiding_messages());
    let b = mock_msgs(content, path) + regex_msgs(content, fake_async_regexes(), fake_async_messages())
        + fake_data_msgs(content, path) + found_msgs(lc, deceptive_comments(), "Deceptive comment found: '"@, "'"@);
    let v = violations_of(content, path);
    assert(v =~= a0 + fk + hide + b);
    if fake {
        lemma_regex_msgs_has(lc, fake_impl_regexes(), fake_impl_messages(), i);
        let k = choose|k: int| 0 <= k < fk.len() && fk[k] == fake_impl_messages()[i];
        assert(v[a0.len() + k] == fake_impl_messages()[i]);
    } else {
        lemma_regex_msgs_has(lc, error_hiding_regexes(), error_hiding_messages(), i);
        let k = choose|k: int| 0 <= k < hide.len() && hide[k] == error_hiding_messages()[i];
        assert(v[a0.len() + fk.len() + k] == error_hiding_messages()[i]);
    }
}

proof fn lemma_found_msgs_has(text: Seq<char>, pats: Seq<Seq<char>>, pre: Seq<char>, post: Seq<char>, i: int)
    requires
        0 <= i < pats.len(),
        contains(text, pats[i]),
    ensures
        found_msgs(text, pats, pre, post).contains(pre + pats[i] + post),
    decreases pats.len(),
{
    let r = found_msgs(text, pats.drop_last(), pre, post);
    if i == pats.len() - 1 {
        assert(found_msgs(text, pats, pre, post)[r.len() as int] == pre + pats[i] + post);
    } else {
        lemma_found_msgs_has(text, pats.drop_last(), pre, post, i);
        let k = choose|k: int| 0 <= k < r.len() && r[k] == pre + pats[i] + post;
        if contains(text, pats.last()) {
            assert(r.push(pre + pats.last() + post)[k] == r[k]);
        }
    }
}

/// The phrases that give away an implementation left undone.
pub open spec fn unfinished_phrases() -> Seq<Seq<char>> {
    seq![
        "not "@ + "implemented"@, "not yet "@ + "implemented"@, "to be "@ + "implemented"@, "will "@ + "implement"@,
        "coming "@ + "soon"@, "work in "@ + "progress"@, "place"@ + "holder"@, "tempo"@ + "rary"@, "dum"@ + "my"@,
        "// "@ + "implement"@, "# "@ + "implement"@,
    ]
}

/// Code whose lower-cased text holds one of the phrases of an unfinished
/// implementation ("not implemented", "coming soon", "placeholder", ...)
/// is reported with "Found '<phrase>' - clear fake implementation" and rated
/// critical.
pub proof fn law_unfinished_phrases(content: Seq<char>, path: Seq<char>)
    ensures
        forall|i: int|
            0 <= i < unfinished_phrases().len() && contains(unicode_lower(content), #[trigger] unfinished_phrases()[i])
                ==> violations_of(content, path).contains(
                "Found '"@ + unfinished_phrases()[i] + "' - clear fake implementation"@,
            ) && severity_of(content, path) == DeceptionSeverity::Critical,
{
    reveal_strlit("not implemented");
    reveal_strlit("not yet implemented");
    reveal_strlit("to be implemented");
    reveal_strlit("will implement");
    reveal_strlit("coming soon");
    reveal_strlit("work in progress");
    reveal_strlit("placeholder");
    reveal_strlit("temporary");
    reveal_strlit("dummy");
    reveal_strlit("// implement");
    reveal_strlit("# implement");
    reveal_strlit("not ");
    reveal_strlit("implemented");
    reveal_strlit("not yet ");
    reveal_strlit("to be ");
    reveal_strlit("will ");
    reveal_strlit("implement");
    reveal_strlit("coming ");
    reveal_strlit("soon");
    reveal_strlit("work in ");
    reveal_strlit("progress");
    reveal_strlit("place");
    reveal_strlit("holder");
    reveal_strlit("tempo");
    reveal_strlit("rary");
    reveal_strlit("dum");
    reveal_strlit("my");
    reveal_strlit("// ");
    reveal_strlit("# ");
    assert(unfinished_phrases()[0] =~= not_impl_phrases()[0]);
    assert(unfinished_phrases()[1] =~= not_impl_phrases()[1]);
    assert(unfinished_phrases()[2] =~= not_impl_phrases()[2]);
    assert(unfinished_phrases()[3] =~= not_impl_phrases()[3]);
    assert(unfinished_phrases()[4] =~= not_impl_phrases()[4]);
    assert(unfinished_phrases()[5] =~= not_impl_phrases()[5]);
    assert(unfinished_phrases()[6] =~= not_impl_phrases()[6]);
    assert(unfinished_phrases()[7] =~= not_impl_phrases()[7]);
    assert(unfinished_phrases()[8] =~= not_impl_phrases()[8]);
    assert(unfinished_phrases()[9] =~= not_impl_phrases()[9]);
    assert(unfinished_phrases()[10] =~= not_impl_phrases()[10]);
    assert(unfinished_phrases() =~= not_impl_phrases());
    let lc = unicode_lower(content);
    let pre = "Found '"@;
    let post = "' - clear fake implementation"@;
    assert forall|i: int|
        0 <= i < unfinished_phrases().len() && contains(lc, #[trigger] unfinished_phrases()[i])
            implies violations_of(content, path).contains(pre + unfinished_phrases()[i] + post)
            && severity_of(content, path) == DeceptionSeverity::Critical by {
        lemma_found_msgs_has(lc, not_impl_phrases(), pre, post, i);
        let f = found_msgs(lc, not_impl_phrases(), pre, post);
        let k = choose|k: int| 0 <= k < f.len() && f[k] == pre + not_impl_phrases()[i] + post;
        let a0 = filename_msgs(path) + todo_msgs(content);
        let rest = hardcoded_msgs(content, lines(content), hardcoded_regexes(), hardcoded_messages())
            + regex_msgs(lc, fake_impl_regexes(), fake_impl_messages()) + regex_msgs(
            lc,
            error_hiding_regexes(),
            error_hiding_messages(),
        ) + mock_msgs(content, path) + regex_msgs(content, fake_async_regexes(), fake_async_messages())
            + fake_data_msgs(content, path) + found_msgs(lc, deceptive_comments(), "Deceptive comment found: '"@, "'"@);
        let v = violations_of(content, path);
        assert(v =~= a0 + f + rest);
        assert(v[a0.len() + k] == f[k]);
    }
}

/// The rules that mark code as hiding errors or faking its work: a regular
/// expression sought in the lower-cased code, and the finding it gives.
pub open spec fn critical_rules() -> Seq<(Seq<char>, Seq<char>)> {
    seq![
        ("catch\\s*\\("@ + "[^)]*\\)\\s*\\{\\s*\\}"@, "Empty catch block"@ + " - swallowing errors"@),
        ("except:"@ + "\\s*pass"@, "Python except:pass"@ + " - hiding all errors"@),
        ("rescue\\s*=>\\s*"@ + "[a-z]+\\s*\\n\\s*end"@, "Ruby empty rescue"@ + " - hiding errors"@),
        ("on\\s+error"@ + "\\s+resume\\s+next"@, "VB error"@ + " suppression"@),
        ("try\\s*\\{[^}]*\\}"@ + "\\s*catch\\s*\\{\\s*\\}"@, "Empty"@ + " try-catch"@),
        ("console\\.(log|error|warn)"@ + "\\(['\"].*not.*implemented"@, "Using console.log"@
            + " instead of real implementation"@),
        ("print\\(['\"]"@ + ".*not.*implemented"@, "Using print"@ + " instead of real implementation"@),
        ("console\\.(log|error|warn)"@ + "\\(['\"].*todo"@, "Console.log"@ + " with TODO"@),
        ("print\\(['\"]"@ + ".*todo"@, "Print"@ + " with TODO"@),
    ]
}

/// Each error-hiding or fake-work rule that is found in the lower-cased
/// code is reported with its finding, and the code is then rated critical;
/// in particular a Python `except:` followed (after any whitespace) by
/// `pass` is reported as "Python except:pass - hiding all errors".
pub proof fn law_critical_rules(content: Seq<char>, path: Seq<char>)
    ensures
        forall|i: int|
            0 <= i < critical_rules().len() && regex_found(#[trigger] critical_rules()[i].0, unicode_lower(content))
                ==> violations_of(content, path).contains(critical_rules()[i].1) && severity_of(content, path)
                == DeceptionSeverity::Critical,
{
    assert forall|i: int|
        0 <= i < critical_rules().len() && regex_found(#[trigger] critical_rules()[i].0, unicode_lower(content))
            implies violations_of(content, path).contains(critical_rules()[i].1) && severity_of(content, path)
            == DeceptionSeverity::Critical by {
        lemma_critical_rule_tables();
        if i < 5 {
            lemma_listed_in_violations(content, path, false, i);
        } else {
            lemma_listed_in_violations(content, path, true, i - 5);
        }
    }
}

proof fn lemma_critical_rule_tables()
    ensures
        critical_rules().len() == 9,
        forall|i: int| 0 <= i < 5 ==> #[trigger] critical_rules()[i] == (error_hiding_regexes()[i], error_hiding_messages()[i]),
        forall|i: int| 5 <= i < 9 ==> #[trigger] critical_rules()[i] == (fake_impl_regexes()[i - 5], fake_impl_messages()[i - 5]),
{
    reveal_strlit("catch\\s*\\(");
    reveal_strlit("[^)]*\\)\\s*\\{\\s*\\}");
    reveal_strlit("Empty catch block");
    reveal_strlit(" - swallowing errors");
    reveal_strlit("except:");
    reveal_strlit("\\s*pass");
    reveal_strlit("Python except:pass");
    reveal_strlit(" - hiding all errors");
    reveal_strlit("rescue\\s*=>\\s*");
    reveal_strlit("[a-z]+\\s*\\n\\s*end");
    reveal_strlit("Ruby empty rescue");
    reveal_strlit(" - hiding errors");
    reveal_strlit("on\\s+error");
    reveal_strlit("\\s+resume\\s+next");
    reveal_strlit("VB error");
    reveal_strlit(" suppression");
    reveal_strlit("try\\s*\\{[^}]*\\}");
    reveal_strlit("\\s*catch\\s*\\{\\s*\\}");
    reveal_strlit("Empty");
    reveal_strlit(" try-catch");
    reveal_strlit("console\\.(log|error|warn)");
    reveal_strlit("\\(['\"].*not.*implemented");
    reveal_strlit("Using console.log");
    reveal_strlit(" instead of real implementation");
    reveal_strlit("print\\(['\"]");
    reveal_strlit(".*not.*implemented");
    reveal_strlit("Using print");
    reveal_strlit("\\(['\"].*todo");
    reveal_strlit("Console.log");
    reveal_strlit(" with TODO");
    reveal_strlit(".*todo");
    reveal_strlit("Print");
    reveal_strlit("catch\\s*\\([^)]*\\)\\s*\\{\\s*\\}");
    reveal_strlit("except:\\s*pass");
    reveal_strlit("rescue\\s*=>\\s*[a-z]+\\s*\\n\\s*end");
    reveal_strlit("on\\s+error\\s+resume\\s+next");
    reveal_strlit("try\\s*\\{[^}]*\\}\\s*catch\\s*\\{\\s*\\}");
    reveal_strlit("Empty catch block - swallowing errors");
    reveal_strlit("Python except:pass - hiding all errors");
    reveal_strlit("Ruby empty rescue - hiding errors");
    reveal_strlit("VB error suppression");
    reveal_strlit("Empty try-catch");
    reveal_strlit("console\\.(log|error|warn)\\(['\"].*not.*implemented");
    reveal_strlit("print\\(['\"].*not.*implemented");
    reveal_strlit("console\\.(log|error|warn)\\(['\"].*todo");
    reveal_strlit("print\\(['\"].*todo");
    reveal_strlit("Using console.log instead of real implementation");
    reveal_strlit("Using print instead of real implementation");
    reveal_strlit("Console.log with TODO");
    reveal_strlit("Print with TODO");
    let r = critical_rules();
    assert(r[0].0 =~= error_hiding_regexes()[0]);
    assert(r[0].1 =~= error_hiding_messages()[0]);
    assert(r[1].0 =~= error_hiding_regexes()[1]);
    assert(r[1].1 =~= error_hiding_messages()[1]);
    assert(r[2].0 =~= error_hiding_regexes()[2]);
    assert(r[2].1 =~= error_hiding_messages()[2]);
    assert(r[3].0 =~= error_hiding_regexes()[3]);
    assert(r[3].1 =~= error_hiding_messages()[3]);
    assert(r[4].0 =~= error_hiding_regexes()[4]);
    assert(r[4].1 =~= error_hiding_messages()[4]);
    assert(r[5].0 =~= fake_impl_regexes()[0]);
    assert(r[5].1 =~= fake_impl_messages()[0]);
    assert(r[6].0 =~= fake_impl_regexes()[1]);
    assert(r[6].1 =~= fake_impl_messages()[1]);
    assert(r[7].0 =~= fake_impl_regexes()[2]);
    assert(r[7].1 =~= fake_impl_messages()[2]);
    assert(r[8].0 =~= fake_impl_regexes()[3]);
    assert(r[8].1 =~= fake_impl_messages()[3]);
}

// ---------------------------------------------------------------------------
// Checking each rule
// ---------------------------------------------------------------------------

/// Appends the message of each phrase found in `text`.
fn push_found_msgs(out: &mut Vec<String>, text: &[char], pats: &[&str], pre: &str, post: &str) -> (any: bool)
    ensures
        strs(final(out)@) == strs(old(out)@) + found_msgs(text@, pats@.map_values(|x: &str| x@), pre@, post@),
        any == (found_msgs(text@, pats@.map_values(|x: &str| x@), pre@, post@).len() > 0),
{
    let ghost pv = pats@.map_values(|x: &str| x@);
    let ghost start = strs(out@);
    let n0 = out.len();
    let mut i: usize = 0;
    while i < pats.len()
        invariant
            i <= pats@.len(),
            n0 == start.len(),
            pv == pats@.map_values(|x: &str| x@),
            strs(out@) == start + found_msgs(text@, pv.take(i as int), pre@, post@),
        decreases pats@.len() - i,
    {
        let ghost before = out@;
        let ghost cur = pv.take(i + 1);
        assert(cur.drop_last() == pv.take(i as int));
        assert(cur.last() == pats@[i as int]@);
        let pc = chars_of(pats[i]);
        if contains_exec(text, pc.as_slice()) {
            let msg = concat3(pre, pc.as_slice(), post);
            out.push(msg);
            proof {
                lemma_strs_push(before, msg);
            }
            assert(strs(out@) =~= start + found_msgs(text@, cur, pre@, post@));
        } else {
            assert(found_msgs(text@, cur, pre@, post@) == found_msgs(text@, pv.take(i as int), pre@, post@));
        }
        i = i + 1;
    }
    assert(pv.take(pats@.len() as int) == pv);
    out.len() > n0
}

/// Appends the message of each regex that matches `text`.
fn push_regex_msgs(out: &mut Vec<String>, text: &str, pats: &[&str], msgs: &[&str]) -> (any: bool)
    requires
        pats@.len() == msgs@.len(),
    ensures
        strs(final(out)@) == strs(old(out)@) + regex_msgs(
            text@,
            pats@.map_values(|x: &str| x@),
            msgs@.map_values(|x: &str| x@),
        ),
        any == (regex_msgs(text@, pats@.map_values(|x: &str| x@), msgs@.map_values(|x: &str| x@)).len()
            > 0),
{
    let ghost pv = pats@.map_values(|x: &str| x@);
    let ghost mv = msgs@.map_values(|x: &str| x@);
    let ghost start = strs(out@);
    let n0 = out.len();
    let mut i: usize = 0;
    while i < pats.len()
        invariant
            i <= pats@.len(),
            pats@.len() == msgs@.len(),
            n0 == start.len(),
            pv == pats@.map_values(|x: &str| x@),
            mv == msgs@.map_values(|x: &str| x@),
            strs(out@) == start + regex_msgs(text@, pv.take(i as int), mv.take(i as int)),
        decreases pats@.len() - i,
    {
        let ghost before = out@;
        let ghost cp = pv.take(i + 1);
        let ghost cm = mv.take(i + 1);
        assert(cp.drop_last() == pv.take(i as int));
        assert(cm.drop_last() == mv.take(i as int));
        assert(cp.last() == pats@[i as int]@);
        assert(cm.last() == msgs@[i as int]@);
        if regex_is_match(pats[i], text) {
            let msg = string_of(chars_of(msgs[i]).as_slice());
            out.push(msg);
            proof {
                lemma_strs_push(before, msg);
            }
            assert(strs(out@) =~= start + regex_msgs(text@, cp, cm));
        } else {
            assert(regex_msgs(text@, cp, cm) == regex_msgs(text@, pv.take(i as int), mv.take(i as int)));
        }
        i = i + 1;
    }
    assert(pv.take(pats@.len() as int) == pv);
    assert(mv.take(pats@.len() as int) == mv);
    out.len() > n0
}

/// Does the line hold one of the logic indicators?
fn line_has_logic(line: &[char]) -> (r: bool)
    ensures
        r == has_logic(line@),
{
    let inds: Vec<&str> = vec![
        "if", "else", "for", "while", "switch", "case", "map", "filter", "reduce", "forEach", "try",
        "catch", "async", "await", "calculate", "process", "validate", "check", "+", "-", "*", "/",
        "%", "&&", "||",
    ];
    assert(inds@.map_values(|x: &str| x@) =~= logic_indicators());
    let mut k: usize = 0;
    while k < inds.len()
        invariant
            k <= inds@.len(),
            inds@.map_values(|x: &str| x@) == logic_indicators(),
            inds@.len() == logic_indicators().len(),
            forall|m: int| 0 <= m < k ==> !contains(line@, #[trigger] logic_indicators()[m]),
        decreases inds@.len() - k,
    {
        let ic = chars_of(inds[k]);
        assert(ic@ == logic_indicators()[k as int]);
        if contains_exec(line, ic.as_slice()) {
            return true;
        }
        k = k + 1;
    }
    false
}

/// Is there actual logic near the line at `index`?
fn check_nearby_lines_for_logic(lines: &Vec<Vec<char>>, index: usize, range: usize) -> (r: bool)
    ensures
        r == logic_near(views(lines@), index as int, range as int),
{
    let ghost ls = views(lines@);
    let start: usize = if index > range { index - range } else { 0 };
    let end: usize = if index < lines.len() && range < lines.len() - index { index + range } else { lines.len() };
    assert(start == (if index > range { index - range } else { 0 }));
    assert(end == (if index + range < ls.len() { index + range } else { ls.len() as int }));
    if start >= end {
        return false;
    }
    let mut i: usize = start;
    while i < end
        invariant
            start <= i <= end,
            end <= lines@.len(),
            ls == views(lines@),
            start == (if index > range { index - range } else { 0 }),
            end == (if index + range < ls.len() { index + range } else { ls.len() as int }),
            forall|j: int|
                start <= j < i && j != index ==> !(code_line(trim(#[trigger] ls[j])) && has_logic(trim(ls[j]))),
        decreases end - i,
    {
        if i != index {
            let line = trim_chars(lines[i].as_slice());
            assert(line@ == trim(ls[i as int]));
            let is_code = !(line.len() == 0 || starts_with_lit(line.as_slice(), "//") || starts_with_lit(line.as_slice(), "#"));
            if is_code && line_has_logic(line.as_slice()) {
                assert(code_line(trim(ls[i as int])) && has_logic(trim(ls[i as int])));
                return true;
            }
        }
        i = i + 1;
    }
    false
}

/// Is there a line that the regex matches with no logic near it?
fn has_bare_line(lines: &Vec<Vec<char>>, pat: &str) -> (r: bool)
    ensures
        r == exists|i: int|
            0 <= i < lines@.len() && #[trigger] bare_line(views(lines@), pat@, i),
{
    let ghost ls = views(lines@);
    let mut i: usize = 0;
    while i < lines.len()
        invariant
            i <= lines@.len(),
            ls == views(lines@),
            forall|j: int| 0 <= j < i ==> !#[trigger] bare_line(ls, pat@, j),
        decreases lines@.len() - i,
    {
        let line = string_of(lines[i].as_slice());
        assert(line@ == ls[i as int]);
        if regex_is_match(pat, line.as_str()) && !check_nearby_lines_for_logic(lines, i, 5) {
            assert(bare_line(ls, pat@, i as int));
            return true;
        }
        i = i + 1;
    }
    false
}

/// Appends the message of each hard-coded-return regex that finds a bare return.
fn push_hardcoded_msgs(out: &mut Vec<String>, content: &str, lines: &Vec<Vec<char>>, pats: &[&str], msgs: &[&str]) -> (any: bool)
    requires
        pats@.len() == msgs@.len(),
    ensures
        strs(final(out)@) == strs(old(out)@) + hardcoded_msgs(
            content@,
            views(lines@),
            pats@.map_values(|x: &str| x@),
            msgs@.map_values(|x: &str| x@),
        ),
        any == (hardcoded_msgs(
            content@,
            views(lines@),
            pats@.map_values(|x: &str| x@),
            msgs@.map_values(|x: &str| x@),
        ).len() > 0),
{
    let ghost ls = views(lines@);
    let ghost pv = pats@.map_values(|x: &str| x@);
    let ghost mv = msgs@.map_values(|x: &str| x@);
    let ghost start = strs(out@);
    let n0 = out.len();
    let mut i: usize = 0;
    while i < pats.len()
        invariant
            i <= pats@.len(),
            pats@.len() == msgs@.len(),
            n0 == start.len(),
            ls == views(lines@),
            pv == pats@.map_values(|x: &str| x@),
            mv == msgs@.map_values(|x: &str| x@),
            strs(out@) == start + hardcoded_msgs(content@, ls, pv.take(i as int), mv.take(i as int)),
        decreases pats@.len() - i,
    {
        let ghost before = out@;
        let ghost cp = pv.take(i + 1);
        let ghost cm = mv.take(i + 1);
        assert(cp.drop_last() == pv.take(i as int));
        assert(cm.drop_last() == mv.take(i as int));
        assert(cp.last() == pats@[i as int]@);
        assert(cm.last() == msgs@[i as int]@);
        if regex_is_match(pats[i], content) && has_bare_line(lines, pats[i]) {
            let msg = string_of(chars_of(msgs[i]).as_slice());
            out.push(msg);
            proof {
                lemma_strs_push(before, msg);
            }
            assert(strs(out@) =~= start + hardcoded_msgs(content@, ls, cp, cm));
        } else {
            assert(hardcoded_msgs(content@, ls, cp, cm) == hardcoded_msgs(content@, ls, pv.take(i as int), mv.take(i as int)));
        }
        i = i + 1;
    }
    assert(pv.take(pats@.len() as int) == pv);
    assert(mv.take(pats@.len() as int) == mv);
    out.len() > n0
}

/// Appends `pre + m` for each `m`, in order.
fn push_prefixed(out: &mut Vec<String>, pre: &str, items: &Vec<String>)
    ensures
        strs(final(out)@) == strs(old(out)@) + prefixed(pre@, items.deep_view()),
{
    let ghost start = strs(out@);
    let ghost dv = items.deep_view();
    let mut i: usize = 0;
    while i < items.len()
        invariant
            i <= items@.len(),
            dv == items.deep_view(),
            strs(out@) == start + prefixed(pre@, dv.take(i as int)),
        decreases items@.len() - i,
    {
        let ghost before = out@;
        assert(dv[i as int] == items@[i as int]@);
        let m = chars_of(items[i].as_str());
        proof {
            reveal_strlit("");
        }
        let msg = concat3(pre, m.as_slice(), "");
        out.push(msg);
        proof {
            lemma_strs_push(before, msg);
        }
        assert(prefixed(pre@, dv.take(i + 1)) =~= prefixed(pre@, dv.take(i as int)).push(pre@ + dv[i as int]));
        assert(strs(out@) =~= start + prefixed(pre@, dv.take(i + 1)));
        i = i + 1;
    }
    assert(dv.take(items@.len() as int) == dv);
}

/// Scans code for the marks of fake implementations: a mock-like file name
/// outside test directories, TODO markers, "not implemented" phrases,
/// hard-coded returns with no logic near them, printed placeholders, hidden
/// errors, mock-like names, faked waiting, fake data and telling comments.
/// The report lists every finding in that order, rates the worst one, and
/// gives the advice that goes with the rating.
#[verifier::rlimit(40)]
#[verifier::spinoff_prover]
pub fn detect_deception(content: &str, file_path: &str) -> (r: DeceptionReport)
    ensures
        strs(r.violations@) == violations_of(content@, file_path@),
        r.severity == severity_of(content@, file_path@),
        r.is_deceptive == (r.severity != DeceptionSeverity::NoIssue),
        r.recommendation@ == recommendation_for(r.violations@.len() == 0, r.severity),
{
    let mut violations: Vec<String> = Vec::new();
    let mut severity = DeceptionSeverity::NoIssue;
    let path = chars_of(file_path);
    let lower = to_lowercase(content);
    let lc = chars_of(lower.as_str());
    let outside = !contains_lit(path.as_slice(), "/test") && !contains_lit(path.as_slice(), "/spec");
    let ghost c = content@;
    let ghost pth = file_path@;

    // A mock-like file name outside the test directories.
    let parts = split_chars(path.as_slice(), '/');
    proof {
        lemma_split_len(path@, '/');
    }
    let last = string_of(parts[parts.len() - 1].as_slice());
    let fname = to_lowercase(last.as_str());
    let fc = chars_of(fname.as_str());
    let f_file = outside && (contains_lit(fc.as_slice(), "mock") || contains_lit(fc.as_slice(), "fake")
        || contains_lit(fc.as_slice(), "stub"));
    if f_file {
        let msg = owned("Filename contains mock/fake/stub outside test directory");
        violations.push(msg);
        severity = upgrade_severity(severity, DeceptionSeverity::High);
    }
    assert(strs(violations@) =~= filename_msgs(pth));

    // TODO markers.
    let todo = "(?i)(TODO|FIXME|HACK|XXX|NOTE|REFACTOR|OPTIMIZE)";
    let count = regex_match_count(todo, content);
    let f_todo = count > 0;
    if f_todo {
        let ghost before = violations@;
        let msg = concat3("Found ", decimal_exec(count).as_slice(), " TODO/FIXME markers - incomplete implementation");
        violations.push(msg);
        proof {
            lemma_strs_push(before, msg);
        }
        severity = upgrade_severity(severity, DeceptionSeverity::High);
    }
    assert(strs(violations@) =~= filename_msgs(pth) + todo_msgs(c));

    // Phrases of unfinished work.
    let not_impl: [&str; 11] = [
        "not implemented", "not yet implemented", "to be implemented", "will implement",
        "coming soon", "work in progress", "placeholder", "temporary", "dummy", "// implement",
        "# implement",
    ];
    assert(not_impl@.map_values(|x: &str| x@) =~= not_impl_phrases());
    let f_not_impl = push_found_msgs(&mut violations, lc.as_slice(), &not_impl, "Found '", "' - clear fake implementation");
    if f_not_impl {
        severity = upgrade_severity(severity, DeceptionSeverity::Critical);
    }

    // Hard-coded returns with no logic near them.
    let content_lines = lines_of(chars_of(content).as_slice());
    assert(views(content_lines@) =~= lines(c));
    let hard_pats: [&str; 8] = [
        "return\\s+true\\s*;?\\s*}", "return\\s+false\\s*;?\\s*}", "return\\s+[0-9]+\\s*;?\\s*}",
        "return\\s+['\"][^'\"]+['\"]\\s*;?\\s*}", "return\\s+\\{\\s*\\}\\s*;?",
        "return\\s+\\[\\s*\\]\\s*;?", "return\\s+None\\s*$", "return\\s+null\\s*;?\\s*}",
    ];
    let hard_msgs: [&str; 8] = [
        "Hardcoded 'return true' without logic", "Hardcoded 'return false' without logic",
        "Hardcoded numeric return without calculation", "Hardcoded string return",
        "Empty object return", "Empty array return", "Python None return without logic",
        "Null return without error handling",
    ];
    assert(hard_pats@.map_values(|x: &str| x@) =~= hardcoded_regexes());
    assert(hard_msgs@.map_values(|x: &str| x@) =~= hardcoded_messages());
    let f_hard = push_hardcoded_msgs(&mut violations, content, &content_lines, &hard_pats, &hard_msgs);
    if f_hard {
        severity = upgrade_severity(severity, DeceptionSeverity::High);
    }

    // Printed placeholders.
    let fake_pats: [&str; 4] = [
        "console\\.(log|error|warn)\\(['\"].*not.*implemented", "print\\(['\"].*not.*implemented",
        "console\\.(log|error|warn)\\(['\"].*todo", "print\\(['\"].*todo",
    ];
    let fake_msgs: [&str; 4] = [
        "Using console.log instead of real implementation", "Using print instead of real implementation",
        "Console.log with TODO", "Print with TODO",
    ];
    assert(fake_pats@.map_values(|x: &str| x@) =~= fake_impl_regexes());
    assert(fake_msgs@.map_values(|x: &str| x@) =~= fake_impl_messages());
    let f_fake = push_regex_msgs(&mut violations, lower.as_str(), &fake_pats, &fake_msgs);
    if f_fake {
        severity = upgrade_severity(severity, DeceptionSeverity::Critical);
    }

    // Swallowed errors.
    let hide_pats: [&str; 5] = [
        "catch\\s*\\([^)]*\\)\\s*\\{\\s*\\}", "except:\\s*pass",
        "rescue\\s*=>\\s*[a-z]+\\s*\\n\\s*end", "on\\s+error\\s+resume\\s+next",
        "try\\s*\\{[^}]*\\}\\s*catch\\s*\\{\\s*\\}",
    ];
    let hide_msgs: [&str; 5] = [
        "Empty catch block - swallowing errors", "Python except:pass - hiding all errors",
        "Ruby empty rescue - hiding errors", "VB error suppression", "Empty try-catch",
    ];
    assert(hide_pats@.map_values(|x: &str| x@) =~= error_hiding_regexes());
    assert(hide_msgs@.map_values(|x: &str| x@) =~= error_hiding_messages());
    let f_hide = push_regex_msgs(&mut violations, lower.as_str(), &hide_pats, &hide_msgs);
    if f_hide {
        severity = upgrade_severity(severity, DeceptionSeverity::Critical);
    }

    // Mock-like names.
    let f_mock = if outside {
        let names = regex_all_matches("(?i)(mock|fake|stub|dummy|test|temp|tmp|sample|demo|example)[A-Z_]", content);
        let ghost before = strs(violations@);
        push_prefixed(&mut violations, "Function/variable with mock name: ", &names);
        assert(strs(violations@) == before + mock_msgs(c, pth));
        names.len() > 0
    } else {
        assert(mock_msgs(c, pth) =~= Seq::<Seq<char>>::empty());
        false
    };
    if f_mock {
        severity = upgrade_severity(severity, DeceptionSeverity::High);
    }

    // Faked waiting.
    let wait_pats: [&str; 4] = [
        "setTimeout\\([^,]+,\\s*[0-9]+\\)", "time\\.sleep\\([0-9]+\\)", "Thread\\.sleep\\([0-9]+\\)",
        "delay\\([0-9]+\\)",
    ];
    let wait_msgs: [&str; 4] = [
        "setTimeout used to fake async work", "time.sleep used to fake processing",
        "Thread.sleep used to fake work", "Delay used to simulate work",
    ];
    assert(wait_pats@.map_values(|x: &str| x@) =~= fake_async_regexes());
    assert(wait_msgs@.map_values(|x: &str| x@) =~= fake_async_messages());
    let f_wait = push_regex_msgs(&mut violations, content, &wait_pats, &wait_msgs);
    if f_wait {
        severity = upgrade_severity(severity, DeceptionSeverity::Medium);
    }

    // Fake data.
    let f_data = if !contains_lit(path.as_slice(), "/test") {
        let data_pats: [&str; 4] = [
            "Math\\.random\\(\\)\\s*\\*", "random\\.(randint|choice|random)", "faker\\.",
            "uuid\\.(uuid4|v4)\\(\\)",
        ];
        let data_msgs: [&str; 4] = [
            "Using Math.random for fake data", "Using random for fake data",
            "Using faker library for mock data", "Generating fake IDs",
        ];
        assert(data_pats@.map_values(|x: &str| x@) =~= fake_data_regexes());
        assert(data_msgs@.map_values(|x: &str| x@) =~= fake_data_messages());
        push_regex_msgs(&mut violations, content, &data_pats, &data_msgs)
    } else {
        assert(fake_data_msgs(c, pth) =~= Seq::<Seq<char>>::empty());
        false
    };
    if f_data {
        severity = upgrade_severity(severity, DeceptionSeverity::Medium);
    }

    // Comments that give the game away.
    let comments: [&str; 10] = [
        "this is just for testing", "remove this later", "temporary solution", "quick and dirty",
        "hacky solution", "this is a workaround", "don't use in production", "for demo purposes",
        "mock implementation", "simulated",
    ];
    assert(comments@.map_values(|x: &str| x@) =~= deceptive_comments());
    let f_comment = push_found_msgs(&mut violations, lc.as_slice(), &comments, "Deceptive comment found: '", "'");
    if f_comment {
        severity = upgrade_severity(severity, DeceptionSeverity::High);
    }

    let recommendation = if violations.len() == 0 {
        owned("Code appears to be legitimate implementation")
    } else if severity == DeceptionSeverity::Critical {
        owned("REJECT: This is clearly fake/mock code masquerading as real implementation")
    } else if severity == DeceptionSeverity::High {
        owned("REJECT: Multiple deception indicators found. Demand real implementation.")
    } else if severity == DeceptionSeverity::Medium {
        owned("WARNING: Suspicious patterns detected. Review carefully.")
    } else {
        owned("CAUTION: Minor issues found that may indicate incomplete implementation.")
    };
    DeceptionReport {
        is_deceptive: severity != DeceptionSeverity::NoIssue,
        severity,
        violations,
        recommendation,
    }
}

} // verus!
