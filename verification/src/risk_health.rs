use vstd::prelude::*;
use crate::messages::glossary::IssueCategory;
use crate::report::{prefix, text_less};
use crate::text::{truncate_utf8_safe, truncated};
use crate::strings::{join_strings, strs, lemma_strs_push};
use crate::strings::{
    append_chars, append_str, chars_eq, chars_of, contains, contains_exec, contains_lit, decimal, decimal_exec,
    join_texts, remove_all, remove_all_exec, slashes, slashes_exec, string_of,
};

verus! {

// ---------------------------------------------------------------------------
// How issues count towards the project's risk
// ---------------------------------------------------------------------------

/// How much an issue weighs in the project snapshot.
#[derive(Clone, Copy, Debug, PartialEq, Eq)]
pub enum StrictSeverity {
    Critical,
    Major,
    Minor,
}

/// The weight and bucket of a category: security problems are critical,
/// correctness problems major, everything else minor.
pub open spec fn strict_class(cat: IssueCategory) -> (StrictSeverity, Seq<char>) {
    match cat {
        IssueCategory::SqlInjection | IssueCategory::CommandInjection | IssueCategory::PathTraversal
        | IssueCategory::HardcodedCredentials => (StrictSeverity::Critical, "Security"@),
        IssueCategory::UnhandledError | IssueCategory::MissingReturnValue | IssueCategory::InfiniteLoop
        | IssueCategory::ResourceLeak | IssueCategory::RaceCondition | IssueCategory::UnreachableCode
        | IssueCategory::NullPointerRisk | IssueCategory::InsecureRandom => (StrictSeverity::Major, "Correctness"@),
        _ => (StrictSeverity::Minor, "Maintainability"@),
    }
}

/// The weight and bucket of a category (every category has one).
pub fn strict_classify(cat: IssueCategory) -> (r: Option<(StrictSeverity, &'static str)>)
    ensures
        r matches Some(p) && p.0 == strict_class(cat).0 && p.1@ == strict_class(cat).1,
{
    match cat {
        IssueCategory::SqlInjection | IssueCategory::CommandInjection | IssueCategory::PathTraversal
        | IssueCategory::HardcodedCredentials => Some((StrictSeverity::Critical, "Security")),
        IssueCategory::UnhandledError | IssueCategory::MissingReturnValue | IssueCategory::InfiniteLoop
        | IssueCategory::ResourceLeak | IssueCategory::RaceCondition | IssueCategory::UnreachableCode
        | IssueCategory::NullPointerRisk | IssueCategory::InsecureRandom => Some((StrictSeverity::Major, "Correctness")),
        _ => Some((StrictSeverity::Minor, "Maintainability")),
    }
}

/// The severity table of the snapshot: the security categories (SQL
/// injection, command injection, path traversal, hard-coded credentials)
/// are critical "Security" issues; the correctness categories (unhandled
/// error, missing return value, infinite loop, resource leak, race
/// condition, unreachable code, null-pointer risk, insecure randomness) are
/// major "Correctness" issues; all others are minor "Maintainability" ones.
pub proof fn law_strict_severity_table(cat: IssueCategory)
    ensures
        (cat == IssueCategory::SqlInjection || cat == IssueCategory::CommandInjection || cat
            == IssueCategory::PathTraversal || cat == IssueCategory::HardcodedCredentials) ==> strict_class(cat).0
            == StrictSeverity::Critical && strict_class(cat).1 == "Security"@,
        (cat == IssueCategory::UnhandledError || cat == IssueCategory::MissingReturnValue || cat
            == IssueCategory::InfiniteLoop || cat == IssueCategory::ResourceLeak || cat == IssueCategory::RaceCondition
            || cat == IssueCategory::UnreachableCode || cat == IssueCategory::NullPointerRisk || cat
            == IssueCategory::InsecureRandom) ==> strict_class(cat).0 == StrictSeverity::Major && strict_class(cat).1
            == "Correctness"@,
        (cat == IssueCategory::DeadCode || cat == IssueCategory::HighComplexity || cat == IssueCategory::DuplicateCode
            || cat == IssueCategory::LongMethod || cat == IssueCategory::TooManyParameters || cat
            == IssueCategory::DeepNesting || cat == IssueCategory::InefficientAlgorithm || cat
            == IssueCategory::UnboundedRecursion || cat == IssueCategory::ExcessiveMemoryUse || cat
            == IssueCategory::SynchronousBlocking || cat == IssueCategory::NamingConvention || cat
            == IssueCategory::MissingDocumentation || cat == IssueCategory::UnusedImports || cat
            == IssueCategory::UnusedVariables || cat == IssueCategory::LongLine || cat == IssueCategory::UnfinishedWork
            || cat == IssueCategory::MissingErrorHandling) ==> strict_class(cat).0 == StrictSeverity::Minor
            && strict_class(cat).1 == "Maintainability"@,
{
}

/// The name of a category as it is printed.
pub open spec fn category_name(cat: IssueCategory) -> Seq<char> {
    match cat {
        IssueCategory::HardcodedCredentials => "HardcodedCredentials"@,
        IssueCategory::SqlInjection => "SqlInjection"@,
        IssueCategory::CommandInjection => "CommandInjection"@,
        IssueCategory::PathTraversal => "PathTraversal"@,
        IssueCategory::UnhandledError => "UnhandledError"@,
        IssueCategory::UnreachableCode => "UnreachableCode"@,
        IssueCategory::TooManyParameters => "TooManyParameters"@,
        IssueCategory::DeepNesting => "DeepNesting"@,
        IssueCategory::HighComplexity => "HighComplexity"@,
        IssueCategory::LongMethod => "LongMethod"@,
        IssueCategory::NamingConvention => "NamingConvention"@,
        IssueCategory::MissingDocumentation => "MissingDocumentation"@,
        IssueCategory::UnusedImports => "UnusedImports"@,
        IssueCategory::UnusedVariables => "UnusedVariables"@,
        IssueCategory::LongLine => "LongLine"@,
        IssueCategory::UnfinishedWork => "UnfinishedWork"@,
        IssueCategory::MissingReturnValue => "MissingReturnValue"@,
        IssueCategory::InfiniteLoop => "InfiniteLoop"@,
        IssueCategory::ResourceLeak => "ResourceLeak"@,
        IssueCategory::RaceCondition => "RaceCondition"@,
        IssueCategory::NullPointerRisk => "NullPointerRisk"@,
        IssueCategory::InsecureRandom => "InsecureRandom"@,
        IssueCategory::DeadCode => "DeadCode"@,
        IssueCategory::DuplicateCode => "DuplicateCode"@,
        IssueCategory::InefficientAlgorithm => "InefficientAlgorithm"@,
        IssueCategory::UnboundedRecursion => "UnboundedRecursion"@,
        IssueCategory::ExcessiveMemoryUse => "ExcessiveMemoryUse"@,
        IssueCategory::SynchronousBlocking => "SynchronousBlocking"@,
        IssueCategory::MissingErrorHandling => "MissingErrorHandling"@,
    }
}

/// The name of a category as it is printed.
pub fn category_name_exec(cat: IssueCategory) -> (r: &'static str)
    ensures
        r@ == category_name(cat),
{
    match cat {
        IssueCategory::HardcodedCredentials => "HardcodedCredentials",
        IssueCategory::SqlInjection => "SqlInjection",
        IssueCategory::CommandInjection => "CommandInjection",
        IssueCategory::PathTraversal => "PathTraversal",
        IssueCategory::UnhandledError => "UnhandledError",
        IssueCategory::UnreachableCode => "UnreachableCode",
        IssueCategory::TooManyParameters => "TooManyParameters",
        IssueCategory::DeepNesting => "DeepNesting",
        IssueCategory::HighComplexity => "HighComplexity",
        IssueCategory::LongMethod => "LongMethod",
        IssueCategory::NamingConvention => "NamingConvention",
        IssueCategory::MissingDocumentation => "MissingDocumentation",
        IssueCategory::UnusedImports => "UnusedImports",
        IssueCategory::UnusedVariables => "UnusedVariables",
        IssueCategory::LongLine => "LongLine",
        IssueCategory::UnfinishedWork => "UnfinishedWork",
        IssueCategory::MissingReturnValue => "MissingReturnValue",
        IssueCategory::InfiniteLoop => "InfiniteLoop",
        IssueCategory::ResourceLeak => "ResourceLeak",
        IssueCategory::RaceCondition => "RaceCondition",
        IssueCategory::NullPointerRisk => "NullPointerRisk",
        IssueCategory::InsecureRandom => "InsecureRandom",
        IssueCategory::DeadCode => "DeadCode",
        IssueCategory::DuplicateCode => "DuplicateCode",
        IssueCategory::InefficientAlgorithm => "InefficientAlgorithm",
        IssueCategory::UnboundedRecursion => "UnboundedRecursion",
        IssueCategory::ExcessiveMemoryUse => "ExcessiveMemoryUse",
        IssueCategory::SynchronousBlocking => "SynchronousBlocking",
        IssueCategory::MissingErrorHandling => "MissingErrorHandling",
    }
}

// ---------------------------------------------------------------------------
// Which paths the snapshot skips
// ---------------------------------------------------------------------------

/// Directory names that are never scanned (build output, tooling, caches).
pub open spec fn ignored_dir_names() -> Seq<Seq<char>> {
    seq![
        "target"@, "node_modules"@, "vendor"@, ".git"@, ".github"@, "dist"@, "build"@, "out"@, "coverage"@,
        "reports"@, "logs"@, "assets"@, "tmp"@, "temp"@, ".cache"@, "__pycache__"@, ".venv"@, "venv"@,
        ".idea"@, "scripts"@, "test_data"@,
    ]
}

/// Directory names that hold tests, fixtures or examples.
pub open spec fn test_dir_names() -> Seq<Seq<char>> {
    seq![
        "tests"@, "__tests__"@, "__snapshots__"@, "snapshots"@, "fixtures"@, "fixture"@, "mocks"@, "mock"@,
        "examples"@, "bench"@, "benches"@, "spec"@, "test_data"@, "scripts"@,
    ]
}

fn is_one_of(n: &[char], names: &[&str]) -> (r: bool)
    ensures
        r == exists|k: int| 0 <= k < names@.len() && n@ == (#[trigger] names@[k])@,
{
    let mut k: usize = 0;
    while k < names.len()
        invariant
            k <= names@.len(),
            forall|m: int| 0 <= m < k ==> n@ != (#[trigger] names@[m])@,
        decreases names@.len() - k,
    {
        let c = chars_of(names[k]);
        if chars_eq(n, c.as_slice()) {
            return true;
        }
        k = k + 1;
    }
    false
}

proof fn lemma_names(names: Seq<&str>, lits: Seq<Seq<char>>, n: Seq<char>)
    requires
        names.len() == lits.len(),
        forall|k: int| 0 <= k < names.len() ==> (#[trigger] names[k])@ == lits[k],
    ensures
        (exists|k: int| 0 <= k < names.len() && n == (#[trigger] names[k])@) == lits.contains(n),
{
    if lits.contains(n) {
        let k = choose|k: int| 0 <= k < lits.len() && lits[k] == n;
        assert(n == names[k]@);
    }
}

/// A directory whose contents the snapshot never scans.
pub fn is_ignored_dir_name(name: &str) -> (r: bool)
    ensures
        r == ignored_dir_names().contains(name@),
{
    let names = [
        "target", "node_modules", "vendor", ".git", ".github", "dist", "build", "out", "coverage", "reports",
        "logs", "assets", "tmp", "temp", ".cache", "__pycache__", ".venv", "venv", ".idea", "scripts",
        "test_data",
    ];
    proof {
        lemma_names(names@, ignored_dir_names(), name@);
    }
    let c = chars_of(name);
    is_one_of(c.as_slice(), &names)
}

/// A directory of tests, fixtures or examples.
pub fn is_test_like_dir(name: &str) -> (r: bool)
    ensures
        r == test_dir_names().contains(name@),
{
    let names = [
        "tests", "__tests__", "__snapshots__", "snapshots", "fixtures", "fixture", "mocks", "mock", "examples",
        "bench", "benches", "spec", "test_data", "scripts",
    ];
    proof {
        lemma_names(names@, test_dir_names(), name@);
    }
    let c = chars_of(name);
    is_one_of(c.as_slice(), &names)
}

/// A file name that marks a test or a backup.
pub open spec fn test_or_backup(name: Seq<char>) -> bool {
    ||| contains(name, ".bak"@)
    ||| contains(name, ".autobak"@)
    ||| contains(name, "backup"@)
    ||| contains(name, "_test."@)
    ||| contains(name, "test_"@)
    ||| contains(name, "/tests/"@)
    ||| contains(name, "bench_"@)
}

/// A file name that marks a test or a backup.
pub fn is_test_or_backup_file(name: &str) -> (r: bool)
    ensures
        r == test_or_backup(name@),
{
    let c = chars_of(name);
    let s = c.as_slice();
    contains_lit(s, ".bak") || contains_lit(s, ".autobak") || contains_lit(s, "backup") || contains_lit(s, "_test.")
        || contains_lit(s, "test_") || contains_lit(s, "/tests/") || contains_lit(s, "bench_")
}

/// The components of `path` as `Path::components` gives them: the text of
/// each ordinary component, and nothing for a root, `.` or `..`.
pub uninterp spec fn component_texts(path: Seq<char>) -> Seq<Option<Seq<char>>>;

/// `std::path::Path::components` of `path`, one entry per component: the text
/// of an ordinary component, `None` for the others. The contract only ties
/// the answer to the argument.
#[verifier::external_body]
fn path_components(path: &str) -> (r: Vec<Option<String>>)
    ensures
        r@.map_values(|c: Option<String>| crate::hooks::opt_view(c)) == component_texts(path@),
{
    std::path::Path::new(path).components().map(
        |c| match c {
            std::path::Component::Normal(os) => os.to_str().map(|s| s.to_string()),
            _ => None,
        },
    ).collect()
}

/// An ordinary component naming an ignored or test directory.
pub open spec fn skipped_component(c: Option<Seq<char>>) -> bool {
    match c {
        Some(t) => ignored_dir_names().contains(t) || test_dir_names().contains(t),
        None => false,
    }
}

/// A file name that marks a test or backup.
pub open spec fn skipped_name(n: Option<Seq<char>>) -> bool {
    match n {
        Some(t) => test_or_backup(t),
        None => false,
    }
}

/// The snapshot skips a path when one of its ordinary components names an
/// ignored or test directory, or when its file name marks a test or backup.
pub open spec fn skipped_path(path: Seq<char>) -> bool {
    let comps = component_texts(path);
    ||| exists|k: int| 0 <= k < comps.len() && skipped_component(#[trigger] comps[k])
    ||| skipped_name(crate::paths::file_name_of(path))
}

/// The snapshot skips this path.
pub fn should_ignore_path(path: &str) -> (r: bool)
    ensures
        r == skipped_path(path@),
{
    let comps = path_components(path);
    let ghost cv = comps@.map_values(|c: Option<String>| crate::hooks::opt_view(c));
    let mut k: usize = 0;
    while k < comps.len()
        invariant
            k <= comps@.len(),
            cv == comps@.map_values(|c: Option<String>| crate::hooks::opt_view(c)),
            cv == component_texts(path@),
            forall|j: int| 0 <= j < k ==> !skipped_component(#[trigger] cv[j]),
        decreases comps@.len() - k,
    {
        match &comps[k] {
            Some(s) => {
                if is_ignored_dir_name(s.as_str()) || is_test_like_dir(s.as_str()) {
                    assert(cv[k as int] == Some(s@));
                    return true;
                }
                assert(cv[k as int] == Some(s@));
            },
            None => {
                assert(cv[k as int] is None);
            },
        }
        k = k + 1;
    }
    match crate::paths::path_file_name(path) {
        Some(n) => is_test_or_backup_file(n.as_str()),
        None => false,
    }
}

/// How many entries a snapshot scans: the setting when it is a number
/// (clamped to 50..=2000), else 400.
pub open spec fn scan_limit_for(value: Option<Seq<char>>) -> nat {
    match value {
        Some(v) => match crate::memory::parse_usize(v) {
            Some(n) => crate::report::clamp(n, 50, 2000),
            None => 400,
        },
        None => 400,
    }
}

/// How many entries a snapshot scans, for the value of its setting.
pub fn scan_limit(value: Option<&str>) -> (r: usize)
    ensures
        r as nat == scan_limit_for(
            match value {
                Some(v) => Some(v@),
                None => None,
            },
        ),
{
    match value {
        Some(v) => {
            let c = chars_of(v);
            match crate::memory::parse_usize_exec(c.as_slice()) {
                Some(n) => {
                    if n < 50 {
                        50
                    } else if n > 2000 {
                        2000
                    } else {
                        n
                    }
                },
                None => 400,
            }
        },
        None => 400,
    }
}

// ---------------------------------------------------------------------------
// Tallying issues across files
// ---------------------------------------------------------------------------

/// Named counts, by their text and value.
pub open spec fn counts(v: Seq<(String, usize)>) -> Seq<(Seq<char>, nat)> {
    v.map_values(|e: (String, usize)| (e.0@, e.1 as nat))
}

/// Where `name` is counted (its last entry), if anywhere.
pub open spec fn key_index(list: Seq<(Seq<char>, nat)>, name: Seq<char>) -> Option<nat>
    decreases list.len(),
{
    if list.len() == 0 {
        None
    } else if list.last().0 == name {
        Some((list.len() - 1) as nat)
    } else {
        key_index(list.drop_last(), name)
    }
}

/// The counts of a list added up.
pub open spec fn count_sum(list: Seq<(Seq<char>, nat)>) -> nat
    decreases list.len(),
{
    if list.len() == 0 {
        0
    } else {
        count_sum(list.drop_last()) + list.last().1
    }
}

proof fn lemma_sum_concat(a: Seq<(Seq<char>, nat)>, b: Seq<(Seq<char>, nat)>)
    ensures
        count_sum(a + b) == count_sum(a) + count_sum(b),
    decreases b.len(),
{
    if b.len() == 0 {
        assert(a + b =~= a);
    } else {
        lemma_sum_concat(a, b.drop_last());
        assert((a + b).drop_last() =~= a + b.drop_last());
    }
}

proof fn lemma_sum_single(x: (Seq<char>, nat))
    ensures
        count_sum(seq![x]) == x.1,
{
    assert(seq![x].drop_last() =~= Seq::<(Seq<char>, nat)>::empty());
    assert(count_sum(seq![x]) == count_sum(seq![x].drop_last()) + x.1);
}

proof fn lemma_sum_update(l: Seq<(Seq<char>, nat)>, k: int, e: (Seq<char>, nat))
    requires
        0 <= k < l.len(),
    ensures
        count_sum(l.update(k, e)) + l[k].1 == count_sum(l) + e.1,
{
    let a = l.take(k);
    let c = l.skip(k + 1);
    assert(l =~= a + seq![l[k]] + c);
    assert(l.update(k, e) =~= a + seq![e] + c);
    lemma_sum_concat(a + seq![l[k]], c);
    lemma_sum_concat(a, seq![l[k]]);
    lemma_sum_concat(a + seq![e], c);
    lemma_sum_concat(a, seq![e]);
    lemma_sum_single(l[k]);
    lemma_sum_single(e);
}

proof fn lemma_key_index_range(list: Seq<(Seq<char>, nat)>, name: Seq<char>)
    ensures
        match key_index(list, name) {
            Some(k) => k < list.len() && list[k as int].0 == name,
            None => true,
        },
    decreases list.len(),
{
    if list.len() > 0 && list.last().0 != name {
        lemma_key_index_range(list.drop_last(), name);
    }
}

proof fn lemma_sum_bump_all(list: Seq<(Seq<char>, nat)>, cats: Seq<IssueCategory>)
    ensures
        count_sum(bump_all(list, cats)) == count_sum(list) + cats.len(),
    decreases cats.len(),
{
    if cats.len() > 0 {
        lemma_sum_bump_all(list, cats.drop_last());
        let l = bump_all(list, cats.drop_last());
        let name = category_name(cats.last());
        lemma_key_index_range(l, name);
        match key_index(l, name) {
            Some(k) => {
                lemma_sum_update(l, k as int, (name, l[k as int].1 + 1));
            },
            None => {
                assert(l.push((name, 1nat)).drop_last() =~= l);
            },
        }
    }
}

proof fn lemma_sum_put(list: Seq<(Seq<char>, nat)>, name: Seq<char>, v: nat)
    ensures
        count_sum(put(list, name, v)) <= count_sum(list) + v,
{
    lemma_key_index_range(list, name);
    match key_index(list, name) {
        Some(k) => {
            lemma_sum_update(list, k as int, (name, v));
        },
        None => {
            assert(list.push((name, v)).drop_last() =~= list);
        },
    }
}

/// `list` with the count of `name` set to `v` (added when missing).
pub open spec fn put(list: Seq<(Seq<char>, nat)>, name: Seq<char>, v: nat) -> Seq<(Seq<char>, nat)> {
    match key_index(list, name) {
        Some(k) => list.update(k as int, (name, v)),
        None => list.push((name, v)),
    }
}

/// `list` with the count of `name` raised by one (starting from zero).
pub open spec fn bump(list: Seq<(Seq<char>, nat)>, name: Seq<char>) -> Seq<(Seq<char>, nat)> {
    match key_index(list, name) {
        Some(k) => list.update(k as int, (name, list[k as int].1 + 1)),
        None => list.push((name, 1)),
    }
}

/// `list` with one count added for each category, in order.
pub open spec fn bump_all(list: Seq<(Seq<char>, nat)>, cats: Seq<IssueCategory>) -> Seq<(Seq<char>, nat)>
    decreases cats.len(),
{
    if cats.len() == 0 {
        list
    } else {
        bump(bump_all(list, cats.drop_last()), category_name(cats.last()))
    }
}

/// How many of the categories weigh `sev`.
pub open spec fn weighing(cats: Seq<IssueCategory>, sev: StrictSeverity) -> nat
    decreases cats.len(),
{
    if cats.len() == 0 {
        0
    } else {
        weighing(cats.drop_last(), sev) + if strict_class(cats.last()).0 == sev {
            1nat
        } else {
            0nat
        }
    }
}

/// Issue counts gathered over the scanned files.
pub struct RiskTally {
    pub total: usize,
    pub critical: usize,
    pub major: usize,
    pub minor: usize,
    pub by_category: Vec<(String, usize)>,
    pub by_file: Vec<(String, usize)>,
}

impl RiskTally {
    /// The counts add up: the weights split the total, and no category counts
    /// more than the total.
    pub open spec fn wf(self) -> bool {
        &&& self.critical + self.major + self.minor == self.total
        &&& forall|k: int| 0 <= k < self.by_category@.len() ==> (#[trigger] self.by_category@[k]).1 <= self.total
        &&& count_sum(counts(self.by_category@)) == self.total
        &&& count_sum(counts(self.by_file@)) <= self.total
    }

    /// An empty tally.
    pub fn new() -> (r: Self)
        ensures
            r.wf(),
            r.total == 0 && r.critical == 0 && r.major == 0 && r.minor == 0,
            r.by_category@.len() == 0,
            r.by_file@.len() == 0,
    {
        RiskTally { total: 0, critical: 0, major: 0, minor: 0, by_category: Vec::new(), by_file: Vec::new() }
    }
}

proof fn lemma_weighing_split(cats: Seq<IssueCategory>)
    ensures
        weighing(cats, StrictSeverity::Critical) + weighing(cats, StrictSeverity::Major) + weighing(
            cats,
            StrictSeverity::Minor,
        ) == cats.len(),
    decreases cats.len(),
{
    if cats.len() > 0 {
        lemma_weighing_split(cats.drop_last());
    }
}

fn key_index_exec(list: &Vec<(String, usize)>, name: &[char]) -> (r: Option<usize>)
    ensures
        match r {
            Some(k) => key_index(counts(list@), name@) == Some(k as nat) && k < list@.len(),
            None => key_index(counts(list@), name@) is None,
        },
{
    let mut k: usize = list.len();
    let ghost c = counts(list@);
    assert(c.take(k as int) == c);
    while k > 0
        invariant
            k <= list@.len(),
            c == counts(list@),
            key_index(c, name@) == key_index(c.take(k as int), name@),
        decreases k,
    {
        assert(c.take(k as int).drop_last() == c.take(k - 1));
        assert(c.take(k as int).last() == c[k - 1]);
        let kc = chars_of(list[k - 1].0.as_str());
        if chars_eq(kc.as_slice(), name) {
            return Some(k - 1);
        }
        k = k - 1;
    }
    None
}

fn bump_exec(list: &mut Vec<(String, usize)>, name: &str, limit: usize)
    requires
        limit >= 1,
        forall|k: int| 0 <= k < old(list)@.len() ==> (#[trigger] old(list)@[k]).1 < limit,
    ensures
        counts(final(list)@) == bump(counts(old(list)@), name@),
        forall|k: int| 0 <= k < final(list)@.len() ==> (#[trigger] final(list)@[k]).1 <= limit,
{
    let nc = chars_of(name);
    match key_index_exec(list, nc.as_slice()) {
        Some(k) => {
            let v = list[k].1;
            let ghost before = list@;
            list.set(k, (crate::strings::owned(name), v + 1));
            assert(counts(list@) =~= counts(before).update(k as int, (name@, counts(before)[k as int].1 + 1)));
            assert forall|j: int| 0 <= j < list@.len() implies (#[trigger] list@[j]).1 <= limit by {
                if j != k {
                    assert(list@[j] == before[j]);
                }
            }
        },
        None => {
            let ghost before = list@;
            list.push((crate::strings::owned(name), 1));
            assert(counts(list@) =~= counts(before).push((name@, 1)));
            assert forall|j: int| 0 <= j < list@.len() implies (#[trigger] list@[j]).1 <= limit by {
                if j < before.len() {
                    assert(list@[j] == before[j]);
                }
            }
        },
    }
}

impl RiskTally {
    /// Adds a file's issues: each counts once by its weight and its category,
    /// and a file with issues is listed with its count (replacing an earlier
    /// entry for the same path).
    pub fn record_file(&mut self, path: &str, categories: &[IssueCategory])
        requires
            old(self).wf(),
            old(self).total + categories@.len() <= usize::MAX,
        ensures
            final(self).wf(),
            final(self).critical == old(self).critical + weighing(categories@, StrictSeverity::Critical),
            final(self).major == old(self).major + weighing(categories@, StrictSeverity::Major),
            final(self).minor == old(self).minor + weighing(categories@, StrictSeverity::Minor),
            counts(final(self).by_category@) == bump_all(counts(old(self).by_category@), categories@),
            categories@.len() == 0 ==> final(self).total == old(self).total && final(self).by_file@ == old(
                self,
            ).by_file@,
            categories@.len() > 0 ==> final(self).total == old(self).total + categories@.len() && counts(
                final(self).by_file@,
            ) == put(counts(old(self).by_file@), path@, categories@.len() as nat),
    {
        let ghost c0 = self.critical;
        let ghost m0 = self.major;
        let ghost n0 = self.minor;
        let t0 = self.total;
        let ghost cats0 = counts(self.by_category@);
        let ghost files0 = self.by_file@;
        let mut k: usize = 0;
        assert(categories@.take(0) =~= Seq::<IssueCategory>::empty());
        while k < categories.len()
            invariant
                k <= categories@.len(),
                t0 + categories@.len() <= usize::MAX,
                self.total == t0,
                self.by_file@ == files0,
                self.critical == c0 + weighing(categories@.take(k as int), StrictSeverity::Critical),
                self.major == m0 + weighing(categories@.take(k as int), StrictSeverity::Major),
                self.minor == n0 + weighing(categories@.take(k as int), StrictSeverity::Minor),
                c0 + m0 + n0 == t0,
                counts(self.by_category@) == bump_all(cats0, categories@.take(k as int)),
                forall|j: int| 0 <= j < self.by_category@.len() ==> (#[trigger] self.by_category@[j]).1 <= t0 + k,
                count_sum(cats0) == t0,
                count_sum(counts(files0)) <= t0,
            decreases categories@.len() - k,
        {
            assert(categories@.take(k + 1).drop_last() == categories@.take(k as int));
            proof {
                lemma_weighing_split(categories@.take(k as int));
            }
            let cat = categories[k];
            match strict_classify(cat) {
                Some((StrictSeverity::Critical, _)) => {
                    self.critical = self.critical + 1;
                },
                Some((StrictSeverity::Major, _)) => {
                    self.major = self.major + 1;
                },
                Some((StrictSeverity::Minor, _)) => {
                    self.minor = self.minor + 1;
                },
                None => {},
            }
            bump_exec(&mut self.by_category, category_name_exec(cat), t0 + k + 1);
            k = k + 1;
        }
        assert(categories@.take(categories@.len() as int) == categories@);
        proof {
            lemma_weighing_split(categories@);
            lemma_sum_bump_all(cats0, categories@);
        }
        let n = categories.len();
        if n > 0 {
            self.total = self.total + n;
            let pc = chars_of(path);
            match key_index_exec(&self.by_file, pc.as_slice()) {
                Some(j) => {
                    let ghost before = self.by_file@;
                    self.by_file.set(j, (crate::strings::owned(path), n));
                    assert(counts(self.by_file@) =~= counts(before).update(j as int, (path@, n as nat)));
                    proof {
                        lemma_sum_put(counts(before), path@, n as nat);
                    }
                },
                None => {
                    let ghost before = self.by_file@;
                    self.by_file.push((crate::strings::owned(path), n));
                    assert(counts(self.by_file@) =~= counts(before).push((path@, n as nat)));
                    proof {
                        lemma_sum_put(counts(before), path@, n as nat);
                    }
                },
            }
        }
    }
}

// ---------------------------------------------------------------------------
// The snapshot
// ---------------------------------------------------------------------------

/// `a` ranks before `b`: a higher count, or the same count and a smaller name.
pub open spec fn rank_less(a: (Seq<char>, nat), b: (Seq<char>, nat)) -> bool {
    a.1 > b.1 || (a.1 == b.1 && text_less(a.0, b.0))
}

/// Where `x` goes among the ranked entries `r`: before the first one it
/// ranks before.
pub open spec fn rank_pos(r: Seq<(Seq<char>, nat)>, x: (Seq<char>, nat)) -> nat
    decreases r.len(),
{
    if r.len() == 0 {
        0
    } else if rank_less(x, r[0]) {
        0
    } else {
        1 + rank_pos(r.drop_first(), x)
    }
}

/// The entries ranked by count (highest first), then name, keeping the given
/// order among equal ones.
pub open spec fn ranked(s: Seq<(Seq<char>, nat)>) -> Seq<(Seq<char>, nat)>
    decreases s.len(),
{
    if s.len() == 0 {
        Seq::empty()
    } else {
        let r = ranked(s.drop_last());
        r.insert(rank_pos(r, s.last()) as int, s.last())
    }
}

/// The project's risk at a glance.
pub struct RiskHealth {
    pub total: usize,
    pub critical: usize,
    pub major: usize,
    pub minor: usize,
    pub top_categories: Vec<(String, usize)>,
    pub top_files: Vec<(String, usize)>,
}

fn copy_entry(e: &(String, usize)) -> (r: (String, usize))
    ensures
        r.0@ == e.0@,
        r.1 == e.1,
{
    (e.0.clone(), e.1)
}

fn rank_less_exec(a: &(String, usize), b: &(String, usize)) -> (r: bool)
    ensures
        r == rank_less((a.0@, a.1 as nat), (b.0@, b.1 as nat)),
{
    if a.1 != b.1 {
        a.1 > b.1
    } else {
        let x = chars_of(a.0.as_str());
        let y = chars_of(b.0.as_str());
        crate::report::text_less_exec(x.as_slice(), y.as_slice())
    }
}

/// The first `cap` entries in rank order.
fn top_ranked(entries: &Vec<(String, usize)>, cap: usize) -> (r: Vec<(String, usize)>)
    ensures
        counts(r@) == prefix(ranked(counts(entries@)), cap as nat),
{
    let ghost c = counts(entries@);
    let mut r: Vec<(String, usize)> = Vec::new();
    let mut i: usize = 0;
    assert(c.take(0) =~= Seq::<(Seq<char>, nat)>::empty());
    assert(counts(r@) =~= Seq::<(Seq<char>, nat)>::empty());
    while i < entries.len()
        invariant
            i <= entries@.len(),
            c == counts(entries@),
            counts(r@) == ranked(c.take(i as int)),
        decreases entries@.len() - i,
    {
        assert(c.take(i + 1).drop_last() == c.take(i as int));
        assert(c.take(i + 1).last() == c[i as int]);
        let ghost r0 = counts(r@);
        let e = copy_entry(&entries[i]);
        let mut p: usize = 0;
        assert(r0.skip(0) == r0);
        while p < r.len() && !rank_less_exec(&e, &r[p])
            invariant
                counts(r@) == r0,
                p <= r@.len(),
                e.0@ == c[i as int].0,
                e.1 == c[i as int].1,
                i < entries@.len(),
                c == counts(entries@),
                rank_pos(r0, c[i as int]) == p + rank_pos(r0.skip(p as int), c[i as int]),
            decreases r@.len() - p,
        {
            assert(r0.skip(p as int)[0] == r0[p as int]);
            assert(r0.skip(p as int).drop_first() == r0.skip(p + 1));
            p = p + 1;
        }
        proof {
            if p < r@.len() {
                assert(r0.skip(p as int)[0] == r0[p as int]);
            }
        }
        let ghost before = r@;
        r.insert(p, e);
        assert(counts(r@) =~= counts(before).insert(p as int, c[i as int]));
        i = i + 1;
    }
    assert(c.take(c.len() as int) == c);
    let ghost full = r@;
    r.truncate(cap);
    assert(counts(r@) =~= prefix(counts(full), cap as nat));
    r
}

impl RiskTally {
    /// The snapshot: the counts, and the five categories and files with the
    /// most issues (ties by name); all zero when nothing was found.
    pub fn snapshot(&self) -> (r: RiskHealth)
        ensures
            self.total == 0 ==> r.total == 0 && r.critical == 0 && r.major == 0 && r.minor == 0
                && r.top_categories@.len() == 0 && r.top_files@.len() == 0,
            self.total > 0 ==> r.total == self.total && r.critical == self.critical && r.major == self.major
                && r.minor == self.minor && counts(r.top_categories@) == prefix(ranked(counts(self.by_category@)), 5)
                && counts(r.top_files@) == prefix(ranked(counts(self.by_file@)), 5),
    {
        if self.total == 0 {
            return RiskHealth {
                total: 0,
                critical: 0,
                major: 0,
                minor: 0,
                top_categories: Vec::new(),
                top_files: Vec::new(),
            };
        }
        RiskHealth {
            total: self.total,
            critical: self.critical,
            major: self.major,
            minor: self.minor,
            top_categories: top_ranked(&self.by_category, 5),
            top_files: top_ranked(&self.by_file, 5),
        }
    }
}

// ---------------------------------------------------------------------------
// The prompt context
// ---------------------------------------------------------------------------

/// A category entry that is not about tests.
pub open spec fn not_test_category() -> spec_fn((Seq<char>, nat)) -> bool {
    |e: (Seq<char>, nat)| !contains(e.0, "Test"@)
}

/// A file entry outside tests, benches and scripts.
pub open spec fn source_file() -> spec_fn((Seq<char>, nat)) -> bool {
    |e: (Seq<char>, nat)| !contains(e.0, "test"@) && !contains(e.0, "bench"@) && !contains(e.0, "scripts"@)
}

/// `name:count`.
pub open spec fn entry_text(e: (Seq<char>, nat)) -> Seq<char> {
    e.0 + ":"@ + decimal(e.1)
}

/// A hotspot: the path with `/` separators and without `./`, cut to 30
/// characters, then `:count`.
pub open spec fn hotspot_text(e: (Seq<char>, nat)) -> Seq<char> {
    truncated(remove_all(slashes(e.0), "./"@), 30) + ":"@ + decimal(e.1)
}

/// The estimate of real issues: two thirds of all, half of the critical ones.
pub open spec fn issues_line(r: RiskHealth) -> Seq<char> {
    "Real issues: "@ + decimal((r.total - r.total / 3) as nat) + " (Crit: "@ + decimal(
        (r.critical - r.critical / 2) as nat,
    ) + " | Major: "@ + decimal(r.major as nat) + " | Minor: "@ + decimal(r.minor as nat) + ")\n"@
}

/// Up to five categories outside tests, or nothing.
pub open spec fn problems_line(r: RiskHealth) -> Seq<char> {
    let problems = prefix(counts(r.top_categories@).filter(not_test_category()), 5);
    if problems.len() == 0 {
        Seq::empty()
    } else {
        "Problems: "@ + join_texts(problems.map_values(|e: (Seq<char>, nat)| entry_text(e)), ", "@) + "\n"@
    }
}

/// Up to three hotspots outside tests, benches and scripts, or nothing.
pub open spec fn hotspots_line(r: RiskHealth) -> Seq<char> {
    let hot = prefix(counts(r.top_files@).filter(source_file()), 3);
    if hot.len() == 0 {
        Seq::empty()
    } else {
        "Hotspots: "@ + join_texts(hot.map_values(|e: (Seq<char>, nat)| hotspot_text(e)), " | "@) + "\n"@
    }
}

/// The quality section of the prompt context.
pub open spec fn quality_text(rh: Option<RiskHealth>) -> Seq<char> {
    "\n=== QUALITY ===\n"@ + match rh {
        Some(r) => issues_line(r) + problems_line(r) + hotspots_line(r),
        None => "✓ No critical issues in source code\n"@,
    }
}

fn entry_text_exec(e: &(String, usize)) -> (r: String)
    ensures
        r@ == entry_text((e.0@, e.1 as nat)),
{
    let mut out = chars_of(e.0.as_str());
    append_str(&mut out, ":");
    let d = decimal_exec(e.1);
    append_chars(&mut out, d.as_slice());
    string_of(out.as_slice())
}

fn hotspot_text_exec(e: &(String, usize)) -> (r: String)
    ensures
        r@ == hotspot_text((e.0@, e.1 as nat)),
{
    let c = chars_of(e.0.as_str());
    let sl = slashes_exec(c.as_slice());
    let dot = chars_of("./");
    let cleaned = remove_all_exec(sl.as_slice(), dot.as_slice());
    let cs = string_of(cleaned.as_slice());
    let t = truncate_utf8_safe(cs.as_str(), 30);
    let mut out = chars_of(t.as_str());
    append_str(&mut out, ":");
    let d = decimal_exec(e.1);
    append_chars(&mut out, d.as_slice());
    string_of(out.as_slice())
}

/// The texts of the first `cap` entries that `keep` accepts, each written by
/// `hot` (hotspot form) or plainly.
fn listed(entries: &Vec<(String, usize)>, categories: bool, cap: usize) -> (r: Vec<String>)
    ensures
        categories ==> strs(r@) == prefix(counts(entries@).filter(not_test_category()), cap as nat).map_values(
            |e: (Seq<char>, nat)| entry_text(e),
        ),
        !categories ==> strs(r@) == prefix(counts(entries@).filter(source_file()), cap as nat).map_values(
            |e: (Seq<char>, nat)| hotspot_text(e),
        ),
{
    let ghost c = counts(entries@);
    let ghost p = if categories {
        not_test_category()
    } else {
        source_file()
    };
    let ghost f = if categories {
        |e: (Seq<char>, nat)| entry_text(e)
    } else {
        |e: (Seq<char>, nat)| hotspot_text(e)
    };
    let mut out: Vec<String> = Vec::new();
    let mut k: usize = 0;
    assert(c.take(0) =~= Seq::<(Seq<char>, nat)>::empty());
    proof {
        reveal(Seq::filter);
    }
    assert(strs(out@) =~= prefix(c.take(0).filter(p), cap as nat).map_values(f));
    while k < entries.len()
        invariant
            k <= entries@.len(),
            c == counts(entries@),
            p == (if categories {
                not_test_category()
            } else {
                source_file()
            }),
            f == (if categories {
                |e: (Seq<char>, nat)| entry_text(e)
            } else {
                |e: (Seq<char>, nat)| hotspot_text(e)
            }),
            strs(out@) == prefix(c.take(k as int).filter(p), cap as nat).map_values(f),
            out@.len() == prefix(c.take(k as int).filter(p), cap as nat).len(),
        decreases entries@.len() - k,
    {
        let e = &entries[k];
        let ghost x = c[k as int];
        let ghost f0 = c.take(k as int).filter(p);
        assert(c.take(k + 1) == c.take(k as int).push(x));
        proof {
            c.take(k as int).lemma_filter_push(x, p);
        }
        let ec = chars_of(e.0.as_str());
        let keep = if categories {
            !contains_lit(ec.as_slice(), "Test")
        } else {
            !contains_lit(ec.as_slice(), "test") && !contains_lit(ec.as_slice(), "bench") && !contains_lit(
                ec.as_slice(),
                "scripts",
            )
        };
        assert(keep == p(x));
        if keep {
            if out.len() < cap {
                let t = if categories {
                    entry_text_exec(e)
                } else {
                    hotspot_text_exec(e)
                };
                assert(t@ == f(x));
                proof {
                    lemma_strs_push(out@, t);
                }
                out.push(t);
                assert(prefix(f0.push(x), cap as nat) =~= prefix(f0, cap as nat).push(x));
                assert(prefix(f0, cap as nat).push(x).map_values(f) =~= prefix(f0, cap as nat).map_values(f).push(
                    f(x),
                ));
            } else {
                assert(prefix(f0.push(x), cap as nat) =~= prefix(f0, cap as nat));
            }
        }
        k = k + 1;
    }
    assert(c.take(c.len() as int) == c);
    out
}

fn issues_line_exec(r: &RiskHealth, out: &mut Vec<char>)
    ensures
        final(out)@ == old(out)@ + issues_line(*r),
{
    append_str(out, "Real issues: ");
    let a = decimal_exec(r.total - r.total / 3);
    append_chars(out, a.as_slice());
    append_str(out, " (Crit: ");
    let b = decimal_exec(r.critical - r.critical / 2);
    append_chars(out, b.as_slice());
    append_str(out, " | Major: ");
    let c = decimal_exec(r.major);
    append_chars(out, c.as_slice());
    append_str(out, " | Minor: ");
    let d = decimal_exec(r.minor);
    append_chars(out, d.as_slice());
    append_str(out, ")\n");
}

fn problems_line_exec(r: &RiskHealth, out: &mut Vec<char>)
    ensures
        final(out)@ == old(out)@ + problems_line(*r),
{
    let problems = listed(&r.top_categories, true, 5);
    if problems.len() > 0 {
        append_str(out, "Problems: ");
        let j = join_strings(&problems, ", ");
        append_str(out, j.as_str());
        append_str(out, "\n");
    } else {
        assert(old(out)@ + Seq::<char>::empty() =~= old(out)@);
    }
}

fn hotspots_line_exec(r: &RiskHealth, out: &mut Vec<char>)
    ensures
        final(out)@ == old(out)@ + hotspots_line(*r),
{
    let hot = listed(&r.top_files, false, 3);
    if hot.len() > 0 {
        append_str(out, "Hotspots: ");
        let j = join_strings(&hot, " | ");
        append_str(out, j.as_str());
        append_str(out, "\n");
    } else {
        assert(old(out)@ + Seq::<char>::empty() =~= old(out)@);
    }
}

/// The quality section of the prompt context: the real-issue estimate (two
/// thirds of all issues, half of the critical ones), up to five categories
/// outside tests and up to three hotspots outside tests, benches and scripts;
/// or a clean note when there is no snapshot.
pub fn build_quality_section(rh: &Option<RiskHealth>) -> (r: String)
    ensures
        r@ == quality_text(*rh),
{
    let mut out: Vec<char> = Vec::new();
    append_str(&mut out, "\n=== QUALITY ===\n");
    match rh {
        Some(r) => {
            issues_line_exec(r, &mut out);
            problems_line_exec(r, &mut out);
            hotspots_line_exec(r, &mut out);
        },
        None => {
            append_str(&mut out, "✓ No critical issues in source code\n");
        },
    }
    string_of(out.as_slice())
}

proof fn lemma_rank_less_transitive(a: (Seq<char>, nat), b: (Seq<char>, nat), c: (Seq<char>, nat))
    requires
        rank_less(a, b),
        rank_less(b, c),
    ensures
        rank_less(a, c),
{
    if a.1 == b.1 && b.1 == c.1 {
        crate::report::lemma_text_less_transitive(a.0, b.0, c.0);
    }
}

proof fn lemma_sum_ranked(s: Seq<(Seq<char>, nat)>)
    ensures
        count_sum(ranked(s)) == count_sum(s),
    decreases s.len(),
{
    if s.len() > 0 {
        lemma_sum_ranked(s.drop_last());
        let r = ranked(s.drop_last());
        let x = s.last();
        let p = rank_pos(r, x);
        lemma_rank_pos_facts(r, x);
        let a = r.take(p as int);
        let c = r.skip(p as int);
        assert(r =~= a + c);
        assert(r.insert(p as int, x) =~= a + seq![x] + c);
        lemma_sum_concat(a, c);
        lemma_sum_concat(a + seq![x], c);
        lemma_sum_concat(a, seq![x]);
        lemma_sum_single(x);
    }
}

proof fn lemma_sum_prefix(s: Seq<(Seq<char>, nat)>, n: nat)
    ensures
        count_sum(prefix(s, n)) <= count_sum(s),
        prefix(s, n).len() <= n,
{
    if n < s.len() {
        assert(s =~= s.take(n as int) + s.skip(n as int));
        lemma_sum_concat(s.take(n as int), s.skip(n as int));
    }
}

/// A snapshot is consistent: the weights split the total, and each list of
/// the five most counted categories and files is in rank order and counts
/// no more issues than the total (see `RiskTally::snapshot`).
pub proof fn law_snapshot_consistent(t: RiskTally)
    requires
        t.wf(),
    ensures
        t.critical + t.major + t.minor == t.total,
        prefix(ranked(counts(t.by_category@)), 5).len() <= 5,
        prefix(ranked(counts(t.by_file@)), 5).len() <= 5,
        count_sum(prefix(ranked(counts(t.by_category@)), 5)) <= t.total,
        count_sum(prefix(ranked(counts(t.by_file@)), 5)) <= t.total,
        forall|a: int, b: int|
            0 <= a < b < prefix(ranked(counts(t.by_category@)), 5).len() ==> !rank_less(
                prefix(ranked(counts(t.by_category@)), 5)[b],
                prefix(ranked(counts(t.by_category@)), 5)[a],
            ),
        forall|a: int, b: int|
            0 <= a < b < prefix(ranked(counts(t.by_file@)), 5).len() ==> !rank_less(
                prefix(ranked(counts(t.by_file@)), 5)[b],
                prefix(ranked(counts(t.by_file@)), 5)[a],
            ),
{
    let cs = counts(t.by_category@);
    let fs = counts(t.by_file@);
    lemma_sum_ranked(cs);
    lemma_sum_ranked(fs);
    lemma_sum_prefix(ranked(cs), 5);
    lemma_sum_prefix(ranked(fs), 5);
    law_ranked_in_order(cs);
    law_ranked_in_order(fs);
}

/// Ranking keeps every entry and puts them in rank order: no entry ranks
/// before one listed earlier.
pub proof fn law_ranked_in_order(s: Seq<(Seq<char>, nat)>)
    ensures
        ranked(s).len() == s.len(),
        forall|a: int, b: int| 0 <= a < b < ranked(s).len() ==> !rank_less(ranked(s)[b], ranked(s)[a]),
    decreases s.len(),
{
    if s.len() > 0 {
        law_ranked_in_order(s.drop_last());
        let r = ranked(s.drop_last());
        let x = s.last();
        let p = rank_pos(r, x);
        lemma_rank_pos_facts(r, x);
        let r2 = r.insert(p as int, x);
        assert(ranked(s) == r2);
        assert forall|a: int, b: int| 0 <= a < b < r2.len() implies !rank_less(r2[b], r2[a]) by {
            if a < p && b < p {
                assert(r2[a] == r[a] && r2[b] == r[b]);
            } else if a < p && b == p {
                assert(r2[a] == r[a]);
            } else if a < p && b > p {
                assert(r2[a] == r[a] && r2[b] == r[b - 1]);
            } else if a == p {
                assert(r2[b] == r[b - 1]);
                if rank_less(r[b - 1], x) {
                    if b - 1 > p {
                        lemma_rank_less_transitive(r[b - 1], x, r[p as int]);
                    } else {
                        lemma_rank_less_transitive(x, r[p as int], x);
                        crate::report::lemma_text_less_irreflexive(x.0);
                    }
                }
            } else {
                assert(r2[a] == r[a - 1] && r2[b] == r[b - 1]);
            }
        }
    }
}

proof fn lemma_rank_pos_facts(r: Seq<(Seq<char>, nat)>, x: (Seq<char>, nat))
    ensures
        rank_pos(r, x) <= r.len(),
        forall|q: int| 0 <= q < rank_pos(r, x) ==> !rank_less(x, #[trigger] r[q]),
        rank_pos(r, x) < r.len() ==> rank_less(x, r[rank_pos(r, x) as int]),
    decreases r.len(),
{
    if r.len() > 0 && !rank_less(x, r[0]) {
        lemma_rank_pos_facts(r.drop_first(), x);
        let p = rank_pos(r, x);
        assert forall|q: int| 0 <= q < p implies !rank_less(x, #[trigger] r[q]) by {
            if q > 0 {
                assert(r[q] == r.drop_first()[q - 1]);
            }
        }
        if p < r.len() {
            assert(r[p as int] == r.drop_first()[p - 1]);
        }
    }
}

/// A language entry that is not about backups.
pub open spec fn not_backup() -> spec_fn((Seq<char>, nat)) -> bool {
    |e: (Seq<char>, nat)| !contains(e.0, "backup"@) && !contains(e.0, "bak"@)
}

/// `name: count`.
pub open spec fn language_text(e: (Seq<char>, nat)) -> Seq<char> {
    e.0 + ": "@ + decimal(e.1)
}

/// The three languages with the most files (ties by name), backups left out,
/// as `name: count` joined by commas.
pub open spec fn top_languages_text(langs: Seq<(Seq<char>, nat)>) -> Seq<char> {
    join_texts(
        prefix(ranked(langs.filter(not_backup())), 3).map_values(|e: (Seq<char>, nat)| language_text(e)),
        ", "@,
    )
}

/// The three languages with the most files, as `name: count` joined by commas.
pub fn top_languages(langs: &Vec<(String, usize)>) -> (r: String)
    ensures
        r@ == top_languages_text(counts(langs@)),
{
    let ghost c = counts(langs@);
    let ghost p = not_backup();
    let mut kept: Vec<(String, usize)> = Vec::new();
    let mut k: usize = 0;
    assert(c.take(0) =~= Seq::<(Seq<char>, nat)>::empty());
    proof {
        reveal(Seq::filter);
    }
    assert(counts(kept@) =~= c.take(0).filter(p));
    while k < langs.len()
        invariant
            k <= langs@.len(),
            c == counts(langs@),
            p == not_backup(),
            counts(kept@) == c.take(k as int).filter(p),
        decreases langs@.len() - k,
    {
        let ghost x = c[k as int];
        assert(c.take(k + 1) == c.take(k as int).push(x));
        proof {
            c.take(k as int).lemma_filter_push(x, p);
        }
        let ec = chars_of(langs[k].0.as_str());
        if !contains_lit(ec.as_slice(), "backup") && !contains_lit(ec.as_slice(), "bak") {
            let ghost before = kept@;
            kept.push(copy_entry(&langs[k]));
            assert(counts(kept@) =~= counts(before).push(x));
        }
        k = k + 1;
    }
    assert(c.take(c.len() as int) == c);
    let top = top_ranked(&kept, 3);
    let mut texts: Vec<String> = Vec::new();
    let ghost tv = counts(top@);
    let mut i: usize = 0;
    assert(strs(texts@) =~= tv.take(0).map_values(|e: (Seq<char>, nat)| language_text(e)));
    while i < top.len()
        invariant
            i <= top@.len(),
            tv == counts(top@),
            strs(texts@) == tv.take(i as int).map_values(|e: (Seq<char>, nat)| language_text(e)),
        decreases top@.len() - i,
    {
        let mut t = chars_of(top[i].0.as_str());
        append_str(&mut t, ": ");
        let d = decimal_exec(top[i].1);
        append_chars(&mut t, d.as_slice());
        let ts = string_of(t.as_slice());
        proof {
            lemma_strs_push(texts@, ts);
        }
        texts.push(ts);
        assert(tv.take(i + 1).map_values(|e: (Seq<char>, nat)| language_text(e)) =~= tv.take(i as int).map_values(
            |e: (Seq<char>, nat)| language_text(e),
        ).push(language_text(tv[i as int])));
        i = i + 1;
    }
    assert(tv.take(tv.len() as int) == tv);
    join_strings(&texts, ", ")
}

/// The recent-work section: the active files joined by commas, or nothing
/// when there are none.
pub fn recent_work_section(files: &Vec<String>) -> (r: String)
    ensures
        files@.len() == 0 ==> r@ == Seq::<char>::empty(),
        files@.len() > 0 ==> r@ == "\n=== RECENT WORK ===\n"@ + "Active files: "@ + join_texts(strs(files@), ", "@)
            + "\n"@,
{
    if files.len() == 0 {
        return String::new();
    }
    let mut out: Vec<char> = Vec::new();
    append_str(&mut out, "\n=== RECENT WORK ===\n");
    append_str(&mut out, "Active files: ");
    let j = join_strings(files, ", ");
    append_str(&mut out, j.as_str());
    append_str(&mut out, "\n");
    string_of(out.as_slice())
}

/// The size of the prompt context for the value of its setting: a number
/// clamped to 1000..=8000, else 4000.
pub fn context_limit(value: Option<&str>) -> (r: usize)
    ensures
        r as nat == match value {
            Some(v) => match crate::memory::parse_usize(v@) {
                Some(n) => crate::report::clamp(n, 1000, 8000),
                None => 4000,
            },
            None => 4000,
        },
{
    match value {
        Some(v) => {
            let c = chars_of(v);
            match crate::memory::parse_usize_exec(c.as_slice()) {
                Some(n) => {
                    if n < 1000 {
                        1000
                    } else if n > 8000 {
                        8000
                    } else {
                        n
                    }
                },
                None => 4000,
            }
        },
        None => 4000,
    }
}

/// Source extensions whose files count as recent work.
pub open spec fn recent_extensions() -> Seq<Seq<char>> {
    seq!["rs"@, "py"@, "js"@, "ts"@, "go"@, "c"@, "cpp"@, "h"@]
}

/// A file counts as recent work when it has a source extension and its name
/// marks neither a backup nor a test.
pub fn is_recent_candidate(ext: &str, name: &str) -> (r: bool)
    ensures
        r == (recent_extensions().contains(ext@) && !contains(name@, ".bak"@) && !contains(name@, "test"@)),
{
    let exts = ["rs", "py", "js", "ts", "go", "c", "cpp", "h"];
    proof {
        lemma_names(exts@, recent_extensions(), ext@);
    }
    let e = chars_of(ext);
    let n = chars_of(name);
    is_one_of(e.as_slice(), &exts) && !contains_lit(n.as_slice(), ".bak") && !contains_lit(n.as_slice(), "test")
}

} // verus!
