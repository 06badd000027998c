use vstd::prelude::*;
use crate::formatting::SupportedLanguage;
use crate::gate::{language_from_extension, language_of_extension};
use crate::messages::glossary::{ConcreteIssue, IssueSeverity, QualityScore};
use crate::paths::{extension_of, file_name_of, path_extension, path_file_name};
use crate::report::{ignored_by, should_ignore_path, text_less, text_less_exec};
use crate::risk_health::{category_name, category_name_exec};
use crate::strings::{
    append_chars, append_str, chars_eq, chars_of, decimal, decimal_exec, lemma_strs_push, lines, lines_of, owned,
    starts_with, string_of, strs, trim, trim_chars,
};

verus! {

// ---------------------------------------------------------------------------
// Walking the project
// ---------------------------------------------------------------------------

/// How deep the walk goes below the project's top entries.
pub const MAX_ANALYSIS_DEPTH: usize = 10;

/// Files larger than this many bytes are not analyzed.
pub const MAX_ANALYZED_BYTES: usize = 500000;

/// What the walk does with an entry.
pub enum WalkStep {
    /// Leave it alone.
    Skip,
    /// Analyze the file as code of this language.
    Analyze(SupportedLanguage),
    /// Walk the directory's entries, one level deeper.
    Descend,
}

/// Extensions of files that are never analyzed (documents, lock files,
/// images, archives and binaries).
pub open spec fn skipped_extensions() -> Seq<Seq<char>> {
    seq![
        "md"@, "txt"@, "lock"@, "png"@, "jpg"@, "jpeg"@, "gif"@, "svg"@, "ico"@, "pdf"@, "zip"@, "tar"@, "gz"@,
        "exe"@, "dll"@, "so"@,
    ]
}

/// Directories that are never walked (besides hidden ones).
pub open spec fn skipped_directories() -> Seq<Seq<char>> {
    seq!["node_modules"@, "target"@, "dist"@, "build"@, "vendor"@, "__pycache__"@, ".git"@]
}

/// The extension of a path, or nothing.
pub open spec fn extension_or_empty(path: Seq<char>) -> Seq<char> {
    match extension_of(path) {
        Some(e) => e,
        None => Seq::empty(),
    }
}

/// What the walk does with the entry at `path`, met `depth` levels down:
/// nothing past the depth limit or where the ignore patterns match; a file
/// is analyzed when its extension is not skipped and names a language; a
/// directory is walked unless it is hidden or a build, dependency or cache
/// directory.
pub open spec fn walk_step(path: Seq<char>, is_file: bool, is_dir: bool, depth: nat, patterns: Seq<Seq<char>>) -> WalkStep {
    if depth >= MAX_ANALYSIS_DEPTH || ignored_by(path, is_dir, patterns) {
        WalkStep::Skip
    } else if is_file {
        let ext = extension_or_empty(path);
        if skipped_extensions().contains(ext) {
            WalkStep::Skip
        } else {
            match language_of_extension(ext) {
                Some(l) => WalkStep::Analyze(l),
                None => WalkStep::Skip,
            }
        }
    } else if is_dir {
        match file_name_of(path) {
            Some(n) => if starts_with(n, "."@) || skipped_directories().contains(n) {
                WalkStep::Skip
            } else {
                WalkStep::Descend
            },
            None => WalkStep::Descend,
        }
    } else {
        WalkStep::Skip
    }
}

fn one_of(s: &[char], names: &[&str]) -> (r: bool)
    ensures
        r == names@.map_values(|n: &str| n@).contains(s@),
{
    let ghost nv = names@.map_values(|n: &str| n@);
    let mut k: usize = 0;
    while k < names.len()
        invariant
            k <= names@.len(),
            nv == names@.map_values(|n: &str| n@),
            forall|j: int| 0 <= j < k ==> nv[j] != s@,
        decreases names@.len() - k,
    {
        let c = chars_of(names[k]);
        if chars_eq(s, c.as_slice()) {
            assert(nv[k as int] == s@);
            return true;
        }
        k = k + 1;
    }
    false
}

/// What the walk does with the entry at `path` (see `walk_step`).
pub fn walk_decision(path: &str, is_file: bool, is_dir: bool, depth: usize, gitignore_patterns: &[String]) -> (r:
    WalkStep)
    ensures
        r == walk_step(path@, is_file, is_dir, depth as nat, gitignore_patterns@.map_values(|p: String| p@)),
{
    if depth >= MAX_ANALYSIS_DEPTH || should_ignore_path(path, is_dir, gitignore_patterns) {
        return WalkStep::Skip;
    }
    if is_file {
        let ext: Vec<char> = match path_extension(path) {
            Some(e) => chars_of(e.as_str()),
            None => Vec::new(),
        };
        let skip = [
            "md", "txt", "lock", "png", "jpg", "jpeg", "gif", "svg", "ico", "pdf", "zip", "tar", "gz", "exe", "dll",
            "so",
        ];
        assert(skip@.map_values(|n: &str| n@) =~= skipped_extensions());
        if one_of(ext.as_slice(), &skip) {
            return WalkStep::Skip;
        }
        let es = string_of(ext.as_slice());
        return match language_from_extension(es.as_str()) {
            Some(l) => WalkStep::Analyze(l),
            None => WalkStep::Skip,
        };
    }
    if is_dir {
        return match path_file_name(path) {
            Some(n) => {
                let c = chars_of(n.as_str());
                let dirs = ["node_modules", "target", "dist", "build", "vendor", "__pycache__", ".git"];
                assert(dirs@.map_values(|n: &str| n@) =~= skipped_directories());
                if crate::strings::starts_with_lit(c.as_slice(), ".") || one_of(c.as_slice(), &dirs) {
                    WalkStep::Skip
                } else {
                    WalkStep::Descend
                }
            },
            None => WalkStep::Descend,
        };
    }
    WalkStep::Skip
}

/// The ignore patterns of a `.gitignore` text: its lines that are not blank
/// and do not start with `#`, trimmed.
pub open spec fn gitignore_lines(ls: Seq<Seq<char>>) -> Seq<Seq<char>>
    decreases ls.len(),
{
    if ls.len() == 0 {
        Seq::empty()
    } else {
        let prev = gitignore_lines(ls.drop_last());
        let l = ls.last();
        if trim(l).len() == 0 || starts_with(l, "#"@) {
            prev
        } else {
            prev.push(trim(l))
        }
    }
}

/// The ignore patterns of a `.gitignore` text (see `gitignore_lines`).
pub fn gitignore_patterns(content: &str) -> (r: Vec<String>)
    ensures
        strs(r@) == gitignore_lines(lines(content@)),
{
    let c = chars_of(content);
    let ls = lines_of(c.as_slice());
    let ghost lv = lines(content@);
    let mut out: Vec<String> = Vec::new();
    let mut k: usize = 0;
    assert(lv.take(0) =~= Seq::<Seq<char>>::empty());
    while k < ls.len()
        invariant
            k <= ls@.len(),
            ls@.len() == lv.len(),
            forall|j: int| 0 <= j < ls@.len() ==> (#[trigger] ls@[j])@ == lv[j],
            strs(out@) == gitignore_lines(lv.take(k as int)),
        decreases ls@.len() - k,
    {
        assert(lv.take(k + 1).drop_last() =~= lv.take(k as int));
        assert(lv.take(k + 1).last() == ls@[k as int]@);
        let t = trim_chars(ls[k].as_slice());
        if t.len() > 0 && !crate::strings::starts_with_lit(ls[k].as_slice(), "#") {
            let ghost before = out@;
            let s = string_of(t.as_slice());
            out.push(s);
            proof {
                lemma_strs_push(before, s);
            }
        }
        k = k + 1;
    }
    assert(lv.take(ls@.len() as int) =~= lv);
    out
}

// ---------------------------------------------------------------------------
// What the walk found
// ---------------------------------------------------------------------------

/// What the project-wide analysis found so far: for each file with issues
/// its path, issue count and up to three issue categories; the totals; the
/// critical issues as lines; and how many files were skipped for size or
/// for errors.
pub struct ProjectAnalysis {
    pub results: Vec<(String, usize, Vec<String>)>,
    pub total_issues: usize,
    pub total_files: usize,
    pub critical_issues: Vec<String>,
    pub skipped_large_files: usize,
    pub skipped_error_files: usize,
}

/// Per-file results seen as values.
pub open spec fn results_view(v: Seq<(String, usize, Vec<String>)>) -> Seq<(Seq<char>, nat, Seq<Seq<char>>)> {
    v.map_values(|e: (String, usize, Vec<String>)| (e.0@, e.1 as nat, strs(e.2@)))
}

/// The line for a critical issue of the file at `path`.
pub open spec fn critical_line(path: Seq<char>, i: ConcreteIssue) -> Seq<char> {
    path + ": "@ + i.message@ + " (line "@ + decimal(i.line as nat) + ")"@
}

/// The lines for the critical issues, in order.
pub open spec fn critical_lines(path: Seq<char>, s: Seq<ConcreteIssue>) -> Seq<Seq<char>>
    decreases s.len(),
{
    if s.len() == 0 {
        Seq::empty()
    } else {
        let prev = critical_lines(path, s.drop_last());
        if s.last().severity == IssueSeverity::Critical {
            prev.push(critical_line(path, s.last()))
        } else {
            prev
        }
    }
}

/// The category names of the first three issues.
pub open spec fn sample_categories(s: Seq<ConcreteIssue>) -> Seq<Seq<char>> {
    (if s.len() > 3 {
        s.take(3)
    } else {
        s
    }).map_values(|i: ConcreteIssue| category_name(i.category))
}

impl ProjectAnalysis {
    /// Nothing found yet.
    pub fn new() -> (r: ProjectAnalysis)
        ensures
            r.results@.len() == 0,
            r.total_issues == 0,
            r.total_files == 0,
            r.critical_issues@.len() == 0,
            r.skipped_large_files == 0,
            r.skipped_error_files == 0,
    {
        ProjectAnalysis {
            results: Vec::new(),
            total_issues: 0,
            total_files: 0,
            critical_issues: Vec::new(),
            skipped_large_files: 0,
            skipped_error_files: 0,
        }
    }

    /// Whether a file of `content_len` bytes is analyzed; a larger one than
    /// `MAX_ANALYZED_BYTES` is counted as skipped for size.
    pub fn accept_content(&mut self, content_len: usize) -> (ok: bool)
        requires
            content_len > MAX_ANALYZED_BYTES ==> old(self).skipped_large_files < usize::MAX,
        ensures
            ok == (content_len <= MAX_ANALYZED_BYTES),
            final(self).skipped_large_files == old(self).skipped_large_files + (if ok {
                0int
            } else {
                1int
            }),
            final(self).results@ == old(self).results@,
            final(self).total_issues == old(self).total_issues,
            final(self).total_files == old(self).total_files,
            final(self).critical_issues@ == old(self).critical_issues@,
            final(self).skipped_error_files == old(self).skipped_error_files,
    {
        if content_len > MAX_ANALYZED_BYTES {
            self.skipped_large_files = self.skipped_large_files + 1;
            false
        } else {
            true
        }
    }

    /// A file that could not be read or analyzed.
    pub fn record_failure(&mut self)
        requires
            old(self).skipped_error_files < usize::MAX,
        ensures
            final(self).skipped_error_files == old(self).skipped_error_files + 1,
            final(self).results@ == old(self).results@,
            final(self).total_issues == old(self).total_issues,
            final(self).total_files == old(self).total_files,
            final(self).critical_issues@ == old(self).critical_issues@,
            final(self).skipped_large_files == old(self).skipped_large_files,
    {
        self.skipped_error_files = self.skipped_error_files + 1;
    }

    /// The analysis of the file at `path`: one more file, its issues added
    /// to the total, its critical issues listed, and, when it has issues,
    /// its entry.
    pub fn record_analysis(&mut self, path: &str, score: &QualityScore)
        requires
            old(self).total_files < usize::MAX,
            old(self).total_issues + score.concrete_issues@.len() <= usize::MAX,
        ensures
            final(self).total_files == old(self).total_files + 1,
            final(self).total_issues == old(self).total_issues + score.concrete_issues@.len(),
            strs(final(self).critical_issues@) == strs(old(self).critical_issues@) + critical_lines(
                path@,
                score.concrete_issues@,
            ),
            results_view(final(self).results@) == if score.concrete_issues@.len() > 0 {
                results_view(old(self).results@).push(
                    (path@, score.concrete_issues@.len() as nat, sample_categories(score.concrete_issues@)),
                )
            } else {
                results_view(old(self).results@)
            },
            final(self).skipped_large_files == old(self).skipped_large_files,
            final(self).skipped_error_files == old(self).skipped_error_files,
    {
        let issues = &score.concrete_issues;
        let n = issues.len();
        self.total_files = self.total_files + 1;
        self.total_issues = self.total_issues + n;
        if n == 0 {
            assert(issues@ =~= Seq::<ConcreteIssue>::empty());
            assert(strs(self.critical_issues@) =~= strs(self.critical_issues@) + critical_lines(path@, issues@));
            return;
        }
        let m: usize = if n > 3 {
            3
        } else {
            n
        };
        let ghost first = if issues@.len() > 3 {
            issues@.take(3)
        } else {
            issues@
        };
        let mut sample: Vec<String> = Vec::new();
        let mut k: usize = 0;
        while k < m
            invariant
                k <= m,
                m <= issues@.len(),
                first.len() == m,
                forall|j: int| 0 <= j < m ==> #[trigger] first[j] == issues@[j],
                strs(sample@) == first.map_values(|i: ConcreteIssue| category_name(i.category)).take(k as int),
            decreases m - k,
        {
            let ghost before = sample@;
            let name = owned(category_name_exec(issues[k].category));
            sample.push(name);
            proof {
                lemma_strs_push(before, name);
            }
            assert(first.map_values(|i: ConcreteIssue| category_name(i.category)).take(k + 1) =~= first.map_values(
                |i: ConcreteIssue| category_name(i.category),
            ).take(k as int).push(category_name(first[k as int].category)));
            k = k + 1;
        }
        assert(first.map_values(|i: ConcreteIssue| category_name(i.category)).take(m as int) =~= first.map_values(
            |i: ConcreteIssue| category_name(i.category),
        ));
        let ghost c0 = strs(self.critical_issues@);
        let mut j: usize = 0;
        assert(issues@.take(0) =~= Seq::<ConcreteIssue>::empty());
        while j < n
            invariant
                j <= n,
                n == issues@.len(),
                issues@ == score.concrete_issues@,
                self.total_files == old(self).total_files + 1,
                self.total_issues == old(self).total_issues + n,
                self.skipped_large_files == old(self).skipped_large_files,
                self.skipped_error_files == old(self).skipped_error_files,
                self.results@ == old(self).results@,
                strs(self.critical_issues@) == c0 + critical_lines(path@, issues@.take(j as int)),
            decreases n - j,
        {
            assert(issues@.take(j + 1).drop_last() =~= issues@.take(j as int));
            let i = &issues[j];
            if matches!(i.severity, IssueSeverity::Critical) {
                let mut line: Vec<char> = Vec::new();
                append_str(&mut line, path);
                append_str(&mut line, ": ");
                append_str(&mut line, i.message.as_str());
                append_str(&mut line, " (line ");
                let d = decimal_exec(i.line);
                append_chars(&mut line, d.as_slice());
                append_str(&mut line, ")");
                let ghost before = self.critical_issues@;
                let t = string_of(line.as_slice());
                self.critical_issues.push(t);
                proof {
                    lemma_strs_push(before, t);
                }
                assert(t@ == critical_line(path@, issues@[j as int]));
            }
            assert(strs(self.critical_issues@) =~= c0 + critical_lines(path@, issues@.take(j + 1)));
            j = j + 1;
        }
        assert(issues@.take(n as int) =~= issues@);
        let ghost r0 = self.results@;
        self.results.push((owned(path), n, sample));
        assert(results_view(self.results@) =~= results_view(r0).push(
            (path@, n as nat, sample_categories(issues@)),
        ));
    }
}

// ---------------------------------------------------------------------------
// The project-wide report
// ---------------------------------------------------------------------------

/// Where text `i` goes among the already ordered positions `r`: before the
/// first text it precedes.
pub open spec fn text_insert_pos(s: Seq<Seq<char>>, r: Seq<usize>, i: int) -> nat
    decreases r.len(),
{
    if r.len() == 0 {
        0
    } else if text_less(s[i], s[r[0] as int]) {
        0
    } else {
        1 + text_insert_pos(s, r.drop_first(), i)
    }
}

/// The first `n` texts in ascending order (equal texts keep their order).
pub open spec fn text_order(s: Seq<Seq<char>>, n: nat) -> Seq<usize>
    decreases n,
{
    if n == 0 {
        Seq::empty()
    } else {
        let r = text_order(s, (n - 1) as nat);
        r.insert(text_insert_pos(s, r, n - 1) as int, (n - 1) as usize)
    }
}

/// File `a` is listed before file `b`: more issues first, then by path.
pub open spec fn result_before(a: (Seq<char>, nat, Seq<Seq<char>>), b: (Seq<char>, nat, Seq<Seq<char>>)) -> bool {
    a.1 > b.1 || (a.1 == b.1 && text_less(a.0, b.0))
}

/// Where result `i` goes among the already ordered positions `r`.
pub open spec fn result_insert_pos(s: Seq<(Seq<char>, nat, Seq<Seq<char>>)>, r: Seq<usize>, i: int) -> nat
    decreases r.len(),
{
    if r.len() == 0 {
        0
    } else if result_before(s[i], s[r[0] as int]) {
        0
    } else {
        1 + result_insert_pos(s, r.drop_first(), i)
    }
}

/// The first `n` results by issue count (most first), then path (equal ones
/// keep their order).
pub open spec fn result_order(s: Seq<(Seq<char>, nat, Seq<Seq<char>>)>, n: nat) -> Seq<usize>
    decreases n,
{
    if n == 0 {
        Seq::empty()
    } else {
        let r = result_order(s, (n - 1) as nat);
        r.insert(result_insert_pos(s, r, n - 1) as int, (n - 1) as usize)
    }
}

/// Numbered lines for the texts at positions `ord`, counting from `from`.
pub open spec fn numbered(s: Seq<Seq<char>>, ord: Seq<usize>) -> Seq<char>
    decreases ord.len(),
{
    if ord.len() == 0 {
        Seq::empty()
    } else {
        numbered(s, ord.drop_last()) + decimal(ord.len()) + ". "@ + s[ord.last() as int] + "\n"@
    }
}

/// A line per file at positions `ord`.
pub open spec fn file_lines(s: Seq<(Seq<char>, nat, Seq<Seq<char>>)>, ord: Seq<usize>) -> Seq<char>
    decreases ord.len(),
{
    if ord.len() == 0 {
        Seq::empty()
    } else {
        file_lines(s, ord.drop_last()) + "- `"@ + s[ord.last() as int].0 + "`: "@ + decimal(s[ord.last() as int].1)
            + " issues\n"@
    }
}

/// The first `k` items, or all of them.
pub open spec fn first<A>(x: Seq<A>, k: nat) -> Seq<A> {
    if x.len() > k {
        x.take(k as int)
    } else {
        x
    }
}

/// The critical-issue section: the first five in text order, then how many
/// more there are; nothing without critical issues.
pub open spec fn critical_section(critical: Seq<Seq<char>>) -> Seq<char> {
    if critical.len() > 0 {
        "\n### Critical Issues in Project:\n"@ + numbered(critical, first(text_order(critical, critical.len()), 5)) + (
        if critical.len() > 5 {
            "... and "@ + decimal((critical.len() - 5) as nat) + " more critical issues\n"@
        } else {
            Seq::empty()
        })
    } else {
        Seq::empty()
    }
}

/// The section of files with issues: the first ten, most issues first,
/// then by path, then how many more there are; nothing without such files.
pub open spec fn files_section(results: Seq<(Seq<char>, nat, Seq<Seq<char>>)>) -> Seq<char> {
    if results.len() > 0 {
        "\n### Files with Issues:\n"@ + file_lines(results, first(result_order(results, results.len()), 10)) + (
        if results.len() > 10 {
            "... and "@ + decimal((results.len() - 10) as nat) + " more files with issues\n"@
        } else {
            Seq::empty()
        })
    } else {
        Seq::empty()
    }
}

/// The project-wide report: nothing when no file was analyzed or skipped;
/// else the counts, then the critical issues and the files with issues.
pub open spec fn analysis_report(
    results: Seq<(Seq<char>, nat, Seq<Seq<char>>)>,
    total_issues: nat,
    total_files: nat,
    critical: Seq<Seq<char>>,
    large: nat,
    errors: nat,
) -> Seq<char> {
    if total_files == 0 && large == 0 && errors == 0 {
        Seq::empty()
    } else {
        "\n## PROJECT-WIDE AST ANALYSIS\n- Files analyzed: "@ + decimal(total_files) + "\n- Total issues found: "@
            + decimal(total_issues) + "\n- Critical issues: "@ + decimal(critical.len()) + "\n- Skipped (too large): "@
            + decimal(large) + "\n- Skipped (errors): "@ + decimal(errors) + "\n"@ + critical_section(critical)
            + files_section(results)
    }
}

proof fn lemma_text_order(s: Seq<Seq<char>>, n: nat)
    ensures
        text_order(s, n).len() == n,
        forall|a: int| 0 <= a < n ==> #[trigger] text_order(s, n)[a] < n,
    decreases n,
{
    if n > 0 {
        lemma_text_order(s, (n - 1) as nat);
        let r = text_order(s, (n - 1) as nat);
        lemma_text_insert_pos_bound(s, r, n - 1);
        let p = text_insert_pos(s, r, n - 1) as int;
        assert forall|a: int| 0 <= a < n implies #[trigger] text_order(s, n)[a] < n by {
            if a < p {
                assert(text_order(s, n)[a] == r[a]);
            } else if a > p {
                assert(text_order(s, n)[a] == r[a - 1]);
            }
        }
    }
}

proof fn lemma_text_insert_pos_bound(s: Seq<Seq<char>>, r: Seq<usize>, i: int)
    ensures
        text_insert_pos(s, r, i) <= r.len(),
    decreases r.len(),
{
    if r.len() > 0 {
        lemma_text_insert_pos_bound(s, r.drop_first(), i);
    }
}

proof fn lemma_result_order(s: Seq<(Seq<char>, nat, Seq<Seq<char>>)>, n: nat)
    ensures
        result_order(s, n).len() == n,
        forall|a: int| 0 <= a < n ==> #[trigger] result_order(s, n)[a] < n,
    decreases n,
{
    if n > 0 {
        lemma_result_order(s, (n - 1) as nat);
        let r = result_order(s, (n - 1) as nat);
        lemma_result_insert_pos_bound(s, r, n - 1);
        let p = result_insert_pos(s, r, n - 1) as int;
        assert forall|a: int| 0 <= a < n implies #[trigger] result_order(s, n)[a] < n by {
            if a < p {
                assert(result_order(s, n)[a] == r[a]);
            } else if a > p {
                assert(result_order(s, n)[a] == r[a - 1]);
            }
        }
    }
}

proof fn lemma_result_insert_pos_bound(s: Seq<(Seq<char>, nat, Seq<Seq<char>>)>, r: Seq<usize>, i: int)
    ensures
        result_insert_pos(s, r, i) <= r.len(),
    decreases r.len(),
{
    if r.len() > 0 {
        lemma_result_insert_pos_bound(s, r.drop_first(), i);
    }
}

fn text_order_exec(v: &Vec<String>) -> (r: Vec<usize>)
    ensures
        r@ == text_order(strs(v@), v@.len() as nat),
        r@.len() == v@.len(),
        forall|a: int| 0 <= a < r@.len() ==> #[trigger] r@[a] < v@.len(),
{
    let ghost sv = strs(v@);
    let n = v.len();
    let mut cs: Vec<Vec<char>> = Vec::new();
    let mut k: usize = 0;
    while k < n
        invariant
            n == v@.len(),
            sv == strs(v@),
            k <= n,
            cs@.len() == k,
            forall|j: int| 0 <= j < k ==> (#[trigger] cs@[j])@ == sv[j],
        decreases n - k,
    {
        cs.push(chars_of(v[k].as_str()));
        k = k + 1;
    }
    let mut r: Vec<usize> = Vec::new();
    let mut i: usize = 0;
    while i < n
        invariant
            n == v@.len(),
            sv == strs(v@),
            cs@.len() == n,
            forall|j: int| 0 <= j < n ==> (#[trigger] cs@[j])@ == sv[j],
            i <= n,
            r@ == text_order(sv, i as nat),
        decreases n - i,
    {
        let ghost r0 = r@;
        proof {
            lemma_text_order(sv, i as nat);
        }
        let mut p: usize = 0;
        assert(r0.skip(0) =~= r0);
        while p < r.len() && !text_less_exec(cs[i].as_slice(), cs[r[p]].as_slice())
            invariant
                r@ == r0,
                r0 == text_order(sv, i as nat),
                r0.len() == i,
                forall|a: int| 0 <= a < i ==> #[trigger] r0[a] < i,
                sv == strs(v@),
                cs@.len() == n,
                forall|j: int| 0 <= j < n ==> (#[trigger] cs@[j])@ == sv[j],
                i < n,
                n == v@.len(),
                p <= r@.len(),
                text_insert_pos(sv, r0, i as int) == p + text_insert_pos(sv, r0.skip(p as int), i as int),
            decreases r@.len() - p,
        {
            assert(r0.skip(p as int)[0] == r0[p as int]);
            assert(r0.skip(p as int).drop_first() =~= r0.skip(p + 1));
            p = p + 1;
        }
        proof {
            if p < r@.len() {
                assert(r0.skip(p as int)[0] == r0[p as int]);
            }
        }
        r.insert(p, i);
        i = i + 1;
    }
    proof {
        lemma_text_order(sv, n as nat);
    }
    r
}

fn result_before_exec(a: &(String, usize, Vec<String>), b: &(String, usize, Vec<String>)) -> (r: bool)
    ensures
        r == result_before((a.0@, a.1 as nat, strs(a.2@)), (b.0@, b.1 as nat, strs(b.2@))),
{
    if a.1 != b.1 {
        return a.1 > b.1;
    }
    let x = chars_of(a.0.as_str());
    let y = chars_of(b.0.as_str());
    text_less_exec(x.as_slice(), y.as_slice())
}

fn result_order_exec(v: &Vec<(String, usize, Vec<String>)>) -> (r: Vec<usize>)
    ensures
        r@ == result_order(results_view(v@), v@.len() as nat),
        r@.len() == v@.len(),
        forall|a: int| 0 <= a < r@.len() ==> #[trigger] r@[a] < v@.len(),
{
    let ghost sv = results_view(v@);
    let n = v.len();
    let mut r: Vec<usize> = Vec::new();
    let mut i: usize = 0;
    while i < n
        invariant
            n == v@.len(),
            sv == results_view(v@),
            i <= n,
            r@ == result_order(sv, i as nat),
        decreases n - i,
    {
        let ghost r0 = r@;
        proof {
            lemma_result_order(sv, i as nat);
        }
        let mut p: usize = 0;
        assert(r0.skip(0) =~= r0);
        while p < r.len() && !result_before_exec(&v[i], &v[r[p]])
            invariant
                r@ == r0,
                r0 == result_order(sv, i as nat),
                r0.len() == i,
                forall|a: int| 0 <= a < i ==> #[trigger] r0[a] < i,
                sv == results_view(v@),
                i < n,
                n == v@.len(),
                p <= r@.len(),
                result_insert_pos(sv, r0, i as int) == p + result_insert_pos(sv, r0.skip(p as int), i as int),
            decreases r@.len() - p,
        {
            assert(r0.skip(p as int)[0] == r0[p as int]);
            assert(r0.skip(p as int).drop_first() =~= r0.skip(p + 1));
            p = p + 1;
        }
        proof {
            if p < r@.len() {
                assert(r0.skip(p as int)[0] == r0[p as int]);
            }
        }
        r.insert(p, i);
        i = i + 1;
    }
    proof {
        lemma_result_order(sv, n as nat);
    }
    r
}

fn push_number(out: &mut Vec<char>, n: usize)
    ensures
        final(out)@ == old(out)@ + decimal(n as nat),
{
    let d = decimal_exec(n);
    append_chars(out, d.as_slice());
}

fn push_critical_section(out: &mut Vec<char>, ci: &Vec<String>)
    ensures
        final(out)@ == old(out)@ + critical_section(strs(ci@)),
{
    let ghost cv = strs(ci@);
    let ghost o0 = out@;
    if ci.len() > 0 {
        append_str(out, "\n### Critical Issues in Project:\n");
        let ord = text_order_exec(ci);
        let m: usize = if ord.len() > 5 {
            5
        } else {
            ord.len()
        };
        let ghost o1 = out@;
        let ghost top = first(ord@, 5);
        assert(top.len() == m);
        let mut k: usize = 0;
        assert(top.take(0) =~= Seq::<usize>::empty());
        while k < m
            invariant
                k <= m,
                m <= ord@.len(),
                top.len() == m,
                top == first(ord@, 5),
                forall|j: int| 0 <= j < m ==> #[trigger] top[j] == ord@[j],
                forall|a: int| 0 <= a < ord@.len() ==> #[trigger] ord@[a] < ci@.len(),
                cv == strs(ci@),
                out@ == o1 + numbered(cv, top.take(k as int)),
            decreases m - k,
        {
            assert(top.take(k + 1).drop_last() =~= top.take(k as int));
            assert(top.take(k + 1).last() == ord@[k as int]);
            push_number(out, k + 1);
            append_str(out, ". ");
            append_str(out, ci[ord[k]].as_str());
            append_str(out, "\n");
            assert(out@ =~= o1 + numbered(cv, top.take(k + 1)));
            k = k + 1;
        }
        assert(top.take(m as int) =~= top);
        let ghost o2 = out@;
        if ci.len() > 5 {
            append_str(out, "... and ");
            push_number(out, ci.len() - 5);
            append_str(out, " more critical issues\n");
        }
        assert(out@ =~= o0 + critical_section(cv));
    }
}

fn push_files_section(out: &mut Vec<char>, rs: &Vec<(String, usize, Vec<String>)>)
    ensures
        final(out)@ == old(out)@ + files_section(results_view(rs@)),
{
    let ghost rv = results_view(rs@);
    let ghost o0 = out@;
    if rs.len() > 0 {
        append_str(out, "\n### Files with Issues:\n");
        let ord = result_order_exec(rs);
        let m: usize = if ord.len() > 10 {
            10
        } else {
            ord.len()
        };
        let ghost o1 = out@;
        let ghost top = first(ord@, 10);
        assert(top.len() == m);
        let mut k: usize = 0;
        assert(top.take(0) =~= Seq::<usize>::empty());
        while k < m
            invariant
                k <= m,
                m <= ord@.len(),
                top.len() == m,
                top == first(ord@, 10),
                forall|j: int| 0 <= j < m ==> #[trigger] top[j] == ord@[j],
                forall|a: int| 0 <= a < ord@.len() ==> #[trigger] ord@[a] < rs@.len(),
                rv == results_view(rs@),
                out@ == o1 + file_lines(rv, top.take(k as int)),
            decreases m - k,
        {
            assert(top.take(k + 1).drop_last() =~= top.take(k as int));
            assert(top.take(k + 1).last() == ord@[k as int]);
            let e = &rs[ord[k]];
            append_str(out, "- `");
            append_str(out, e.0.as_str());
            append_str(out, "`: ");
            push_number(out, e.1);
            append_str(out, " issues\n");
            assert(out@ =~= o1 + file_lines(rv, top.take(k + 1)));
            k = k + 1;
        }
        assert(top.take(m as int) =~= top);
        if rs.len() > 10 {
            append_str(out, "... and ");
            push_number(out, rs.len() - 10);
            append_str(out, " more files with issues\n");
        }
        assert(out@ =~= o0 + files_section(rv));
    }
}

impl ProjectAnalysis {
    /// The project-wide report (see `analysis_report`); per-file timings,
    /// which are floating point, are added by the caller.
    pub fn format_report(&self) -> (r: String)
        ensures
            r@ == analysis_report(
                results_view(self.results@),
                self.total_issues as nat,
                self.total_files as nat,
                strs(self.critical_issues@),
                self.skipped_large_files as nat,
                self.skipped_error_files as nat,
            ),
    {
        if self.total_files == 0 && self.skipped_large_files == 0 && self.skipped_error_files == 0 {
            return String::new();
        }
        let ghost cv = strs(self.critical_issues@);
        let ghost rv = results_view(self.results@);
        let mut out: Vec<char> = Vec::new();
        append_str(&mut out, "\n## PROJECT-WIDE AST ANALYSIS\n- Files analyzed: ");
        push_number(&mut out, self.total_files);
        append_str(&mut out, "\n- Total issues found: ");
        push_number(&mut out, self.total_issues);
        append_str(&mut out, "\n- Critical issues: ");
        push_number(&mut out, self.critical_issues.len());
        append_str(&mut out, "\n- Skipped (too large): ");
        push_number(&mut out, self.skipped_large_files);
        append_str(&mut out, "\n- Skipped (errors): ");
        push_number(&mut out, self.skipped_error_files);
        append_str(&mut out, "\n");
        let ghost head = out@;
        push_critical_section(&mut out, &self.critical_issues);
        push_files_section(&mut out, &self.results);
        assert(out@ =~= head + critical_section(cv) + files_section(rv));
        string_of(out.as_slice())
    }
}

} // verus!
