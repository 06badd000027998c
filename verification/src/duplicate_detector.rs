use vstd::prelude::*;
use crate::strings::{
    chars_eq, chars_of, contains, contains_lit, ends_with, ends_with_exec, ends_with_lit,
    last_index_of, last_index_of_exec, parse_i32, parse_i32_exec, remove_all, remove_each,
    remove_each_exec, sep_count, sep_count_exec, slashes, slashes_exec, slice_chars, split,
    split_chars, starts_with, starts_with_exec, starts_with_lit, string_of, to_lowercase,
    unicode_lower,
};
use crate::paths::{at_or_under, file_name_of, parent_of, path_at_or_under, path_file_name, path_parent};
use crate::regexes::{
    regex_captures2, regex_found, regex_groups2, regex_is_match, regex_replace_first, regex_replaced,
};

verus! {

/// Smallest of three numbers.
pub open spec fn min3(a: int, b: int, c: int) -> int {
    if a <= b && a <= c {
        a
    } else if b <= c {
        b
    } else {
        c
    }
}

/// Edit distance: the fewest insertions, deletions and substitutions of one
/// character that turn `a` into `b`.
pub open spec fn lev(a: Seq<char>, b: Seq<char>) -> nat
    decreases a.len() + b.len(),
{
    if a.len() == 0 {
        b.len()
    } else if b.len() == 0 {
        a.len()
    } else {
        min3(
            lev(a.drop_last(), b) + 1int,
            lev(a, b.drop_last()) + 1int,
            lev(a.drop_last(), b.drop_last()) + if a.last() == b.last() { 0int } else { 1int },
        ) as nat
    }
}

pub proof fn lemma_lev_bound(a: Seq<char>, b: Seq<char>)
    ensures
        lev(a, b) <= if a.len() >= b.len() { a.len() } else { b.len() },
    decreases a.len() + b.len(),
{
    if a.len() > 0 && b.len() > 0 {
        lemma_lev_bound(a.drop_last(), b.drop_last());
    }
}

/// Edit distance of two character sequences, row by row.
pub fn edit_distance(a: &[char], b: &[char]) -> (r: usize)
    requires
        a@.len() < usize::MAX,
        b@.len() < usize::MAX,
    ensures
        r == lev(a@, b@),
{
    let n2 = b.len();
    let mut prev: Vec<usize> = Vec::new();
    let mut j: usize = 0;
    while j <= n2
        invariant
            j <= n2 + 1,
            n2 == b@.len(),
            n2 < usize::MAX,
            prev@.len() == j,
            forall|k: int| 0 <= k < j ==> prev@[k] == lev(Seq::<char>::empty(), b@.take(k)),
        decreases n2 + 1 - j,
    {
        prev.push(j);
        j = j + 1;
    }
    let mut i: usize = 0;
    while i < a.len()
        invariant
            i <= a@.len(),
            a@.len() < usize::MAX,
            n2 == b@.len(),
            n2 < usize::MAX,
            prev@.len() == n2 + 1,
            forall|k: int| 0 <= k <= n2 ==> #[trigger] prev@[k] == lev(a@.take(i as int), b@.take(k)),
        decreases a@.len() - i,
    {
        let ghost ai = a@.take(i as int);
        let ghost ai1 = a@.take(i + 1);
        assert(ai1.drop_last() == ai);
        assert(ai1.last() == a@[i as int]);
        let mut cur: Vec<usize> = Vec::new();
        assert(b@.take(0) == Seq::<char>::empty());
        cur.push(i + 1);
        let mut j: usize = 0;
        while j < n2
            invariant
                i < a@.len(),
                a@.len() < usize::MAX,
                n2 == b@.len(),
                n2 < usize::MAX,
                j <= n2,
                ai == a@.take(i as int),
                ai1 == a@.take(i + 1),
                ai1.drop_last() == ai,
                ai1.last() == a@[i as int],
                prev@.len() == n2 + 1,
                forall|k: int| 0 <= k <= n2 ==> #[trigger] prev@[k] == lev(ai, b@.take(k)),
                cur@.len() == j + 1,
                forall|k: int| 0 <= k <= j ==> #[trigger] cur@[k] == lev(ai1, b@.take(k)),
            decreases n2 - j,
        {
            let ghost bj1 = b@.take(j + 1);
            assert(bj1.drop_last() == b@.take(j as int));
            assert(bj1.last() == b@[j as int]);
            proof {
                lemma_lev_bound(ai, bj1);
                lemma_lev_bound(ai1, b@.take(j as int));
                lemma_lev_bound(ai, b@.take(j as int));
            }
            let cost: usize = if a[i] == b[j] { 0 } else { 1 };
            let del = prev[j + 1] + 1;
            let ins = cur[j] + 1;
            let sub = prev[j] + cost;
            let best = if del <= ins && del <= sub {
                del
            } else if ins <= sub {
                ins
            } else {
                sub
            };
            assert(best == lev(ai1, bj1));
            cur.push(best);
            j = j + 1;
        }
        prev = cur;
        i = i + 1;
    }
    assert(a@.take(a@.len() as int) == a@);
    assert(b@.take(n2 as int) == b@);
    prev[n2]
}

/// Levenshtein distance between two strings: the fewest single-character
/// insertions, deletions and substitutions that turn one into the other.
pub fn levenshtein_distance(s1: &str, s2: &str) -> (r: usize)
    requires
        s1@.len() < usize::MAX,
        s2@.len() < usize::MAX,
    ensures
        r == lev(s1@, s2@),
{
    let c1 = chars_of(s1);
    let c2 = chars_of(s2);
    edit_distance(c1.as_slice(), c2.as_slice())
}


// ---------------------------------------------------------------------------
// Kinds of duplicate file names
// ---------------------------------------------------------------------------

/// How a new file name suggests a copy of an existing file.
#[derive(Clone, Copy, Debug, PartialEq, Eq, Structural)]
pub enum DuplicateType {
    NotDuplicate,
    VersionVariant,
    DemoExample,
    SimpleVariant,
    BackupCopy,
    TempFile,
    NumericSuffix,
    Experimental,
    Alternative,
}

/// The kind of duplicate a base name (lower-cased) suggests; the first rule
/// that applies wins.
pub open spec fn duplicate_kind(base: Seq<char>) -> DuplicateType {
    let n = unicode_lower(base);
    if contains(n, "_v2"@) || contains(n, "_v3"@) || contains(n, "_version"@) || contains(n, "-v2"@)
        || contains(n, "-v3"@) || ends_with(n, "v2"@) || ends_with(n, "v3"@) {
        DuplicateType::VersionVariant
    } else if contains(n, "demo"@) || contains(n, "example"@) || contains(n, "sample"@) || contains(
        n,
        "test"@,
    ) {
        DuplicateType::DemoExample
    } else if contains(n, "simple"@) || contains(n, "basic"@) || contains(n, "minimal"@) || contains(
        n,
        "lite"@,
    ) {
        DuplicateType::SimpleVariant
    } else if contains(n, "backup"@) || contains(n, "copy"@) || contains(n, "_old"@) || contains(
        n,
        "_bak"@,
    ) || contains(n, "_orig"@) || ends_with(n, ".bak"@) {
        DuplicateType::BackupCopy
    } else if contains(n, "temp"@) || contains(n, "tmp"@) || starts_with(n, "~"@) || starts_with(
        n,
        ".~"@,
    ) {
        DuplicateType::TempFile
    } else if contains(n, "_new"@) || contains(n, "_updated"@) || contains(n, "_improved"@)
        || contains(n, "_fixed"@) || contains(n, "_refactored"@) {
        DuplicateType::Experimental
    } else if contains(n, "_alt"@) || contains(n, "alternative"@) || contains(n, "_other"@)
        || contains(n, "_variant"@) {
        DuplicateType::Alternative
    } else {
        DuplicateType::NotDuplicate
    }
}

/// How a base name is classified, by the markers its lower-case form holds,
/// the first group that applies winning: a version marker (`_v2`, `_v3`,
/// `_version`, `-v2`, `-v3`, or ending in `v2`/`v3`); a demo marker (`demo`,
/// `example`, `sample`, `test`); a simple marker (`simple`, `basic`,
/// `minimal`, `lite`); a backup marker (`backup`, `copy`, `_old`, `_bak`,
/// `_orig`, or ending in `.bak`); a temporary marker (`temp`, `tmp`, or
/// starting with `~` or `.~`); an experimental marker (`_new`, `_updated`,
/// `_improved`, `_fixed`, `_refactored`); an alternative marker (`_alt`,
/// `alternative`, `_other`, `_variant`). Without any, the name is unique.
pub proof fn law_duplicate_markers(base: Seq<char>)
    ensures
        ({
            let l = unicode_lower(base);
            let v = contains(l, "_v2"@) || contains(l, "_v3"@) || contains(l, "_version"@) || contains(l, "-v2"@)
                || contains(l, "-v3"@) || ends_with(l, "v2"@) || ends_with(l, "v3"@);
            let d = contains(l, "demo"@) || contains(l, "example"@) || contains(l, "sample"@) || contains(l, "test"@);
            let s = contains(l, "simple"@) || contains(l, "basic"@) || contains(l, "minimal"@) || contains(l, "lite"@);
            let b = contains(l, "backup"@) || contains(l, "copy"@) || contains(l, "_old"@) || contains(l, "_bak"@)
                || contains(l, "_orig"@) || ends_with(l, ".bak"@);
            let t = contains(l, "temp"@) || contains(l, "tmp"@) || starts_with(l, "~"@) || starts_with(l, ".~"@);
            let e = contains(l, "_new"@) || contains(l, "_updated"@) || contains(l, "_improved"@) || contains(
                l,
                "_fixed"@,
            ) || contains(l, "_refactored"@);
            let a = contains(l, "_alt"@) || contains(l, "alternative"@) || contains(l, "_other"@) || contains(
                l,
                "_variant"@,
            );
            &&& v ==> duplicate_kind(base) == DuplicateType::VersionVariant
            &&& !v && d ==> duplicate_kind(base) == DuplicateType::DemoExample
            &&& !v && !d && s ==> duplicate_kind(base) == DuplicateType::SimpleVariant
            &&& !v && !d && !s && b ==> duplicate_kind(base) == DuplicateType::BackupCopy
            &&& !v && !d && !s && !b && t ==> duplicate_kind(base) == DuplicateType::TempFile
            &&& !v && !d && !s && !b && !t && e ==> duplicate_kind(base) == DuplicateType::Experimental
            &&& !v && !d && !s && !b && !t && !e && a ==> duplicate_kind(base) == DuplicateType::Alternative
            &&& !v && !d && !s && !b && !t && !e && !a ==> duplicate_kind(base) == DuplicateType::NotDuplicate
        }),
{
}

/// Detects the duplicate pattern in a base file name.
pub fn detect_duplicate_pattern(base_name: &str) -> (r: DuplicateType)
    ensures
        r == duplicate_kind(base_name@),
{
    let lower = to_lowercase(base_name);
    let n = chars_of(lower.as_str());
    let n = n.as_slice();
    if contains_lit(n, "_v2") || contains_lit(n, "_v3") || contains_lit(n, "_version")
        || contains_lit(n, "-v2") || contains_lit(n, "-v3") || ends_with_lit(n, "v2")
        || ends_with_lit(n, "v3") {
        return DuplicateType::VersionVariant;
    }
    if contains_lit(n, "demo") || contains_lit(n, "example") || contains_lit(n, "sample")
        || contains_lit(n, "test") {
        return DuplicateType::DemoExample;
    }
    if contains_lit(n, "simple") || contains_lit(n, "basic") || contains_lit(n, "minimal")
        || contains_lit(n, "lite") {
        return DuplicateType::SimpleVariant;
    }
    if contains_lit(n, "backup") || contains_lit(n, "copy") || contains_lit(n, "_old")
        || contains_lit(n, "_bak") || contains_lit(n, "_orig") || ends_with_lit(n, ".bak") {
        return DuplicateType::BackupCopy;
    }
    if contains_lit(n, "temp") || contains_lit(n, "tmp") || starts_with_lit(n, "~")
        || starts_with_lit(n, ".~") {
        return DuplicateType::TempFile;
    }
    if contains_lit(n, "_new") || contains_lit(n, "_updated") || contains_lit(n, "_improved")
        || contains_lit(n, "_fixed") || contains_lit(n, "_refactored") {
        return DuplicateType::Experimental;
    }
    if contains_lit(n, "_alt") || contains_lit(n, "alternative") || contains_lit(n, "_other")
        || contains_lit(n, "_variant") {
        return DuplicateType::Alternative;
    }
    DuplicateType::NotDuplicate
}

/// Phrases (regexes) by which a user asks for a copy on purpose.
pub open spec fn explicit_request_patterns() -> Seq<Seq<char>> {
    seq![
        "create.*demo"@, "create.*example"@, "make.*copy"@, "create.*version"@, "create.*v2"@,
        "create.*v3"@, "create.*backup"@, "create.*alternative"@, "save.*as.*new"@,
        "duplicate.*as"@, "create.*simple.*version"@, "create.*minimal.*example"@,
        "want.*separate.*file"@, "don't.*edit.*original"@, "keep.*original"@,
        "new.*file.*called"@,
    ]
}

/// The user explicitly asked for a version, demo or copy: one of the request
/// patterns matches the lower-cased context.
pub fn is_explicit_duplicate_request(context: &str) -> (r: bool)
    ensures
        r == exists|i: int|
            0 <= i < explicit_request_patterns().len() && regex_found(
                #[trigger] explicit_request_patterns()[i],
                unicode_lower(context@),
            ),
{
    let pats: [&str; 16] = [
        "create.*demo", "create.*example", "make.*copy", "create.*version", "create.*v2",
        "create.*v3", "create.*backup", "create.*alternative", "save.*as.*new", "duplicate.*as",
        "create.*simple.*version", "create.*minimal.*example", "want.*separate.*file",
        "don't.*edit.*original", "keep.*original", "new.*file.*called",
    ];
    assert(pats@.len() == explicit_request_patterns().len());
    assert(forall|i: int| 0 <= i < pats@.len() ==> pats@[i]@ == explicit_request_patterns()[i]);
    let lower = to_lowercase(context);
    let mut i: usize = 0;
    while i < 16
        invariant
            i <= 16,
            pats@.len() == 16,
            explicit_request_patterns().len() == 16,
            forall|k: int| 0 <= k < 16 ==> (#[trigger] pats@[k])@ == explicit_request_patterns()[k],
            lower@ == unicode_lower(context@),
            forall|k: int| 0 <= k < i ==> !regex_found(#[trigger] explicit_request_patterns()[k], lower@),
        decreases 16 - i,
    {
        if regex_is_match(pats[i], lower.as_str()) {
            return true;
        }
        i = i + 1;
    }
    false
}

/// A file name split at its last `.` into base and extension; a name
/// without a `.` after its first character has no extension.
pub open spec fn split_name(f: Seq<char>) -> (Seq<char>, Seq<char>) {
    match last_index_of(f, '.') {
        Some(k) => if k > 0 {
            (f.take(k), f.skip(k + 1))
        } else {
            (f, Seq::empty())
        },
        None => (f, Seq::empty()),
    }
}

/// Splits a file name into base name and extension.
pub fn split_filename(filename: &str) -> (r: (String, String))
    ensures
        (r.0@, r.1@) == split_name(filename@),
{
    let f = chars_of(filename);
    match last_index_of_exec(f.as_slice(), '.') {
        Some(k) => {
            if k > 0 {
                let n = f.len();
                assert(k < n);
                let base = slice_chars(f.as_slice(), 0, k);
                let ext = slice_chars(f.as_slice(), k + 1, f.len());
                assert(base@ == f@.take(k as int));
                assert(ext@ == f@.skip(k + 1));
                return (string_of(base.as_slice()), string_of(ext.as_slice()));
            }
        },
        None => {},
    }
    (string_of(f.as_slice()), String::new())
}

/// The word used for a duplicate kind in messages.
pub open spec fn duplicate_label(t: DuplicateType) -> Seq<char> {
    match t {
        DuplicateType::VersionVariant => "version"@,
        DuplicateType::DemoExample => "demo/example"@,
        DuplicateType::SimpleVariant => "simplified"@,
        DuplicateType::BackupCopy => "backup/copy"@,
        DuplicateType::TempFile => "temporary"@,
        DuplicateType::NumericSuffix => "numbered copy"@,
        DuplicateType::Experimental => "experimental"@,
        DuplicateType::Alternative => "alternative"@,
        DuplicateType::NotDuplicate => "unique"@,
    }
}

/// Formats a duplicate kind for a user message.
pub fn format_duplicate_type(dtype: &DuplicateType) -> (r: &'static str)
    ensures
        r@ == duplicate_label(*dtype),
{
    match dtype {
        DuplicateType::VersionVariant => "version",
        DuplicateType::DemoExample => "demo/example",
        DuplicateType::SimpleVariant => "simplified",
        DuplicateType::BackupCopy => "backup/copy",
        DuplicateType::TempFile => "temporary",
        DuplicateType::NumericSuffix => "numbered copy",
        DuplicateType::Experimental => "experimental",
        DuplicateType::Alternative => "alternative",
        DuplicateType::NotDuplicate => "unique",
    }
}

/// The regex that finds a trailing version suffix.
pub open spec fn version_suffix_regex() -> Seq<char> {
    "[_-]?v\\d+$"@
}

/// The markers removed from a name for each kind of duplicate, in order.
pub open spec fn indicator_markers(t: DuplicateType) -> Seq<Seq<char>> {
    match t {
        DuplicateType::VersionVariant => seq!["_version2"@, "_version3"@, "-version2"@, "-version3"@],
        DuplicateType::DemoExample => seq![
            "_demo"@, "-demo"@, "demo_"@, "_example"@, "-example"@, "example_"@, "_sample"@, "-sample"@,
        ],
        DuplicateType::SimpleVariant => seq![
            "_simple"@, "-simple"@, "simple_"@, "_basic"@, "-basic"@, "_minimal"@, "-minimal"@,
        ],
        DuplicateType::BackupCopy => seq![
            "_backup"@, "-backup"@, "_copy"@, "-copy"@, "_old"@, "-old"@, "_bak"@, "_orig"@,
        ],
        DuplicateType::Experimental => seq![
            "_new"@, "-new"@, "_updated"@, "-updated"@, "_improved"@, "-improved"@, "_fixed"@,
            "_refactored"@,
        ],
        DuplicateType::Alternative => seq![
            "_alt"@, "-alt"@, "_alternative"@, "-alternative"@, "_other"@, "_variant"@,
        ],
        _ => Seq::empty(),
    }
}

/// The probable original name: the duplicate markers of the kind removed
/// (for versions, first a trailing version suffix).
pub open spec fn without_indicators(name: Seq<char>, t: DuplicateType) -> Seq<char> {
    let start = if t == DuplicateType::VersionVariant {
        regex_replaced(version_suffix_regex(), name, Seq::empty())
    } else {
        name
    };
    remove_each(start, indicator_markers(t))
}

/// Removes the duplicate markers of the given kind from a name.
pub fn remove_duplicate_indicators(name: &str, duplicate_type: &DuplicateType) -> (r: String)
    ensures
        r@ == without_indicators(name@, *duplicate_type),
{
    let start: String = if *duplicate_type == DuplicateType::VersionVariant {
        let empty = "";
        proof {
            assert(empty@ == Seq::<char>::empty()) by {
                reveal_strlit("");
            }
        }
        let pat = "[_-]?v\\d+$";
        regex_replace_first(pat, name, empty)
    } else {
        string_of(chars_of(name).as_slice())
    };
    let sc = chars_of(start.as_str());
    let markers: Vec<&str> = match duplicate_type {
        DuplicateType::VersionVariant => vec!["_version2", "_version3", "-version2", "-version3"],
        DuplicateType::DemoExample => vec![
            "_demo", "-demo", "demo_", "_example", "-example", "example_", "_sample", "-sample",
        ],
        DuplicateType::SimpleVariant => vec![
            "_simple", "-simple", "simple_", "_basic", "-basic", "_minimal", "-minimal",
        ],
        DuplicateType::BackupCopy => vec![
            "_backup", "-backup", "_copy", "-copy", "_old", "-old", "_bak", "_orig",
        ],
        DuplicateType::Experimental => vec![
            "_new", "-new", "_updated", "-updated", "_improved", "-improved", "_fixed", "_refactored",
        ],
        DuplicateType::Alternative => vec![
            "_alt", "-alt", "_alternative", "-alternative", "_other", "_variant",
        ],
        _ => Vec::new(),
    };
    assert(markers@.map_values(|x: &str| x@) =~= indicator_markers(*duplicate_type));
    let out = remove_each_exec(sc.as_slice(), markers.as_slice());
    string_of(out.as_slice())
}


/// `base` with `.ext` appended when there is an extension.
pub open spec fn with_ext(base: Seq<char>, ext: Seq<char>) -> Seq<char> {
    if ext.len() > 0 {
        base + seq!['.'] + ext
    } else {
        base
    }
}

fn with_ext_exec(base: &[char], ext: &[char]) -> (r: Vec<char>)
    ensures
        r@ == with_ext(base@, ext@),
{
    let mut r = slice_chars(base, 0, base.len());
    assert(base@.subrange(0, base@.len() as int) == base@);
    if ext.len() > 0 {
        r.push('.');
        let mut e = slice_chars(ext, 0, ext.len());
        assert(ext@.subrange(0, ext@.len() as int) == ext@);
        r.append(&mut e);
    }
    r
}

/// Index of the first of `files` that ends with `suffix`.
pub open spec fn first_ending(files: Seq<String>, suffix: Seq<char>) -> Option<int>
    decreases files.len(),
{
    if files.len() == 0 {
        None
    } else {
        match first_ending(files.drop_last(), suffix) {
            Some(i) => Some(i),
            None => if ends_with(files.last()@, suffix) {
                Some(files.len() - 1)
            } else {
                None
            },
        }
    }
}

fn first_ending_exec(files: &[String], suffix: &[char]) -> (r: Option<usize>)
    ensures
        r matches Some(i) ==> first_ending(files@, suffix@) == Some(i as int) && i < files@.len(),
        r is None ==> first_ending(files@, suffix@) is None,
{
    let mut i: usize = 0;
    while i < files.len()
        invariant
            i <= files@.len(),
            first_ending(files@.take(i as int), suffix@) is None,
        decreases files@.len() - i,
    {
        assert(files@.take(i + 1).drop_last() == files@.take(i as int));
        let fc = chars_of(files[i].as_str());
        if ends_with_exec(fc.as_slice(), suffix) {
            proof {
                lemma_first_ending_prefix(files@, i + 1);
                assert(first_ending(files@.take(i + 1), suffix@) == Some(i as int));
            }
            return Some(i);
        }
        i = i + 1;
    }
    assert(files@.take(files@.len() as int) == files@);
    None
}

proof fn lemma_first_ending_prefix(files: Seq<String>, n: int)
    requires
        0 <= n <= files.len(),
    ensures
        forall|suffix: Seq<char>|
            #[trigger] first_ending(files.take(n), suffix) is Some ==> first_ending(files, suffix)
                == first_ending(files.take(n), suffix),
    decreases files.len() - n,
{
    if n < files.len() {
        lemma_first_ending_prefix(files, n + 1);
        assert(files.take(n + 1).drop_last() == files.take(n));
        assert forall|suffix: Seq<char>|
            #[trigger] first_ending(files.take(n), suffix) is Some implies first_ending(files, suffix)
                == first_ending(files.take(n), suffix) by {
            assert(first_ending(files.take(n + 1), suffix) == first_ending(files.take(n), suffix));
        }
    } else {
        assert(files.take(n) == files);
    }
}

/// The regex for a name that ends in a number.
pub open spec fn numeric_suffix_regex() -> Seq<char> {
    "^(.+?)(\\d+)$"@
}

/// The file that a numbered name (`file2`, `file3`, ...) copies: for a
/// number above 1, the first existing file ending with the unnumbered name,
/// or else, for a number above 2, the first ending with the name numbered 1.
pub open spec fn numeric_original(base: Seq<char>, ext: Seq<char>, files: Seq<String>) -> Option<Seq<char>> {
    match regex_groups2(numeric_suffix_regex(), base) {
        None => None,
        Some((b, num)) => match parse_i32(num) {
            Some(n) => if n > 1 {
                match first_ending(files, with_ext(b, ext)) {
                    Some(i) => Some(files[i]@),
                    None => if n > 2 {
                        match first_ending(files, with_ext(b + seq!['1'], ext)) {
                            Some(i) => Some(files[i]@),
                            None => None,
                        }
                    } else {
                        None
                    },
                }
            } else {
                None
            },
            None => None,
        },
    }
}

/// Finds the file that a numbered copy (such as `config2.json`) duplicates.
pub fn find_numeric_duplicate(base_name: &str, extension: &str, existing_files: &[String]) -> (r: Option<String>)
    ensures
        match r {
            Some(f) => numeric_original(base_name@, extension@, existing_files@) == Some(f@),
            None => numeric_original(base_name@, extension@, existing_files@) is None,
        },
{
    let pat = "^(.+?)(\\d+)$";
    let (b, num) = match regex_captures2(pat, base_name) {
        Some(c) => c,
        None => {
            return None;
        },
    };
    let numc = chars_of(num.as_str());
    let n = match parse_i32_exec(numc.as_slice()) {
        Some(n) => n,
        None => {
            return None;
        },
    };
    if n <= 1 {
        return None;
    }
    let bc = chars_of(b.as_str());
    let ec = chars_of(extension);
    let original = with_ext_exec(bc.as_slice(), ec.as_slice());
    if let Some(i) = first_ending_exec(existing_files, original.as_slice()) {
        return Some(existing_files[i].clone());
    }
    if n > 2 {
        let mut b1 = slice_chars(bc.as_slice(), 0, bc.len());
        assert(bc@.subrange(0, bc@.len() as int) == bc@);
        b1.push('1');
        assert(b1@ == b@ + seq!['1']);
        let prev = with_ext_exec(b1.as_slice(), ec.as_slice());
        if let Some(i) = first_ending_exec(existing_files, prev.as_slice()) {
            return Some(existing_files[i].clone());
        }
    }
    None
}

/// `path` with `\` separators turned into `/`.
pub fn normalize_path_separators(path: &str) -> (r: String)
    ensures
        r@ == slashes(path@),
{
    let v = slashes_exec(chars_of(path).as_slice());
    string_of(v.as_slice())
}

/// The file name of a path, if it has one.
pub fn extract_filename(file_path: &str) -> (r: Option<String>)
    ensures
        match r {
            Some(n) => file_name_of(file_path@) == Some(n@),
            None => file_name_of(file_path@) is None,
        },
{
    path_file_name(file_path)
}

/// Whether a file lies in (or below) a directory. With the canonical forms
/// of both (when the file system could give them) and a parent of the file,
/// that parent is compared with the directory component-wise; otherwise the
/// textual parent, with `/` separators, must equal the directory or continue
/// it after a separator.
pub open spec fn in_directory(
    file: Seq<char>,
    dir: Seq<char>,
    canonical_file: Option<Seq<char>>,
    canonical_dir: Option<Seq<char>>,
) -> bool {
    let canonical_parent = match (canonical_file, canonical_dir) {
        (Some(cf), Some(_)) => parent_of(cf),
        _ => None,
    };
    match canonical_parent {
        Some(p) => at_or_under(p, canonical_dir->0),
        None => match parent_of(file) {
            None => false,
            Some(fp) => {
                let a = slashes(fp);
                let d = slashes(dir);
                a == d || (starts_with(a, d) && (a.len() == d.len() || a[d.len() as int] == '/'
                    || a[d.len() as int] == '\\'))
            },
        },
    }
}

/// Is the file in the directory? The canonical paths come from the caller,
/// who asked the file system for them (`None` where that failed).
pub fn is_file_in_directory(
    file_path: &str,
    directory: &str,
    canonical_file: Option<&str>,
    canonical_dir: Option<&str>,
) -> (r: bool)
    ensures
        r == in_directory(
            file_path@,
            directory@,
            match canonical_file {
                Some(c) => Some(c@),
                None => None,
            },
            match canonical_dir {
                Some(c) => Some(c@),
                None => None,
            },
        ),
{
    if let (Some(cf), Some(cd)) = (canonical_file, canonical_dir) {
        if let Some(fp) = path_parent(cf) {
            return path_at_or_under(fp.as_str(), cd);
        }
    }
    let fp = match path_parent(file_path) {
        Some(p) => p,
        None => {
            return false;
        },
    };
    let a = slashes_exec(chars_of(fp.as_str()).as_slice());
    let d = slashes_exec(chars_of(directory).as_slice());
    if chars_eq(a.as_slice(), d.as_slice()) {
        return true;
    }
    if starts_with_exec(a.as_slice(), d.as_slice()) {
        if a.len() == d.len() || a[d.len()] == '/' || a[d.len()] == '\\' {
            return true;
        }
    }
    false
}


/// Index of the first `true` in `flags`.
pub open spec fn first_true(flags: Seq<bool>) -> Option<int>
    decreases flags.len(),
{
    if flags.len() == 0 {
        None
    } else {
        match first_true(flags.drop_last()) {
            Some(i) => Some(i),
            None => if flags.last() {
                Some(flags.len() - 1)
            } else {
                None
            },
        }
    }
}

/// Among the first `n` files whose flag is set, the one with the fewest
/// separators, the earliest among equals (what a stable sort by depth puts first).
pub open spec fn shallowest_index(files: Seq<String>, flags: Seq<bool>, n: int) -> Option<int>
    decreases n,
{
    if n <= 0 {
        None
    } else {
        let p = shallowest_index(files, flags, n - 1);
        if !flags[n - 1] {
            p
        } else {
            match p {
                None => Some(n - 1),
                Some(k) => if sep_count(files[n - 1]@) < sep_count(files[k]@) {
                    Some(n - 1)
                } else {
                    Some(k)
                },
            }
        }
    }
}

/// The shallowest pick is a flagged file with no flagged file shallower,
/// and none as shallow before it; there is a pick exactly when some file is flagged.
pub proof fn law_shallowest(files: Seq<String>, flags: Seq<bool>, n: int)
    requires
        0 <= n <= files.len(),
        n <= flags.len(),
    ensures
        match shallowest_index(files, flags, n) {
            Some(k) => 0 <= k < n && flags[k] && forall|j: int|
                0 <= j < n && flags[j] ==> sep_count(files[k]@) < sep_count(#[trigger] files[j]@) || (
                sep_count(files[k]@) == sep_count(files[j]@) && k <= j),
            None => forall|j: int| 0 <= j < n ==> !#[trigger] flags[j],
        },
    decreases n,
{
    if n > 0 {
        law_shallowest(files, flags, n - 1);
    }
}

/// Which files are named exactly `target`.
pub open spec fn exact_flags(files: Seq<String>, target: Seq<char>) -> Seq<bool> {
    Seq::new(files.len(), |i: int| file_name_of(files[i]@) == Some(target))
}

/// Which files are named exactly `target` and lie in `directory`.
pub open spec fn here_flags(
    files: Seq<String>,
    target: Seq<char>,
    directory: Option<Seq<char>>,
    canonical_files: Seq<Option<Seq<char>>>,
    canonical_dir: Option<Seq<char>>,
) -> Seq<bool> {
    Seq::new(
        files.len(),
        |i: int|
            file_name_of(files[i]@) == Some(target) && directory is Some && in_directory(
                files[i]@,
                directory->0,
                canonical_files[i],
                canonical_dir,
            ),
    )
}

/// Which files have a name whose part before the first `.`, lower-cased, is `lower_base`.
pub open spec fn similar_flags(files: Seq<String>, lower_base: Seq<char>) -> Seq<bool> {
    Seq::new(
        files.len(),
        |i: int|
            match file_name_of(files[i]@) {
                Some(nm) => unicode_lower(split(nm, '.')[0]) == lower_base,
                None => false,
            },
    )
}

/// The file a duplicate name most likely copies: the exact original name in
/// the same directory (first such file), else the shallowest file anywhere
/// with exactly that name, else the shallowest file whose name before its
/// first `.` equals the original base name ignoring case.
pub open spec fn original_file(
    base: Seq<char>,
    ext: Seq<char>,
    directory: Option<Seq<char>>,
    files: Seq<String>,
    t: DuplicateType,
    canonical_files: Seq<Option<Seq<char>>>,
    canonical_dir: Option<Seq<char>>,
) -> Option<Seq<char>> {
    let probable = without_indicators(base, t);
    let target = with_ext(probable, ext);
    match first_true(here_flags(files, target, directory, canonical_files, canonical_dir)) {
        Some(i) => Some(files[i]@),
        None => match shallowest_index(files, exact_flags(files, target), files.len() as int) {
            Some(i) => Some(files[i]@),
            None => match shallowest_index(
                files,
                similar_flags(files, unicode_lower(probable)),
                files.len() as int,
            ) {
                Some(i) => Some(files[i]@),
                None => None,
            },
        },
    }
}

/// The texts of optional strings.
pub open spec fn canonical_views(v: Seq<Option<String>>) -> Seq<Option<Seq<char>>> {
    Seq::new(
        v.len(),
        |i: int|
            match v[i] {
                Some(c) => Some(c@),
                None => None,
            },
    )
}

/// The text of an optional string slice.
pub open spec fn opt_view(o: Option<&str>) -> Option<Seq<char>> {
    match o {
        Some(c) => Some(c@),
        None => None,
    }
}

fn shallowest_exec(files: &[String], flags: &Vec<bool>) -> (r: Option<usize>)
    requires
        flags@.len() == files@.len(),
    ensures
        r matches Some(k) ==> shallowest_index(files@, flags@, files@.len() as int) == Some(k as int) && k < files@.len(),
        r is None ==> shallowest_index(files@, flags@, files@.len() as int) is None,
{
    let mut best: Option<usize> = None;
    let mut best_depth: usize = 0;
    let mut i: usize = 0;
    while i < files.len()
        invariant
            i <= files@.len(),
            flags@.len() == files@.len(),
            match best {
                Some(k) => shallowest_index(files@, flags@, i as int) == Some(k as int) && k < i
                    && best_depth == sep_count(files@[k as int]@),
                None => shallowest_index(files@, flags@, i as int) is None,
            },
        decreases files@.len() - i,
    {
        if flags[i] {
            let d = sep_count_exec(chars_of(files[i].as_str()).as_slice());
            match best {
                None => {
                    best = Some(i);
                    best_depth = d;
                },
                Some(k) => {
                    if d < best_depth {
                        best = Some(i);
                        best_depth = d;
                    }
                },
            }
        }
        i = i + 1;
    }
    best
}

/// Finds the file that a duplicate name most likely copies (see
/// `original_file`). `canonical_files[i]` is the canonical form of
/// `existing_files[i]` and `canonical_dir` that of the directory, as the
/// file system gave them (`None` where it could not).
pub fn find_original_file(
    base_name: &str,
    extension: &str,
    directory: Option<&str>,
    existing_files: &[String],
    duplicate_type: &DuplicateType,
    canonical_files: &[Option<String>],
    canonical_dir: Option<&str>,
) -> (r: Option<String>)
    requires
        canonical_files@.len() == existing_files@.len(),
    ensures
        ({
            let cf = canonical_views(canonical_files@);
            let cd = opt_view(canonical_dir);
            let dir = opt_view(directory);
            match r {
                Some(f) => original_file(base_name@, extension@, dir, existing_files@, *duplicate_type, cf, cd)
                    == Some(f@),
                None => original_file(base_name@, extension@, dir, existing_files@, *duplicate_type, cf, cd)
                    is None,
            }
        }),
{
    let ghost cf = canonical_views(canonical_files@);
    let ghost cd = opt_view(canonical_dir);
    let ghost dir = opt_view(directory);
    let probable = remove_duplicate_indicators(base_name, duplicate_type);
    let pc = chars_of(probable.as_str());
    let ec = chars_of(extension);
    let target = with_ext_exec(pc.as_slice(), ec.as_slice());
    let ghost probable_v = without_indicators(base_name@, *duplicate_type);
    assert(target@ == with_ext(probable_v, extension@));
    let ghost exact_s = exact_flags(existing_files@, target@);
    let ghost here_s = here_flags(existing_files@, target@, dir, cf, cd);
    let probable_lower = to_lowercase(probable.as_str());
    let plc = chars_of(probable_lower.as_str());
    let ghost similar_s = similar_flags(existing_files@, unicode_lower(probable_v));
    let mut exact: Vec<bool> = Vec::new();
    let mut similar: Vec<bool> = Vec::new();
    let mut i: usize = 0;
    while i < existing_files.len()
        invariant
            i <= existing_files@.len(),
            canonical_files@.len() == existing_files@.len(),
            exact@.len() == i,
            similar@.len() == i,
            probable@ == probable_v,
            probable_v == without_indicators(base_name@, *duplicate_type),
            target@ == with_ext(probable_v, extension@),
            plc@ == unicode_lower(probable_v),
            forall|k: int| 0 <= k < i ==> exact@[k] == exact_s[k],
            forall|k: int| 0 <= k < i ==> similar@[k] == similar_s[k],
            forall|k: int| 0 <= k < i ==> !here_s[k],
            exact_s == exact_flags(existing_files@, target@),
            similar_s == similar_flags(existing_files@, unicode_lower(probable_v)),
            here_s == here_flags(existing_files@, target@, dir, cf, cd),
            cf == canonical_views(canonical_files@),
            cd == opt_view(canonical_dir),
            dir == opt_view(directory),
            first_true(here_s.take(i as int)) is None,
        decreases existing_files@.len() - i,
    {
        assert(here_s.take(i + 1).drop_last() == here_s.take(i as int));
        let name = path_file_name(existing_files[i].as_str());
        let (is_exact, is_similar) = match &name {
            Some(n) => {
                let nc = chars_of(n.as_str());
                let e = chars_eq(nc.as_slice(), target.as_slice());
                proof {
                    crate::strings::lemma_split_len(nc@, '.');
                }
                let parts = split_chars(nc.as_slice(), '.');
                let first = string_of(parts[0].as_slice());
                let fl = to_lowercase(first.as_str());
                let flc = chars_of(fl.as_str());
                (e, chars_eq(flc.as_slice(), plc.as_slice()))
            },
            None => (false, false),
        };
        assert(is_exact == exact_s[i as int]);
        assert(is_similar == similar_s[i as int]);
        if is_exact {
            if let Some(d) = directory {
                let c = match &canonical_files[i] {
                    Some(c) => Some(c.as_str()),
                    None => None,
                };
                if is_file_in_directory(existing_files[i].as_str(), d, c, canonical_dir) {
                    assert(here_s[i as int]);
                    assert(first_true(here_s.take(i + 1)) == Some(i as int));
                    proof {
                        lemma_first_true_prefix(here_s, i + 1);
                        assert(first_true(here_s) == Some(i as int));
                        assert(here_s == here_flags(existing_files@, with_ext(without_indicators(base_name@, *duplicate_type), extension@), dir, cf, cd));
                        assert(original_file(base_name@, extension@, dir, existing_files@, *duplicate_type, cf, cd)
                            == Some(existing_files@[i as int]@));
                    }
                    let res = existing_files[i].clone();
                    assert(res@ == existing_files@[i as int]@);
                    return Some(res);
                }
            }
        }
        assert(!here_s[i as int]);
        exact.push(is_exact);
        similar.push(is_similar);
        i = i + 1;
    }
    assert(here_s.take(existing_files@.len() as int) == here_s);
    assert(exact@ == exact_s);
    assert(similar@ == similar_s);
    if let Some(k) = shallowest_exec(existing_files, &exact) {
        return Some(existing_files[k].clone());
    }
    if let Some(k) = shallowest_exec(existing_files, &similar) {
        return Some(existing_files[k].clone());
    }
    None
}

proof fn lemma_first_true_prefix(flags: Seq<bool>, n: int)
    requires
        0 <= n <= flags.len(),
        first_true(flags.take(n)) is Some,
    ensures
        first_true(flags) == first_true(flags.take(n)),
    decreases flags.len() - n,
{
    if n < flags.len() {
        assert(flags.take(n + 1).drop_last() == flags.take(n));
        lemma_first_true_prefix(flags, n + 1);
    } else {
        assert(flags.take(n) == flags);
    }
}

// ---------------------------------------------------------------------------
// The verdict of the name rules
// ---------------------------------------------------------------------------

/// What the name rules make of a new file, before names are compared for
/// likeness: the user asked for the variant; it is a variant of an existing
/// file by its name's kind; it is a numbered copy of an existing file; or
/// none of these.
pub enum NameVerdict {
    Requested,
    Variant(DuplicateType, String),
    Numbered(String),
    Unmatched,
}

/// The user's words ask for a variant (see `is_explicit_duplicate_request`).
pub open spec fn explicit_request(context: Seq<char>) -> bool {
    exists|i: int|
        0 <= i < explicit_request_patterns().len() && regex_found(
            #[trigger] explicit_request_patterns()[i],
            unicode_lower(context),
        )
}

/// The name rules applied to a new file path, in order: an explicit request
/// from the user allows it; a name of a duplicate kind whose original exists
/// is a variant of it; a numbered name whose original exists is a copy of
/// it. `canonical_files` and `canonical_dir` are the resolved forms of the
/// existing files and of the new file's directory, where they resolve.
pub fn name_verdict(
    new_file_path: &str,
    existing_files: &[String],
    user_context: Option<&str>,
    canonical_files: &[Option<String>],
    canonical_dir: Option<&str>,
) -> (r: NameVerdict)
    requires
        canonical_files@.len() == existing_files@.len(),
    ensures
        ({
            let name = match file_name_of(new_file_path@) {
                Some(n) => n,
                None => Seq::empty(),
            };
            let parts = split_name(name);
            let kind = duplicate_kind(parts.0);
            let requested = match user_context {
                Some(c) => explicit_request(c@),
                None => false,
            };
            let original = if kind == DuplicateType::NotDuplicate {
                None
            } else {
                original_file(
                    parts.0,
                    parts.1,
                    parent_of(new_file_path@),
                    existing_files@,
                    kind,
                    canonical_views(canonical_files@),
                    opt_view(canonical_dir),
                )
            };
            let numbered = numeric_original(parts.0, parts.1, existing_files@);
            match r {
                NameVerdict::Requested => requested,
                NameVerdict::Variant(t, f) => !requested && t == kind && original == Some(f@),
                NameVerdict::Numbered(f) => !requested && original is None && numbered == Some(f@),
                NameVerdict::Unmatched => !requested && original is None && numbered is None,
            }
        }),
{
    let name = match path_file_name(new_file_path) {
        Some(n) => n,
        None => String::new(),
    };
    match user_context {
        Some(c) => {
            if is_explicit_duplicate_request(c) {
                return NameVerdict::Requested;
            }
        },
        None => {},
    }
    let (base, ext) = split_filename(name.as_str());
    let kind = detect_duplicate_pattern(base.as_str());
    if kind != DuplicateType::NotDuplicate {
        let dir = path_parent(new_file_path);
        let d: Option<&str> = match &dir {
            Some(x) => Some(x.as_str()),
            None => None,
        };
        match find_original_file(base.as_str(), ext.as_str(), d, existing_files, &kind, canonical_files, canonical_dir) {
            Some(f) => {
                return NameVerdict::Variant(kind, f);
            },
            None => {},
        }
    }
    match find_numeric_duplicate(base.as_str(), ext.as_str(), existing_files) {
        Some(f) => NameVerdict::Numbered(f),
        None => NameVerdict::Unmatched,
    }
}

} // verus!
