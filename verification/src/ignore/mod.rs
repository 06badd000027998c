use vstd::prelude::*;
use crate::strings::{
    chars_eq, chars_of, contains, contains_exec, ends_with, ends_with_exec, find_from,
    find_from_exec, has_char, has_char_exec, lemma_find_from_spec, lemma_split_len, lines, lits,
    occurs_at, split, split_chars, starts_with, starts_with_exec, string_of, trim, lines_of,
    trim_chars, slashes, slashes_exec,
};
use crate::paths::{file_name_of, path_file_name, path_strip_prefix, relative_to};
use crate::globs::{glob_accepted, glob_compiles, globset_build_ok, globset_builds, globset_hit, globset_is_match};

verus! {

// ---------------------------------------------------------------------------
// Wildcard patterns (`*` matches any run of characters)
// ---------------------------------------------------------------------------

/// `at` places the pieces `ps` in `t`: each piece occurs at its place, the
/// first at or after `pos`, each after the end of the one before, and the
/// last one ends `t`.
pub open spec fn placed(t: Seq<char>, pos: int, ps: Seq<Seq<char>>, at: Seq<int>) -> bool {
    &&& at.len() == ps.len()
    &&& ps.len() > 0 ==> pos <= at[0]
    &&& forall|i: int| 0 <= i < ps.len() ==> occurs_at(t, ps[i], #[trigger] at[i])
    &&& forall|i: int, j: int|
        0 <= i < j < ps.len() ==> #[trigger] at[i] + ps[i].len() <= #[trigger] at[j]
    &&& ps.len() > 0 ==> at[ps.len() - 1] + ps[ps.len() - 1].len() == t.len()
}

/// The pieces can be placed in `t` after `pos`.
pub open spec fn pieces_at(t: Seq<char>, pos: int, ps: Seq<Seq<char>>) -> bool {
    exists|at: Seq<int>| placed(t, pos, ps, at)
}

/// `text` matches `pattern`: without `*` the two are equal; with `*`, the
/// text is the literal pieces between the stars in order, the first at the
/// start and the last at the end, with anything between them.
pub open spec fn glob(text: Seq<char>, pattern: Seq<char>) -> bool {
    if !has_char(pattern, '*') {
        text == pattern
    } else {
        let parts = split(pattern, '*');
        starts_with(text, parts[0]) && pieces_at(text, parts[0].len() as int, parts.drop_first())
    }
}

proof fn lemma_split_without(s: Seq<char>, c: char)
    requires
        forall|i: int| 0 <= i < s.len() ==> s[i] != c,
    ensures
        split(s, c) == seq![s],
        split(seq![c] + s, c) == seq![Seq::<char>::empty(), s],
        split(s + seq![c], c) == seq![s, Seq::<char>::empty()],
    decreases s.len(),
{
    if s.len() == 0 {
        assert(seq![c] + s =~= seq![c]);
        assert(s + seq![c] =~= seq![c]);
        assert(seq![c].drop_last() =~= Seq::<char>::empty());
        assert(s =~= Seq::<char>::empty());
        assert(split(Seq::<char>::empty(), c) =~= seq![Seq::<char>::empty()]);
        assert(seq![c].last() == c);
        assert(split(seq![c], c) =~= seq![Seq::<char>::empty(), Seq::<char>::empty()]);
    } else {
        lemma_split_without(s.drop_last(), c);
        assert(s[s.len() - 1] != c);
        let cs = seq![c] + s;
        assert(cs.drop_last() =~= seq![c] + s.drop_last());
        assert(cs.last() == s.last());
        assert(s.drop_last().push(s.last()) =~= s);
        assert(split(s, c) =~= seq![s]);
        assert(split(cs, c) =~= seq![Seq::<char>::empty(), s]);
        assert((s + seq![c]).drop_last() =~= s);
    }
}

/// A wildcard `*x` (with no other `*`) matches exactly the texts that end
/// with `x`, and `x*` exactly those that start with `x`.
pub proof fn law_wildcard_ends(text: Seq<char>, x: Seq<char>)
    requires
        forall|i: int| 0 <= i < x.len() ==> x[i] != '*',
    ensures
        glob(text, seq!['*'] + x) <==> ends_with(text, x),
        glob(text, x + seq!['*']) <==> starts_with(text, x),
{
    lemma_split_without(x, '*');
    let p1 = seq!['*'] + x;
    let p2 = x + seq!['*'];
    assert(p1[0] == '*');
    assert(p2[x.len() as int] == '*');
    assert(has_char(p1, '*'));
    assert(has_char(p2, '*'));
    let e = Seq::<char>::empty();
    assert(text.subrange(0, 0) =~= e);
    assert(seq![e, x].drop_first() =~= seq![x]);
    assert(seq![x, e].drop_first() =~= seq![e]);
    if ends_with(text, x) {
        let at = seq![text.len() - x.len()];
        assert(placed(text, 0, seq![x], at));
    }
    if pieces_at(text, 0, seq![x]) {
        let at = choose|at: Seq<int>| placed(text, 0, seq![x], at);
        assert(occurs_at(text, seq![x][0], at[0]));
    }
    if starts_with(text, x) {
        let at = seq![text.len() as int];
        assert(text.subrange(text.len() as int, text.len() as int) =~= e);
        assert(placed(text, x.len() as int, seq![e], at));
    }
}

/// Taking the leftmost place of the next piece loses no match.
proof fn lemma_greedy(t: Seq<char>, pos: int, ps: Seq<Seq<char>>)
    requires
        ps.len() >= 2,
        0 <= pos,
    ensures
        find_from(t, ps[0], pos) matches Some(f) ==> pieces_at(t, pos, ps) == pieces_at(
            t,
            f + ps[0].len(),
            ps.drop_first(),
        ),
        find_from(t, ps[0], pos) is None ==> !pieces_at(t, pos, ps),
{
    lemma_find_from_spec(t, ps[0], pos);
    let rest = ps.drop_first();
    match find_from(t, ps[0], pos) {
        Some(f) => {
            if pieces_at(t, pos, ps) {
                let at = choose|at: Seq<int>| #[trigger] placed(t, pos, ps, at);
                assert(occurs_at(t, ps[0], at[0]));
                assert(f <= at[0]);
                let at2 = at.drop_first();
                assert forall|i: int| 0 <= i < rest.len() implies occurs_at(t, rest[i], #[trigger] at2[i]) by {
                    assert(at2[i] == at[i + 1]);
                    assert(occurs_at(t, ps[i + 1], at[i + 1]));
                }
                assert forall|i: int, j: int|
                    0 <= i < j < rest.len() implies #[trigger] at2[i] + rest[i].len() <= #[trigger] at2[j] by {
                    assert(at[i + 1] + ps[i + 1].len() <= at[j + 1]);
                }
                assert(at[0] + ps[0].len() <= at[1]);
                assert(placed(t, f + ps[0].len(), rest, at2));
            }
            if pieces_at(t, f + ps[0].len(), rest) {
                let at2 = choose|at2: Seq<int>| #[trigger] placed(t, f + ps[0].len(), rest, at2);
                let at = seq![f].add(at2);
                assert forall|i: int| 0 <= i < ps.len() implies occurs_at(t, ps[i], #[trigger] at[i]) by {
                    if i > 0 {
                        assert(at[i] == at2[i - 1]);
                        assert(occurs_at(t, rest[i - 1], at2[i - 1]));
                    }
                }
                assert forall|i: int, j: int|
                    0 <= i < j < ps.len() implies #[trigger] at[i] + ps[i].len() <= #[trigger] at[j] by {
                    if i > 0 {
                        assert(at2[i - 1] + rest[i - 1].len() <= at2[j - 1]);
                    } else {
                        assert(at[j] == at2[j - 1]);
                        if j > 1 {
                            assert(at2[0] + rest[0].len() <= at2[j - 1]);
                        }
                    }
                }
                assert(at[ps.len() - 1] == at2[rest.len() - 1]);
                assert(placed(t, pos, ps, at));
            }
        },
        None => {
            if pieces_at(t, pos, ps) {
                let at = choose|at: Seq<int>| #[trigger] placed(t, pos, ps, at);
                assert(occurs_at(t, ps[0], at[0]));
            }
        },
    }
}

/// A single piece fits after `pos` exactly when it ends `t` and starts at or after `pos`.
proof fn lemma_last_piece(t: Seq<char>, pos: int, ps: Seq<Seq<char>>)
    requires
        ps.len() == 1,
    ensures
        pieces_at(t, pos, ps) == (ps[0].len() <= t.len() - pos && ends_with(t, ps[0])),
{
    if ps[0].len() <= t.len() - pos && ends_with(t, ps[0]) {
        let at = seq![t.len() - ps[0].len()];
        assert(placed(t, pos, ps, at));
    }
    if pieces_at(t, pos, ps) {
        let at = choose|at: Seq<int>| #[trigger] placed(t, pos, ps, at);
        assert(occurs_at(t, ps[0], at[0]));
        assert(t.subrange(t.len() - ps[0].len(), t.len() as int) == ps[0]);
    }
}

/// Matches `text` against `pattern` by taking each piece at its leftmost place.
pub fn glob_match_chars(text: &[char], pattern: &[char]) -> (r: bool)
    ensures
        r == glob(text@, pattern@),
{
    if !has_char_exec(pattern, '*') {
        return chars_eq(text, pattern);
    }
    proof {
        lemma_split_len(pattern@, '*');
    }
    let parts = split_chars(pattern, '*');
    let ghost sp = split(pattern@, '*');
    if !starts_with_exec(text, parts[0].as_slice()) {
        return false;
    }
    let mut pos: usize = parts[0].len();
    let mut i: usize = 1;
    while i < parts.len()
        invariant
            parts@.len() == sp.len(),
            sp.len() >= 2,
            forall|j: int| 0 <= j < parts@.len() ==> (#[trigger] parts@[j])@ == sp[j],
            1 <= i < parts@.len(),
            pos <= text@.len(),
            glob(text@, pattern@) == pieces_at(text@, pos as int, sp.skip(i as int)),
            has_char(pattern@, '*'),
            sp == split(pattern@, '*'),
        decreases parts@.len() - i,
    {
        let part = &parts[i];
        let ghost ps = sp.skip(i as int);
        assert(ps[0] == part@);
        if i == parts.len() - 1 {
            assert(ps.len() == 1);
            proof {
                lemma_last_piece(text@, pos as int, ps);
            }
            return part.len() <= text.len() - pos && ends_with_exec(text, part.as_slice());
        }
        assert(ps.len() >= 2);
        assert(ps.drop_first() == sp.skip(i + 1));
        proof {
            lemma_find_from_spec(text@, part@, pos as int);
            lemma_greedy(text@, pos as int, ps);
        }
        match find_from_exec(text, part.as_slice(), pos) {
            Some(f) => {
                assert(occurs_at(text@, part@, f as int));
                assert(f + part@.len() <= text@.len());
                assert(text@.len() == text.len());
                pos = f + part.len();
            },
            None => {
                return false;
            },
        }
        i = i + 1;
    }
    true
}

/// `glob_match`: wildcard matching where `*` stands for any run of characters.
pub fn glob_match(text: &str, pattern: &str) -> (r: bool)
    ensures
        r == glob(text@, pattern@),
{
    let t = chars_of(text);
    let p = chars_of(pattern);
    glob_match_chars(t.as_slice(), p.as_slice())
}


// ---------------------------------------------------------------------------
// Ignore patterns of a project
// ---------------------------------------------------------------------------

/// `x` is one of the strings in `v`.
pub open spec fn holds_str(v: Seq<String>, x: Seq<char>) -> bool {
    exists|i: int| 0 <= i < v.len() && (#[trigger] v[i])@ == x
}

/// `x` is among the first `n` sequences of `v`.
pub open spec fn in_first(v: Seq<Seq<char>>, n: int, x: Seq<char>) -> bool {
    exists|i: int| 0 <= i < n && i < v.len() && #[trigger] v[i] == x
}

/// No two strings of `v` are equal.
pub open spec fn distinct_strs(v: Seq<String>) -> bool {
    forall|i: int, j: int| 0 <= i < j < v.len() ==> (#[trigger] v[i])@ != (#[trigger] v[j])@
}

/// Ignore patterns of a project: built-in ones plus the project's own `.gitignore`.
pub struct Patterns {
    pub root: String,
    pub entries: Vec<String>,
}

impl Patterns {
    /// `e` is one of the entries.
    pub open spec fn has_entry(&self, e: Seq<char>) -> bool {
        holds_str(self.entries@, e)
    }

    /// No entry occurs twice (the entries form a set).
    pub open spec fn wf(&self) -> bool {
        distinct_strs(self.entries@)
    }
}

/// Adds `e` unless an equal entry is already there.
fn insert_entry(entries: &mut Vec<String>, e: String)
    requires
        distinct_strs(old(entries)@),
    ensures
        distinct_strs(final(entries)@),
        forall|x: Seq<char>|
            #[trigger] holds_str(final(entries)@, x) <==> (holds_str(old(entries)@, x) || x == e@),
{
    let mut k: usize = 0;
    while k < entries.len()
        invariant
            k <= entries@.len(),
            entries@ == old(entries)@,
            distinct_strs(entries@),
            forall|i: int| 0 <= i < k ==> (#[trigger] entries@[i])@ != e@,
        decreases entries@.len() - k,
    {
        if entries[k] == e {
            return;
        }
        k = k + 1;
    }
    let ghost before = entries@;
    entries.push(e);
    assert forall|x: Seq<char>| #[trigger] holds_str(entries@, x) implies (holds_str(before, x) || x == e@) by {
        let i = choose|i: int| 0 <= i < entries@.len() && (#[trigger] entries@[i])@ == x;
        if i < before.len() {
            assert(before[i]@ == x);
        }
    }
    assert forall|x: Seq<char>| holds_str(before, x) implies #[trigger] holds_str(entries@, x) by {
        let i = choose|i: int| 0 <= i < before.len() && (#[trigger] before[i])@ == x;
        assert(entries@[i]@ == x);
    }
    assert(entries@[before.len() as int]@ == e@);
}

/// The built-in ignore patterns (build outputs, package managers, VCS, editors,
/// temporary files, language artefacts, OS files).
pub open spec fn builtin_patterns() -> Seq<Seq<char>> {
    seq![
        "target/"@, "build/"@, "dist/"@, "out/"@, "_build/"@, "bin/"@, "obj/"@, "coverage/"@,
        ".coverage/"@, ".next/"@, ".nuxt/"@, ".output/"@, ".vercel/"@, "node_modules/"@, ".npm/"@,
        ".yarn/"@, ".pnpm/"@, ".cargo/"@, "vendor/"@, ".git/"@, ".svn/"@, ".hg/"@, ".bzr/"@,
        ".vscode/"@, ".idea/"@, "*.swp"@, "*.swo"@, "*~"@, ".DS_Store"@, "Thumbs.db"@, "tmp/"@,
        "temp/"@, ".tmp/"@, ".temp/"@, "*.tmp"@, "*.temp"@, "*.log"@, "*.bak"@, "*.backup"@,
        "*.cache"@, "*.pid"@, "__pycache__/"@, "*.pyc"@, "*.pyo"@, ".pytest_cache/"@, "*.class"@,
        ".gradle/"@, ".maven/"@, ".nuget/"@, "packages/"@, "*.o"@, "*.obj"@, "*.pdb"@, "*.exe"@,
        "*.dll"@, "*.so"@, "*.dylib"@, "*.a"@, "*.lib"@, "*.rlib"@, "*.rmeta"@, "*.wasm"@,
        "*.bc"@, ".Trash/"@, "$RECYCLE.BIN/"@,
    ]
}

/// The patterns every project ignores: build output (`target/`, `build/`,
/// `dist/`, ...), dependencies (`node_modules/`, `vendor/`, ...), version
/// control and editor folders, temporary files, logs, caches and compiled
/// objects.
pub open spec fn default_ignore_patterns() -> Seq<Seq<char>> {
    seq![
        "tar"@ + "get/"@,
        "bui"@ + "ld/"@,
        "di"@ + "st/"@,
        "ou"@ + "t/"@,
        "_bu"@ + "ild/"@,
        "bi"@ + "n/"@,
        "ob"@ + "j/"@,
        "cove"@ + "rage/"@,
        ".cove"@ + "rage/"@,
        ".ne"@ + "xt/"@,
        ".nu"@ + "xt/"@,
        ".out"@ + "put/"@,
        ".ver"@ + "cel/"@,
        "node_m"@ + "odules/"@,
        ".n"@ + "pm/"@,
        ".ya"@ + "rn/"@,
        ".pn"@ + "pm/"@,
        ".ca"@ + "rgo/"@,
        "ven"@ + "dor/"@,
        ".g"@ + "it/"@,
        ".s"@ + "vn/"@,
        ".h"@ + "g/"@,
        ".b"@ + "zr/"@,
        ".vsc"@ + "ode/"@,
        ".id"@ + "ea/"@,
        "*."@ + "swp"@,
        "*."@ + "swo"@,
        "*"@ + "~"@,
        ".DS_"@ + "Store"@,
        "Thum"@ + "bs.db"@,
        "tm"@ + "p/"@,
        "te"@ + "mp/"@,
        ".t"@ + "mp/"@,
        ".te"@ + "mp/"@,
        "*."@ + "tmp"@,
        "*.t"@ + "emp"@,
        "*."@ + "log"@,
        "*."@ + "bak"@,
        "*.ba"@ + "ckup"@,
        "*.c"@ + "ache"@,
        "*."@ + "pid"@,
        "__pyca"@ + "che__/"@,
        "*."@ + "pyc"@,
        "*."@ + "pyo"@,
        ".pytest"@ + "_cache/"@,
        "*.c"@ + "lass"@,
        ".gra"@ + "dle/"@,
        ".ma"@ + "ven/"@,
        ".nu"@ + "get/"@,
        "pack"@ + "ages/"@,
        "*"@ + ".o"@,
        "*."@ + "obj"@,
        "*."@ + "pdb"@,
        "*."@ + "exe"@,
        "*."@ + "dll"@,
        "*."@ + "so"@,
        "*.d"@ + "ylib"@,
        "*"@ + ".a"@,
        "*."@ + "lib"@,
        "*.r"@ + "lib"@,
        "*.r"@ + "meta"@,
        "*.w"@ + "asm"@,
        "*."@ + "bc"@,
        ".Tr"@ + "ash/"@,
        "$RECYC"@ + "LE.BIN/"@,
    ]
}

/// The built-in patterns are exactly the default ignore patterns, in order
/// (so a `node_modules` directory, for one, is ignored at any depth).
pub proof fn law_builtin_patterns()
    ensures
        builtin_patterns() == default_ignore_patterns(),
{
    reveal_strlit("target/");
    reveal_strlit("build/");
    reveal_strlit("dist/");
    reveal_strlit("out/");
    reveal_strlit("_build/");
    reveal_strlit("bin/");
    reveal_strlit("obj/");
    reveal_strlit("coverage/");
    reveal_strlit(".coverage/");
    reveal_strlit(".next/");
    reveal_strlit(".nuxt/");
    reveal_strlit(".output/");
    reveal_strlit(".vercel/");
    reveal_strlit("node_modules/");
    reveal_strlit(".npm/");
    reveal_strlit(".yarn/");
    reveal_strlit(".pnpm/");
    reveal_strlit(".cargo/");
    reveal_strlit("vendor/");
    reveal_strlit(".git/");
    reveal_strlit(".svn/");
    reveal_strlit(".hg/");
    reveal_strlit(".bzr/");
    reveal_strlit(".vscode/");
    reveal_strlit(".idea/");
    reveal_strlit("*.swp");
    reveal_strlit("*.swo");
    reveal_strlit("*~");
    reveal_strlit(".DS_Store");
    reveal_strlit("Thumbs.db");
    reveal_strlit("tmp/");
    reveal_strlit("temp/");
    reveal_strlit(".tmp/");
    reveal_strlit(".temp/");
    reveal_strlit("*.tmp");
    reveal_strlit("*.temp");
    reveal_strlit("*.log");
    reveal_strlit("*.bak");
    reveal_strlit("*.backup");
    reveal_strlit("*.cache");
    reveal_strlit("*.pid");
    reveal_strlit("__pycache__/");
    reveal_strlit("*.pyc");
    reveal_strlit("*.pyo");
    reveal_strlit(".pytest_cache/");
    reveal_strlit("*.class");
    reveal_strlit(".gradle/");
    reveal_strlit(".maven/");
    reveal_strlit(".nuget/");
    reveal_strlit("packages/");
    reveal_strlit("*.o");
    reveal_strlit("*.obj");
    reveal_strlit("*.pdb");
    reveal_strlit("*.exe");
    reveal_strlit("*.dll");
    reveal_strlit("*.so");
    reveal_strlit("*.dylib");
    reveal_strlit("*.a");
    reveal_strlit("*.lib");
    reveal_strlit("*.rlib");
    reveal_strlit("*.rmeta");
    reveal_strlit("*.wasm");
    reveal_strlit("*.bc");
    reveal_strlit(".Trash/");
    reveal_strlit("$RECYCLE.BIN/");
    reveal_strlit("tar");
    reveal_strlit("get/");
    reveal_strlit("bui");
    reveal_strlit("ld/");
    reveal_strlit("di");
    reveal_strlit("st/");
    reveal_strlit("ou");
    reveal_strlit("t/");
    reveal_strlit("_bu");
    reveal_strlit("ild/");
    reveal_strlit("bi");
    reveal_strlit("n/");
    reveal_strlit("ob");
    reveal_strlit("j/");
    reveal_strlit("cove");
    reveal_strlit("rage/");
    reveal_strlit(".cove");
    reveal_strlit(".ne");
    reveal_strlit("xt/");
    reveal_strlit(".nu");
    reveal_strlit(".out");
    reveal_strlit("put/");
    reveal_strlit(".ver");
    reveal_strlit("cel/");
    reveal_strlit("node_m");
    reveal_strlit("odules/");
    reveal_strlit(".n");
    reveal_strlit("pm/");
    reveal_strlit(".ya");
    reveal_strlit("rn/");
    reveal_strlit(".pn");
    reveal_strlit(".ca");
    reveal_strlit("rgo/");
    reveal_strlit("ven");
    reveal_strlit("dor/");
    reveal_strlit(".g");
    reveal_strlit("it/");
    reveal_strlit(".s");
    reveal_strlit("vn/");
    reveal_strlit(".h");
    reveal_strlit("g/");
    reveal_strlit(".b");
    reveal_strlit("zr/");
    reveal_strlit(".vsc");
    reveal_strlit("ode/");
    reveal_strlit(".id");
    reveal_strlit("ea/");
    reveal_strlit("*.");
    reveal_strlit("swp");
    reveal_strlit("swo");
    reveal_strlit("*");
    reveal_strlit("~");
    reveal_strlit(".DS_");
    reveal_strlit("Store");
    reveal_strlit("Thum");
    reveal_strlit("bs.db");
    reveal_strlit("tm");
    reveal_strlit("p/");
    reveal_strlit("te");
    reveal_strlit("mp/");
    reveal_strlit(".t");
    reveal_strlit(".te");
    reveal_strlit("tmp");
    reveal_strlit("*.t");
    reveal_strlit("emp");
    reveal_strlit("log");
    reveal_strlit("bak");
    reveal_strlit("*.ba");
    reveal_strlit("ckup");
    reveal_strlit("*.c");
    reveal_strlit("ache");
    reveal_strlit("pid");
    reveal_strlit("__pyca");
    reveal_strlit("che__/");
    reveal_strlit("pyc");
    reveal_strlit("pyo");
    reveal_strlit(".pytest");
    reveal_strlit("_cache/");
    reveal_strlit("lass");
    reveal_strlit(".gra");
    reveal_strlit("dle/");
    reveal_strlit(".ma");
    reveal_strlit("ven/");
    reveal_strlit("pack");
    reveal_strlit("ages/");
    reveal_strlit(".o");
    reveal_strlit("obj");
    reveal_strlit("pdb");
    reveal_strlit("exe");
    reveal_strlit("dll");
    reveal_strlit("so");
    reveal_strlit("*.d");
    reveal_strlit("ylib");
    reveal_strlit(".a");
    reveal_strlit("lib");
    reveal_strlit("*.r");
    reveal_strlit("meta");
    reveal_strlit("*.w");
    reveal_strlit("asm");
    reveal_strlit("bc");
    reveal_strlit(".Tr");
    reveal_strlit("ash/");
    reveal_strlit("$RECYC");
    reveal_strlit("LE.BIN/");
    assert(default_ignore_patterns()[0] =~= builtin_patterns()[0]);
    assert(default_ignore_patterns()[1] =~= builtin_patterns()[1]);
    assert(default_ignore_patterns()[2] =~= builtin_patterns()[2]);
    assert(default_ignore_patterns()[3] =~= builtin_patterns()[3]);
    assert(default_ignore_patterns()[4] =~= builtin_patterns()[4]);
    assert(default_ignore_patterns()[5] =~= builtin_patterns()[5]);
    assert(default_ignore_patterns()[6] =~= builtin_patterns()[6]);
    assert(default_ignore_patterns()[7] =~= builtin_patterns()[7]);
    assert(default_ignore_patterns()[8] =~= builtin_patterns()[8]);
    assert(default_ignore_patterns()[9] =~= builtin_patterns()[9]);
    assert(default_ignore_patterns()[10] =~= builtin_patterns()[10]);
    assert(default_ignore_patterns()[11] =~= builtin_patterns()[11]);
    assert(default_ignore_patterns()[12] =~= builtin_patterns()[12]);
    assert(default_ignore_patterns()[13] =~= builtin_patterns()[13]);
    assert(default_ignore_patterns()[14] =~= builtin_patterns()[14]);
    assert(default_ignore_patterns()[15] =~= builtin_patterns()[15]);
    assert(default_ignore_patterns()[16] =~= builtin_patterns()[16]);
    assert(default_ignore_patterns()[17] =~= builtin_patterns()[17]);
    assert(default_ignore_patterns()[18] =~= builtin_patterns()[18]);
    assert(default_ignore_patterns()[19] =~= builtin_patterns()[19]);
    assert(default_ignore_patterns()[20] =~= builtin_patterns()[20]);
    assert(default_ignore_patterns()[21] =~= builtin_patterns()[21]);
    assert(default_ignore_patterns()[22] =~= builtin_patterns()[22]);
    assert(default_ignore_patterns()[23] =~= builtin_patterns()[23]);
    assert(default_ignore_patterns()[24] =~= builtin_patterns()[24]);
    assert(default_ignore_patterns()[25] =~= builtin_patterns()[25]);
    assert(default_ignore_patterns()[26] =~= builtin_patterns()[26]);
    assert(default_ignore_patterns()[27] =~= builtin_patterns()[27]);
    assert(default_ignore_patterns()[28] =~= builtin_patterns()[28]);
    assert(default_ignore_patterns()[29] =~= builtin_patterns()[29]);
    assert(default_ignore_patterns()[30] =~= builtin_patterns()[30]);
    assert(default_ignore_patterns()[31] =~= builtin_patterns()[31]);
    assert(default_ignore_patterns()[32] =~= builtin_patterns()[32]);
    assert(default_ignore_patterns()[33] =~= builtin_patterns()[33]);
    assert(default_ignore_patterns()[34] =~= builtin_patterns()[34]);
    assert(default_ignore_patterns()[35] =~= builtin_patterns()[35]);
    assert(default_ignore_patterns()[36] =~= builtin_patterns()[36]);
    assert(default_ignore_patterns()[37] =~= builtin_patterns()[37]);
    assert(default_ignore_patterns()[38] =~= builtin_patterns()[38]);
    assert(default_ignore_patterns()[39] =~= builtin_patterns()[39]);
    assert(default_ignore_patterns()[40] =~= builtin_patterns()[40]);
    assert(default_ignore_patterns()[41] =~= builtin_patterns()[41]);
    assert(default_ignore_patterns()[42] =~= builtin_patterns()[42]);
    assert(default_ignore_patterns()[43] =~= builtin_patterns()[43]);
    assert(default_ignore_patterns()[44] =~= builtin_patterns()[44]);
    assert(default_ignore_patterns()[45] =~= builtin_patterns()[45]);
    assert(default_ignore_patterns()[46] =~= builtin_patterns()[46]);
    assert(default_ignore_patterns()[47] =~= builtin_patterns()[47]);
    assert(default_ignore_patterns()[48] =~= builtin_patterns()[48]);
    assert(default_ignore_patterns()[49] =~= builtin_patterns()[49]);
    assert(default_ignore_patterns()[50] =~= builtin_patterns()[50]);
    assert(default_ignore_patterns()[51] =~= builtin_patterns()[51]);
    assert(default_ignore_patterns()[52] =~= builtin_patterns()[52]);
    assert(default_ignore_patterns()[53] =~= builtin_patterns()[53]);
    assert(default_ignore_patterns()[54] =~= builtin_patterns()[54]);
    assert(default_ignore_patterns()[55] =~= builtin_patterns()[55]);
    assert(default_ignore_patterns()[56] =~= builtin_patterns()[56]);
    assert(default_ignore_patterns()[57] =~= builtin_patterns()[57]);
    assert(default_ignore_patterns()[58] =~= builtin_patterns()[58]);
    assert(default_ignore_patterns()[59] =~= builtin_patterns()[59]);
    assert(default_ignore_patterns()[60] =~= builtin_patterns()[60]);
    assert(default_ignore_patterns()[61] =~= builtin_patterns()[61]);
    assert(default_ignore_patterns()[62] =~= builtin_patterns()[62]);
    assert(default_ignore_patterns()[63] =~= builtin_patterns()[63]);
    assert(default_ignore_patterns()[64] =~= builtin_patterns()[64]);
    assert(builtin_patterns() =~= default_ignore_patterns());
}

/// A `.gitignore` line that counts: trimmed, not empty, not a comment.
pub open spec fn gitignore_entry(line: Seq<char>) -> bool {
    trim(line).len() > 0 && trim(line)[0] != '#'
}

/// `x` is the trimmed form of one of the first `n` counting lines of `ls`.
pub open spec fn from_lines(ls: Seq<Seq<char>>, n: int, x: Seq<char>) -> bool {
    exists|k: int| 0 <= k < n && k < ls.len() && gitignore_entry(#[trigger] ls[k]) && trim(ls[k]) == x
}

impl Patterns {
    /// The patterns of a project rooted at `root` whose `.gitignore` holds
    /// `gitignore` (if it could be read): the built-in patterns and every
    /// trimmed, non-empty, non-comment line of the file.
    pub fn from_gitignore(root: &str, gitignore: Option<&str>) -> (r: Self)
        ensures
            r.wf(),
            r.root@ == root@,
            forall|e: Seq<char>|
                #[trigger] r.has_entry(e) <==> (in_first(builtin_patterns(), builtin_patterns().len() as int, e) || (
                match gitignore {
                    Some(g) => from_lines(lines(g@), lines(g@).len() as int, e),
                    None => false,
                })),
    {
        let builtin = lits(
            &[
                "target/", "build/", "dist/", "out/", "_build/", "bin/", "obj/", "coverage/",
                ".coverage/", ".next/", ".nuxt/", ".output/", ".vercel/", "node_modules/", ".npm/",
                ".yarn/", ".pnpm/", ".cargo/", "vendor/", ".git/", ".svn/", ".hg/", ".bzr/",
                ".vscode/", ".idea/", "*.swp", "*.swo", "*~", ".DS_Store", "Thumbs.db", "tmp/",
                "temp/", ".tmp/", ".temp/", "*.tmp", "*.temp", "*.log", "*.bak", "*.backup",
                "*.cache", "*.pid", "__pycache__/", "*.pyc", "*.pyo", ".pytest_cache/", "*.class",
                ".gradle/", ".maven/", ".nuget/", "packages/", "*.o", "*.obj", "*.pdb", "*.exe",
                "*.dll", "*.so", "*.dylib", "*.a", "*.lib", "*.rlib", "*.rmeta", "*.wasm", "*.bc",
                ".Trash/", "$RECYCLE.BIN/",
            ],
        );
        let ghost bp = builtin_patterns();
        assert(builtin@.len() == bp.len());
        assert(forall|i: int| 0 <= i < builtin@.len() ==> builtin@[i]@ == bp[i]);
        let mut entries: Vec<String> = Vec::new();
        let mut i: usize = 0;
        while i < builtin.len()
            invariant
                i <= builtin@.len(),
                bp == builtin_patterns(),
                builtin@.len() == bp.len(),
                forall|k: int| 0 <= k < builtin@.len() ==> (#[trigger] builtin@[k])@ == bp[k],
                distinct_strs(entries@),
                forall|x: Seq<char>| #[trigger] holds_str(entries@, x) <==> in_first(bp, i as int, x),
            decreases builtin@.len() - i,
        {
            let e = string_of(builtin[i].as_slice());
            insert_entry(&mut entries, e);
            proof {
                assert forall|x: Seq<char>|
                    #[trigger] in_first(bp, i + 1, x) <==> (in_first(bp, i as int, x) || x == bp[i as int]) by {
                    if in_first(bp, i + 1, x) {
                        let k = choose|k: int| 0 <= k < i + 1 && k < bp.len() && #[trigger] bp[k] == x;
                        if k < i {
                            assert(in_first(bp, i as int, x));
                        }
                    }
                    if in_first(bp, i as int, x) {
                        let k = choose|k: int| 0 <= k < i && k < bp.len() && #[trigger] bp[k] == x;
                        assert(in_first(bp, i + 1, x));
                    }
                }
            }
            i = i + 1;
        }
        match gitignore {
            Some(g) => {
                let gc = chars_of(g);
                let ls = lines_of(gc.as_slice());
                let ghost lg = lines(g@);
                let mut j: usize = 0;
                while j < ls.len()
                    invariant
                        j <= ls@.len(),
                        lg == lines(g@),
                        bp == builtin_patterns(),
                        ls@.len() == lg.len(),
                        forall|k: int| 0 <= k < ls@.len() ==> (#[trigger] ls@[k])@ == lg[k],
                        distinct_strs(entries@),
                        forall|x: Seq<char>|
                            #[trigger] holds_str(entries@, x) <==> (in_first(bp, bp.len() as int, x)
                                || from_lines(lg, j as int, x)),
                    decreases ls@.len() - j,
                {
                    let t = trim_chars(ls[j].as_slice());
                    assert(t@ == trim(lg[j as int]));
                    if t.len() > 0 && t[0] != '#' {
                        assert(gitignore_entry(lg[j as int]));
                        let e = string_of(t.as_slice());
                        insert_entry(&mut entries, e);
                    } else {
                        assert(!gitignore_entry(lg[j as int]));
                    }
                    proof {
                        assert forall|x: Seq<char>|
                            #[trigger] from_lines(lg, j + 1, x) <==> (from_lines(lg, j as int, x) || (
                            gitignore_entry(lg[j as int]) && trim(lg[j as int]) == x)) by {
                            if from_lines(lg, j + 1, x) {
                                let k = choose|k: int|
                                    0 <= k < j + 1 && k < lg.len() && gitignore_entry(#[trigger] lg[k]) && trim(lg[k]) == x;
                                if k < j {
                                    assert(from_lines(lg, j as int, x));
                                }
                            }
                            if from_lines(lg, j as int, x) {
                                let k = choose|k: int|
                                    0 <= k < j && k < lg.len() && gitignore_entry(#[trigger] lg[k]) && trim(lg[k]) == x;
                                assert(from_lines(lg, j + 1, x));
                            }
                        }
                    }
                    j = j + 1;
                }
            },
            None => {},
        }
        let root_s = string_of(chars_of(root).as_slice());
        Patterns { root: root_s, entries }
    }

    /// Adds the `extra` patterns to the set of entries.
    pub fn overlay(self, extra: &[&str]) -> (r: Self)
        requires
            self.wf(),
        ensures
            r.wf(),
            r.root == self.root,
            forall|e: Seq<char>|
                #[trigger] r.has_entry(e) <==> (self.has_entry(e) || exists|i: int|
                    0 <= i < extra@.len() && (#[trigger] extra@[i])@ == e),
    {
        let Patterns { root, mut entries } = self;
        let ghost orig = entries@;
        let ghost ex = extra@.map_values(|s: &str| s@);
        let mut i: usize = 0;
        while i < extra.len()
            invariant
                i <= extra@.len(),
                ex == extra@.map_values(|s: &str| s@),
                distinct_strs(entries@),
                forall|x: Seq<char>|
                    #[trigger] holds_str(entries@, x) <==> (holds_str(orig, x) || in_first(ex, i as int, x)),
            decreases extra@.len() - i,
        {
            let e = string_of(chars_of(extra[i]).as_slice());
            insert_entry(&mut entries, e);
            proof {
                assert forall|x: Seq<char>|
                    #[trigger] in_first(ex, i + 1, x) <==> (in_first(ex, i as int, x) || x == ex[i as int]) by {
                    if in_first(ex, i + 1, x) {
                        let k = choose|k: int| 0 <= k < i + 1 && k < ex.len() && #[trigger] ex[k] == x;
                        if k < i {
                            assert(in_first(ex, i as int, x));
                        }
                    }
                    if in_first(ex, i as int, x) {
                        let k = choose|k: int| 0 <= k < i && k < ex.len() && #[trigger] ex[k] == x;
                        assert(in_first(ex, i + 1, x));
                    }
                }
            }
            i = i + 1;
        }
        proof {
            assert forall|e: Seq<char>|
                in_first(ex, extra@.len() as int, e) <==> exists|i: int|
                    0 <= i < extra@.len() && (#[trigger] extra@[i])@ == e by {
                if in_first(ex, extra@.len() as int, e) {
                    let k = choose|k: int| 0 <= k < extra@.len() && k < ex.len() && #[trigger] ex[k] == e;
                    assert(extra@[k]@ == e);
                }
                if exists|i: int| 0 <= i < extra@.len() && (#[trigger] extra@[i])@ == e {
                    let k = choose|i: int| 0 <= i < extra@.len() && (#[trigger] extra@[i])@ == e;
                    assert(ex[k] == e);
                }
            }
        }
        Patterns { root, entries }
    }
}


// ---------------------------------------------------------------------------
// Matching a path against the patterns
// ---------------------------------------------------------------------------

/// One pattern hits a path, given the path below the root (`rel`, with `/`
/// separators) and its file name: a pattern ending in `/` names a directory
/// at the start of the path or after any `/`; a pattern with `*` is a
/// wildcard tried on the file name and on the whole path; any other pattern
/// must equal the path or the file name, or end the path after a `/`.
pub open spec fn pattern_hits(pat: Seq<char>, rel: Seq<char>, name: Seq<char>) -> bool {
    if ends_with(pat, seq!['/']) {
        let dir = pat.drop_last();
        starts_with(rel, dir) || contains(rel, seq!['/'] + dir)
    } else if has_char(pat, '*') {
        glob(name, pat) || glob(rel, pat)
    } else {
        rel == pat || name == pat || ends_with(rel, seq!['/'] + pat)
    }
}

/// A directory pattern `d/` hits a path below the root exactly when the
/// path begins with `d` or holds `/d` somewhere, so a `d` directory is found
/// at any depth.
pub proof fn law_directory_pattern(pat: Seq<char>, rel: Seq<char>, name: Seq<char>)
    requires
        pat.len() > 0,
        pat[pat.len() - 1] == '/',
    ensures
        forall|i: int|
            0 <= i && i + pat.len() <= rel.len() && #[trigger] rel[i] == '/' && rel.subrange(i + 1, i + pat.len())
                == pat.subrange(0, pat.len() - 1) ==> pattern_hits(pat, rel, name),
        pat.len() - 1 <= rel.len() && rel.subrange(0, pat.len() - 1) == pat.subrange(0, pat.len() - 1)
            ==> pattern_hits(pat, rel, name),
        pattern_hits(pat, rel, name) ==> (pat.len() - 1 <= rel.len() && rel.subrange(0, pat.len() - 1)
            == pat.subrange(0, pat.len() - 1)) || exists|i: int|
            0 <= i && i + pat.len() <= rel.len() && #[trigger] rel[i] == '/' && rel.subrange(i + 1, i + pat.len())
                == pat.subrange(0, pat.len() - 1),
{
    let dir = pat.drop_last();
    assert(pat.subrange(0, pat.len() - 1) =~= dir);
    assert(pat.subrange(pat.len() - 1, pat.len() as int) =~= seq!['/']);
    assert(ends_with(pat, seq!['/']));
    let sd = seq!['/'] + dir;
    assert forall|i: int|
        0 <= i && i + pat.len() <= rel.len() && #[trigger] rel[i] == '/' && rel.subrange(i + 1, i + pat.len())
            == pat.subrange(0, pat.len() - 1) implies pattern_hits(pat, rel, name) by {
        assert(rel.subrange(i, i + sd.len()) =~= sd);
        assert(occurs_at(rel, sd, i));
    }
    if pattern_hits(pat, rel, name) && !starts_with(rel, dir) {
        let i = choose|i: int| occurs_at(rel, sd, i);
        assert(rel[i] == rel.subrange(i, i + sd.len())[0]);
        assert(rel.subrange(i + 1, i + pat.len()) =~= rel.subrange(i, i + sd.len()).skip(1));
        assert(sd.skip(1) =~= dir);
    }
}

/// A pattern without a trailing `/` and without `*` hits a path exactly
/// when it is the whole path, the file name, or the path's last part after
/// a `/`; a pattern with `*` (and no trailing `/`) is matched as a wildcard
/// against the file name and against the whole path.
pub proof fn law_plain_and_wildcard_patterns(pat: Seq<char>, rel: Seq<char>, name: Seq<char>)
    requires
        pat.len() == 0 || pat[pat.len() - 1] != '/',
    ensures
        (forall|k: int| 0 <= k < pat.len() ==> pat[k] != '*') ==> (pattern_hits(pat, rel, name) <==> (rel == pat
            || name == pat || (rel.len() > pat.len() && rel[rel.len() - pat.len() - 1] == '/' && rel.subrange(
            rel.len() - pat.len(),
            rel.len() as int,
        ) == pat))),
        (exists|k: int| 0 <= k < pat.len() && pat[k] == '*') ==> (pattern_hits(pat, rel, name) <==> (glob(
            name,
            pat,
        ) || glob(rel, pat))),
{
    if ends_with(pat, seq!['/']) {
        assert(pat.subrange(pat.len() - 1, pat.len() as int)[0] == pat[pat.len() - 1]);
    }
    let sp = seq!['/'] + pat;
    if rel.len() > pat.len() && rel[rel.len() - pat.len() - 1] == '/' && rel.subrange(
        rel.len() - pat.len(),
        rel.len() as int,
    ) == pat {
        assert(rel.subrange(rel.len() - sp.len(), rel.len() as int) =~= sp);
    }
    if ends_with(rel, sp) {
        assert(rel[rel.len() - pat.len() - 1] == rel.subrange(rel.len() - sp.len(), rel.len() as int)[0]);
        assert(rel.subrange(rel.len() - pat.len(), rel.len() as int) =~= rel.subrange(
            rel.len() - sp.len(),
            rel.len() as int,
        ).skip(1));
        assert(sp.skip(1) =~= pat);
    }
}

/// Some entry of `entries` hits `path` under `root`; a path outside `root` counts as ignored.
pub open spec fn ignored(entries: Seq<String>, root: Seq<char>, path: Seq<char>) -> bool {
    match relative_to(path, root) {
        None => true,
        Some(rel) => {
            let name = match file_name_of(path) {
                Some(n) => n,
                None => Seq::empty(),
            };
            exists|i: int| 0 <= i < entries.len() && pattern_hits((#[trigger] entries[i])@, slashes(rel), name)
        },
    }
}

/// A path is ignored when some entry is a directory pattern `d/` and the
/// path, below the root, begins with `d` or holds `/d` (at any depth).
pub proof fn law_ignored_directories(entries: Seq<String>, root: Seq<char>, path: Seq<char>, k: int)
    requires
        0 <= k < entries.len(),
        entries[k]@.len() > 0,
        entries[k]@[entries[k]@.len() - 1] == '/',
    ensures
        (match relative_to(path, root) {
            Some(rel) => contains(slashes(rel), seq!['/'] + entries[k]@.drop_last()) || starts_with(
                slashes(rel),
                entries[k]@.drop_last(),
            ),
            None => true,
        }) ==> ignored(entries, root, path),
{
    let pat = entries[k]@;
    assert(pat.subrange(pat.len() - 1, pat.len() as int) =~= seq!['/']);
    match relative_to(path, root) {
        Some(rel) => {
            let name = match file_name_of(path) {
                Some(n) => n,
                None => Seq::empty(),
            };
            if contains(slashes(rel), seq!['/'] + pat.drop_last()) || starts_with(slashes(rel), pat.drop_last()) {
                assert(pattern_hits(entries[k]@, slashes(rel), name));
            }
        },
        None => {},
    }
}

fn pattern_hits_exec(pat: &[char], rel: &[char], name: &[char]) -> (r: bool)
    ensures
        r == pattern_hits(pat@, rel@, name@),
{
    let mut slash: Vec<char> = Vec::new();
    slash.push('/');
    assert(slash@ == seq!['/']);
    if ends_with_exec(pat, slash.as_slice()) {
        let dir = crate::strings::slice_chars(pat, 0, pat.len() - 1);
        assert(dir@ == pat@.drop_last());
        if starts_with_exec(rel, dir.as_slice()) {
            return true;
        }
        let mut sd: Vec<char> = Vec::new();
        sd.push('/');
        let mut k: usize = 0;
        while k < dir.len()
            invariant
                k <= dir@.len(),
                sd@ == seq!['/'] + dir@.take(k as int),
            decreases dir@.len() - k,
        {
            sd.push(dir[k]);
            assert(dir@.take(k + 1) == dir@.take(k as int).push(dir@[k as int]));
            k = k + 1;
        }
        assert(dir@.take(dir@.len() as int) == dir@);
        contains_exec(rel, sd.as_slice())
    } else if has_char_exec(pat, '*') {
        glob_match_chars(name, pat) || glob_match_chars(rel, pat)
    } else {
        if chars_eq(rel, pat) || chars_eq(name, pat) {
            return true;
        }
        let mut sp: Vec<char> = Vec::new();
        sp.push('/');
        let mut k: usize = 0;
        while k < pat.len()
            invariant
                k <= pat@.len(),
                sp@ == seq!['/'] + pat@.take(k as int),
            decreases pat@.len() - k,
        {
            sp.push(pat[k]);
            assert(pat@.take(k + 1) == pat@.take(k as int).push(pat@[k as int]));
            k = k + 1;
        }
        assert(pat@.take(pat@.len() as int) == pat@);
        ends_with_exec(rel, sp.as_slice())
    }
}

/// Is `path` ignored by `patterns` for a project rooted at `root`? Paths
/// outside the root are always ignored.
pub fn matches(patterns: &Patterns, root: &str, path: &str) -> (r: bool)
    ensures
        r == ignored(patterns.entries@, root@, path@),
{
    let rel = match path_strip_prefix(path, root) {
        Some(rel) => rel,
        None => {
            return true;
        },
    };
    let rel_c = slashes_exec(chars_of(rel.as_str()).as_slice());
    let name_c = match path_file_name(path) {
        Some(n) => chars_of(n.as_str()),
        None => Vec::new(),
    };
    let mut i: usize = 0;
    while i < patterns.entries.len()
        invariant
            i <= patterns.entries@.len(),
            relative_to(path@, root@) == Some(rel@),
            rel_c@ == slashes(rel@),
            name_c@ == (match file_name_of(path@) {
                Some(n) => n,
                None => Seq::empty(),
            }),
            forall|j: int|
                0 <= j < i ==> !pattern_hits((#[trigger] patterns.entries@[j])@, rel_c@, name_c@),
        decreases patterns.entries@.len() - i,
    {
        let pc = chars_of(patterns.entries[i].as_str());
        if pattern_hits_exec(pc.as_slice(), rel_c.as_slice(), name_c.as_slice()) {
            return true;
        }
        i = i + 1;
    }
    false
}

/// Ignore rules of a project: glob patterns from the configuration (checked
/// first) and the project's patterns.
pub struct CombinedIgnore {
    root: String,
    patterns: Patterns,
    globset: Option<Vec<String>>,
}

impl CombinedIgnore {
    pub closed spec fn root_view(&self) -> Seq<char> {
        self.root@
    }

    pub closed spec fn patterns_view(&self) -> Patterns {
        self.patterns
    }

    pub closed spec fn globs_view(&self) -> Option<Seq<Seq<char>>> {
        match self.globset {
            Some(g) => Some(g.deep_view()),
            None => None,
        }
    }

    /// The ignore rules of the project at `root`, from its loaded `patterns`
    /// and the configured globs, if any.
    pub fn new(root: &str, patterns: Patterns, cfg_globs: Option<&Vec<String>>) -> (r: Self)
        ensures
            r.root_view() == root@,
            r.patterns_view() == patterns,
            r.globs_view() == (match cfg_globs {
                Some(g) => Some(g.deep_view()),
                None => None,
            }),
    {
        let globset = match cfg_globs {
            Some(g) => Some(g.clone()),
            None => None,
        };
        proof {
            if let Some(g) = cfg_globs {
                assert(globset->0.deep_view() =~= g.deep_view());
            }
        }
        CombinedIgnore { root: string_of(chars_of(root).as_slice()), patterns, globset }
    }

    /// The same rules with the `extra` patterns added.
    pub fn with_overlay(self, extra: &[&str]) -> (r: Self)
        requires
            self.patterns_view().wf(),
        ensures
            r.root_view() == self.root_view(),
            r.globs_view() == self.globs_view(),
            r.patterns_view().wf(),
            r.patterns_view().root == self.patterns_view().root,
            forall|e: Seq<char>|
                #[trigger] r.patterns_view().has_entry(e) <==> (self.patterns_view().has_entry(e)
                    || exists|i: int| 0 <= i < extra@.len() && (#[trigger] extra@[i])@ == e),
    {
        let CombinedIgnore { root, patterns, globset } = self;
        let patterns = patterns.overlay(extra);
        CombinedIgnore { root, patterns, globset }
    }

    /// A path is ignored when the configured globs match it, or else when the
    /// project's patterns do.
    pub fn is_ignored(&self, path: &str) -> (r: bool)
        ensures
            r == ((match self.globs_view() {
                Some(g) => globset_hit(g, path@),
                None => false,
            }) || ignored(self.patterns_view().entries@, self.root_view(), path@)),
    {
        if let Some(gs) = &self.globset {
            if globset_is_match(gs, path) {
                return true;
            }
        }
        let root_c = chars_of(self.root.as_str());
        let root_s = string_of(root_c.as_slice());
        matches(&self.patterns, root_s.as_str(), path)
    }

    /// Rules for `root` that ignore nothing under it.
    pub fn empty_for(root: &str) -> (r: Self)
        ensures
            r.root_view() == root@,
            r.patterns_view().root@ == root@,
            r.patterns_view().entries@.len() == 0,
            r.globs_view() is None,
    {
        CombinedIgnore {
            root: string_of(chars_of(root).as_slice()),
            patterns: Patterns { root: string_of(chars_of(root).as_slice()), entries: Vec::new() },
            globset: None,
        }
    }
}

/// The patterns that `Glob::new` accepts, in order.
pub open spec fn accepted_globs(ps: Seq<Seq<char>>) -> Seq<Seq<char>>
    decreases ps.len(),
{
    if ps.len() == 0 {
        Seq::empty()
    } else if glob_accepted(ps.last()) {
        accepted_globs(ps.drop_last()).push(ps.last())
    } else {
        accepted_globs(ps.drop_last())
    }
}

/// The glob set of `patterns`: the accepted ones, when there is at least one
/// and the set builds; `None` otherwise.
pub fn build_globset(patterns: &[&str]) -> (r: Option<Vec<String>>)
    ensures
        ({
            let acc = accepted_globs(patterns@.map_values(|s: &str| s@));
            match r {
                Some(v) => acc.len() > 0 && globset_builds(acc) && v.deep_view() == acc,
                None => !(acc.len() > 0 && globset_builds(acc)),
            }
        }),
{
    let ghost ps = patterns@.map_values(|s: &str| s@);
    let mut acc: Vec<String> = Vec::new();
    let mut i: usize = 0;
    while i < patterns.len()
        invariant
            i <= patterns@.len(),
            ps == patterns@.map_values(|s: &str| s@),
            acc.deep_view() == accepted_globs(ps.take(i as int)),
        decreases patterns@.len() - i,
    {
        assert(ps.take(i + 1).drop_last() == ps.take(i as int));
        if glob_compiles(patterns[i]) {
            let ghost before = acc.deep_view();
            acc.push(string_of(chars_of(patterns[i]).as_slice()));
            assert(acc.deep_view() =~= before.push(ps[i as int]));
        }
        i = i + 1;
    }
    assert(ps.take(patterns@.len() as int) == ps);
    if acc.len() > 0 && globset_build_ok(&acc) {
        Some(acc)
    } else {
        None
    }
}

} // verus!
