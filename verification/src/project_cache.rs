use vstd::prelude::*;
use crate::report::{text_less, text_less_exec};
use vstd::utf8::encode_utf8;
use vstd::string::StringSliceAdditionalSpecFns;
use crate::strings::{
    append_chars, append_str, chars_eq, chars_of, ends_with, ends_with_lit, join_texts, lemma_views_push, split,
    split_chars, string_of, strs, utf8_size, utf8_size_exec, views,
};

verus! {

// ---------------------------------------------------------------------------
// Summary types of a scanned project
// ---------------------------------------------------------------------------

/// How many files fall in each complexity band.
pub struct ComplexityDistribution {
    /// Scores 0 to 3.
    pub low_complexity: usize,
    /// Scores 4 to 7.
    pub medium_complexity: usize,
    /// Scores 8 to 10.
    pub high_complexity: usize,
    /// Scores above 10.
    pub extreme_complexity: usize,
}

/// A project summary cut down to few tokens.
pub struct CompressedStructure {
    pub format_version: u8,
    /// The files by directory, with short names.
    pub tree: String,
    /// The metrics in short form.
    pub metrics: String,
    /// The names of the most important files.
    pub important_files: Vec<String>,
    /// About a third of the summary's bytes.
    pub token_estimate: usize,
}

// ---------------------------------------------------------------------------
// Short names
// ---------------------------------------------------------------------------

/// The short form of a common directory name; others stay as they are.
pub open spec fn short_dir(d: Seq<char>) -> Seq<char> {
    if d == "src"@ {
        "s"@
    } else if d == "tests"@ {
        "t"@
    } else if d == "docs"@ {
        "d"@
    } else if d == "node_modules"@ {
        "nm"@
    } else if d == "target"@ {
        "tg"@
    } else if d == "bin"@ {
        "b"@
    } else if d == "lib"@ {
        "l"@
    } else if d == "examples"@ {
        "ex"@
    } else if d == "fixtures"@ {
        "fx"@
    } else if d == "components"@ {
        "c"@
    } else {
        d
    }
}

/// `s` without any number of trailing `p`s.
pub open spec fn strip_suffixes(s: Seq<char>, p: Seq<char>) -> Seq<char>
    decreases s.len(),
{
    if p.len() > 0 && ends_with(s, p) {
        strip_suffixes(s.take(s.len() - p.len()), p)
    } else {
        s
    }
}

/// A file name with a common extension replaced by a short tag (`.js`
/// becomes `:j`, `.rs` `:r`, `.py` `:p`, `.ts` `:t`, `.json` `:jn`).
pub open spec fn short_file(f: Seq<char>) -> Seq<char> {
    if ends_with(f, ".js"@) {
        strip_suffixes(f, ".js"@) + ":j"@
    } else if ends_with(f, ".rs"@) {
        strip_suffixes(f, ".rs"@) + ":r"@
    } else if ends_with(f, ".py"@) {
        strip_suffixes(f, ".py"@) + ":p"@
    } else if ends_with(f, ".ts"@) {
        strip_suffixes(f, ".ts"@) + ":t"@
    } else if ends_with(f, ".json"@) {
        strip_suffixes(f, ".json"@) + ":jn"@
    } else {
        f
    }
}

/// The directory a file is listed under: its directories with short names,
/// joined by `/`; nothing for a file at the top.
pub open spec fn dir_key(path: Seq<char>) -> Seq<char> {
    let parts = split(path, '/');
    if parts.len() > 1 {
        join_texts(parts.drop_last().map_values(|d: Seq<char>| short_dir(d)), "/"@)
    } else {
        Seq::empty()
    }
}

/// How a file is listed: its short name under a directory, its whole path
/// at the top.
pub open spec fn file_entry(path: Seq<char>) -> Seq<char> {
    let parts = split(path, '/');
    if parts.len() > 1 {
        short_file(parts.last())
    } else {
        path
    }
}

fn is_lit(s: &[char], lit: &str) -> (r: bool)
    ensures
        r == (s@ == lit@),
{
    let c = chars_of(lit);
    chars_eq(s, c.as_slice())
}

fn short_dir_exec(d: &[char]) -> (r: Vec<char>)
    ensures
        r@ == short_dir(d@),
{
    if is_lit(d, "src") {
        chars_of("s")
    } else if is_lit(d, "tests") {
        chars_of("t")
    } else if is_lit(d, "docs") {
        chars_of("d")
    } else if is_lit(d, "node_modules") {
        chars_of("nm")
    } else if is_lit(d, "target") {
        chars_of("tg")
    } else if is_lit(d, "bin") {
        chars_of("b")
    } else if is_lit(d, "lib") {
        chars_of("l")
    } else if is_lit(d, "examples") {
        chars_of("ex")
    } else if is_lit(d, "fixtures") {
        chars_of("fx")
    } else if is_lit(d, "components") {
        chars_of("c")
    } else {
        let mut out: Vec<char> = Vec::new();
        append_chars(&mut out, d);
        out
    }
}

fn strip_suffixes_exec(s: &[char], p: &str) -> (r: Vec<char>)
    ensures
        r@ == strip_suffixes(s@, p@),
{
    let pc = chars_of(p);
    let mut n: usize = s.len();
    assert(s@.take(n as int) =~= s@);
    while pc.len() > 0 && n >= pc.len() && ends_with_lit(crate::strings::slice_chars(s, 0, n).as_slice(), p)
        invariant
            n <= s@.len(),
            pc@ == p@,
            strip_suffixes(s@, p@) == strip_suffixes(s@.take(n as int), p@),
        decreases n,
    {
        assert(s@.take(n as int).take(n - pc@.len()) =~= s@.take(n - pc@.len()));
        n = n - pc.len();
    }
    proof {
        if pc@.len() > 0 && n < pc@.len() {
            assert(!ends_with(s@.take(n as int), p@));
        }
    }
    crate::strings::slice_chars(s, 0, n)
}

fn short_file_exec(f: &[char]) -> (r: Vec<char>)
    ensures
        r@ == short_file(f@),
{
    let tags = [(".js", ":j"), (".rs", ":r"), (".py", ":p"), (".ts", ":t"), (".json", ":jn")];
    let mut k: usize = 0;
    while k < 5
        invariant
            k <= 5,
            tags@ == seq![(".js", ":j"), (".rs", ":r"), (".py", ":p"), (".ts", ":t"), (".json", ":jn")],
            forall|j: int| 0 <= j < k ==> !ends_with(f@, (#[trigger] tags@[j]).0@),
        decreases 5 - k,
    {
        let (ext, tag) = tags[k];
        if ends_with_lit(f, ext) {
            let mut out = strip_suffixes_exec(f, ext);
            append_str(&mut out, tag);
            assert(k == 0 || !ends_with(f@, tags@[0].0@));
            return out;
        }
        k = k + 1;
    }
    let mut out: Vec<char> = Vec::new();
    append_chars(&mut out, f);
    assert(!ends_with(f@, tags@[0].0@));
    assert(!ends_with(f@, tags@[1].0@));
    assert(!ends_with(f@, tags@[2].0@));
    assert(!ends_with(f@, tags@[3].0@));
    assert(!ends_with(f@, tags@[4].0@));
    out
}

fn join_chars(parts: &Vec<Vec<char>>, sep: &str) -> (r: Vec<char>)
    ensures
        r@ == join_texts(views(parts@), sep@),
{
    let ghost pv = views(parts@);
    let mut out: Vec<char> = Vec::new();
    let mut i: usize = 0;
    assert(pv.take(0) =~= Seq::<Seq<char>>::empty());
    while i < parts.len()
        invariant
            i <= parts@.len(),
            pv == views(parts@),
            out@ == join_texts(pv.take(i as int), sep@),
        decreases parts@.len() - i,
    {
        assert(pv.take(i + 1).drop_last() =~= pv.take(i as int));
        assert(pv.take(i + 1).last() == parts@[i as int]@);
        if i > 0 {
            append_str(&mut out, sep);
        } else {
            assert(pv.take(1) =~= seq![pv[0]]);
        }
        append_chars(&mut out, parts[i].as_slice());
        i = i + 1;
    }
    assert(pv.take(parts@.len() as int) =~= pv);
    out
}

fn dir_key_exec(path: &[char]) -> (r: Vec<char>)
    ensures
        r@ == dir_key(path@),
{
    let parts = split_chars(path, '/');
    let ghost sp = split(path@, '/');
    assert(views(parts@) =~= sp);
    if parts.len() > 1 {
        let mut dirs: Vec<Vec<char>> = Vec::new();
        let mut i: usize = 0;
        let n = parts.len() - 1;
        while i < n
            invariant
                i <= n,
                n + 1 == parts@.len(),
                views(parts@) == sp,
                views(dirs@) == sp.drop_last().map_values(|d: Seq<char>| short_dir(d)).take(i as int),
            decreases n - i,
        {
            let ghost before = dirs@;
            let d = short_dir_exec(parts[i].as_slice());
            dirs.push(d);
            proof {
                lemma_views_push(before, d);
            }
            assert(sp.drop_last().map_values(|d: Seq<char>| short_dir(d)).take(i + 1) =~= sp.drop_last().map_values(
                |d: Seq<char>| short_dir(d),
            ).take(i as int).push(short_dir(sp[i as int])));
            i = i + 1;
        }
        assert(sp.drop_last().map_values(|d: Seq<char>| short_dir(d)).take(n as int) =~= sp.drop_last().map_values(
            |d: Seq<char>| short_dir(d),
        ));
        join_chars(&dirs, "/")
    } else {
        Vec::new()
    }
}

fn file_entry_exec(path: &[char]) -> (r: Vec<char>)
    ensures
        r@ == file_entry(path@),
{
    let parts = split_chars(path, '/');
    let ghost sp = split(path@, '/');
    if parts.len() > 1 {
        assert(parts@[parts@.len() - 1]@ == sp.last());
        short_file_exec(parts[parts.len() - 1].as_slice())
    } else {
        let mut out: Vec<char> = Vec::new();
        append_chars(&mut out, path);
        out
    }
}

// ---------------------------------------------------------------------------
// The compressed tree
// ---------------------------------------------------------------------------

/// Directories with their listed files.
pub type Groups = Seq<(Seq<char>, Seq<Seq<char>>)>;

/// Where directory `d` stands among the groups.
pub open spec fn group_index(g: Groups, d: Seq<char>) -> Option<int>
    decreases g.len(),
{
    if g.len() == 0 {
        None
    } else if g.last().0 == d {
        Some(g.len() - 1)
    } else {
        group_index(g.drop_last(), d)
    }
}

/// The files grouped by directory, directories in the order first met and
/// files in the given order.
pub open spec fn grouped(paths: Seq<Seq<char>>) -> Groups
    decreases paths.len(),
{
    if paths.len() == 0 {
        Seq::empty()
    } else {
        let g = grouped(paths.drop_last());
        let p = paths.last();
        let d = dir_key(p);
        match group_index(g, d) {
            Some(i) => g.update(i, (d, g[i].1.push(file_entry(p)))),
            None => g.push((d, seq![file_entry(p)])),
        }
    }
}

/// Where group `i` goes among the already ordered groups `r`: before the
/// first one whose directory comes after its own.
pub open spec fn key_insert_pos(g: Groups, r: Seq<usize>, i: int) -> nat
    decreases r.len(),
{
    if r.len() == 0 {
        0
    } else if text_less(g[i].0, g[r[0] as int].0) {
        0
    } else {
        1 + key_insert_pos(g, r.drop_first(), i)
    }
}

/// The first `n` groups ordered by directory.
pub open spec fn group_order(g: Groups, n: nat) -> Seq<usize>
    decreases n,
{
    if n == 0 {
        Seq::empty()
    } else {
        let r = group_order(g, (n - 1) as nat);
        r.insert(key_insert_pos(g, r, n - 1) as int, (n - 1) as usize)
    }
}

/// One group as text: its files joined by `,`, in brackets after the
/// directory when there is one.
pub open spec fn group_text(e: (Seq<char>, Seq<Seq<char>>)) -> Seq<char> {
    if e.0.len() == 0 {
        join_texts(e.1, ","@)
    } else {
        e.0 + "["@ + join_texts(e.1, ","@) + "]"@
    }
}

/// The compressed tree: the groups ordered by directory, joined by `;`.
pub open spec fn compressed_tree(paths: Seq<Seq<char>>) -> Seq<char> {
    let g = grouped(paths);
    join_texts(group_order(g, g.len()).map_values(|j: usize| group_text(g[j as int])), ";"@)
}

proof fn lemma_group_index(g: Groups, d: Seq<char>)
    ensures
        group_index(g, d) matches Some(j) ==> 0 <= j < g.len() && g[j].0 == d,
    decreases g.len(),
{
    if g.len() > 0 && g.last().0 != d {
        lemma_group_index(g.drop_last(), d);
    }
}

/// Directories and their files seen as groups.
pub open spec fn groups_view(keys: Seq<Vec<char>>, members: Seq<Vec<Vec<char>>>) -> Groups {
    Seq::new(keys.len(), |i: int| (keys[i]@, views(members[i]@)))
}

fn find_group(keys: &Vec<Vec<char>>, members: &Vec<Vec<Vec<char>>>, d: &[char]) -> (r: Option<usize>)
    requires
        keys@.len() == members@.len(),
    ensures
        match r {
            Some(j) => group_index(groups_view(keys@, members@), d@) == Some(j as int) && j < keys@.len(),
            None => group_index(groups_view(keys@, members@), d@) is None,
        },
{
    let ghost g = groups_view(keys@, members@);
    let mut i: usize = keys.len();
    assert(g.take(i as int) =~= g);
    while i > 0
        invariant
            i <= keys@.len(),
            keys@.len() == members@.len(),
            g == groups_view(keys@, members@),
            group_index(g, d@) == group_index(g.take(i as int), d@),
        decreases i,
    {
        let ghost pre = g.take(i as int);
        assert(pre.drop_last() =~= g.take(i - 1));
        assert(pre.last() == g[i - 1]);
        if chars_eq(keys[i - 1].as_slice(), d) {
            return Some(i - 1);
        }
        i = i - 1;
    }
    None
}

fn group_order_exec(keys: &Vec<Vec<char>>, Ghost(g): Ghost<Groups>) -> (r: Vec<usize>)
    requires
        g.len() == keys@.len(),
        forall|i: int| 0 <= i < g.len() ==> (#[trigger] g[i]).0 == keys@[i]@,
    ensures
        r@ == group_order(g, g.len()),
        forall|a: int| 0 <= a < r@.len() ==> #[trigger] r@[a] < keys@.len(),
        r@.len() == keys@.len(),
{
    let n = keys.len();
    let mut r: Vec<usize> = Vec::new();
    let mut i: usize = 0;
    while i < n
        invariant
            n == keys@.len(),
            g.len() == n,
            forall|k: int| 0 <= k < g.len() ==> (#[trigger] g[k]).0 == keys@[k]@,
            i <= n,
            r@ == group_order(g, i as nat),
            r@.len() == i,
            forall|a: int| 0 <= a < r@.len() ==> #[trigger] r@[a] < i,
        decreases n - i,
    {
        let ghost r0 = r@;
        let mut p: usize = 0;
        assert(r0.skip(0) =~= r0);
        while p < r.len() && !text_less_exec(keys[i].as_slice(), keys[r[p]].as_slice())
            invariant
                r@ == r0,
                r0 == group_order(g, i as nat),
                r0.len() == i,
                forall|a: int| 0 <= a < r0.len() ==> #[trigger] r0[a] < i,
                forall|k: int| 0 <= k < g.len() ==> (#[trigger] g[k]).0 == keys@[k]@,
                g.len() == n,
                i < n,
                n == keys@.len(),
                p <= r@.len(),
                key_insert_pos(g, r0, i as int) == p + key_insert_pos(g, r0.skip(p as int), i as int),
            decreases r@.len() - p,
        {
            assert(r0.skip(p as int)[0] == r0[p as int]);
            assert(r0.skip(p as int).drop_first() =~= r0.skip(p + 1));
            p = p + 1;
        }
        proof {
            if p < r@.len() {
                assert(r0.skip(p as int)[0] == r0[p as int]);
            }
        }
        r.insert(p, i);
        assert forall|a: int| 0 <= a < r@.len() implies #[trigger] r@[a] < i + 1 by {
            if a < p {
                assert(r@[a] == r0[a]);
            } else if a > p {
                assert(r@[a] == r0[a - 1]);
            }
        }
        i = i + 1;
    }
    r
}

fn group_text_exec(key: &Vec<char>, files: &Vec<Vec<char>>) -> (r: Vec<char>)
    ensures
        r@ == group_text((key@, views(files@))),
{
    let joined = join_chars(files, ",");
    if key.len() == 0 {
        joined
    } else {
        let mut out: Vec<char> = Vec::new();
        append_chars(&mut out, key.as_slice());
        append_str(&mut out, "[");
        append_chars(&mut out, joined.as_slice());
        append_str(&mut out, "]");
        out
    }
}

/// The compressed tree of the files at the given relative paths (see
/// `compressed_tree`): `src/a.rs`, `src/b.py` and `README.md` give
/// `README.md;s[a:r,b:p]`.
pub fn compress_tree(paths: &Vec<String>) -> (r: String)
    ensures
        r@ == compressed_tree(strs(paths@)),
{
    let ghost pv = strs(paths@);
    let mut keys: Vec<Vec<char>> = Vec::new();
    let mut members: Vec<Vec<Vec<char>>> = Vec::new();
    let mut i: usize = 0;
    assert(pv.take(0) =~= Seq::<Seq<char>>::empty());
    assert(groups_view(keys@, members@) =~= grouped(pv.take(0)));
    while i < paths.len()
        invariant
            i <= paths@.len(),
            pv == strs(paths@),
            keys@.len() == members@.len(),
            groups_view(keys@, members@) == grouped(pv.take(i as int)),
        decreases paths@.len() - i,
    {
        let ghost g0 = groups_view(keys@, members@);
        assert(pv.take(i + 1).drop_last() =~= pv.take(i as int));
        assert(pv.take(i + 1).last() == paths@[i as int]@);
        let c = chars_of(paths[i].as_str());
        let d = dir_key_exec(c.as_slice());
        let e = file_entry_exec(c.as_slice());
        match find_group(&keys, &members, d.as_slice()) {
            Some(j) => {
                let ghost m0 = members@;
                proof {
                    lemma_group_index(g0, d@);
                }
                assert(keys@[j as int]@ == d@);
                let mut m = members.remove(j);
                assert(m == m0[j as int]);
                let ghost mv0 = m@;
                m.push(e);
                proof {
                    lemma_views_push(mv0, e);
                }
                members.insert(j, m);
                assert(members@ =~= m0.update(j as int, m));
                assert(groups_view(keys@, members@) =~= g0.update(j as int, (d@, g0[j as int].1.push(e@))));
            },
            None => {
                let ghost mv: Seq<Vec<Vec<char>>> = members@;
                let mut one: Vec<Vec<char>> = Vec::new();
                one.push(e);
                assert(views(one@) =~= seq![e@]);
                keys.push(d);
                members.push(one);
                assert(groups_view(keys@, members@) =~= g0.push((d@, seq![e@])));
            },
        }
        i = i + 1;
    }
    assert(pv.take(paths@.len() as int) =~= pv);
    let ghost g = groups_view(keys@, members@);
    let order = group_order_exec(&keys, Ghost(g));
    let mut parts: Vec<Vec<char>> = Vec::new();
    let mut k: usize = 0;
    while k < order.len()
        invariant
            k <= order@.len(),
            order@.len() == keys@.len(),
            keys@.len() == members@.len(),
            g == groups_view(keys@, members@),
            forall|a: int| 0 <= a < order@.len() ==> #[trigger] order@[a] < keys@.len(),
            views(parts@) == order@.map_values(|j: usize| group_text(g[j as int])).take(k as int),
        decreases order@.len() - k,
    {
        let ghost before = parts@;
        let j = order[k];
        let t = group_text_exec(&keys[j], &members[j]);
        parts.push(t);
        proof {
            lemma_views_push(before, t);
        }
        assert(order@.map_values(|j: usize| group_text(g[j as int])).take(k + 1) =~= order@.map_values(
            |j: usize| group_text(g[j as int]),
        ).take(k as int).push(group_text(g[j as int])));
        k = k + 1;
    }
    assert(order@.map_values(|j: usize| group_text(g[j as int])).take(order@.len() as int) =~= order@.map_values(
        |j: usize| group_text(g[j as int]),
    ));
    let t = join_chars(&parts, ";");
    string_of(t.as_slice())
}

// ---------------------------------------------------------------------------
// The compressed structure
// ---------------------------------------------------------------------------

/// The last `/`-separated part of a path.
pub open spec fn last_segment(p: Seq<char>) -> Seq<char> {
    split(p, '/').last()
}

/// The names of the first five files, each cut to its last part.
pub open spec fn important_names(ranked: Seq<Seq<char>>) -> Seq<Seq<char>> {
    (if ranked.len() > 5 {
        ranked.take(5)
    } else {
        ranked
    }).map_values(|p: Seq<char>| last_segment(p))
}

/// About a third of the bytes of `tree;metrics`, rounded up.
pub open spec fn token_estimate(tree: Seq<char>, metrics: Seq<char>) -> nat {
    ((encode_utf8(tree).len() + 1 + encode_utf8(metrics).len() + 2) / 3) as nat
}

fn last_segment_exec(p: &str) -> (r: String)
    ensures
        r@ == last_segment(p@),
{
    let c = chars_of(p);
    let parts = split_chars(c.as_slice(), '/');
    proof {
        crate::strings::lemma_split_len(p@, '/');
    }
    let last = &parts[parts.len() - 1];
    string_of(last.as_slice())
}

/// The compressed summary of a project: the tree of its files (see
/// `compress_tree`), the metrics text as given (`metrics`, formatted by the
/// caller), the last path parts of the first five files of `ranked_files`
/// (the files by importance), and the token estimate of `tree;metrics`.
pub fn compress_structure(relative_paths: &Vec<String>, metrics: &str, ranked_files: &Vec<String>) -> (r:
    CompressedStructure)
    ensures
        r.format_version == 3,
        r.tree@ == compressed_tree(strs(relative_paths@)),
        r.metrics@ == metrics@,
        strs(r.important_files@) == important_names(strs(ranked_files@)),
        r.token_estimate == token_estimate(r.tree@, metrics@),
{
    let tree = compress_tree(relative_paths);
    let ghost rv = strs(ranked_files@);
    let n: usize = if ranked_files.len() > 5 {
        5
    } else {
        ranked_files.len()
    };
    let ghost top = if rv.len() > 5 {
        rv.take(5)
    } else {
        rv
    };
    assert(top.len() == n);
    let mut important: Vec<String> = Vec::new();
    let mut i: usize = 0;
    while i < n
        invariant
            i <= n,
            n <= ranked_files@.len(),
            rv == strs(ranked_files@),
            top.len() == n,
            forall|k: int| 0 <= k < n ==> #[trigger] top[k] == rv[k],
            strs(important@) == top.map_values(|p: Seq<char>| last_segment(p)).take(i as int),
        decreases n - i,
    {
        let ghost before = important@;
        let name = last_segment_exec(ranked_files[i].as_str());
        important.push(name);
        proof {
            crate::strings::lemma_strs_push(before, name);
        }
        assert(top.map_values(|p: Seq<char>| last_segment(p)).take(i + 1) =~= top.map_values(
            |p: Seq<char>| last_segment(p),
        ).take(i as int).push(last_segment(top[i as int])));
        i = i + 1;
    }
    assert(top.map_values(|p: Seq<char>| last_segment(p)).take(n as int) =~= top.map_values(|p: Seq<char>| last_segment(p)));
    let tb = tree.as_str().as_bytes().len();
    let mb = metrics.as_bytes().len();
    let est: u128 = (tb as u128 + 1 + mb as u128 + 2) / 3;
    let mc = chars_of(metrics);
    let metrics_text = string_of(mc.as_slice());
    CompressedStructure {
        format_version: 3,
        tree,
        metrics: metrics_text,
        important_files: important,
        token_estimate: est as usize,
    }
}

/// The short form of a language key in the metrics text; others stay as
/// they are.
pub open spec fn short_language(l: Seq<char>) -> Seq<char> {
    if l == "rs"@ {
        "r"@
    } else if l == "js"@ {
        "j"@
    } else if l == "py"@ {
        "p"@
    } else if l == "ts"@ {
        "t"@
    } else if l == "java"@ {
        "jv"@
    } else if l == "cpp"@ {
        "c+"@
    } else if l == "go"@ {
        "g"@
    } else {
        l
    }
}

/// The short form of a language key (see `short_language`).
pub fn short_language_name(lang: &str) -> (r: String)
    ensures
        r@ == short_language(lang@),
{
    let c = chars_of(lang);
    let s = c.as_slice();
    let out: &str = if is_lit(s, "rs") {
        "r"
    } else if is_lit(s, "js") {
        "j"
    } else if is_lit(s, "py") {
        "p"
    } else if is_lit(s, "ts") {
        "t"
    } else if is_lit(s, "java") {
        "jv"
    } else if is_lit(s, "cpp") {
        "c+"
    } else if is_lit(s, "go") {
        "g"
    } else {
        lang
    };
    crate::strings::owned(out)
}

} // verus!
