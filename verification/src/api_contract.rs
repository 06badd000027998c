use vstd::prelude::*;
use crate::contracts::{copy_strings, extract_functions_signatures, function_signatures, py_boilerplate, Signatures};
use crate::formatting::SupportedLanguage;
use crate::hooks::{edit_lines, edit_lines_exec, ToolEdit, ToolInput};
use crate::report::{normalize_tool_name, tool_kind, ToolKind};
use crate::strings::{append_chars, append_str, chars_of, decimal, decimal_exec, owned, string_of, strs};
use crate::syntax::{ast_signatures, signatures_of_tree, sig_index, sigs_view, FuncSignature, SigModel, SyntaxNode};
use crate::locate::{param_used_in_tree, param_used, str_is};
use crate::regexes::{escaped, regex_escape, regex_found, regex_is_match};
use vstd::utf8::{decode_utf8, encode_utf8, is_char_boundary, valid_utf8};
use vstd::string::StringSliceAdditionalSpecFns;
use crate::syntax::is_language;
use crate::source_tree::{parse_source, syntax_tree};

verus! {

// ---------------------------------------------------------------------------
// The code before and after an edit
// ---------------------------------------------------------------------------

/// At most the first 1000 edits.
pub open spec fn first_edits(es: Seq<ToolEdit>) -> Seq<ToolEdit> {
    if es.len() > 1000 {
        es.take(1000)
    } else {
        es
    }
}

/// The code before and after a change: an edit's old and new strings; for
/// a multi-edit, those of its first 1000 edits, each ended by a newline;
/// nothing for other tools.
pub open spec fn edit_texts(kind: ToolKind, input: ToolInput) -> (Seq<char>, Seq<char>) {
    match kind {
        ToolKind::Edit => (crate::hooks::text_or_empty(input.old_string), crate::hooks::text_or_empty(input.new_string)),
        ToolKind::MultiEdit => match input.edits {
            Some(es) => (edit_lines(first_edits(es@), true), edit_lines(first_edits(es@), false)),
            None => (Seq::empty(), Seq::empty()),
        },
        _ => (Seq::empty(), Seq::empty()),
    }
}

fn edit_texts_exec(kind: ToolKind, input: &ToolInput) -> (r: (Vec<char>, Vec<char>))
    ensures
        (r.0@, r.1@) == edit_texts(kind, *input),
{
    let mut b: Vec<char> = Vec::new();
    let mut a: Vec<char> = Vec::new();
    match kind {
        ToolKind::Edit => {
            match &input.old_string {
                Some(s) => {
                    b = chars_of(s.as_str());
                },
                None => {},
            }
            match &input.new_string {
                Some(s) => {
                    a = chars_of(s.as_str());
                },
                None => {},
            }
        },
        ToolKind::MultiEdit => {
            match &input.edits {
                Some(es) => {
                    b = edit_lines_exec(es, true);
                    a = edit_lines_exec(es, false);
                },
                None => {},
            }
        },
        _ => {},
    }
    (b, a)
}

// ---------------------------------------------------------------------------
// The signatures on each side
// ---------------------------------------------------------------------------

/// Signatures found by pattern, each taken to span the whole file of `len`
/// bytes.
pub open spec fn whole_file(m: Signatures, len: nat) -> Seq<(Seq<char>, SigModel)> {
    m.map_values(|e: (Seq<char>, Seq<Seq<char>>)| (e.0, (e.1, 0nat, len)))
}

/// The signatures of one side: those of its tree, or, where the tree gives
/// none and `fallback` holds, those found by pattern in `code`.
pub open spec fn side_signatures(
    lang: SupportedLanguage,
    tree: Option<SyntaxNode>,
    code: Seq<char>,
    fallback: bool,
    len: nat,
) -> Seq<(Seq<char>, SigModel)> {
    let a = ast_signatures(lang, tree);
    if a.len() == 0 && fallback {
        whole_file(function_signatures(lang, code), len)
    } else {
        a
    }
}

/// An optional tree reference seen as an optional tree.
pub open spec fn opt_tree(t: Option<&SyntaxNode>) -> Option<SyntaxNode> {
    match t {
        Some(n) => Some(*n),
        None => None,
    }
}

fn side_signatures_exec(
    lang: SupportedLanguage,
    tree: Option<&SyntaxNode>,
    code: &str,
    fallback: bool,
    len: usize,
) -> (r: Vec<(String, FuncSignature)>)
    ensures
        sigs_view(r@) == side_signatures(lang, opt_tree(tree), code@, fallback, len as nat),
{
    let a = signatures_of_tree(lang, tree);
    assert(opt_tree(tree) == match tree {
        Some(n) => Some(*n),
        None => None,
    });
    if a.len() == 0 && fallback {
        let m = extract_functions_signatures(lang, code);
        let ghost mv = crate::contracts::sig_view(m@);
        let mut r: Vec<(String, FuncSignature)> = Vec::new();
        let mut i: usize = 0;
        assert(sigs_view(r@) =~= whole_file(mv.take(0), len as nat));
        while i < m.len()
            invariant
                i <= m@.len(),
                mv == crate::contracts::sig_view(m@),
                sigs_view(r@) == whole_file(mv.take(i as int), len as nat),
            decreases m@.len() - i,
        {
            let ghost before = r@;
            let name = owned(m[i].0.as_str());
            let params = copy_strings(&m[i].1);
            r.push((name, FuncSignature { params, start_byte: 0, end_byte: len }));
            assert(mv.take(i + 1) =~= mv.take(i as int).push(mv[i as int]));
            assert(sigs_view(r@) =~= sigs_view(before).push((name@, (strs(params@), 0nat, len as nat))));
            assert(whole_file(mv.take(i + 1), len as nat) =~= whole_file(mv.take(i as int), len as nat).push(
                (mv[i as int].0, (mv[i as int].1, 0nat, len as nat)),
            ));
            i = i + 1;
        }
        assert(mv.take(m@.len() as int) =~= mv);
        r
    } else {
        a
    }
}

// ---------------------------------------------------------------------------
// What the change removed
// ---------------------------------------------------------------------------

/// The line for a function whose parameter list got shorter.
pub open spec fn reduced_line(name: Seq<char>, before: nat, after: nat) -> Seq<char> {
    "- Function `"@ + name + "`: parameter count reduced ("@ + decimal(before) + " -> "@ + decimal(after) + ")\n"@
}

/// The line for a parameter that is gone.
pub open spec fn removed_param_line(name: Seq<char>, p: Seq<char>) -> Seq<char> {
    "- Function `"@ + name + "`: parameter `"@ + p + "` removed or renamed\n"@
}

/// The line for a function that is gone.
pub open spec fn removed_function_line(name: Seq<char>) -> Seq<char> {
    "- Function `"@ + name + "`: removed from module (possible breaking change)\n"@
}

/// The lines for the old parameters that the new list lacks (empty names
/// and, for Python, `self`, `cls`, `args` and `kwargs` are not reported).
pub open spec fn missing_params(lang: SupportedLanguage, name: Seq<char>, bp: Seq<Seq<char>>, ap: Seq<Seq<char>>) -> Seq<
    char,
>
    decreases bp.len(),
{
    if bp.len() == 0 {
        Seq::empty()
    } else {
        let prev = missing_params(lang, name, bp.drop_last(), ap);
        let p = bp.last();
        if (lang == SupportedLanguage::Python && py_boilerplate(p)) || p.len() == 0 || ap.contains(p) {
            prev
        } else {
            prev + removed_param_line(name, p)
        }
    }
}

/// What the change did to one old function.
pub open spec fn removal_for(
    lang: SupportedLanguage,
    name: Seq<char>,
    bp: Seq<Seq<char>>,
    after: Seq<(Seq<char>, SigModel)>,
) -> Seq<char> {
    match sig_index(after, name) {
        Some(i) => {
            let ap = after[i as int].1.0;
            if ap.len() < bp.len() {
                reduced_line(name, bp.len(), ap.len())
            } else {
                missing_params(lang, name, bp, ap)
            }
        },
        None => removed_function_line(name),
    }
}

/// What the change did to each old function, in order.
pub open spec fn removal_lines(
    lang: SupportedLanguage,
    before: Seq<(Seq<char>, SigModel)>,
    after: Seq<(Seq<char>, SigModel)>,
) -> Seq<char>
    decreases before.len(),
{
    if before.len() == 0 {
        Seq::empty()
    } else {
        removal_lines(lang, before.drop_last(), after) + removal_for(lang, before.last().0, before.last().1.0, after)
    }
}

fn sig_index_exec(list: &Vec<(String, FuncSignature)>, name: &str) -> (r: Option<usize>)
    ensures
        match r {
            Some(i) => sig_index(sigs_view(list@), name@) == Some(i as nat) && i < list@.len(),
            None => sig_index(sigs_view(list@), name@) is None,
        },
{
    let ghost lv = sigs_view(list@);
    let mut i: usize = list.len();
    assert(lv.take(i as int) =~= lv);
    while i > 0
        invariant
            i <= list@.len(),
            lv == sigs_view(list@),
            sig_index(lv, name@) == sig_index(lv.take(i as int), name@),
        decreases i,
    {
        let ghost pre = lv.take(i as int);
        assert(pre.drop_last() =~= lv.take(i - 1));
        assert(pre.last() == lv[i - 1]);
        if str_is(list[i - 1].0.as_str(), name) {
            return Some(i - 1);
        }
        i = i - 1;
    }
    None
}

fn contains_text(v: &Vec<String>, p: &str) -> (r: bool)
    ensures
        r == strs(v@).contains(p@),
{
    let mut i: usize = 0;
    while i < v.len()
        invariant
            i <= v@.len(),
            forall|j: int| 0 <= j < i ==> strs(v@)[j] != p@,
        decreases v@.len() - i,
    {
        if str_is(v[i].as_str(), p) {
            assert(strs(v@)[i as int] == p@);
            return true;
        }
        i = i + 1;
    }
    false
}

fn is_py_boilerplate(p: &str) -> (r: bool)
    ensures
        r == py_boilerplate(p@),
{
    str_is(p, "self") || str_is(p, "cls") || str_is(p, "args") || str_is(p, "kwargs")
}

fn append_text(out: &mut Vec<char>, s: &str)
    ensures
        final(out)@ == old(out)@ + s@,
{
    let c = chars_of(s);
    append_chars(out, c.as_slice());
}

fn missing_params_exec(lang: SupportedLanguage, name: &str, bp: &Vec<String>, ap: &Vec<String>, out: &mut Vec<char>)
    ensures
        final(out)@ == old(out)@ + missing_params(lang, name@, strs(bp@), strs(ap@)),
{
    let ghost bv = strs(bp@);
    let ghost o0 = out@;
    let mut i: usize = 0;
    assert(bv.take(0) =~= Seq::<Seq<char>>::empty());
    assert(out@ =~= o0 + missing_params(lang, name@, bv.take(0), strs(ap@)));
    while i < bp.len()
        invariant
            i <= bp@.len(),
            bv == strs(bp@),
            o0 == old(out)@,
            out@ == o0 + missing_params(lang, name@, bv.take(i as int), strs(ap@)),
        decreases bp@.len() - i,
    {
        let p = bp[i].as_str();
        assert(bv.take(i + 1).drop_last() =~= bv.take(i as int));
        assert(bv.take(i + 1).last() == p@);
        let skip = (is_language(lang, SupportedLanguage::Python) && is_py_boilerplate(p)) || p.is_empty()
            || contains_text(ap, p);
        if !skip {
            append_str(out, "- Function `");
            append_text(out, name);
            append_str(out, "`: parameter `");
            append_text(out, p);
            append_str(out, "` removed or renamed\n");
        }
        assert(out@ =~= o0 + missing_params(lang, name@, bv.take(i + 1), strs(ap@)));
        i = i + 1;
    }
    assert(bv.take(bp@.len() as int) =~= bv);
}

fn removal_lines_exec(
    lang: SupportedLanguage,
    before: &Vec<(String, FuncSignature)>,
    after: &Vec<(String, FuncSignature)>,
    out: &mut Vec<char>,
)
    ensures
        final(out)@ == old(out)@ + removal_lines(lang, sigs_view(before@), sigs_view(after@)),
{
    let ghost bv = sigs_view(before@);
    let ghost av = sigs_view(after@);
    let ghost o0 = out@;
    let mut k: usize = 0;
    assert(bv.take(0) =~= Seq::<(Seq<char>, SigModel)>::empty());
    assert(out@ =~= o0 + removal_lines(lang, bv.take(0), av));
    while k < before.len()
        invariant
            k <= before@.len(),
            bv == sigs_view(before@),
            av == sigs_view(after@),
            o0 == old(out)@,
            out@ == o0 + removal_lines(lang, bv.take(k as int), av),
        decreases before@.len() - k,
    {
        let name = before[k].0.as_str();
        let bp = &before[k].1.params;
        assert(bv.take(k + 1).drop_last() =~= bv.take(k as int));
        assert(bv.take(k + 1).last() == bv[k as int]);
        let ghost o1 = out@;
        match sig_index_exec(after, name) {
            Some(i) => {
                let ap = &after[i].1.params;
                assert(av[i as int].1.0 == strs(ap@));
                if ap.len() < bp.len() {
                    append_str(out, "- Function `");
                    append_text(out, name);
                    append_str(out, "`: parameter count reduced (");
                    let d1 = decimal_exec(bp.len());
                    append_chars(out, d1.as_slice());
                    append_str(out, " -> ");
                    let d2 = decimal_exec(ap.len());
                    append_chars(out, d2.as_slice());
                    append_str(out, ")\n");
                    assert(out@ =~= o1 + reduced_line(name@, bp@.len() as nat, ap@.len() as nat));
                } else {
                    missing_params_exec(lang, name, bp, ap, out);
                }
            },
            None => {
                append_str(out, "- Function `");
                append_text(out, name);
                append_str(out, "`: removed from module (possible breaking change)\n");
                assert(out@ =~= o1 + removed_function_line(name@));
            },
        }
        assert(out@ =~= o0 + removal_lines(lang, bv.take(k + 1), av));
        k = k + 1;
    }
    assert(bv.take(before@.len() as int) =~= bv);
}

// ---------------------------------------------------------------------------
// Parameters the new code leaves unused
// ---------------------------------------------------------------------------

/// A character that may start a simple identifier.
pub open spec fn ident_start(c: char) -> bool {
    ('a' <= c && c <= 'z') || ('A' <= c && c <= 'Z') || c == '_' || c == '$'
}

/// A character that may continue a simple identifier.
pub open spec fn ident_char(c: char) -> bool {
    ident_start(c) || ('0' <= c && c <= '9')
}

/// An ASCII letter, `_` or `$`, then ASCII letters, digits, `_` or `$`.
pub open spec fn simple_ident(v: Seq<char>) -> bool {
    v.len() > 0 && ident_start(v[0]) && forall|i: int| 1 <= i < v.len() ==> ident_char(#[trigger] v[i])
}

/// The regex that finds `p` as a whole word.
pub open spec fn word_pattern(p: Seq<char>) -> Seq<char> {
    "(?m)\\b"@ + escaped(p) + "\\b"@
}

/// The line for a parameter that the body never uses.
pub open spec fn unused_line(name: Seq<char>, p: Seq<char>) -> Seq<char> {
    "- Function `"@ + name + "`: parameter `"@ + p + "` appears unused\n"@
}

/// Parameters that are not checked: empty ones, Python's `self` and `cls`,
/// and, in JavaScript and TypeScript, anything but a simple identifier.
pub open spec fn skipped_param(lang: SupportedLanguage, p: Seq<char>) -> bool {
    p.len() == 0 || (lang == SupportedLanguage::Python && (p == "self"@ || p == "cls"@)) || ((lang
        == SupportedLanguage::JavaScript || lang == SupportedLanguage::TypeScript) && !simple_ident(p))
}

/// The bytes `start..end` lie inside the file.
pub open spec fn in_file(content: Seq<char>, start: nat, end: nat) -> bool {
    end > start && end <= encode_utf8(content).len()
}

/// The text a parameter is looked for in: the function's bytes of the file
/// when they lie inside it, else the whole file; `None` where those bytes
/// would start or end inside a character.
pub open spec fn search_text(content: Seq<char>, start: nat, end: nat) -> Option<Seq<char>> {
    let b = encode_utf8(content);
    if in_file(content, start, end) {
        if is_char_boundary(b, start as int) && is_char_boundary(b, end as int) {
            Some(decode_utf8(b.subrange(start as int, end as int)))
        } else {
            None
        }
    } else {
        Some(content)
    }
}

/// The lines for the parameters `ps` of function `name` (bytes
/// `start..end`) that are used neither in its tree nor, as a whole word, in
/// its text; `None` where the text cannot be cut there.
pub open spec fn unused_params(
    lang: SupportedLanguage,
    content: Seq<char>,
    tree: Option<SyntaxNode>,
    name: Seq<char>,
    ps: Seq<Seq<char>>,
    start: nat,
    end: nat,
) -> Option<Seq<char>>
    decreases ps.len(),
{
    if ps.len() == 0 {
        Some(Seq::empty())
    } else {
        match unused_params(lang, content, tree, name, ps.drop_last(), start, end) {
            None => None,
            Some(prev) => {
                let p = ps.last();
                if skipped_param(lang, p) {
                    Some(prev)
                } else if in_file(content, start, end) && param_used(lang, tree, start, end, p) {
                    Some(prev)
                } else {
                    match search_text(content, start, end) {
                        None => None,
                        Some(h) => if regex_found(word_pattern(p), h) {
                            Some(prev)
                        } else {
                            Some(prev + unused_line(name, p))
                        },
                    }
                }
            },
        }
    }
}

/// The unused-parameter lines of each new function, in order.
pub open spec fn unused_lines(
    lang: SupportedLanguage,
    content: Seq<char>,
    tree: Option<SyntaxNode>,
    after: Seq<(Seq<char>, SigModel)>,
) -> Option<Seq<char>>
    decreases after.len(),
{
    if after.len() == 0 {
        Some(Seq::empty())
    } else {
        match unused_lines(lang, content, tree, after.drop_last()) {
            None => None,
            Some(prev) => {
                let e = after.last();
                match unused_params(lang, content, tree, e.0, e.1.0, e.1.1, e.1.2) {
                    None => None,
                    Some(u) => Some(prev + u),
                }
            },
        }
    }
}

proof fn lemma_unused_params_stays_none(
    lang: SupportedLanguage,
    content: Seq<char>,
    tree: Option<SyntaxNode>,
    name: Seq<char>,
    ps: Seq<Seq<char>>,
    k: int,
    j: int,
    start: nat,
    end: nat,
)
    requires
        0 <= k <= j <= ps.len(),
        unused_params(lang, content, tree, name, ps.take(k), start, end) is None,
    ensures
        unused_params(lang, content, tree, name, ps.take(j), start, end) is None,
    decreases j - k,
{
    if j > k {
        lemma_unused_params_stays_none(lang, content, tree, name, ps, k, j - 1, start, end);
        assert(ps.take(j).drop_last() =~= ps.take(j - 1));
    }
}

proof fn lemma_unused_lines_stays_none(
    lang: SupportedLanguage,
    content: Seq<char>,
    tree: Option<SyntaxNode>,
    after: Seq<(Seq<char>, SigModel)>,
    k: int,
    j: int,
)
    requires
        0 <= k <= j <= after.len(),
        unused_lines(lang, content, tree, after.take(k)) is None,
    ensures
        unused_lines(lang, content, tree, after.take(j)) is None,
    decreases j - k,
{
    if j > k {
        lemma_unused_lines_stays_none(lang, content, tree, after, k, j - 1);
        assert(after.take(j).drop_last() =~= after.take(j - 1));
    }
}

fn simple_ident_exec(p: &str) -> (r: bool)
    ensures
        r == simple_ident(p@),
{
    let c = chars_of(p);
    if c.len() == 0 {
        return false;
    }
    let f = c[0];
    if !(('a' <= f && f <= 'z') || ('A' <= f && f <= 'Z') || f == '_' || f == '$') {
        return false;
    }
    let mut i: usize = 1;
    while i < c.len()
        invariant
            1 <= i <= c@.len(),
            c@ == p@,
            forall|j: int| 1 <= j < i ==> ident_char(#[trigger] c@[j]),
        decreases c@.len() - i,
    {
        let x = c[i];
        if !(('a' <= x && x <= 'z') || ('A' <= x && x <= 'Z') || x == '_' || x == '$' || ('0' <= x && x <= '9')) {
            assert(!ident_char(c@[i as int]));
            return false;
        }
        i = i + 1;
    }
    true
}

fn skipped_param_exec(lang: SupportedLanguage, p: &str) -> (r: bool)
    ensures
        r == skipped_param(lang, p@),
{
    if p.is_empty() {
        return true;
    }
    if is_language(lang, SupportedLanguage::Python) && (str_is(p, "self") || str_is(p, "cls")) {
        return true;
    }
    (is_language(lang, SupportedLanguage::JavaScript) || is_language(lang, SupportedLanguage::TypeScript))
        && !simple_ident_exec(p)
}

proof fn lemma_boundary_in_tail(b: Seq<u8>, start: int, end: int)
    requires
        valid_utf8(b),
        0 <= start <= end <= b.len(),
        is_char_boundary(b, start),
        is_char_boundary(b, end),
    ensures
        valid_utf8(b.subrange(start, b.len() as int)),
        is_char_boundary(b.subrange(start, b.len() as int), end - start),
{
    let tail = b.subrange(start, b.len() as int);
    vstd::utf8::valid_utf8_split(b, start);
    if end < b.len() {
        vstd::utf8::is_char_boundary_iff_not_is_continuation_byte(b, end);
        vstd::utf8::is_char_boundary_iff_not_is_continuation_byte(tail, end - start);
        assert(tail[end - start] == b[end]);
    } else {
        vstd::utf8::is_char_boundary_start_end_of_seq(tail);
    }
}

fn search_text_exec<'a>(content: &'a str, start: usize, end: usize) -> (r: Option<&'a str>)
    ensures
        match r {
            Some(h) => search_text(content@, start as nat, end as nat) == Some(h@),
            None => search_text(content@, start as nat, end as nat) is None,
        },
{
    let n = content.as_bytes().len();
    if end > start && end <= n {
        if content.is_char_boundary(start) && content.is_char_boundary(end) {
            let ghost b = content.spec_bytes();
            proof {
                vstd::utf8::encode_utf8_valid_utf8(content@);
                lemma_boundary_in_tail(b, start as int, end as int);
            }
            let (_, tail) = content.split_at(start);
            let (mid, _) = tail.split_at(end - start);
            assert(mid.spec_bytes() =~= b.subrange(start as int, end as int));
            proof {
                vstd::utf8::encode_utf8_decode_utf8(mid@);
            }
            Some(mid)
        } else {
            None
        }
    } else {
        Some(content)
    }
}

fn unused_params_exec(
    lang: SupportedLanguage,
    content: &str,
    tree: Option<&SyntaxNode>,
    name: &str,
    ps: &Vec<String>,
    start: usize,
    end: usize,
    out: &mut Vec<char>,
) -> (ok: bool)
    ensures
        match unused_params(lang, content@, opt_tree(tree), name@, strs(ps@), start as nat, end as nat) {
            Some(u) => ok && final(out)@ == old(out)@ + u,
            None => !ok,
        },
{
    let ghost pv = strs(ps@);
    let ghost o0 = out@;
    let ghost t = opt_tree(tree);
    let mut i: usize = 0;
    assert(pv.take(0) =~= Seq::<Seq<char>>::empty());
    assert(out@ =~= o0 + Seq::<char>::empty());
    while i < ps.len()
        invariant
            i <= ps@.len(),
            pv == strs(ps@),
            o0 == old(out)@,
            t == opt_tree(tree),
            unused_params(lang, content@, t, name@, pv.take(i as int), start as nat, end as nat) == Some(
                out@.skip(o0.len() as int),
            ),
            out@ == o0 + out@.skip(o0.len() as int),
        decreases ps@.len() - i,
    {
        let ghost prev = out@.skip(o0.len() as int);
        let p = ps[i].as_str();
        assert(pv.take(i + 1).drop_last() =~= pv.take(i as int));
        assert(pv.take(i + 1).last() == p@);
        if !skipped_param_exec(lang, p) {
            let inside = end > start && end <= content.as_bytes().len();
            let used = inside && param_used_in_tree(lang, tree, start, end, p);
            assert(opt_tree(tree) == match tree {
                Some(n) => Some(*n),
                None => None,
            });
            if !used {
                match search_text_exec(content, start, end) {
                    None => {
                        proof {
                            lemma_unused_params_stays_none(lang, content@, t, name@, pv, i + 1, pv.len() as int, start as nat, end as nat);
                            assert(pv.take(pv.len() as int) =~= pv);
                        }
                        return false;
                    },
                    Some(h) => {
                        let esc = regex_escape(p);
                        let mut pat: Vec<char> = Vec::new();
                        append_str(&mut pat, "(?m)\\b");
                        append_text(&mut pat, esc.as_str());
                        append_str(&mut pat, "\\b");
                        assert(pat@ =~= word_pattern(p@));
                        let pattern = string_of(pat.as_slice());
                        if !regex_is_match(pattern.as_str(), h) {
                            append_str(out, "- Function `");
                            append_text(out, name);
                            append_str(out, "`: parameter `");
                            append_text(out, p);
                            append_str(out, "` appears unused\n");
                            assert(out@.skip(o0.len() as int) =~= prev + unused_line(name@, p@));
                        }
                    },
                }
            }
        }
        assert(out@ =~= o0 + out@.skip(o0.len() as int));
        i = i + 1;
    }
    assert(pv.take(ps@.len() as int) =~= pv);
    true
}

fn unused_lines_exec(
    lang: SupportedLanguage,
    content: &str,
    tree: Option<&SyntaxNode>,
    after: &Vec<(String, FuncSignature)>,
    out: &mut Vec<char>,
) -> (ok: bool)
    ensures
        match unused_lines(lang, content@, opt_tree(tree), sigs_view(after@)) {
            Some(u) => ok && final(out)@ == old(out)@ + u,
            None => !ok,
        },
{
    let ghost av = sigs_view(after@);
    let ghost o0 = out@;
    let ghost t = opt_tree(tree);
    let mut k: usize = 0;
    assert(av.take(0) =~= Seq::<(Seq<char>, SigModel)>::empty());
    assert(out@ =~= o0 + Seq::<char>::empty());
    while k < after.len()
        invariant
            k <= after@.len(),
            av == sigs_view(after@),
            o0 == old(out)@,
            t == opt_tree(tree),
            unused_lines(lang, content@, t, av.take(k as int)) == Some(out@.skip(o0.len() as int)),
            out@ == o0 + out@.skip(o0.len() as int),
        decreases after@.len() - k,
    {
        let ghost prev = out@.skip(o0.len() as int);
        let ghost o1 = out@;
        assert(av.take(k + 1).drop_last() =~= av.take(k as int));
        assert(av.take(k + 1).last() == av[k as int]);
        let e = &after[k];
        if !unused_params_exec(lang, content, tree, e.0.as_str(), &e.1.params, e.1.start_byte, e.1.end_byte, out) {
            proof {
                lemma_unused_lines_stays_none(lang, content@, t, av, k + 1, av.len() as int);
                assert(av.take(av.len() as int) =~= av);
            }
            return false;
        }
        assert(out@.skip(o0.len() as int) =~= prev + out@.skip(o1.len() as int));
        assert(out@ =~= o0 + out@.skip(o0.len() as int));
        k = k + 1;
    }
    assert(av.take(after@.len() as int) =~= av);
    true
}

// ---------------------------------------------------------------------------
// The report
// ---------------------------------------------------------------------------

/// The API contract section of the post-tool report. The code before and
/// after the change comes from the tool input (see `edit_texts`; the new
/// code is the whole file `content` where the input gives none). Each side's
/// functions come from its tree, or, where that gives none, from patterns
/// (for the old side only when there is old code), each then spanning the
/// whole file. Then: each old function that is gone, lost parameters, or
/// lost some parameter; and each parameter of a new function that its body
/// does not use. Nothing when there is no code on either side, no function
/// on either side, or nothing to say; `None` where the file would be cut
/// inside a character.
pub open spec fn api_contract_report(
    lang: SupportedLanguage,
    tool_name: Seq<char>,
    input: ToolInput,
    content: Seq<char>,
    before_tree: Option<SyntaxNode>,
    after_tree: Option<SyntaxNode>,
    content_tree: Option<SyntaxNode>,
) -> Option<Seq<char>> {
    let texts = edit_texts(tool_kind(tool_name).0, input);
    let b = texts.0;
    let a = texts.1;
    if b.len() == 0 && a.len() == 0 {
        Some(Seq::empty())
    } else {
        let len = encode_utf8(content).len();
        let bs = side_signatures(lang, before_tree, b, b.len() > 0, len);
        let as_ = side_signatures(
            lang,
            after_tree,
            if a.len() == 0 {
                content
            } else {
                a
            },
            true,
            len,
        );
        if bs.len() == 0 && as_.len() == 0 {
            Some(Seq::empty())
        } else {
            match unused_lines(lang, content, content_tree, as_) {
                None => None,
                Some(u) => {
                    let body = removal_lines(lang, bs, as_) + u;
                    if body.len() == 0 {
                        Some(Seq::empty())
                    } else {
                        Some("=== API CONTRACT ===\n"@ + body)
                    }
                },
            }
        }
    }
}

/// The API contract section (see `api_contract_report`) for given trees:
/// `before_tree`, `after_tree` and `content_tree` are the parsed old code,
/// new code and file, where they could be parsed.
pub fn api_contract_report_of_trees(
    language: SupportedLanguage,
    tool_name: &str,
    tool_input: &ToolInput,
    content: &str,
    before_tree: Option<&SyntaxNode>,
    after_tree: Option<&SyntaxNode>,
    content_tree: Option<&SyntaxNode>,
) -> (r: Option<String>)
    ensures
        match r {
            Some(t) => api_contract_report(
                language,
                tool_name@,
                *tool_input,
                content@,
                opt_tree(before_tree),
                opt_tree(after_tree),
                opt_tree(content_tree),
            ) == Some(t@),
            None => api_contract_report(
                language,
                tool_name@,
                *tool_input,
                content@,
                opt_tree(before_tree),
                opt_tree(after_tree),
                opt_tree(content_tree),
            ) is None,
        },
{
    let kind = normalize_tool_name(tool_name).0;
    let (b, a) = edit_texts_exec(kind, tool_input);
    if b.len() == 0 && a.len() == 0 {
        return Some(String::new());
    }
    let len = content.as_bytes().len();
    let before = string_of(b.as_slice());
    let after = string_of(a.as_slice());
    let bs = side_signatures_exec(language, before_tree, before.as_str(), b.len() > 0, len);
    let after_text: &str = if a.len() == 0 {
        content
    } else {
        after.as_str()
    };
    let as_ = side_signatures_exec(language, after_tree, after_text, true, len);
    if bs.len() == 0 && as_.len() == 0 {
        return Some(String::new());
    }
    let mut body: Vec<char> = Vec::new();
    removal_lines_exec(language, &bs, &as_, &mut body);
    if !unused_lines_exec(language, content, content_tree, &as_, &mut body) {
        return None;
    }
    if body.len() == 0 {
        return Some(String::new());
    }
    let mut out: Vec<char> = Vec::new();
    append_str(&mut out, "=== API CONTRACT ===\n");
    append_chars(&mut out, body.as_slice());
    Some(string_of(out.as_slice()))
}

/// The API contract section of an edit (see `api_contract_report`), with the
/// old code, the new code (the file when the edit gives none) and the file
/// parsed by tree-sitter.
pub fn build_api_contract_report(
    language: SupportedLanguage,
    tool_name: &str,
    tool_input: &ToolInput,
    content: &str,
) -> (r: Option<String>)
    ensures
        ({
            let texts = edit_texts(tool_kind(tool_name@).0, *tool_input);
            let after = if texts.1.len() == 0 {
                content@
            } else {
                texts.1
            };
            let expected = api_contract_report(
                language,
                tool_name@,
                *tool_input,
                content@,
                syntax_tree(language, texts.0),
                syntax_tree(language, after),
                syntax_tree(language, content@),
            );
            match r {
                Some(t) => expected == Some(t@),
                None => expected is None,
            }
        }),
{
    let kind = normalize_tool_name(tool_name).0;
    let (b, a) = edit_texts_exec(kind, tool_input);
    let before = string_of(b.as_slice());
    let after = string_of(a.as_slice());
    let after_text: &str = if a.len() == 0 {
        content
    } else {
        after.as_str()
    };
    let before_tree = parse_source(language, before.as_str());
    let after_tree = parse_source(language, after_text);
    let content_tree = parse_source(language, content);
    api_contract_report_of_trees(
        language,
        tool_name,
        tool_input,
        content,
        before_tree.as_ref(),
        after_tree.as_ref(),
        content_tree.as_ref(),
    )
}

} // verus!
