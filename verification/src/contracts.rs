use vstd::prelude::*;
use crate::strings::{
    cat, decimal, decimal_exec, chars_eq, chars_of, lead_run, lemma_runs_bound, lemma_split_len, lemma_strs_push,
    lemma_views_push, owned, slice_chars, split, split_chars, string_of, strip_repeated,
    strip_repeated_exec, strs, trail_run, trim, trim_chars, views, contains, find_from,
    index_of_char_from, join_texts, join_strings, has_char,
};
use crate::regexes::{regex_all_groups2, regex_captures_all2};
use crate::formatting::SupportedLanguage;

verus! {

// ---------------------------------------------------------------------------
// Signatures
// ---------------------------------------------------------------------------

/// Python `def name(params)`.
pub const PY_DEF: &'static str = r"(?m)^\s*def\s+([A-Za-z_][A-Za-z0-9_]*)\s*\(([^)]*)\)";

/// JavaScript `function name(params)`.
pub const JS_FUNCTION: &'static str = r"(?m)function\s+([A-Za-z_][A-Za-z0-9_]*)\s*\(([^)]*)\)";

/// A class method `name(params) {` at the start of a line.
pub const JS_METHOD: &'static str = r"(?m)^\s*([A-Za-z_][A-Za-z0-9_]*)\s*\(([^)]*)\)\s*\{";

/// `s` without its leading `c`s.
pub open spec fn strip_lead(s: Seq<char>, c: char) -> Seq<char> {
    s.skip(lead_run(s, c) as int)
}

/// `s` without its trailing `c`s.
pub open spec fn strip_trail(s: Seq<char>, c: char) -> Seq<char> {
    s.take(s.len() - trail_run(s, c))
}

/// Python parameters that say nothing about the contract.
pub open spec fn py_boilerplate(p: Seq<char>) -> bool {
    p == "self"@ || p == "cls"@ || p == "args"@ || p == "kwargs"@
}

/// The name of a Python parameter: before any `:` and `=`, trimmed, without
/// leading `*`.
pub open spec fn py_param(p: Seq<char>) -> Seq<char> {
    strip_lead(trim(split(split(p, ':')[0], '=')[0]), '*')
}

/// The name of a JavaScript parameter: without leading `...`, before any
/// `:`, and (for functions) without trailing `?`.
pub open spec fn js_param(p: Seq<char>, optional_mark: bool) -> Seq<char> {
    let base = split(strip_repeated(p, "..."@), ':')[0];
    if optional_mark {
        strip_trail(base, '?')
    } else {
        base
    }
}

/// Which kind of parameter list is read.
pub enum ParamStyle {
    Python,
    JsFunction,
    JsMethod,
}

/// The parameter names of a list: its comma-separated pieces, trimmed,
/// empty ones left out, each reduced to its name (for Python, boilerplate
/// names left out too).
pub open spec fn params_of(pieces: Seq<Seq<char>>, style: ParamStyle) -> Seq<Seq<char>>
    decreases pieces.len(),
{
    if pieces.len() == 0 {
        Seq::empty()
    } else {
        let rest = params_of(pieces.drop_last(), style);
        let t = trim(pieces.last());
        if t.len() == 0 {
            rest
        } else {
            match style {
                ParamStyle::Python => if py_boilerplate(py_param(t)) {
                    rest
                } else {
                    rest.push(py_param(t))
                },
                ParamStyle::JsFunction => rest.push(js_param(t, true)),
                ParamStyle::JsMethod => rest.push(js_param(t, false)),
            }
        }
    }
}

/// Function names and their parameters, each name once, in the order the
/// names first appear.
pub type Signatures = Seq<(Seq<char>, Seq<Seq<char>>)>;

/// Where `name` stands in `m`.
pub open spec fn key_index(m: Signatures, name: Seq<char>) -> Option<int>
    decreases m.len(),
{
    if m.len() == 0 {
        None
    } else if m.last().0 == name {
        Some(m.len() - 1)
    } else {
        key_index(m.drop_last(), name)
    }
}

/// `name` now has `params` (replacing what it had; added at the end when new).
pub open spec fn sig_set(m: Signatures, name: Seq<char>, params: Seq<Seq<char>>) -> Signatures {
    match key_index(m, name) {
        Some(i) => m.update(i, (name, params)),
        None => m.push((name, params)),
    }
}

/// `name` gets `params` unless it already has some.
pub open spec fn sig_keep(m: Signatures, name: Seq<char>, params: Seq<Seq<char>>) -> Signatures {
    match key_index(m, name) {
        Some(_) => m,
        None => m.push((name, params)),
    }
}

/// The signatures found by one pattern's matches, added to `m` one by one
/// (a match without a name is skipped).
pub open spec fn add_matches(m: Signatures, found: Seq<(Seq<char>, Seq<char>)>, style: ParamStyle, keep: bool) -> Signatures
    decreases found.len(),
{
    if found.len() == 0 {
        m
    } else {
        let prev = add_matches(m, found.drop_last(), style, keep);
        let (name, params) = found.last();
        if name.len() == 0 {
            prev
        } else if keep {
            sig_keep(prev, name, params_of(split(params, ','), style))
        } else {
            sig_set(prev, name, params_of(split(params, ','), style))
        }
    }
}

/// The function signatures of some code: Python `def`s; JavaScript and
/// TypeScript `function`s, then class methods whose names were not seen;
/// nothing for other languages.
pub open spec fn signatures(language: Option<SupportedLanguage>, code: Seq<char>) -> Signatures {
    match language {
        Some(SupportedLanguage::Python) => add_matches(Seq::empty(), regex_all_groups2(PY_DEF@, code), ParamStyle::Python, false),
        Some(SupportedLanguage::JavaScript) | Some(SupportedLanguage::TypeScript) => add_matches(
            add_matches(Seq::empty(), regex_all_groups2(JS_FUNCTION@, code), ParamStyle::JsFunction, false),
            regex_all_groups2(JS_METHOD@, code),
            ParamStyle::JsMethod,
            true,
        ),
        _ => Seq::empty(),
    }
}

/// A signature list as values.
pub open spec fn sig_view(v: Seq<(String, Vec<String>)>) -> Signatures {
    v.map_values(|e: (String, Vec<String>)| (e.0@, strs(e.1@)))
}

/// `s` without its leading `c`s.
fn strip_lead_exec(s: &[char], c: char) -> (r: Vec<char>)
    ensures
        r@ == strip_lead(s@, c),
{
    let mut i: usize = 0;
    assert(s@.skip(0) == s@);
    while i < s.len() && s[i] == c
        invariant
            i <= s@.len(),
            lead_run(s@, c) == i + lead_run(s@.skip(i as int), c),
        decreases s@.len() - i,
    {
        assert(s@.skip(i as int).drop_first() == s@.skip(i + 1));
        i = i + 1;
    }
    slice_chars(s, i, s.len())
}

/// `s` without its trailing `c`s.
fn strip_trail_exec(s: &[char], c: char) -> (r: Vec<char>)
    ensures
        r@ == strip_trail(s@, c),
{
    proof {
        lemma_runs_bound(s@, c);
    }
    let mut j: usize = 0;
    assert(s@.take(s@.len() as int) == s@);
    while j < s.len() && s[s.len() - 1 - j] == c
        invariant
            j <= s@.len(),
            trail_run(s@, c) == j + trail_run(s@.take(s@.len() - j), c),
        decreases s@.len() - j,
    {
        assert(s@.take(s@.len() - j).drop_last() == s@.take(s@.len() - j - 1));
        j = j + 1;
    }
    slice_chars(s, 0, s.len() - j)
}

/// The first piece of `s` split at `c`.
fn first_piece(s: &[char], c: char) -> (r: Vec<char>)
    ensures
        r@ == split(s@, c)[0],
{
    let parts = split_chars(s, c);
    proof {
        lemma_split_len(s@, c);
    }
    slice_chars(parts[0].as_slice(), 0, parts[0].len())
}

fn is_py_boilerplate(p: &[char]) -> (r: bool)
    ensures
        r == py_boilerplate(p@),
{
    chars_eq(p, chars_of("self").as_slice()) || chars_eq(p, chars_of("cls").as_slice()) || chars_eq(
        p,
        chars_of("args").as_slice(),
    ) || chars_eq(p, chars_of("kwargs").as_slice())
}

/// The parameter names of a list (see `params_of`).
fn params_exec(params: &str, style: &ParamStyle) -> (r: Vec<String>)
    ensures
        strs(r@) == params_of(split(params@, ','), *style),
{
    let pieces = split_chars(chars_of(params).as_slice(), ',');
    let ghost pv = split(params@, ',');
    let dots = chars_of("...");
    let mut out: Vec<String> = Vec::new();
    let mut i: usize = 0;
    while i < pieces.len()
        invariant
            i <= pieces@.len(),
            pv == split(params@, ','),
            pieces@.len() == pv.len(),
            dots@ == "..."@,
            forall|j: int| 0 <= j < pieces@.len() ==> (#[trigger] pieces@[j])@ == pv[j],
            strs(out@) == params_of(pv.take(i as int), *style),
        decreases pieces@.len() - i,
    {
        assert(pv.take(i + 1).drop_last() == pv.take(i as int));
        assert(pv.take(i + 1).last() == pv[i as int]);
        let t = trim_chars(pieces[i].as_slice());
        if t.len() > 0 {
            let name: Vec<char> = match style {
                ParamStyle::Python => {
                    let a = first_piece(t.as_slice(), ':');
                    let b = first_piece(a.as_slice(), '=');
                    let c = trim_chars(b.as_slice());
                    strip_lead_exec(c.as_slice(), '*')
                },
                ParamStyle::JsFunction => {
                    let a = strip_repeated_exec(t.as_slice(), dots.as_slice());
                    let b = first_piece(a.as_slice(), ':');
                    strip_trail_exec(b.as_slice(), '?')
                },
                ParamStyle::JsMethod => {
                    let a = strip_repeated_exec(t.as_slice(), dots.as_slice());
                    first_piece(a.as_slice(), ':')
                },
            };
            let skip = match style {
                ParamStyle::Python => is_py_boilerplate(name.as_slice()),
                _ => false,
            };
            if !skip {
                let ghost before = out@;
                let s = string_of(name.as_slice());
                out.push(s);
                proof {
                    lemma_strs_push(before, s);
                }
            }
        }
        i = i + 1;
    }
    assert(pv.take(pieces@.len() as int) == pv);
    out
}

/// Where `name` stands in the list.
fn key_index_exec(m: &Vec<(String, Vec<String>)>, name: &[char]) -> (r: Option<usize>)
    ensures
        match r {
            Some(i) => key_index(sig_view(m@), name@) == Some(i as int) && i < m@.len(),
            None => key_index(sig_view(m@), name@) is None,
        },
{
    let ghost mv = sig_view(m@);
    let mut i: usize = m.len();
    assert(mv.take(i as int) == mv);
    while i > 0
        invariant
            i <= m@.len(),
            mv == sig_view(m@),
            key_index(mv, name@) == key_index(mv.take(i as int), name@),
        decreases i,
    {
        let ghost pre = mv.take(i as int);
        assert(pre.drop_last() == mv.take(i - 1));
        assert(pre.last() == mv[i - 1]);
        if chars_eq(chars_of(m[i - 1].0.as_str()).as_slice(), name) {
            return Some(i - 1);
        }
        i = i - 1;
    }
    None
}

/// Owned copies of strings, in order.
pub(crate) fn copy_strings(v: &Vec<String>) -> (r: Vec<String>)
    ensures
        strs(r@) == strs(v@),
{
    let mut out: Vec<String> = Vec::new();
    let mut i: usize = 0;
    while i < v.len()
        invariant
            i <= v@.len(),
            strs(out@) == strs(v@).take(i as int),
        decreases v@.len() - i,
    {
        let ghost before = out@;
        let s = owned(v[i].as_str());
        out.push(s);
        proof {
            lemma_strs_push(before, s);
        }
        assert(strs(v@).take(i + 1) == strs(v@).take(i as int).push(v@[i as int]@));
        i = i + 1;
    }
    assert(strs(v@).take(v@.len() as int) == strs(v@));
    out
}

/// Adds the signatures of one pattern's matches (see `add_matches`).
fn add_matches_exec(m: &mut Vec<(String, Vec<String>)>, found: &Vec<(String, String)>, style: &ParamStyle, keep: bool)
    ensures
        sig_view(final(m)@) == add_matches(
            sig_view(old(m)@),
            found@.map_values(|p: (String, String)| (p.0@, p.1@)),
            *style,
            keep,
        ),
{
    let ghost fv = found@.map_values(|p: (String, String)| (p.0@, p.1@));
    let ghost start = sig_view(m@);
    let mut i: usize = 0;
    while i < found.len()
        invariant
            i <= found@.len(),
            fv == found@.map_values(|p: (String, String)| (p.0@, p.1@)),
            sig_view(m@) == add_matches(start, fv.take(i as int), *style, keep),
        decreases found@.len() - i,
    {
        assert(fv.take(i + 1).drop_last() == fv.take(i as int));
        assert(fv.take(i + 1).last() == (found@[i as int].0@, found@[i as int].1@));
        let name = &found[i].0;
        let nc = chars_of(name.as_str());
        if nc.len() > 0 {
            let params = params_exec(found[i].1.as_str(), style);
            match key_index_exec(m, nc.as_slice()) {
                Some(k) => {
                    if !keep {
                        let ghost before = sig_view(m@);
                        let entry = (owned(name.as_str()), params);
                        m.set(k, entry);
                        assert(sig_view(m@) =~= before.update(k as int, (name@, strs(entry.1@))));
                    }
                },
                None => {
                    let ghost before = sig_view(m@);
                    let entry = (owned(name.as_str()), params);
                    m.push(entry);
                    assert(sig_view(m@) =~= before.push((name@, strs(entry.1@))));
                },
            }
        } else {
            assert(name@.len() == 0);
        }
        i = i + 1;
    }
    assert(fv.take(found@.len() as int) == fv);
}

/// The function signatures of some code (see `signatures`).
pub fn extract_signatures_regex(language: Option<SupportedLanguage>, code: &str) -> (r: Vec<(String, Vec<String>)>)
    ensures
        sig_view(r@) == signatures(language, code@),
{
    let mut m: Vec<(String, Vec<String>)> = Vec::new();
    assert(sig_view(m@) =~= Seq::<(Seq<char>, Seq<Seq<char>>)>::empty());
    match language {
        Some(SupportedLanguage::Python) => {
            let found = regex_captures_all2(PY_DEF, code);
            add_matches_exec(&mut m, &found, &ParamStyle::Python, false);
        },
        Some(SupportedLanguage::JavaScript) | Some(SupportedLanguage::TypeScript) => {
            let f1 = regex_captures_all2(JS_FUNCTION, code);
            add_matches_exec(&mut m, &f1, &ParamStyle::JsFunction, false);
            let f2 = regex_captures_all2(JS_METHOD, code);
            add_matches_exec(&mut m, &f2, &ParamStyle::JsMethod, true);
        },
        _ => {},
    }
    m
}

/// The function signatures the post-tool report falls back on: Python
/// `def`s; JavaScript and TypeScript `function`s, then class methods whose
/// names were not seen (method parameters lose a trailing `?` too); nothing
/// for other languages.
pub open spec fn function_signatures(language: SupportedLanguage, code: Seq<char>) -> Signatures {
    match language {
        SupportedLanguage::Python => add_matches(Seq::empty(), regex_all_groups2(PY_DEF@, code), ParamStyle::Python, false),
        SupportedLanguage::JavaScript | SupportedLanguage::TypeScript => add_matches(
            add_matches(Seq::empty(), regex_all_groups2(JS_FUNCTION@, code), ParamStyle::JsFunction, false),
            regex_all_groups2(JS_METHOD@, code),
            ParamStyle::JsFunction,
            true,
        ),
        _ => Seq::empty(),
    }
}

/// The function signatures the post-tool report falls back on (see
/// `function_signatures`).
pub fn extract_functions_signatures(language: SupportedLanguage, code: &str) -> (r: Vec<(String, Vec<String>)>)
    ensures
        sig_view(r@) == function_signatures(language, code@),
{
    let mut m: Vec<(String, Vec<String>)> = Vec::new();
    assert(sig_view(m@) =~= Seq::<(Seq<char>, Seq<Seq<char>>)>::empty());
    match language {
        SupportedLanguage::Python => {
            let found = regex_captures_all2(PY_DEF, code);
            add_matches_exec(&mut m, &found, &ParamStyle::Python, false);
        },
        SupportedLanguage::JavaScript | SupportedLanguage::TypeScript => {
            let f1 = regex_captures_all2(JS_FUNCTION, code);
            add_matches_exec(&mut m, &f1, &ParamStyle::JsFunction, false);
            let f2 = regex_captures_all2(JS_METHOD, code);
            add_matches_exec(&mut m, &f2, &ParamStyle::JsFunction, true);
        },
        _ => {},
    }
    m
}

/// `name` is listed in `m`.
pub open spec fn has_name(m: Signatures, name: Seq<char>) -> bool {
    exists|k: int| 0 <= k < m.len() && m[k].0 == name
}

proof fn lemma_key_index_has(m: Signatures, name: Seq<char>)
    ensures
        key_index(m, name) is Some <==> has_name(m, name),
        key_index(m, name) matches Some(i) ==> 0 <= i < m.len() && m[i].0 == name,
    decreases m.len(),
{
    if m.len() > 0 {
        lemma_key_index_has(m.drop_last(), name);
        if m.last().0 != name {
            if has_name(m, name) {
                let k = choose|k: int| 0 <= k < m.len() && m[k].0 == name;
                assert(m.drop_last()[k].0 == name);
            }
            if has_name(m.drop_last(), name) {
                let k = choose|k: int| 0 <= k < m.drop_last().len() && m.drop_last()[k].0 == name;
                assert(m[k].0 == name);
            }
        } else {
            assert(m[m.len() - 1].0 == name);
        }
    }
}

proof fn lemma_sig_update_names(m: Signatures, name: Seq<char>, params: Seq<Seq<char>>, keep: bool)
    ensures
        ({
            let m2 = if keep {
                sig_keep(m, name, params)
            } else {
                sig_set(m, name, params)
            };
            &&& has_name(m2, name)
            &&& forall|x: Seq<char>| has_name(m, x) ==> has_name(m2, x)
        }),
{
    lemma_key_index_has(m, name);
    let m2 = if keep {
        sig_keep(m, name, params)
    } else {
        sig_set(m, name, params)
    };
    match key_index(m, name) {
        Some(i) => {
            assert(m2[i].0 == name);
            assert forall|x: Seq<char>| has_name(m, x) implies has_name(m2, x) by {
                let k = choose|k: int| 0 <= k < m.len() && m[k].0 == x;
                assert(m2[k].0 == x);
            }
        },
        None => {
            assert(m2[m.len() as int].0 == name);
            assert forall|x: Seq<char>| has_name(m, x) implies has_name(m2, x) by {
                let k = choose|k: int| 0 <= k < m.len() && m[k].0 == x;
                assert(m2[k].0 == x);
            }
        },
    }
}

proof fn lemma_add_matches_names(m: Signatures, found: Seq<(Seq<char>, Seq<char>)>, style: ParamStyle, keep: bool)
    ensures
        forall|x: Seq<char>| has_name(m, x) ==> has_name(add_matches(m, found, style, keep), x),
        forall|i: int|
            0 <= i < found.len() && (#[trigger] found[i]).0.len() > 0 ==> has_name(
                add_matches(m, found, style, keep),
                found[i].0,
            ),
    decreases found.len(),
{
    if found.len() > 0 {
        let prev = add_matches(m, found.drop_last(), style, keep);
        lemma_add_matches_names(m, found.drop_last(), style, keep);
        let (name, params) = found.last();
        if name.len() > 0 {
            lemma_sig_update_names(prev, name, params_of(split(params, ','), style), keep);
        }
        assert forall|i: int| 0 <= i < found.len() && (#[trigger] found[i]).0.len() > 0 implies has_name(
            add_matches(m, found, style, keep),
            found[i].0,
        ) by {
            if i < found.len() - 1 {
                assert(found.drop_last()[i] == found[i]);
            }
        }
    }
}

/// The regular expression of a JavaScript `function name(params)`.
pub open spec fn js_function_pattern() -> Seq<char> {
    "(?m)function"@ + "\\s+([A-Za-z_][A-Za-z0-9_]*)\\s*\\(([^)]*)\\)"@
}

/// The regular expression of a Python `def name(params)`.
pub open spec fn py_def_pattern() -> Seq<char> {
    "(?m)^\\s*def"@ + "\\s+([A-Za-z_][A-Za-z0-9_]*)\\s*\\(([^)]*)\\)"@
}

/// TypeScript is read exactly as JavaScript: the same signatures, the same
/// fallback signatures and the same weakened-contract reasons for any code;
/// and every named `function` that the JavaScript pattern finds (every
/// named `def` for Python) is listed among the signatures.
pub proof fn law_typescript_read_as_javascript(code: Seq<char>, old_code: Seq<char>, new_code: Seq<char>)
    ensures
        signatures(Some(SupportedLanguage::TypeScript), code) == signatures(Some(SupportedLanguage::JavaScript), code),
        function_signatures(SupportedLanguage::TypeScript, code) == function_signatures(
            SupportedLanguage::JavaScript,
            code,
        ),
        weakening_reasons(Some(SupportedLanguage::TypeScript), old_code, new_code) == weakening_reasons(
            Some(SupportedLanguage::JavaScript),
            old_code,
            new_code,
        ),
        forall|i: int|
            0 <= i < regex_all_groups2(js_function_pattern(), code).len() && (#[trigger] regex_all_groups2(
                js_function_pattern(),
                code,
            )[i]).0.len() > 0 ==> has_name(
                signatures(Some(SupportedLanguage::TypeScript), code),
                regex_all_groups2(js_function_pattern(), code)[i].0,
            ) && has_name(
                signatures(Some(SupportedLanguage::JavaScript), code),
                regex_all_groups2(js_function_pattern(), code)[i].0,
            ),
        forall|i: int|
            0 <= i < regex_all_groups2(py_def_pattern(), code).len() && (#[trigger] regex_all_groups2(
                py_def_pattern(),
                code,
            )[i]).0.len() > 0 ==> has_name(
                signatures(Some(SupportedLanguage::Python), code),
                regex_all_groups2(py_def_pattern(), code)[i].0,
            ),
{
    reveal_strlit("(?m)function");
    reveal_strlit("\\s+([A-Za-z_][A-Za-z0-9_]*)\\s*\\(([^)]*)\\)");
    reveal_strlit("(?m)^\\s*def");
    reveal_strlit(r"(?m)function\s+([A-Za-z_][A-Za-z0-9_]*)\s*\(([^)]*)\)");
    reveal_strlit(r"(?m)^\s*def\s+([A-Za-z_][A-Za-z0-9_]*)\s*\(([^)]*)\)");
    assert(JS_FUNCTION@ =~= js_function_pattern());
    assert(PY_DEF@ =~= py_def_pattern());
    let fj = regex_all_groups2(JS_FUNCTION@, code);
    let mj = add_matches(Seq::empty(), fj, ParamStyle::JsFunction, false);
    lemma_add_matches_names(Seq::empty(), fj, ParamStyle::JsFunction, false);
    lemma_add_matches_names(mj, regex_all_groups2(JS_METHOD@, code), ParamStyle::JsMethod, true);
    lemma_add_matches_names(Seq::empty(), regex_all_groups2(PY_DEF@, code), ParamStyle::Python, false);
}

proof fn lemma_split_first(s: Seq<char>, c: char)
    ensures
        split(s, c).len() >= 1,
        split(s, c)[0].len() <= s.len(),
        forall|i: int| 0 <= i < split(s, c)[0].len() ==> split(s, c)[0][i] == s[i],
        !has_char(split(s, c)[0], c),
        split(s, c).len() == 1 ==> split(s, c)[0] == s,
    decreases s.len(),
{
    lemma_split_len(s, c);
    if s.len() > 0 {
        lemma_split_first(s.drop_last(), c);
        lemma_split_len(s.drop_last(), c);
        let init = split(s.drop_last(), c);
        if s.last() != c && init.len() == 1 {
            if has_char(s.drop_last(), c) {
                assert(init.len() >= 2);
            }
            let f = init[0].push(s.last());
            assert(split(s, c)[0] == f);
            assert(f =~= s);
            assert forall|i: int| 0 <= i < f.len() implies f[i] == s[i] by {
                if i < init[0].len() {
                    assert(s.drop_last()[i] == s[i]);
                }
            }
            if has_char(f, c) {
                let i = choose|i: int| 0 <= i < f.len() && f[i] == c;
                if i < init[0].len() {
                    assert(init[0][i] == c);
                    assert(has_char(init[0], c));
                }
            }
        } else {
            assert(split(s, c)[0] == init[0]);
            assert forall|i: int| 0 <= i < init[0].len() implies init[0][i] == s[i] by {
                assert(s.drop_last()[i] == s[i]);
            }
        }
    }
}

proof fn lemma_lead_run_stop(s: Seq<char>, c: char)
    ensures
        lead_run(s, c) <= s.len(),
        lead_run(s, c) < s.len() ==> s[lead_run(s, c) as int] != c,
    decreases s.len(),
{
    if s.len() > 0 && s[0] == c {
        lemma_lead_run_stop(s.drop_first(), c);
        if lead_run(s, c) < s.len() {
            assert(s[lead_run(s, c) as int] == s.drop_first()[lead_run(s.drop_first(), c) as int]);
        }
    }
}

proof fn lemma_trail_ws_bound(s: Seq<char>)
    ensures
        crate::strings::trail_ws(s) <= s.len(),
    decreases s.len(),
{
    if s.len() > 0 {
        lemma_trail_ws_bound(s.drop_last());
    }
}

proof fn lemma_strip_repeated_stops(s: Seq<char>, p: Seq<char>)
    requires
        p.len() > 0,
    ensures
        !crate::strings::starts_with(strip_repeated(s, p), p),
    decreases s.len(),
{
    if crate::strings::starts_with(s, p) {
        lemma_strip_repeated_stops(s.skip(p.len() as int), p);
    }
}

/// A JavaScript parameter name as read: no type annotation and no spread.
pub open spec fn js_name_ok(q: Seq<char>) -> bool {
    !has_char(q, ':') && !crate::strings::starts_with(q, "..."@)
}

/// A Python parameter name as read: no annotation, no default, no star,
/// and not one of `self`, `cls`, `args`, `kwargs`.
pub open spec fn py_name_ok(q: Seq<char>) -> bool {
    &&& !has_char(q, ':')
    &&& !has_char(q, '=')
    &&& !(q.len() > 0 && q[0] == '*')
    &&& q != "self"@ && q != "cls"@ && q != "args"@ && q != "kwargs"@
}

/// `q` is a prefix of `s`.
pub open spec fn prefix_of(q: Seq<char>, s: Seq<char>) -> bool {
    q.len() <= s.len() && forall|i: int| 0 <= i < q.len() ==> q[i] == s[i]
}

proof fn lemma_prefix_keeps(q: Seq<char>, s: Seq<char>, c: char)
    requires
        prefix_of(q, s),
    ensures
        has_char(q, c) ==> has_char(s, c),
        crate::strings::starts_with(q, "..."@) ==> crate::strings::starts_with(s, "..."@),
{
    if has_char(q, c) {
        let i = choose|i: int| 0 <= i < q.len() && q[i] == c;
        assert(s[i] == c);
    }
    reveal_strlit("...");
    if crate::strings::starts_with(q, "..."@) {
        assert(s.subrange(0, 3) =~= q.subrange(0, 3));
    }
}

proof fn lemma_js_param_ok(t: Seq<char>, mark: bool)
    ensures
        js_name_ok(js_param(t, mark)),
{
    reveal_strlit("...");
    let sr = strip_repeated(t, "..."@);
    lemma_strip_repeated_stops(t, "..."@);
    lemma_split_first(sr, ':');
    let base = split(sr, ':')[0];
    lemma_prefix_keeps(base, sr, ':');
    if mark {
        lemma_runs_bound(base, '?');
        let q = strip_trail(base, '?');
        assert(prefix_of(q, base));
        lemma_prefix_keeps(q, base, ':');
    }
}

proof fn lemma_sub_no_char(x: Seq<char>, a: int, b: int, c: char)
    requires
        0 <= a <= b <= x.len(),
        !has_char(x, c),
    ensures
        !has_char(x.subrange(a, b), c),
{
    if has_char(x.subrange(a, b), c) {
        let i = choose|i: int| 0 <= i < b - a && x.subrange(a, b)[i] == c;
        assert(x[a + i] == c);
    }
}

proof fn lemma_py_param_shape(p: Seq<char>)
    ensures
        !has_char(py_param(p), ':'),
        !has_char(py_param(p), '='),
        !(py_param(p).len() > 0 && py_param(p)[0] == '*'),
{
    lemma_split_first(p, ':');
    let p1 = split(p, ':')[0];
    lemma_split_first(p1, '=');
    let p2 = split(p1, '=')[0];
    lemma_prefix_keeps(p2, p1, ':');
    crate::strings::lemma_lead_ws_bound(p2);
    let p3a = crate::strings::trim_start(p2);
    lemma_sub_no_char(p2, crate::strings::lead_ws(p2) as int, p2.len() as int, ':');
    lemma_sub_no_char(p2, crate::strings::lead_ws(p2) as int, p2.len() as int, '=');
    assert(p3a =~= p2.subrange(crate::strings::lead_ws(p2) as int, p2.len() as int));
    lemma_trail_ws_bound(p3a);
    let p3 = trim(p2);
    assert(p3 =~= p3a.subrange(0, p3a.len() - crate::strings::trail_ws(p3a)));
    lemma_sub_no_char(p3a, 0, p3a.len() - crate::strings::trail_ws(p3a), ':');
    lemma_sub_no_char(p3a, 0, p3a.len() - crate::strings::trail_ws(p3a), '=');
    lemma_lead_run_stop(p3, '*');
    assert(py_param(p) =~= p3.subrange(lead_run(p3, '*') as int, p3.len() as int));
    lemma_sub_no_char(p3, lead_run(p3, '*') as int, p3.len() as int, ':');
    lemma_sub_no_char(p3, lead_run(p3, '*') as int, p3.len() as int, '=');
}

/// The name check that fits a way of reading parameters.
pub open spec fn name_ok(style: ParamStyle, q: Seq<char>) -> bool {
    match style {
        ParamStyle::Python => py_name_ok(q),
        _ => js_name_ok(q),
    }
}

proof fn lemma_params_of_ok(pieces: Seq<Seq<char>>, style: ParamStyle)
    ensures
        forall|j: int| 0 <= j < params_of(pieces, style).len() ==> name_ok(style, #[trigger] params_of(pieces, style)[j]),
    decreases pieces.len(),
{
    if pieces.len() > 0 {
        lemma_params_of_ok(pieces.drop_last(), style);
        let t = trim(pieces.last());
        match style {
            ParamStyle::Python => {
                lemma_py_param_shape(t);
                reveal_strlit("self");
                reveal_strlit("cls");
                reveal_strlit("args");
                reveal_strlit("kwargs");
            },
            ParamStyle::JsFunction => lemma_js_param_ok(t, true),
            ParamStyle::JsMethod => lemma_js_param_ok(t, false),
        }
        let rest = params_of(pieces.drop_last(), style);
        let all = params_of(pieces, style);
        assert forall|j: int| 0 <= j < all.len() implies name_ok(style, #[trigger] all[j]) by {
            if j < rest.len() {
                assert(all[j] == rest[j]);
            }
        }
    }
}

/// Every parameter of every entry passes the check for Python (`python`)
/// or for JavaScript.
pub open spec fn all_names_ok(m: Signatures, python: bool) -> bool {
    forall|k: int, j: int|
        0 <= k < m.len() && 0 <= j < m[k].1.len() ==> (if python {
            py_name_ok(#[trigger] m[k].1[j])
        } else {
            js_name_ok(m[k].1[j])
        })
}

proof fn lemma_add_matches_ok(m: Signatures, found: Seq<(Seq<char>, Seq<char>)>, style: ParamStyle, keep: bool, python: bool)
    requires
        all_names_ok(m, python),
        (style is Python) == python,
    ensures
        all_names_ok(add_matches(m, found, style, keep), python),
    decreases found.len(),
{
    if found.len() > 0 {
        lemma_add_matches_ok(m, found.drop_last(), style, keep, python);
        let prev = add_matches(m, found.drop_last(), style, keep);
        let (name, params) = found.last();
        if name.len() > 0 {
            let ps = params_of(split(params, ','), style);
            lemma_params_of_ok(split(params, ','), style);
            lemma_key_index_has(prev, name);
            let m2 = add_matches(m, found, style, keep);
            assert forall|k: int, j: int| 0 <= k < m2.len() && 0 <= j < m2[k].1.len() implies (if python {
                py_name_ok(#[trigger] m2[k].1[j])
            } else {
                js_name_ok(m2[k].1[j])
            }) by {
                if m2[k].1 == ps {
                    assert(name_ok(style, ps[j]));
                } else {
                    assert(m2[k] == prev[k]);
                }
            }
        }
    }
}

/// The parameter names read from code carry no type annotation: for
/// JavaScript and TypeScript none holds a `:` or starts with `...`; for
/// Python none holds a `:` or `=`, starts with `*`, or is `self`, `cls`,
/// `args` or `kwargs`.
pub proof fn law_parameter_names(code: Seq<char>)
    ensures
        all_names_ok(signatures(Some(SupportedLanguage::JavaScript), code), false),
        all_names_ok(signatures(Some(SupportedLanguage::TypeScript), code), false),
        all_names_ok(signatures(Some(SupportedLanguage::Python), code), true),
{
    let e: Signatures = Seq::empty();
    let fj = regex_all_groups2(JS_FUNCTION@, code);
    lemma_add_matches_ok(e, fj, ParamStyle::JsFunction, false, false);
    let mj = add_matches(e, fj, ParamStyle::JsFunction, false);
    lemma_add_matches_ok(mj, regex_all_groups2(JS_METHOD@, code), ParamStyle::JsMethod, true, false);
    lemma_add_matches_ok(e, regex_all_groups2(PY_DEF@, code), ParamStyle::Python, false, true);
}

// ---------------------------------------------------------------------------
// Weakened contracts
// ---------------------------------------------------------------------------

/// The parameters a function has in `m`, if it is there.
pub open spec fn lookup_sig(m: Signatures, name: Seq<char>) -> Option<Seq<Seq<char>>> {
    match key_index(m, name) {
        Some(i) => Some(m[i].1),
        None => None,
    }
}

/// A reason for each non-empty old parameter that the new list lacks.
pub open spec fn param_reasons(name: Seq<char>, b: Seq<Seq<char>>, a: Seq<Seq<char>>) -> Seq<Seq<char>>
    decreases b.len(),
{
    if b.len() == 0 {
        Seq::empty()
    } else {
        let r = param_reasons(name, b.drop_last(), a);
        let bp = b.last();
        if bp.len() > 0 && !a.contains(bp) {
            r.push("Function `"@ + name + "`: parameter `"@ + bp + "` removed or renamed"@)
        } else {
            r
        }
    }
}

/// How the signatures of `before` were weakened in `after`, function by
/// function in the order of `before`: removed, fewer parameters, or
/// parameters removed or renamed.
pub open spec fn sig_reasons(before: Signatures, after: Signatures) -> Seq<Seq<char>>
    decreases before.len(),
{
    if before.len() == 0 {
        Seq::empty()
    } else {
        let r = sig_reasons(before.drop_last(), after);
        let name = before.last().0;
        let b = before.last().1;
        r + match lookup_sig(after, name) {
            Some(a) => if a.len() < b.len() {
                seq![
                    "Function `"@ + name + "`: parameter count reduced ("@ + decimal(b.len()) + " -> "@
                        + decimal(a.len()) + ")"@,
                ]
            } else {
                param_reasons(name, b, a)
            },
            None => seq!["Function `"@ + name + "`: removed from module"@],
        }
    }
}

pub open spec fn weakening_reasons(language: Option<SupportedLanguage>, old_code: Seq<char>, new_code: Seq<char>) -> Seq<
    Seq<char>,
> {
    sig_reasons(signatures(language, old_code), signatures(language, new_code))
}

/// No name is listed twice.
pub open spec fn distinct_names(m: Signatures) -> bool {
    forall|i: int, j: int| 0 <= i < j < m.len() ==> m[i].0 != m[j].0
}

proof fn lemma_add_matches_distinct(m: Signatures, found: Seq<(Seq<char>, Seq<char>)>, style: ParamStyle, keep: bool)
    requires
        distinct_names(m),
    ensures
        distinct_names(add_matches(m, found, style, keep)),
    decreases found.len(),
{
    if found.len() > 0 {
        lemma_add_matches_distinct(m, found.drop_last(), style, keep);
        let prev = add_matches(m, found.drop_last(), style, keep);
        let (name, params) = found.last();
        if name.len() > 0 {
            lemma_key_index_has(prev, name);
            let ps = params_of(split(params, ','), style);
            let m2 = add_matches(m, found, style, keep);
            match key_index(prev, name) {
                Some(k) => {
                    assert forall|i: int, j: int| 0 <= i < j < m2.len() implies m2[i].0 != m2[j].0 by {
                        assert(m2[i].0 == prev[i].0 && m2[j].0 == prev[j].0);
                    }
                },
                None => {
                    assert forall|i: int, j: int| 0 <= i < j < m2.len() implies m2[i].0 != m2[j].0 by {
                        if j == prev.len() {
                            assert(m2[i].0 == prev[i].0);
                            if prev[i].0 == name {
                                assert(has_name(prev, name));
                            }
                        } else {
                            assert(m2[i].0 == prev[i].0 && m2[j].0 == prev[j].0);
                        }
                    }
                },
            }
        }
    }
}

proof fn lemma_signatures_distinct(language: Option<SupportedLanguage>, code: Seq<char>)
    ensures
        distinct_names(signatures(language, code)),
{
    let e: Signatures = Seq::empty();
    lemma_add_matches_distinct(e, regex_all_groups2(PY_DEF@, code), ParamStyle::Python, false);
    lemma_add_matches_distinct(e, regex_all_groups2(JS_FUNCTION@, code), ParamStyle::JsFunction, false);
    let mj = add_matches(e, regex_all_groups2(JS_FUNCTION@, code), ParamStyle::JsFunction, false);
    lemma_add_matches_distinct(mj, regex_all_groups2(JS_METHOD@, code), ParamStyle::JsMethod, true);
}

proof fn lemma_lookup_own(m: Signatures, k: int)
    requires
        distinct_names(m),
        0 <= k < m.len(),
    ensures
        lookup_sig(m, m[k].0) == Some(m[k].1),
{
    lemma_key_index_has(m, m[k].0);
    assert(has_name(m, m[k].0));
}

proof fn lemma_param_reasons_none(name: Seq<char>, b: Seq<Seq<char>>, a: Seq<Seq<char>>)
    requires
        forall|i: int| 0 <= i < b.len() ==> a.contains(#[trigger] b[i]),
    ensures
        param_reasons(name, b, a).len() == 0,
    decreases b.len(),
{
    if b.len() > 0 {
        lemma_param_reasons_none(name, b.drop_last(), a);
        assert(a.contains(b[b.len() - 1]));
    }
}

proof fn lemma_sig_reasons_none(before: Signatures, after: Signatures)
    requires
        forall|k: int| 0 <= k < before.len() ==> lookup_sig(after, (#[trigger] before[k]).0) == Some(before[k].1),
    ensures
        sig_reasons(before, after).len() == 0,
    decreases before.len(),
{
    if before.len() > 0 {
        let p = before.drop_last();
        assert forall|k: int| 0 <= k < p.len() implies lookup_sig(after, (#[trigger] p[k]).0) == Some(p[k].1) by {
            assert(p[k] == before[k]);
        }
        lemma_sig_reasons_none(p, after);
        let b = before.last().1;
        assert(lookup_sig(after, before[before.len() - 1].0) == Some(b));
        assert forall|i: int| 0 <= i < b.len() implies b.contains(#[trigger] b[i]) by {}
        lemma_param_reasons_none(before.last().0, b, b);
    }
}

proof fn lemma_sig_reasons_has(before: Signatures, after: Signatures, k: int)
    requires
        0 <= k < before.len(),
    ensures
        lookup_sig(after, before[k].0) is None ==> sig_reasons(before, after).contains(
            "Function `"@ + before[k].0 + "`: removed from module"@,
        ),
        match lookup_sig(after, before[k].0) {
            Some(a) => a.len() < before[k].1.len() ==> sig_reasons(before, after).contains(
                "Function `"@ + before[k].0 + "`: parameter count reduced ("@ + decimal(before[k].1.len()) + " -> "@
                    + decimal(a.len()) + ")"@,
            ),
            None => true,
        },
    decreases before.len(),
{
    let r = sig_reasons(before.drop_last(), after);
    let full = sig_reasons(before, after);
    if k < before.len() - 1 {
        lemma_sig_reasons_has(before.drop_last(), after, k);
        assert(before.drop_last()[k] == before[k]);
        assert(full.subrange(0, r.len() as int) =~= r);
        assert forall|x: Seq<char>| r.contains(x) implies full.contains(x) by {
            let i = choose|i: int| 0 <= i < r.len() && r[i] == x;
            assert(full[i] == x);
        }
    } else {
        assert(full.len() >= r.len());
        if lookup_sig(after, before[k].0) is None {
            assert(full[r.len() as int] == "Function `"@ + before[k].0 + "`: removed from module"@);
        }
        match lookup_sig(after, before[k].0) {
            Some(a) => {
                if a.len() < before[k].1.len() {
                    assert(full[r.len() as int] == "Function `"@ + before[k].0 + "`: parameter count reduced ("@
                        + decimal(before[k].1.len()) + " -> "@ + decimal(a.len()) + ")"@);
                }
            },
            None => {},
        }
    }
}

/// Comparing code with itself finds no weakened contract; and every
/// function of the old code that the new code lacks is reported removed,
/// and every one that has fewer parameters in the new code is reported
/// with both counts.
pub proof fn law_weakening_reasons(language: Option<SupportedLanguage>, old_code: Seq<char>, new_code: Seq<char>)
    ensures
        weakening_reasons(language, old_code, old_code).len() == 0,
        forall|k: int|
            0 <= k < signatures(language, old_code).len() ==> ({
                let name = (#[trigger] signatures(language, old_code)[k]).0;
                let b = signatures(language, old_code)[k].1;
                &&& lookup_sig(signatures(language, new_code), name) is None ==> weakening_reasons(
                    language,
                    old_code,
                    new_code,
                ).contains("Function `"@ + name + "`: removed from module"@)
                &&& match lookup_sig(signatures(language, new_code), name) {
                    Some(a) => a.len() < b.len() ==> weakening_reasons(language, old_code, new_code).contains(
                        "Function `"@ + name + "`: parameter count reduced ("@ + decimal(b.len()) + " -> "@
                            + decimal(a.len()) + ")"@,
                    ),
                    None => true,
                }
            }),
{
    let s0 = signatures(language, old_code);
    lemma_signatures_distinct(language, old_code);
    assert forall|k: int| 0 <= k < s0.len() implies lookup_sig(s0, (#[trigger] s0[k]).0) == Some(s0[k].1) by {
        lemma_lookup_own(s0, k);
    }
    lemma_sig_reasons_none(s0, s0);
    assert forall|k: int| 0 <= k < s0.len() implies ({
        let name = (#[trigger] s0[k]).0;
        let b = s0[k].1;
        &&& lookup_sig(signatures(language, new_code), name) is None ==> weakening_reasons(
            language,
            old_code,
            new_code,
        ).contains("Function `"@ + name + "`: removed from module"@)
        &&& match lookup_sig(signatures(language, new_code), name) {
            Some(a) => a.len() < b.len() ==> weakening_reasons(language, old_code, new_code).contains(
                "Function `"@ + name + "`: parameter count reduced ("@ + decimal(b.len()) + " -> "@
                    + decimal(a.len()) + ")"@,
            ),
            None => true,
        }
    }) by {
        lemma_sig_reasons_has(s0, signatures(language, new_code), k);
    }
}

fn lookup_exec(m: &Vec<(String, Vec<String>)>, name: &str) -> (r: Option<Vec<String>>)
    ensures
        match r {
            Some(v) => lookup_sig(sig_view(m@), name@) == Some(strs(v@)),
            None => lookup_sig(sig_view(m@), name@) is None,
        },
{
    match key_index_exec(m, chars_of(name).as_slice()) {
        Some(k) => Some(copy_strings(&m[k].1)),
        None => None,
    }
}

fn contains_str(v: &Vec<String>, x: &str) -> (r: bool)
    ensures
        r == strs(v@).contains(x@),
{
    let xc = chars_of(x);
    let mut i: usize = 0;
    while i < v.len()
        invariant
            i <= v@.len(),
            xc@ == x@,
            forall|j: int| 0 <= j < i ==> strs(v@)[j] != x@,
        decreases v@.len() - i,
    {
        if chars_eq(chars_of(v[i].as_str()).as_slice(), xc.as_slice()) {
            assert(strs(v@)[i as int] == x@);
            return true;
        }
        i = i + 1;
    }
    false
}

fn push_string(out: &mut Vec<String>, s: String)
    ensures
        strs(final(out)@) == strs(old(out)@).push(s@),
{
    let ghost before = out@;
    out.push(s);
    proof {
        lemma_strs_push(before, s);
    }
}

/// `a`, `b`, `c`, `d` and `e` as one string.
fn cat5(a: &str, b: &str, c: &str, d: &str, e: &str) -> (r: String)
    ensures
        r@ == a@ + b@ + c@ + d@ + e@,
{
    let ab = cat(a, b);
    let abc = cat(ab.as_str(), c);
    let abcd = cat(abc.as_str(), d);
    cat(abcd.as_str(), e)
}

/// The text of a count.
fn count_text(n: usize) -> (r: String)
    ensures
        r@ == decimal(n as nat),
{
    string_of(decimal_exec(n).as_slice())
}

/// How the contracts of `old_code` were weakened in `new_code` (see
/// `sig_reasons`). The functions come in the order they first appear in
/// `old_code`.
pub fn contract_weakening_reasons(language: Option<SupportedLanguage>, old_code: &str, new_code: &str) -> (r: Vec<String>)
    ensures
        strs(r@) == weakening_reasons(language, old_code@, new_code@),
{
    let before = extract_signatures_regex(language, old_code);
    let after = extract_signatures_regex(language, new_code);
    let ghost bv = sig_view(before@);
    let ghost av = sig_view(after@);
    let mut out: Vec<String> = Vec::new();
    let mut i: usize = 0;
    while i < before.len()
        invariant
            i <= before@.len(),
            bv == sig_view(before@),
            av == sig_view(after@),
            strs(out@) == sig_reasons(bv.take(i as int), av),
        decreases before@.len() - i,
    {
        assert(bv.take(i + 1).drop_last() == bv.take(i as int));
        assert(bv.take(i + 1).last() == bv[i as int]);
        let name = before[i].0.as_str();
        let b = &before[i].1;
        let ghost start = strs(out@);
        match lookup_exec(&after, name) {
            Some(a) => {
                if a.len() < b.len() {
                    let msg = cat5("Function `", name, "`: parameter count reduced (", count_text(b.len()).as_str(), "");
                    let msg = cat5(msg.as_str(), " -> ", count_text(a.len()).as_str(), ")", "");
                    push_string(&mut out, msg);
                    proof {
                        reveal_strlit("");
                    }
                    assert(strs(out@) =~= start + seq![
                        "Function `"@ + name@ + "`: parameter count reduced ("@ + decimal(b@.len() as nat) + " -> "@
                            + decimal(a@.len() as nat) + ")"@,
                    ]);
                } else {
                    let mut k: usize = 0;
                    let ghost bs = strs(b@);
                    let ghost asv = strs(a@);
                    while k < b.len()
                        invariant
                            k <= b@.len(),
                            bs == strs(b@),
                            asv == strs(a@),
                            strs(out@) == start + param_reasons(name@, bs.take(k as int), asv),
                        decreases b@.len() - k,
                    {
                        assert(bs.take(k + 1).drop_last() == bs.take(k as int));
                        assert(bs.take(k + 1).last() == b@[k as int]@);
                        let bp = b[k].as_str();
                        let nonempty = chars_of(bp).len() > 0;
                        if nonempty && !contains_str(&a, bp) {
                            let msg = cat5("Function `", name, "`: parameter `", bp, "` removed or renamed");
                            push_string(&mut out, msg);
                        }
                        k = k + 1;
                    }
                    assert(bs.take(b@.len() as int) == bs);
                }
            },
            None => {
                proof {
                    reveal_strlit("");
                }
                let msg = cat5("Function `", name, "`: removed from module", "", "");
                push_string(&mut out, msg);
                assert(strs(out@) =~= start + seq!["Function `"@ + name@ + "`: removed from module"@]);
            },
        }
        i = i + 1;
    }
    assert(bv.take(before@.len() as int) == bv);
    out
}

// ---------------------------------------------------------------------------
// Call sites that the weakened contracts break
// ---------------------------------------------------------------------------

/// An identifier character (ASCII letter, digit or `_`).
pub open spec fn ident_char(c: char) -> bool {
    ('a' <= c && c <= 'z') || ('A' <= c && c <= 'Z') || ('0' <= c && c <= '9') || c == '_'
}

/// The `)` that closes the parentheses open at position `k` (with `depth`
/// of them open), if any.
pub open spec fn closing_paren(c: Seq<char>, k: int, depth: nat) -> Option<int>
    decreases c.len() - k,
{
    if k < 0 || k >= c.len() {
        None
    } else if c[k] == '(' {
        closing_paren(c, k + 1, depth + 1)
    } else if c[k] == ')' {
        if depth <= 1 {
            Some(k)
        } else {
            closing_paren(c, k + 1, (depth - 1) as nat)
        }
    } else {
        closing_paren(c, k + 1, depth)
    }
}

/// The argument spans of the calls of `f` found from `pos` on: for each
/// occurrence of `f` not preceded by an identifier character, the text
/// from just after the next `(` up to its matching `)`.
pub open spec fn call_spans(c: Seq<char>, f: Seq<char>, pos: int) -> Seq<(int, int)>
    decreases c.len() + 1 - pos,
{
    if f.len() == 0 || pos < 0 || pos > c.len() {
        Seq::empty()
    } else {
        match find_from(c, f, pos) {
            None => Seq::empty(),
            Some(i) => if !(pos <= i && i + f.len() <= c.len()) {
                Seq::empty()
            } else if i > 0 && ident_char(c[i - 1]) {
                call_spans(c, f, i + f.len())
            } else {
                let after = i + f.len();
                match index_of_char_from(c, '(', after) {
                    None => call_spans(c, f, after),
                    Some(op) => if !(after <= op < c.len()) {
                        Seq::empty()
                    } else {
                        match closing_paren(c, op + 1, 1) {
                            Some(end) => if op < end < c.len() {
                                seq![(op + 1, end)] + call_spans(c, f, end + 1)
                            } else {
                                Seq::empty()
                            },
                            None => call_spans(c, f, after),
                        }
                    },
                }
            },
        }
    }
}

/// The state of a scan of call arguments, byte by byte: nesting depth,
/// top-level commas, names before a top-level `=`, and the text read since
/// the last opening bracket or comma (each byte as one character).
pub struct ArgScan {
    pub depth: nat,
    pub commas: nat,
    pub named: Seq<Seq<char>>,
    pub token: Seq<char>,
}

pub open spec fn arg_step(st: ArgScan, x: u8) -> ArgScan {
    if x == 40u8 || x == 91u8 || x == 123u8 {
        ArgScan { depth: st.depth + 1, token: Seq::empty(), ..st }
    } else if x == 41u8 || x == 93u8 || x == 125u8 {
        ArgScan { depth: if st.depth > 0 { (st.depth - 1) as nat } else { 0 }, ..st }
    } else if x == 44u8 {
        if st.depth == 0 {
            ArgScan { commas: st.commas + 1, token: Seq::empty(), ..st }
        } else {
            st
        }
    } else if x == 61u8 {
        if st.depth == 0 && trim(st.token).len() > 0 {
            ArgScan { named: st.named.push(trim(st.token)), ..st }
        } else {
            st
        }
    } else if st.depth == 0 {
        ArgScan { token: st.token.push(x as char), ..st }
    } else {
        st
    }
}

pub open spec fn arg_scan(b: Seq<u8>) -> ArgScan
    decreases b.len(),
{
    if b.len() == 0 {
        ArgScan { depth: 0, commas: 0, named: Seq::empty(), token: Seq::empty() }
    } else {
        arg_step(arg_scan(b.drop_last()), b.last())
    }
}

/// The number of top-level arguments of an argument text.
pub open spec fn arg_count(args: Seq<char>) -> nat {
    arg_scan(vstd::utf8::encode_utf8(args)).commas + if trim(args).len() > 0 {
        1nat
    } else {
        0nat
    }
}

/// The names passed with `name=` at the top level of an argument text.
pub open spec fn named_args(args: Seq<char>) -> Seq<Seq<char>> {
    arg_scan(vstd::utf8::encode_utf8(args)).named
}

/// The removed parameters that one call still passes by name, in order.
pub open spec fn passed_removed(args: Seq<char>, removed: Seq<Seq<char>>) -> Seq<Seq<char>>
    decreases removed.len(),
{
    if removed.len() == 0 {
        Seq::empty()
    } else {
        let r = passed_removed(args, removed.drop_last());
        let p = removed.last();
        if contains(args, p + "="@) || named_args(args).contains(p) {
            r.push(p)
        } else {
            r
        }
    }
}

/// The removed parameters still passed by name, call after call.
pub open spec fn passed_in_calls(c: Seq<char>, spans: Seq<(int, int)>, removed: Seq<Seq<char>>) -> Seq<Seq<char>>
    decreases spans.len(),
{
    if spans.len() == 0 {
        Seq::empty()
    } else {
        passed_in_calls(c, spans.drop_last(), removed) + passed_removed(
            c.subrange(spans.last().0, spans.last().1),
            removed,
        )
    }
}

/// The calls that pass more than `n` arguments.
pub open spec fn calls_over(c: Seq<char>, spans: Seq<(int, int)>, n: nat) -> nat
    decreases spans.len(),
{
    if spans.len() == 0 {
        0
    } else {
        calls_over(c, spans.drop_last(), n) + if arg_count(c.subrange(spans.last().0, spans.last().1)) > n {
            1nat
        } else {
            0nat
        }
    }
}

/// Parameters of `b` that `a` lacks (for Python, the boilerplate ones aside).
pub open spec fn removed_params(b: Seq<Seq<char>>, a: Seq<Seq<char>>, python: bool) -> Seq<Seq<char>>
    decreases b.len(),
{
    if b.len() == 0 {
        Seq::empty()
    } else {
        let r = removed_params(b.drop_last(), a, python);
        let bp = b.last();
        if !(python && py_boilerplate(bp)) && bp.len() > 0 && !a.contains(bp) {
            r.push(bp)
        } else {
            r
        }
    }
}

/// What the first pass finds, function by function in the order of
/// `before`: messages for removed functions, the removed parameters of the
/// others, and the arity of those that lost parameters.
pub open spec fn contract_plan(before: Signatures, after: Signatures, python: bool) -> (
    Seq<Seq<char>>,
    Seq<(Seq<char>, Seq<Seq<char>>)>,
    Seq<(Seq<char>, nat, nat)>,
)
    decreases before.len(),
{
    if before.len() == 0 {
        (Seq::empty(), Seq::empty(), Seq::empty())
    } else {
        let (issues, removed, reduced) = contract_plan(before.drop_last(), after, python);
        let name = before.last().0;
        let b = before.last().1;
        match lookup_sig(after, name) {
            None => (issues.push("Function `"@ + name + "` removed; consider migration plan"@), removed, reduced),
            Some(a) => {
                let reduced2 = if a.len() < b.len() {
                    reduced.push((name, b.len(), a.len()))
                } else {
                    reduced
                };
                let gone = removed_params(b, a, python);
                let removed2 = if gone.len() > 0 {
                    removed.push((name, gone))
                } else {
                    removed
                };
                (issues, removed2, reduced2)
            },
        }
    }
}

/// Messages for the calls that still pass removed parameters by name.
pub open spec fn named_call_issues(c: Seq<char>, removed: Seq<(Seq<char>, Seq<Seq<char>>)>) -> Seq<Seq<char>>
    decreases removed.len(),
{
    if removed.len() == 0 {
        Seq::empty()
    } else {
        let r = named_call_issues(c, removed.drop_last());
        let fname = removed.last().0;
        let seen = passed_in_calls(c, call_spans(c, fname, 0), removed.last().1);
        if seen.len() > 0 {
            r.push("Calls to `"@ + fname + "` still pass removed named params: "@ + join_texts(seen, ", "@))
        } else {
            r
        }
    }
}

/// Messages for the functions whose calls pass more arguments than they
/// now take.
pub open spec fn arity_issues(c: Seq<char>, reduced: Seq<(Seq<char>, nat, nat)>) -> Seq<Seq<char>>
    decreases reduced.len(),
{
    if reduced.len() == 0 {
        Seq::empty()
    } else {
        let r = arity_issues(c, reduced.drop_last());
        let (fname, old_n, new_n) = reduced.last();
        let bad = calls_over(c, call_spans(c, fname, 0), new_n);
        if bad > 0 {
            r.push(
                "Calls to `"@ + fname + "` exceed new arity ("@ + decimal(old_n) + " -> "@ + decimal(new_n) + "): "@
                    + decimal(bad) + " occurrences"@,
            )
        } else {
            r
        }
    }
}

/// The call-site issues of a weakened contract: removed functions; then,
/// in the new code, calls that still pass removed parameters by name; then
/// calls that pass more arguments than the function now takes.
pub open spec fn callsite_issues(language: Option<SupportedLanguage>, old_code: Seq<char>, new_code: Seq<char>) -> Seq<
    Seq<char>,
> {
    let python = language == Some(SupportedLanguage::Python);
    let (issues, removed, reduced) = contract_plan(
        signatures(language, old_code),
        signatures(language, new_code),
        python,
    );
    if removed.len() == 0 && reduced.len() == 0 {
        issues
    } else {
        issues + named_call_issues(new_code, removed) + arity_issues(new_code, reduced)
    }
}

fn closing_paren_exec(c: &[char], start: usize) -> (r: Option<usize>)
    requires
        start <= c@.len(),
    ensures
        match r {
            Some(k) => closing_paren(c@, start as int, 1) == Some(k as int) && start <= k < c@.len(),
            None => closing_paren(c@, start as int, 1) is None,
        },
{
    let mut depth: u128 = 1;
    let mut k: usize = start;
    while k < c.len()
        invariant
            start <= k <= c@.len(),
            1 <= depth <= 1 + (k - start),
            closing_paren(c@, start as int, 1) == closing_paren(c@, k as int, depth as nat),
        decreases c@.len() - k,
    {
        if c[k] == '(' {
            depth = depth + 1;
        } else if c[k] == ')' {
            if depth <= 1 {
                return Some(k);
            }
            depth = depth - 1;
        }
        k = k + 1;
    }
    None
}

fn char_index_from(c: &[char], x: char, from: usize) -> (r: Option<usize>)
    requires
        from <= c@.len(),
    ensures
        match r {
            Some(k) => index_of_char_from(c@, x, from as int) == Some(k as int) && from <= k < c@.len(),
            None => index_of_char_from(c@, x, from as int) is None,
        },
{
    let mut k: usize = from;
    while k < c.len()
        invariant
            from <= k <= c@.len(),
            index_of_char_from(c@, x, from as int) == index_of_char_from(c@, x, k as int),
        decreases c@.len() - k,
    {
        if c[k] == x {
            return Some(k);
        }
        k = k + 1;
    }
    None
}

fn is_ident_char(c: char) -> (r: bool)
    ensures
        r == ident_char(c),
{
    ('a' <= c && c <= 'z') || ('A' <= c && c <= 'Z') || ('0' <= c && c <= '9') || c == '_'
}

/// The argument spans of the calls of `f` (see `call_spans`).
fn call_spans_exec(c: &[char], f: &[char]) -> (r: Vec<(usize, usize)>)
    ensures
        r@.map_values(|p: (usize, usize)| (p.0 as int, p.1 as int)) == call_spans(c@, f@, 0),
        forall|k: int| 0 <= k < r@.len() ==> (#[trigger] r@[k]).0 <= r@[k].1 <= c@.len(),
{
    let mut out: Vec<(usize, usize)> = Vec::new();
    if f.len() == 0 {
        return out;
    }
    let mut pos: usize = 0;
    while pos <= c.len()
        invariant
            pos <= c@.len() + 1,
            f@.len() > 0,
            call_spans(c@, f@, 0) == out@.map_values(|p: (usize, usize)| (p.0 as int, p.1 as int)) + call_spans(
                c@,
                f@,
                pos as int,
            ),
            forall|k: int| 0 <= k < out@.len() ==> (#[trigger] out@[k]).0 <= out@[k].1 <= c@.len(),
        decreases c@.len() + 1 - pos,
    {
        let ghost before = out@.map_values(|p: (usize, usize)| (p.0 as int, p.1 as int));
        let i = match crate::strings::find_from_exec(c, f, pos) {
            None => {
                assert(call_spans(c@, f@, pos as int) =~= Seq::<(int, int)>::empty());
                assert(call_spans(c@, f@, 0) =~= before);
                return out;
            },
            Some(i) => i,
        };
        proof {
            crate::strings::lemma_find_from_spec(c@, f@, pos as int);
        }
        if i > 0 && is_ident_char(c[i - 1]) {
            pos = i + f.len();
            continue;
        }
        let after = i + f.len();
        match char_index_from(c, '(', after) {
            None => {
                pos = after;
            },
            Some(op) => {
                match closing_paren_exec(c, op + 1) {
                    Some(end) => {
                        out.push((op + 1, end));
                        assert(out@.map_values(|p: (usize, usize)| (p.0 as int, p.1 as int)) =~= before.push(
                            ((op + 1) as int, end as int),
                        ));
                        assert(call_spans(c@, f@, pos as int) == seq![((op + 1) as int, end as int)] + call_spans(
                            c@,
                            f@,
                            end + 1,
                        ));
                        pos = end + 1;
                    },
                    None => {
                        pos = after;
                    },
                }
            },
        }
    }
    proof {
        if pos > c@.len() {
            assert(call_spans(c@, f@, pos as int) =~= Seq::<(int, int)>::empty());
        }
    }
    out
}

/// The top-level argument count and the names passed with `=`.
fn scan_args(args: &[char]) -> (r: (u128, Vec<Vec<char>>))
    ensures
        r.0 == arg_count(args@),
        views(r.1@) == named_args(args@),
{
    let text = string_of(args);
    let b = text.as_str().as_bytes();
    let ghost bs = b@;
    assert(bs == vstd::utf8::encode_utf8(args@));
    let mut depth: usize = 0;
    let mut commas: u128 = 0;
    let mut named: Vec<Vec<char>> = Vec::new();
    let mut token: Vec<char> = Vec::new();
    let mut i: usize = 0;
    assert(views(named@) =~= Seq::<Seq<char>>::empty());
    assert(bs.take(0) =~= Seq::<u8>::empty());
    while i < b.len()
        invariant
            i <= b@.len(),
            bs == b@,
            depth <= i,
            commas <= i,
            arg_scan(bs.take(i as int)) == (ArgScan {
                depth: depth as nat,
                commas: commas as nat,
                named: views(named@),
                token: token@,
            }),
        decreases b@.len() - i,
    {
        assert(bs.take(i + 1).drop_last() == bs.take(i as int));
        assert(bs.take(i + 1).last() == bs[i as int]);
        let x = b[i];
        if x == 40u8 || x == 91u8 || x == 123u8 {
            depth = depth + 1;
            token = Vec::new();
        } else if x == 41u8 || x == 93u8 || x == 125u8 {
            if depth > 0 {
                depth = depth - 1;
            }
        } else if x == 44u8 {
            if depth == 0 {
                commas = commas + 1;
                token = Vec::new();
            }
        } else if x == 61u8 {
            if depth == 0 {
                let t = trim_chars(token.as_slice());
                if t.len() > 0 {
                    let ghost before = named@;
                    named.push(t);
                    proof {
                        lemma_views_push(before, t);
                    }
                }
            }
        } else if depth == 0 {
            token.push(x as char);
        }
        i = i + 1;
    }
    assert(bs.take(b@.len() as int) == bs);
    let t = trim_chars(args);
    let count = if t.len() > 0 {
        commas + 1
    } else {
        commas
    };
    (count, named)
}

fn contains_view(v: &Vec<Vec<char>>, x: &[char]) -> (r: bool)
    ensures
        r == views(v@).contains(x@),
{
    let mut i: usize = 0;
    while i < v.len()
        invariant
            i <= v@.len(),
            forall|j: int| 0 <= j < i ==> views(v@)[j] != x@,
        decreases v@.len() - i,
    {
        if chars_eq(v[i].as_slice(), x) {
            assert(views(v@)[i as int] == x@);
            return true;
        }
        i = i + 1;
    }
    false
}

/// The removed parameters one call still passes by name.
fn passed_removed_exec(args: &[char], removed: &Vec<String>, out: &mut Vec<String>)
    ensures
        strs(final(out)@) == strs(old(out)@) + passed_removed(args@, strs(removed@)),
{
    let (_count, named) = scan_args(args);
    let ghost rv = strs(removed@);
    let ghost start = strs(out@);
    let mut k: usize = 0;
    while k < removed.len()
        invariant
            k <= removed@.len(),
            rv == strs(removed@),
            views(named@) == named_args(args@),
            strs(out@) == start + passed_removed(args@, rv.take(k as int)),
        decreases removed@.len() - k,
    {
        assert(rv.take(k + 1).drop_last() == rv.take(k as int));
        assert(rv.take(k + 1).last() == removed@[k as int]@);
        let p = chars_of(removed[k].as_str());
        let mut needle = crate::strings::slice_chars(p.as_slice(), 0, p.len());
        needle.push('=');
        proof {
            reveal_strlit("=");
        }
        assert(needle@ =~= p@ + "="@);
        if crate::strings::contains_exec(args, needle.as_slice()) || contains_view(&named, p.as_slice()) {
            let ghost before = out@;
            let s = owned(removed[k].as_str());
            out.push(s);
            proof {
                lemma_strs_push(before, s);
            }
        }
        k = k + 1;
    }
    assert(rv.take(removed@.len() as int) == rv);
}

/// Call sites in `new_code` that a weakened contract breaks (see
/// `callsite_issues`). Functions come in the order they first appear in
/// `old_code`.
pub fn find_contract_callsite_issues(language: Option<SupportedLanguage>, old_code: &str, new_code: &str) -> (r: Vec<
    String,
>)
    ensures
        strs(r@) == callsite_issues(language, old_code@, new_code@),
{
    let python = match language {
        Some(SupportedLanguage::Python) => true,
        _ => false,
    };
    let before = extract_signatures_regex(language, old_code);
    let after = extract_signatures_regex(language, new_code);
    let ghost bv = sig_view(before@);
    let ghost av = sig_view(after@);
    let mut issues: Vec<String> = Vec::new();
    let mut removed: Vec<(String, Vec<String>)> = Vec::new();
    let mut reduced: Vec<(String, usize, usize)> = Vec::new();
    let mut i: usize = 0;
    while i < before.len()
        invariant
            i <= before@.len(),
            bv == sig_view(before@),
            av == sig_view(after@),
            python == (language == Some(SupportedLanguage::Python)),
            contract_plan(bv.take(i as int), av, python) == (
                strs(issues@),
                sig_view(removed@),
                reduced@.map_values(|t: (String, usize, usize)| (t.0@, t.1 as nat, t.2 as nat)),
            ),
        decreases before@.len() - i,
    {
        assert(bv.take(i + 1).drop_last() == bv.take(i as int));
        assert(bv.take(i + 1).last() == bv[i as int]);
        let name = before[i].0.as_str();
        let b = &before[i].1;
        match lookup_exec(&after, name) {
            None => {
                let msg = cat(cat("Function `", name).as_str(), "` removed; consider migration plan");
                push_string(&mut issues, msg);
            },
            Some(a) => {
                if a.len() < b.len() {
                    let ghost before_r = reduced@.map_values(|t: (String, usize, usize)| (t.0@, t.1 as nat, t.2 as nat));
                    reduced.push((owned(name), b.len(), a.len()));
                    assert(reduced@.map_values(|t: (String, usize, usize)| (t.0@, t.1 as nat, t.2 as nat)) =~= before_r.push(
                        (name@, b@.len() as nat, a@.len() as nat),
                    ));
                }
                let mut gone: Vec<String> = Vec::new();
                let ghost bs = strs(b@);
                let ghost asv = strs(a@);
                let mut k: usize = 0;
                while k < b.len()
                    invariant
                        k <= b@.len(),
                        bs == strs(b@),
                        asv == strs(a@),
                        strs(gone@) == removed_params(bs.take(k as int), asv, python),
                    decreases b@.len() - k,
                {
                    assert(bs.take(k + 1).drop_last() == bs.take(k as int));
                    assert(bs.take(k + 1).last() == b@[k as int]@);
                    let bp = b[k].as_str();
                    let boiler = python && is_py_boilerplate(chars_of(bp).as_slice());
                    if !boiler && chars_of(bp).len() > 0 && !contains_str(&a, bp) {
                        push_string(&mut gone, owned(bp));
                    }
                    k = k + 1;
                }
                assert(bs.take(b@.len() as int) == bs);
                if gone.len() > 0 {
                    let ghost before_m = sig_view(removed@);
                    let entry = (owned(name), gone);
                    removed.push(entry);
                    assert(sig_view(removed@) =~= before_m.push((name@, strs(entry.1@))));
                }
            },
        }
        i = i + 1;
    }
    assert(bv.take(before@.len() as int) == bv);
    if removed.len() == 0 && reduced.len() == 0 {
        return issues;
    }
    let code = chars_of(new_code);
    let ghost rv = sig_view(removed@);
    let mut m: usize = 0;
    let ghost base = strs(issues@);
    while m < removed.len()
        invariant
            m <= removed@.len(),
            rv == sig_view(removed@),
            code@ == new_code@,
            strs(issues@) == base + named_call_issues(new_code@, rv.take(m as int)),
        decreases removed@.len() - m,
    {
        assert(rv.take(m + 1).drop_last() == rv.take(m as int));
        assert(rv.take(m + 1).last() == rv[m as int]);
        let fname = chars_of(removed[m].0.as_str());
        let spans = call_spans_exec(code.as_slice(), fname.as_slice());
        let ghost sv = spans@.map_values(|p: (usize, usize)| (p.0 as int, p.1 as int));
        let mut seen: Vec<String> = Vec::new();
        let mut q: usize = 0;
        while q < spans.len()
            invariant
                q <= spans@.len(),
                m < removed@.len(),
                sv == spans@.map_values(|p: (usize, usize)| (p.0 as int, p.1 as int)),
                forall|k: int| 0 <= k < spans@.len() ==> (#[trigger] spans@[k]).0 <= spans@[k].1 <= code@.len(),
                strs(seen@) == passed_in_calls(code@, sv.take(q as int), strs(removed@[m as int].1@)),
            decreases spans@.len() - q,
        {
            assert(sv.take(q + 1).drop_last() == sv.take(q as int));
            assert(sv.take(q + 1).last() == sv[q as int]);
            let (j, end) = spans[q];
            let args = crate::strings::slice_chars(code.as_slice(), j, end);
            passed_removed_exec(args.as_slice(), &removed[m].1, &mut seen);
            q = q + 1;
        }
        assert(sv.take(spans@.len() as int) == sv);
        if seen.len() > 0 {
            let joined = join_strings(&seen, ", ");
            let msg = cat5("Calls to `", removed[m].0.as_str(), "` still pass removed named params: ", joined.as_str(), "");
            proof {
                reveal_strlit("");
            }
            push_string(&mut issues, msg);
        }
        m = m + 1;
    }
    assert(rv.take(removed@.len() as int) == rv);
    let ghost dv = reduced@.map_values(|t: (String, usize, usize)| (t.0@, t.1 as nat, t.2 as nat));
    let ghost mid = strs(issues@);
    let mut n: usize = 0;
    while n < reduced.len()
        invariant
            n <= reduced@.len(),
            dv == reduced@.map_values(|t: (String, usize, usize)| (t.0@, t.1 as nat, t.2 as nat)),
            code@ == new_code@,
            strs(issues@) == mid + arity_issues(new_code@, dv.take(n as int)),
        decreases reduced@.len() - n,
    {
        assert(dv.take(n + 1).drop_last() == dv.take(n as int));
        assert(dv.take(n + 1).last() == dv[n as int]);
        let fname = chars_of(reduced[n].0.as_str());
        let new_n = reduced[n].2;
        let spans = call_spans_exec(code.as_slice(), fname.as_slice());
        let ghost sv = spans@.map_values(|p: (usize, usize)| (p.0 as int, p.1 as int));
        let mut bad: usize = 0;
        let mut q: usize = 0;
        while q < spans.len()
            invariant
                q <= spans@.len(),
                sv == spans@.map_values(|p: (usize, usize)| (p.0 as int, p.1 as int)),
                forall|k: int| 0 <= k < spans@.len() ==> (#[trigger] spans@[k]).0 <= spans@[k].1 <= code@.len(),
                bad == calls_over(code@, sv.take(q as int), new_n as nat),
                bad <= q,
            decreases spans@.len() - q,
        {
            assert(sv.take(q + 1).drop_last() == sv.take(q as int));
            assert(sv.take(q + 1).last() == sv[q as int]);
            let (j, end) = spans[q];
            let args = crate::strings::slice_chars(code.as_slice(), j, end);
            let (count, _named) = scan_args(args.as_slice());
            if count > new_n as u128 {
                bad = bad + 1;
            }
            q = q + 1;
        }
        assert(sv.take(spans@.len() as int) == sv);
        if bad > 0 {
            let head = cat5("Calls to `", reduced[n].0.as_str(), "` exceed new arity (", count_text(reduced[n].1).as_str(), " -> ");
            let msg = cat5(head.as_str(), count_text(new_n).as_str(), "): ", count_text(bad).as_str(), " occurrences");
            push_string(&mut issues, msg);
        }
        n = n + 1;
    }
    assert(dv.take(reduced@.len() as int) == dv);
    issues
}

} // verus!
