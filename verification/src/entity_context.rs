use vstd::prelude::*;
use crate::source_tree::{parse_source, syntax_tree};
use crate::formatting::SupportedLanguage;
use crate::locate::{descent, descent_exec, last_named, str_is};
use crate::messages::glossary::{ConcreteIssue, IssueSeverity, QualityScore};
use crate::report::{
    covers, lemma_report_order, lemma_utf8_size_concat, report_order, report_order_exec, severity_name,
    snippet_rows, snippet_rows_exec, views_of, ChangedLines,
};
use crate::strings::{
    append_chars, append_str, chars_of, decimal, decimal_exec, lines, lines_of, string_of, utf8_size, utf8_size_exec,
};
use crate::syntax::{is_language, name_from, name_from_exec, kind_texts, SyntaxNode};

verus! {

// ---------------------------------------------------------------------------
// Line starts
// ---------------------------------------------------------------------------

/// The byte offsets where lines start: 0, then the byte after each newline.
pub open spec fn line_starts(b: Seq<u8>) -> Seq<nat>
    decreases b.len(),
{
    if b.len() == 0 {
        seq![0nat]
    } else {
        let prev = line_starts(b.drop_last());
        if b.last() == 10u8 {
            prev.push(b.len())
        } else {
            prev
        }
    }
}

/// Where line `idx` (from 0) starts; 0 past the last line.
pub open spec fn line_start(b: Seq<u8>, idx: nat) -> nat {
    let o = line_starts(b);
    if idx < o.len() {
        o[idx as int]
    } else {
        0
    }
}

fn line_starts_exec(b: &[u8]) -> (r: Vec<usize>)
    ensures
        r@.map_values(|x: usize| x as nat) == line_starts(b@),
{
    let mut r: Vec<usize> = Vec::new();
    r.push(0);
    let mut i: usize = 0;
    assert(b@.take(0) =~= Seq::<u8>::empty());
    assert(r@.map_values(|x: usize| x as nat) =~= line_starts(b@.take(0)));
    while i < b.len()
        invariant
            i <= b@.len(),
            r@.map_values(|x: usize| x as nat) == line_starts(b@.take(i as int)),
        decreases b@.len() - i,
    {
        let ghost before = r@;
        assert(b@.take(i + 1).drop_last() =~= b@.take(i as int));
        assert(b@.take(i + 1).last() == b@[i as int]);
        if b[i] == 10u8 {
            r.push(i + 1);
            assert(r@.map_values(|x: usize| x as nat) =~= before.map_values(|x: usize| x as nat).push((i + 1) as nat));
        }
        i = i + 1;
    }
    assert(b@.take(b@.len() as int) =~= b@);
    r
}

// ---------------------------------------------------------------------------
// The entity around a line
// ---------------------------------------------------------------------------

/// A child kind that makes an object-literal entry a function.
pub open spec fn function_child_kind(k: Seq<char>) -> bool {
    k == "formal_parameters"@ || k == "function"@ || k == "function_expression"@ || k == "arrow_function"@
}

/// Some child is of a function kind.
pub open spec fn has_function_child(cs: Seq<SyntaxNode>) -> bool {
    exists|i: int| 0 <= i < cs.len() && function_child_kind(#[trigger] cs[i].kind@)
}

/// The node is a function or class (for JavaScript and TypeScript, also an
/// object entry that holds a function).
pub open spec fn is_entity(lang: SupportedLanguage, n: SyntaxNode) -> bool {
    let k = n.kind@;
    if lang == SupportedLanguage::Python {
        k == "function_definition"@ || k == "class_definition"@
    } else if lang == SupportedLanguage::JavaScript || lang == SupportedLanguage::TypeScript {
        k == "function_declaration"@ || k == "function_expression"@ || k == "arrow_function"@ || k
            == "method_definition"@ || k == "class_declaration"@ || ((k == "pair"@ || k == "property_assignment"@)
            && has_function_child(n.children@))
    } else {
        false
    }
}

/// The first entity met going up from `path[j]`, looking at `steps` nodes
/// at most.
pub open spec fn entity_at(lang: SupportedLanguage, path: Seq<SyntaxNode>, j: int, steps: nat) -> Option<int>
    decreases steps,
{
    if steps == 0 || j < 0 || j >= path.len() {
        None
    } else if is_entity(lang, path[j]) {
        Some(j)
    } else if j == 0 {
        None
    } else {
        entity_at(lang, path, j - 1, (steps - 1) as nat)
    }
}

/// For an issue on line `ln` (from one): the rows (from one) of the entity
/// around the line's start, its name (Python: its first identifier child)
/// and kind; the line itself and `context` where no entity is found within
/// 20 nodes up.
pub open spec fn entity_span(lang: SupportedLanguage, root: SyntaxNode, b: Seq<u8>, ln: nat) -> (
    nat,
    nat,
    Seq<char>,
    Seq<char>,
) {
    let off = line_start(b, if ln >= 1 { (ln - 1) as nat } else { 0 });
    let path = descent(root, off);
    match entity_at(lang, path, last_named(path), 20) {
        Some(e) => (
            (path[e].start_row + 1) as nat,
            (path[e].end_row + 1) as nat,
            if lang == SupportedLanguage::Python {
                name_from(path[e].children@, 0, seq!["identifier"@], Seq::empty())
            } else {
                Seq::empty()
            },
            path[e].kind@,
        ),
        None => (ln, ln, Seq::empty(), "context"@),
    }
}

/// The header of an entity snippet: `- [Severity] Line N in kind name:
/// message [rule]` (no name where there is none).
pub open spec fn entity_header(i: ConcreteIssue, kind: Seq<char>, name: Seq<char>) -> Seq<char> {
    "- ["@ + severity_name(i.severity) + "] Line "@ + decimal(i.line as nat) + " in "@ + kind + (if name.len() == 0 {
        Seq::empty()
    } else {
        " "@ + name
    }) + ": "@ + i.message@ + " ["@ + i.rule_id@ + "]\n"@
}

/// `a - b`, or 0.
pub open spec fn sat_sub(a: nat, b: nat) -> nat {
    if a >= b {
        (a - b) as nat
    } else {
        0
    }
}

/// The first row of a snippet: the entity's first row, but no earlier than
/// twice `ctx` rows before the issue's line (rows counted from 0).
pub open spec fn entity_first_row(sr: nat, ln: nat, ctx: nat) -> nat {
    let a = sat_sub(sr, 1);
    let b = sat_sub(sat_sub(ln, 2 * ctx), 1);
    if a >= b {
        a
    } else {
        b
    }
}

/// The end of a snippet: the entity's last row, but no later than twice
/// `ctx` rows after the issue's line.
pub open spec fn entity_end_row(er: nat, ln: nat, ctx: nat) -> nat {
    if er <= ln + 2 * ctx {
        er
    } else {
        ln + 2 * ctx
    }
}

/// The entity snippets for the issues at the positions `ord`, appended to
/// `out`: each issue on a changed line (any line when none changed) gets a
/// header naming its entity and the rows of that entity around it, until
/// `max_snippets` were given or `max_chars` bytes would be passed. Gives the
/// text, the number of snippets, and whether a row did not fit.
pub open spec fn entity_snippets_from(
    lang: SupportedLanguage,
    s: Seq<ConcreteIssue>,
    ls: Seq<Seq<char>>,
    b: Seq<u8>,
    root: SyntaxNode,
    w: Seq<(usize, usize)>,
    ctx: nat,
    max_snippets: nat,
    max_chars: nat,
    ord: Seq<usize>,
    out: Seq<char>,
    used: nat,
) -> (Seq<char>, nat, bool)
    decreases ord.len(),
{
    if ord.len() == 0 || used >= max_snippets {
        (out, used, false)
    } else {
        let i = s[ord[0] as int];
        let ln = i.line as nat;
        if !(forall|x: nat| !covers(w, x)) && !covers(w, ln) {
            entity_snippets_from(lang, s, ls, b, root, w, ctx, max_snippets, max_chars, ord.drop_first(), out, used)
        } else {
            let sp = entity_span(lang, root, b, ln);
            let h = entity_header(i, sp.3, sp.2);
            if utf8_size(out) + utf8_size(h) > max_chars {
                (out, used, false)
            } else {
                let (o2, stop) = snippet_rows(
                    ls,
                    entity_first_row(sp.0, ln, ctx),
                    entity_end_row(sp.1, ln, ctx),
                    ln,
                    out + h,
                    max_chars,
                );
                if stop {
                    (o2, used, true)
                } else {
                    entity_snippets_from(
                        lang,
                        s,
                        ls,
                        b,
                        root,
                        w,
                        ctx,
                        max_snippets,
                        max_chars,
                        ord.drop_first(),
                        o2,
                        used + 1,
                    )
                }
            }
        }
    }
}

/// The change-context section built around entities: nothing without
/// issues, for a language other than Python, JavaScript and TypeScript, or
/// without a tree; else the snippets for the issues in report order (see
/// `entity_snippets_from`), and a note when none was given and no row was
/// cut.
pub open spec fn entity_context(
    lang: SupportedLanguage,
    content: Seq<char>,
    root: Option<SyntaxNode>,
    s: Seq<ConcreteIssue>,
    w: Seq<(usize, usize)>,
    ctx: nat,
    max_snippets: nat,
    max_chars: nat,
) -> Seq<char> {
    if s.len() == 0 || !(lang == SupportedLanguage::Python || lang == SupportedLanguage::JavaScript || lang
        == SupportedLanguage::TypeScript) {
        Seq::empty()
    } else {
        match root {
            None => Seq::empty(),
            Some(r) => {
                let res = entity_snippets_from(
                    lang,
                    s,
                    lines(content),
                    vstd::utf8::encode_utf8(content),
                    r,
                    w,
                    ctx,
                    max_snippets,
                    max_chars,
                    report_order(s, s.len()),
                    "=== CHANGE CONTEXT ===\n"@,
                    0,
                );
                if res.2 || res.1 > 0 {
                    res.0
                } else {
                    res.0 + "No localized snippets available.\n"@
                }
            },
        }
    }
}

// ---------------------------------------------------------------------------
// Building the section
// ---------------------------------------------------------------------------

fn is_entity_exec(lang: SupportedLanguage, n: &SyntaxNode) -> (r: bool)
    ensures
        r == is_entity(lang, *n),
{
    let k = n.kind.as_str();
    if is_language(lang, SupportedLanguage::Python) {
        return str_is(k, "function_definition") || str_is(k, "class_definition");
    }
    if !(is_language(lang, SupportedLanguage::JavaScript) || is_language(lang, SupportedLanguage::TypeScript)) {
        return false;
    }
    if str_is(k, "function_declaration") || str_is(k, "function_expression") || str_is(k, "arrow_function")
        || str_is(k, "method_definition") || str_is(k, "class_declaration") {
        return true;
    }
    if !(str_is(k, "pair") || str_is(k, "property_assignment")) {
        return false;
    }
    let cs = &n.children;
    let mut i: usize = 0;
    while i < cs.len()
        invariant
            i <= cs@.len(),
            cs@ == n.children@,
            lang == SupportedLanguage::JavaScript || lang == SupportedLanguage::TypeScript,
            n.kind@ == "pair"@ || n.kind@ == "property_assignment"@,
            forall|j: int| 0 <= j < i ==> !function_child_kind(#[trigger] cs@[j].kind@),
        decreases cs@.len() - i,
    {
        let ck = cs[i].kind.as_str();
        if str_is(ck, "formal_parameters") || str_is(ck, "function") || str_is(ck, "function_expression") || str_is(
            ck,
            "arrow_function",
        ) {
            assert(function_child_kind(n.children@[i as int].kind@));
            assert(has_function_child(n.children@));
            return true;
        }
        i = i + 1;
    }
    false
}

fn entity_lookup<'a>(lang: SupportedLanguage, root: &'a SyntaxNode, off: usize) -> (r: Option<&'a SyntaxNode>)
    ensures
        crate::api_contract::opt_tree(r) == (match entity_at(
            lang,
            descent(*root, off as nat),
            last_named(descent(*root, off as nat)),
            20,
        ) {
            Some(e) => Some(descent(*root, off as nat)[e]),
            None => None,
        }),
{
    let path = descent_exec(root, off);
    let ghost pv = path@.map_values(|x: &SyntaxNode| *x);
    let mut j: usize = path.len() - 1;
    assert(pv.take(j + 1) =~= pv);
    while j > 0 && !path[j].named
        invariant
            j < path@.len(),
            pv == path@.map_values(|x: &SyntaxNode| *x),
            pv == descent(*root, off as nat),
            last_named(pv) == last_named(pv.take(j + 1)),
        decreases j,
    {
        assert(pv.take(j + 1).drop_last() =~= pv.take(j as int));
        j = j - 1;
    }
    proof {
        if j > 0 {
            assert(pv.take(j + 1).last() == pv[j as int]);
        }
    }
    assert(last_named(pv) == j);
    let mut steps: usize = 20;
    loop
        invariant
            j < path@.len(),
            pv == path@.map_values(|x: &SyntaxNode| *x),
            pv == descent(*root, off as nat),
            steps <= 20,
            entity_at(lang, pv, last_named(pv), 20) == entity_at(lang, pv, j as int, steps as nat),
        decreases steps,
    {
        if steps == 0 {
            return None;
        }
        if is_entity_exec(lang, path[j]) {
            return Some(path[j]);
        }
        if j == 0 {
            return None;
        }
        j = j - 1;
        steps = steps - 1;
    }
}

fn entity_header_exec(i: &ConcreteIssue, kind: &str, name: &str, out: &mut Vec<char>)
    ensures
        final(out)@ == old(out)@ + entity_header(*i, kind@, name@),
{
    let ghost o0 = out@;
    append_str(out, "- [");
    match i.severity {
        IssueSeverity::Critical => append_str(out, "Critical"),
        IssueSeverity::Major => append_str(out, "Major"),
        IssueSeverity::Minor => append_str(out, "Minor"),
    }
    append_str(out, "] Line ");
    let d = decimal_exec(i.line);
    append_chars(out, d.as_slice());
    append_str(out, " in ");
    append_str(out, kind);
    if !name.is_empty() {
        append_str(out, " ");
        append_str(out, name);
    }
    append_str(out, ": ");
    append_str(out, i.message.as_str());
    append_str(out, " [");
    append_str(out, i.rule_id.as_str());
    append_str(out, "]\n");
    assert(out@ =~= o0 + entity_header(*i, kind@, name@));
}

/// The change-context section built around the functions and classes that
/// hold the issues (see `entity_context`), for a given tree: `root` is the
/// parsed file, where it could be parsed.
pub fn entity_context_of_tree(
    language: SupportedLanguage,
    content: &str,
    root: Option<&SyntaxNode>,
    score: &QualityScore,
    changed: &ChangedLines,
    ctx_lines: usize,
    max_snippets: usize,
    max_chars: usize,
) -> (r: String)
    requires
        forall|k: int|
            0 <= k < score.concrete_issues@.len() ==> (#[trigger] score.concrete_issues@[k]).line + 2 * ctx_lines
                <= usize::MAX,
    ensures
        r@ == entity_context(
            language,
            content@,
            crate::api_contract::opt_tree(root),
            score.concrete_issues@,
            changed.windows@,
            ctx_lines as nat,
            max_snippets as nat,
            max_chars as nat,
        ),
{
    let issues = &score.concrete_issues;
    if issues.len() == 0 {
        return String::new();
    }
    if !(is_language(language, SupportedLanguage::Python) || is_language(language, SupportedLanguage::JavaScript)
        || is_language(language, SupportedLanguage::TypeScript)) {
        return String::new();
    }
    let tree = match root {
        None => {
            return String::new();
        },
        Some(t) => t,
    };
    assert(issues@[0].line + 2 * ctx_lines <= usize::MAX);
    let ctx2: usize = 2 * ctx_lines;
    let ord = report_order_exec(issues);
    proof {
        lemma_report_order(issues@, issues@.len());
        assert(issues@.take(issues@.len() as int) == issues@);
    }
    let cc = chars_of(content);
    let ls = lines_of(cc.as_slice());
    let ghost lv = views_of(ls@);
    assert(lv =~= lines(content@));
    let bytes_of = content.as_bytes();
    let ghost b = bytes_of@;
    let offs = line_starts_exec(bytes_of);
    let none_changed = changed.is_empty();
    let mut out: Vec<char> = Vec::new();
    append_str(&mut out, "=== CHANGE CONTEXT ===\n");
    assert(out@ =~= "=== CHANGE CONTEXT ===\n"@);
    let mut bytes: u128 = utf8_size_exec(out.as_slice());
    assert(out@.len() == out.len());
    let hdr = bytes;
    let ghost total = entity_snippets_from(
        language,
        issues@,
        lv,
        b,
        *tree,
        changed.windows@,
        ctx_lines as nat,
        max_snippets as nat,
        max_chars as nat,
        ord@,
        out@,
        0,
    );
    assert(entity_context(
        language,
        content@,
        crate::api_contract::opt_tree(root),
        score.concrete_issues@,
        changed.windows@,
        ctx_lines as nat,
        max_snippets as nat,
        max_chars as nat,
    ) == (if total.2 || total.1 > 0 {
        total.0
    } else {
        total.0 + "No localized snippets available.\n"@
    }));
    let mut used: usize = 0;
    let mut k: usize = 0;
    assert(ord@.skip(0) == ord@);
    while k < ord.len()
        invariant
            k <= ord@.len(),
            ord@.len() == issues@.len(),
            forall|a: int| 0 <= a < ord@.len() ==> #[trigger] ord@[a] < issues@.len(),
            forall|j: int| 0 <= j < issues@.len() ==> (#[trigger] issues@[j]).line + 2 * ctx_lines <= usize::MAX,
            ctx2 == 2 * ctx_lines,
            issues@ == score.concrete_issues@,
            lv == views_of(ls@),
            b == vstd::utf8::encode_utf8(content@),
            offs@.map_values(|x: usize| x as nat) == line_starts(b),
            none_changed == forall|ln: nat| !covers(changed.windows@, ln),
            bytes == utf8_size(out@),
            hdr <= 4 * (usize::MAX as u128),
            bytes <= max_chars as u128 + hdr,
            used <= k,
            entity_context(
                language,
                content@,
                crate::api_contract::opt_tree(root),
                score.concrete_issues@,
                changed.windows@,
                ctx_lines as nat,
                max_snippets as nat,
                max_chars as nat,
            ) == (if total.2 || total.1 > 0 {
                total.0
            } else {
                total.0 + "No localized snippets available.\n"@
            }),
            total == entity_snippets_from(
                language,
                issues@,
                lv,
                b,
                *tree,
                changed.windows@,
                ctx_lines as nat,
                max_snippets as nat,
                max_chars as nat,
                ord@.skip(k as int),
                out@,
                used as nat,
            ),
        decreases ord@.len() - k,
    {
        let ghost rest = ord@.skip(k as int);
        assert(rest[0] == ord@[k as int]);
        assert(rest.drop_first() == ord@.skip(k + 1));
        if used >= max_snippets {
            assert(total == (out@, used as nat, false));
            return finish_section(out, used);
        }
        let i = &issues[ord[k]];
        let ln = i.line;
        let ghost o_start = out@;
        if !none_changed && !changed.contains(ln) {
            k = k + 1;
            continue;
        }
        let idx: usize = if ln >= 1 {
            ln - 1
        } else {
            0
        };
        let off: usize = if idx < offs.len() {
            offs[idx]
        } else {
            0
        };
        assert(off as nat == line_start(b, idx as nat)) by {
            if idx < offs.len() {
                assert(offs@.map_values(|x: usize| x as nat)[idx as int] == offs@[idx as int] as nat);
            }
        }
        let found = entity_lookup(language, tree, off);
        let ghost sp = entity_span(language, *tree, b, ln as nat);
        let ghost path = descent(*tree, off as nat);
        assert(crate::api_contract::opt_tree(found) == (match entity_at(language, path, last_named(path), 20) {
            Some(e) => Some(path[e]),
            None => None,
        }));
        let lim: usize = ln + ctx2;
        let back: usize = if ln >= ctx2 {
            ln - ctx2
        } else {
            0
        };
        let back1: usize = if back >= 1 {
            back - 1
        } else {
            0
        };
        let mut h: Vec<char> = Vec::new();
        let first: usize;
        let end: usize;
        match found {
            Some(e) => {
                let ident = ["identifier"];
                assert(kind_texts(ident@) =~= seq!["identifier"@]);
                let name = if is_language(language, SupportedLanguage::Python) {
                    name_from_exec(&e.children, &ident)
                } else {
                    String::new()
                };
                entity_header_exec(i, e.kind.as_str(), name.as_str(), &mut h);
                assert(h@ == entity_header(*i, sp.3, sp.2));
                first = if e.start_row >= back1 {
                    e.start_row
                } else {
                    back1
                };
                end = if e.end_row < lim {
                    e.end_row + 1
                } else {
                    lim
                };
            },
            None => {
                entity_header_exec(i, "context", "", &mut h);
                proof {
                    reveal_strlit("");
                }
                assert(""@ =~= Seq::<char>::empty());
                assert(h@ == entity_header(*i, sp.3, sp.2));
                let a: usize = if ln >= 1 {
                    ln - 1
                } else {
                    0
                };
                first = if a >= back1 {
                    a
                } else {
                    back1
                };
                end = ln;
            },
        }
        assert(first as nat == entity_first_row(sp.0, ln as nat, ctx_lines as nat));
        assert(end as nat == entity_end_row(sp.1, ln as nat, ctx_lines as nat));
        let hb = utf8_size_exec(h.as_slice());
        assert(h@.len() == h.len());
        if bytes + hb > max_chars as u128 {
            assert(total == (out@, used as nat, false));
            return finish_section(out, used);
        }
        proof {
            lemma_utf8_size_concat(out@, h@);
        }
        append_chars(&mut out, h.as_slice());
        bytes = bytes + hb;
        let stop = snippet_rows_exec(&ls, first, end, ln, &mut out, &mut bytes, max_chars);
        assert(total == entity_snippets_from(
            language,
            issues@,
            lv,
            b,
            *tree,
            changed.windows@,
            ctx_lines as nat,
            max_snippets as nat,
            max_chars as nat,
            rest.drop_first(),
            out@,
            (used + 1) as nat,
        ) || (stop && total == (out@, used as nat, true)));
        if stop {
            return string_of(out.as_slice());
        }
        used = used + 1;
        k = k + 1;
    }
    assert(ord@.skip(k as int) =~= Seq::<usize>::empty());
    assert(total == (out@, used as nat, false));
    finish_section(out, used)
}

fn finish_section(out: Vec<char>, used: usize) -> (r: String)
    ensures
        r@ == (if used > 0 {
            out@
        } else {
            out@ + "No localized snippets available.\n"@
        }),
{
    let mut out = out;
    if used == 0 {
        append_str(&mut out, "No localized snippets available.\n");
    }
    string_of(out.as_slice())
}

/// The change-context section built around the functions and classes that
/// hold the issues (see `entity_context`), with the file parsed by
/// tree-sitter.
pub fn build_entity_context_snippets(
    language: SupportedLanguage,
    content: &str,
    score: &QualityScore,
    changed: &ChangedLines,
    ctx_lines: usize,
    max_snippets: usize,
    max_chars: usize,
) -> (r: String)
    requires
        forall|k: int|
            0 <= k < score.concrete_issues@.len() ==> (#[trigger] score.concrete_issues@[k]).line + 2 * ctx_lines
                <= usize::MAX,
    ensures
        r@ == entity_context(
            language,
            content@,
            syntax_tree(language, content@),
            score.concrete_issues@,
            changed.windows@,
            ctx_lines as nat,
            max_snippets as nat,
            max_chars as nat,
        ),
{
    let tree = parse_source(language, content);
    entity_context_of_tree(language, content, tree.as_ref(), score, changed, ctx_lines, max_snippets, max_chars)
}

} // verus!
