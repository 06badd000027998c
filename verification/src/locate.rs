use vstd::prelude::*;
use crate::formatting::SupportedLanguage;
use crate::syntax::SyntaxNode;
use crate::source_tree::{parse_source, syntax_tree};

verus! {

// ---------------------------------------------------------------------------
// Finding the node at a byte offset
// ---------------------------------------------------------------------------

/// The nodes met going down from `n` towards byte `s`: at each node, the
/// first child that ends after `s` is entered if it starts at or before `s`;
/// the walk stops where there is no such child.
pub open spec fn descent(n: SyntaxNode, s: nat) -> Seq<SyntaxNode>
    decreases n,
{
    seq![n] + descent_from(n.children@, s, 0)
}

/// The rest of a descent among the children `cs`, from child `i` on.
pub open spec fn descent_from(cs: Seq<SyntaxNode>, s: nat, i: int) -> Seq<SyntaxNode>
    decreases cs, cs.len() - i,
{
    if i < 0 || i >= cs.len() {
        Seq::empty()
    } else if cs[i].end_byte <= s {
        descent_from(cs, s, i + 1)
    } else if cs[i].start_byte <= s {
        descent(cs[i], s)
    } else {
        Seq::empty()
    }
}

/// Where the last named node of a descent stands (the start when none of
/// the nodes below it is named).
pub open spec fn last_named(path: Seq<SyntaxNode>) -> int
    decreases path.len(),
{
    if path.len() <= 1 {
        0
    } else if path.last().named {
        path.len() - 1
    } else {
        last_named(path.drop_last())
    }
}

/// The path from `n` down towards byte `s`, as references into the tree.
pub fn descent_exec<'a>(n: &'a SyntaxNode, s: usize) -> (r: Vec<&'a SyntaxNode>)
    ensures
        r@.map_values(|x: &SyntaxNode| *x) == descent(*n, s as nat),
        r@.len() >= 1,
    decreases n,
{
    let mut r: Vec<&'a SyntaxNode> = Vec::new();
    r.push(n);
    let cs = &n.children;
    let mut i: usize = 0;
    while i < cs.len()
        invariant
            i <= cs@.len(),
            cs@ == n.children@,
            r@.len() == 1,
            r@[0] == n,
            descent_from(cs@, s as nat, 0) == descent_from(cs@, s as nat, i as int),
        decreases cs@.len() - i,
    {
        let c = &cs[i];
        if c.end_byte <= s {
            i = i + 1;
        } else {
            if c.start_byte <= s {
                let below = descent_exec(c, s);
                let mut k: usize = 0;
                while k < below.len()
                    invariant
                        k <= below@.len(),
                        r@.len() == 1 + k,
                        r@[0] == n,
                        forall|j: int| 0 <= j < k ==> *r@[1 + j] == *below@[j],
                    decreases below@.len() - k,
                {
                    r.push(below[k]);
                    k = k + 1;
                }
                assert(r@.map_values(|x: &SyntaxNode| *x) =~= seq![*n] + below@.map_values(|x: &SyntaxNode| *x));
            } else {
                assert(r@.map_values(|x: &SyntaxNode| *x) =~= seq![*n]);
            }
            return r;
        }
    }
    assert(r@.map_values(|x: &SyntaxNode| *x) =~= seq![*n]);
    r
}

// ---------------------------------------------------------------------------
// The function around an offset, and the names used in it
// ---------------------------------------------------------------------------

/// The kinds of function nodes in a language's grammar.
pub open spec fn is_function_kind(lang: SupportedLanguage, k: Seq<char>) -> bool {
    if lang == SupportedLanguage::Python {
        k == "function_definition"@ || k == "async_function_definition"@
    } else if lang == SupportedLanguage::JavaScript || lang == SupportedLanguage::TypeScript {
        k == "function_declaration"@ || k == "function_expression"@ || k == "arrow_function"@ || k
            == "method_definition"@
    } else {
        false
    }
}

/// The kind of a parameter list in a language's grammar.
pub open spec fn is_params_kind(lang: SupportedLanguage, k: Seq<char>) -> bool {
    if lang == SupportedLanguage::Python {
        k == "parameters"@
    } else if lang == SupportedLanguage::JavaScript || lang == SupportedLanguage::TypeScript {
        k == "formal_parameters"@
    } else {
        false
    }
}

/// The kinds of identifier nodes in a language's grammar.
pub open spec fn is_identifier_kind(lang: SupportedLanguage, k: Seq<char>) -> bool {
    if lang == SupportedLanguage::Python {
        k == "identifier"@
    } else if lang == SupportedLanguage::JavaScript || lang == SupportedLanguage::TypeScript {
        k == "identifier"@ || k == "shorthand_property_identifier"@ || k == "binding_identifier"@
    } else {
        false
    }
}

/// The first function node met going up from `path[j]` through its
/// ancestors, looking at `steps` nodes at most.
pub open spec fn enclosing(lang: SupportedLanguage, path: Seq<SyntaxNode>, j: int, steps: nat) -> Option<int>
    decreases steps,
{
    if steps == 0 || j < 0 || j >= path.len() {
        None
    } else if is_function_kind(lang, path[j].kind@) {
        Some(j)
    } else if j == 0 {
        None
    } else {
        enclosing(lang, path, j - 1, (steps - 1) as nat)
    }
}

/// The byte range of the first parameter list among the children.
pub open spec fn params_range(lang: SupportedLanguage, cs: Seq<SyntaxNode>, i: int) -> Option<(nat, nat)>
    decreases cs.len() - i,
{
    if i < 0 || i >= cs.len() {
        None
    } else if is_params_kind(lang, cs[i].kind@) {
        Some((cs[i].start_byte as nat, cs[i].end_byte as nat))
    } else {
        params_range(lang, cs, i + 1)
    }
}

/// The node lies inside the range, if there is one.
pub open spec fn within(pr: Option<(nat, nat)>, n: SyntaxNode) -> bool {
    match pr {
        Some(r) => r.0 <= n.start_byte && n.end_byte <= r.1,
        None => false,
    }
}

/// `p` is the text of an identifier under `n`, looking only at nodes that
/// lie within bytes `lo..hi` and not within the parameter list `pr` (a node
/// outside that is not looked into).
pub open spec fn occurs(
    lang: SupportedLanguage,
    n: SyntaxNode,
    lo: nat,
    hi: nat,
    pr: Option<(nat, nat)>,
    p: Seq<char>,
) -> bool
    decreases n,
{
    if n.start_byte < lo || n.end_byte > hi || within(pr, n) {
        false
    } else {
        (is_identifier_kind(lang, n.kind@) && crate::syntax::text_of(n) == Some(p)) || occurs_of(
            lang,
            n.children@,
            n.children@.len() as int,
            lo,
            hi,
            pr,
            p,
        )
    }
}

/// `occurs` in one of the first `k` children.
pub open spec fn occurs_of(
    lang: SupportedLanguage,
    cs: Seq<SyntaxNode>,
    k: int,
    lo: nat,
    hi: nat,
    pr: Option<(nat, nat)>,
    p: Seq<char>,
) -> bool
    decreases cs, k,
{
    if k <= 0 || k > cs.len() {
        false
    } else {
        occurs(lang, cs[k - 1], lo, hi, pr, p) || occurs_of(lang, cs, k - 1, lo, hi, pr, p)
    }
}

/// The parameter `p` of the function whose bytes are `start..end` is used in
/// its body: from the named node at `start`, the enclosing function (at most
/// 50 nodes up) has an identifier `p` within those bytes, outside its
/// parameter list. Nothing is used where the file has no tree or no
/// enclosing function is found.
pub open spec fn param_used(
    lang: SupportedLanguage,
    root: Option<SyntaxNode>,
    start: nat,
    end: nat,
    p: Seq<char>,
) -> bool {
    match root {
        None => false,
        Some(r) => {
            let path = descent(r, start);
            match enclosing(lang, path, last_named(path), 50) {
                None => false,
                Some(f) => occurs(lang, path[f], start, end, params_range(lang, path[f].children@, 0), p),
            }
        },
    }
}

fn is_function_kind_exec(lang: SupportedLanguage, k: &str) -> (r: bool)
    ensures
        r == is_function_kind(lang, k@),
{
    match lang {
        SupportedLanguage::Python => str_is(k, "function_definition") || str_is(k, "async_function_definition"),
        SupportedLanguage::JavaScript | SupportedLanguage::TypeScript => str_is(k, "function_declaration")
            || str_is(k, "function_expression") || str_is(k, "arrow_function") || str_is(k, "method_definition"),
        _ => false,
    }
}

fn is_params_kind_exec(lang: SupportedLanguage, k: &str) -> (r: bool)
    ensures
        r == is_params_kind(lang, k@),
{
    match lang {
        SupportedLanguage::Python => str_is(k, "parameters"),
        SupportedLanguage::JavaScript | SupportedLanguage::TypeScript => str_is(k, "formal_parameters"),
        _ => false,
    }
}

fn is_identifier_kind_exec(lang: SupportedLanguage, k: &str) -> (r: bool)
    ensures
        r == is_identifier_kind(lang, k@),
{
    match lang {
        SupportedLanguage::Python => str_is(k, "identifier"),
        SupportedLanguage::JavaScript | SupportedLanguage::TypeScript => str_is(k, "identifier") || str_is(
            k,
            "shorthand_property_identifier",
        ) || str_is(k, "binding_identifier"),
        _ => false,
    }
}

/// Two texts are equal.
pub fn str_is(a: &str, b: &str) -> (r: bool)
    ensures
        r == (a@ == b@),
{
    let x = crate::strings::chars_of(a);
    let y = crate::strings::chars_of(b);
    crate::strings::chars_eq(x.as_slice(), y.as_slice())
}

fn enclosing_exec(lang: SupportedLanguage, path: &Vec<&SyntaxNode>) -> (r: Option<usize>)
    requires
        path@.len() >= 1,
    ensures
        match r {
            Some(f) => enclosing(lang, path@.map_values(|x: &SyntaxNode| *x), last_named(path@.map_values(|x: &SyntaxNode| *x)), 50)
                == Some(f as int),
            None => enclosing(lang, path@.map_values(|x: &SyntaxNode| *x), last_named(path@.map_values(|x: &SyntaxNode| *x)), 50) is None,
        },
        r matches Some(f) ==> f < path@.len(),
{
    let ghost pv = path@.map_values(|x: &SyntaxNode| *x);
    // the last named node
    let mut j: usize = path.len() - 1;
    assert(pv.take(j + 1) =~= pv);
    while j > 0 && !path[j].named
        invariant
            j < path@.len(),
            pv == path@.map_values(|x: &SyntaxNode| *x),
            last_named(pv) == last_named(pv.take(j + 1)),
        decreases j,
    {
        assert(pv.take(j + 1).drop_last() =~= pv.take(j as int));
        j = j - 1;
    }
    proof {
        if j > 0 {
            assert(pv.take(j + 1).last() == pv[j as int]);
        }
    }
    assert(last_named(pv) == j);
    let mut steps: usize = 50;
    loop
        invariant
            j < path@.len(),
            pv == path@.map_values(|x: &SyntaxNode| *x),
            steps <= 50,
            enclosing(lang, pv, last_named(pv), 50) == enclosing(lang, pv, j as int, steps as nat),
        decreases steps,
    {
        if steps == 0 {
            return None;
        }
        if is_function_kind_exec(lang, path[j].kind.as_str()) {
            return Some(j);
        }
        if j == 0 {
            return None;
        }
        j = j - 1;
        steps = steps - 1;
    }
}

fn params_range_exec(lang: SupportedLanguage, cs: &Vec<SyntaxNode>) -> (r: Option<(usize, usize)>)
    ensures
        (match r {
            Some(x) => Some((x.0 as nat, x.1 as nat)),
            None => None,
        }) == params_range(lang, cs@, 0),
{
    let mut i: usize = 0;
    while i < cs.len()
        invariant
            i <= cs@.len(),
            params_range(lang, cs@, 0) == params_range(lang, cs@, i as int),
        decreases cs@.len() - i,
    {
        if is_params_kind_exec(lang, cs[i].kind.as_str()) {
            return Some((cs[i].start_byte, cs[i].end_byte));
        }
        i = i + 1;
    }
    None
}

fn occurs_exec(
    lang: SupportedLanguage,
    n: &SyntaxNode,
    lo: usize,
    hi: usize,
    pr: Option<(usize, usize)>,
    p: &str,
) -> (r: bool)
    ensures
        r == occurs(
            lang,
            *n,
            lo as nat,
            hi as nat,
            match pr {
                Some(x) => Some((x.0 as nat, x.1 as nat)),
                None => None,
            },
            p@,
        ),
    decreases n,
{
    let ghost prv = match pr {
        Some(x) => Some((x.0 as nat, x.1 as nat)),
        None => None,
    };
    if n.start_byte < lo || n.end_byte > hi {
        return false;
    }
    match pr {
        Some((ps, pe)) => {
            if ps <= n.start_byte && n.end_byte <= pe {
                return false;
            }
        },
        None => {},
    }
    if is_identifier_kind_exec(lang, n.kind.as_str()) {
        match &n.text {
            Some(t) => {
                if str_is(t.as_str(), p) {
                    return true;
                }
            },
            None => {},
        }
    }
    let cs = &n.children;
    let mut k: usize = cs.len();
    assert(occurs(lang, *n, lo as nat, hi as nat, prv, p@) == occurs_of(lang, cs@, k as int, lo as nat, hi as nat, prv, p@));
    while k > 0
        invariant
            k <= cs@.len(),
            cs@ == n.children@,
            prv == (match pr {
                Some(x) => Some((x.0 as nat, x.1 as nat)),
                None => None,
            }),
            occurs(lang, *n, lo as nat, hi as nat, prv, p@) == occurs_of(lang, cs@, k as int, lo as nat, hi as nat, prv, p@),
        decreases k,
    {
        assert(occurs_of(lang, cs@, k as int, lo as nat, hi as nat, prv, p@) == (occurs(lang, cs@[k - 1], lo as nat, hi as nat, prv, p@)
            || occurs_of(lang, cs@, k - 1, lo as nat, hi as nat, prv, p@)));
        if occurs_exec(lang, &cs[k - 1], lo, hi, pr, p) {
            return true;
        }
        k = k - 1;
    }
    false
}

/// Whether the parameter `p` of the function at bytes `start..end` is used
/// in the file whose tree is `root` (see `param_used`).
pub fn param_used_in_tree(
    lang: SupportedLanguage,
    root: Option<&SyntaxNode>,
    start: usize,
    end: usize,
    p: &str,
) -> (r: bool)
    ensures
        r == param_used(
            lang,
            match root {
                Some(n) => Some(*n),
                None => None,
            },
            start as nat,
            end as nat,
            p@,
        ),
{
    match root {
        None => false,
        Some(t) => {
            let path = descent_exec(t, start);
            let ghost pv = path@.map_values(|x: &SyntaxNode| *x);
            match enclosing_exec(lang, &path) {
                None => false,
                Some(f) => {
                    let func: &SyntaxNode = path[f];
                    assert(*func == pv[f as int]);
                    let pr = params_range_exec(lang, &func.children);
                    occurs_exec(lang, func, start, end, pr, p)
                },
            }
        },
    }
}

/// Whether the parameter `p` of the function at bytes `start..end` of a
/// source text is used in that function, the text parsed by tree-sitter
/// (see `param_used`).
pub fn is_param_used_in_function(lang: SupportedLanguage, content: &str, start: usize, end: usize, p: &str) -> (r:
    bool)
    ensures
        r == param_used(lang, syntax_tree(lang, content@), start as nat, end as nat, p@),
{
    let tree = parse_source(lang, content);
    param_used_in_tree(lang, tree.as_ref(), start, end, p)
}

} // verus!
