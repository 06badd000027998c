use vstd::prelude::*;
use crate::formatting::SupportedLanguage;
use crate::source_tree::{parse_source, syntax_tree};
use crate::strings::{
    append_chars, append_str, chars_eq, chars_of, has_char, has_char_exec, string_of, strs, lemma_strs_push,
    trim, trim_chars, trim_matching, trim_matching_exec, utf8_size, utf8_size_exec,
};

verus! {

// ---------------------------------------------------------------------------
// Syntax trees as plain values
// ---------------------------------------------------------------------------

/// A node of a parsed source file: its grammar kind, whether the grammar
/// names it (punctuation and keywords are anonymous), its source text (absent
/// where that byte range is not valid UTF-8), its byte range, the rows (from
/// 0) on which it starts and ends, and its children in source order.
pub struct SyntaxNode {
    pub kind: String,
    pub named: bool,
    pub text: Option<String>,
    pub start_byte: usize,
    pub end_byte: usize,
    pub start_row: usize,
    pub end_row: usize,
    pub children: Vec<SyntaxNode>,
}

/// The text of a node, if it has one.
pub open spec fn text_of(n: SyntaxNode) -> Option<Seq<char>> {
    match n.text {
        Some(t) => Some(t@),
        None => None,
    }
}

/// The kinds whose subtrees hold no parameter names of JavaScript or
/// TypeScript (types, decorators, modifiers).
pub open spec fn pruned_kinds() -> Seq<Seq<char>> {
    seq![
        "type_annotation"@, "type_parameters"@, "type_arguments"@, "flow_type"@, "decorator"@,
        "accessibility_modifier"@, "public"@, "private"@, "protected"@, "readonly"@, "declare"@, "abstract"@,
        "override"@,
    ]
}

/// The kinds that name a JavaScript or TypeScript binding.
pub open spec fn binding_kinds() -> Seq<Seq<char>> {
    seq!["binding_identifier"@, "shorthand_property_identifier"@, "identifier"@]
}

/// The identifiers under a Python node, the node first, then its children's
/// subtrees from the last to the first.
pub open spec fn py_identifiers(n: SyntaxNode) -> Seq<Seq<char>>
    decreases n,
{
    (if n.kind@ == "identifier"@ && text_of(n) is Some {
        seq![text_of(n)->0]
    } else {
        Seq::empty()
    }) + py_identifiers_of(n.children@, n.children@.len() as int)
}

/// `py_identifiers` of the first `k` children, from child `k - 1` down.
pub open spec fn py_identifiers_of(cs: Seq<SyntaxNode>, k: int) -> Seq<Seq<char>>
    decreases cs, k,
{
    if k <= 0 || k > cs.len() {
        Seq::empty()
    } else {
        py_identifiers(cs[k - 1]) + py_identifiers_of(cs, k - 1)
    }
}

/// The binding names under a JavaScript or TypeScript parameter node, in the
/// same order: type and modifier subtrees are skipped, a default value keeps
/// only its left side, and `this` is not a parameter.
pub open spec fn js_bindings(n: SyntaxNode) -> Seq<Seq<char>>
    decreases n,
{
    if pruned_kinds().contains(n.kind@) {
        Seq::empty()
    } else if n.kind@ == "assignment_pattern"@ {
        if n.children@.len() > 0 {
            js_bindings(n.children@[0])
        } else {
            Seq::empty()
        }
    } else if binding_kinds().contains(n.kind@) {
        match text_of(n) {
            Some(t) => if t != "this"@ {
                seq![t]
            } else {
                Seq::empty()
            },
            None => Seq::empty(),
        }
    } else {
        js_bindings_of(n.children@, n.children@.len() as int)
    }
}

/// `js_bindings` of the first `k` children, from child `k - 1` down.
pub open spec fn js_bindings_of(cs: Seq<SyntaxNode>, k: int) -> Seq<Seq<char>>
    decreases cs, k,
{
    if k <= 0 || k > cs.len() {
        Seq::empty()
    } else {
        js_bindings(cs[k - 1]) + js_bindings_of(cs, k - 1)
    }
}

/// The names in order, each kept only the first time it appears.
pub open spec fn first_seen(names: Seq<Seq<char>>) -> Seq<Seq<char>>
    decreases names.len(),
{
    if names.len() == 0 {
        Seq::empty()
    } else {
        let d = first_seen(names.drop_last());
        if d.contains(names.last()) {
            d
        } else {
            d.push(names.last())
        }
    }
}

fn is_kind(n: &SyntaxNode, kind: &str) -> (r: bool)
    ensures
        r == (n.kind@ == kind@),
{
    let a = chars_of(n.kind.as_str());
    let b = chars_of(kind);
    chars_eq(a.as_slice(), b.as_slice())
}

fn kind_in(n: &SyntaxNode, kinds: &[&str]) -> (r: bool)
    ensures
        r == exists|k: int| 0 <= k < kinds@.len() && n.kind@ == (#[trigger] kinds@[k])@,
{
    let mut k: usize = 0;
    while k < kinds.len()
        invariant
            k <= kinds@.len(),
            forall|m: int| 0 <= m < k ==> n.kind@ != (#[trigger] kinds@[m])@,
        decreases kinds@.len() - k,
    {
        if is_kind(n, kinds[k]) {
            return true;
        }
        k = k + 1;
    }
    false
}

proof fn lemma_names(names: Seq<&str>, lits: Seq<Seq<char>>, n: Seq<char>)
    requires
        names.len() == lits.len(),
        forall|k: int| 0 <= k < names.len() ==> (#[trigger] names[k])@ == lits[k],
    ensures
        (exists|k: int| 0 <= k < names.len() && n == (#[trigger] names[k])@) == lits.contains(n),
{
    if lits.contains(n) {
        let k = choose|k: int| 0 <= k < lits.len() && lits[k] == n;
        assert(n == names[k]@);
    }
}

fn copy_text(n: &SyntaxNode) -> (r: Option<String>)
    ensures
        match r {
            Some(t) => text_of(*n) == Some(t@),
            None => text_of(*n) is None,
        },
{
    match &n.text {
        Some(t) => Some(t.clone()),
        None => None,
    }
}

fn py_identifiers_exec(n: &SyntaxNode, out: &mut Vec<String>)
    ensures
        strs(final(out)@) == strs(old(out)@) + py_identifiers(*n),
    decreases n,
{
    let ghost start = strs(out@);
    if is_kind(n, "identifier") {
        match copy_text(n) {
            Some(t) => {
                proof {
                    lemma_strs_push(out@, t);
                }
                out.push(t);
            },
            None => {},
        }
    }
    let ghost mid = strs(out@);
    assert(mid == start + (if n.kind@ == "identifier"@ && text_of(*n) is Some {
        seq![text_of(*n)->0]
    } else {
        Seq::<Seq<char>>::empty()
    }));
    let mut k: usize = n.children.len();
    while k > 0
        invariant
            k <= n.children@.len(),
            strs(out@) + py_identifiers_of(n.children@, k as int) == mid + py_identifiers_of(
                n.children@,
                n.children@.len() as int,
            ),
        decreases k,
    {
        let ghost before = strs(out@);
        py_identifiers_exec(&n.children[k - 1], out);
        assert(strs(out@) + py_identifiers_of(n.children@, k - 1) == before + py_identifiers_of(
            n.children@,
            k as int,
        ));
        k = k - 1;
    }
}

fn js_bindings_exec(n: &SyntaxNode, out: &mut Vec<String>)
    ensures
        strs(final(out)@) == strs(old(out)@) + js_bindings(*n),
    decreases n,
{
    let pruned = [
        "type_annotation", "type_parameters", "type_arguments", "flow_type", "decorator", "accessibility_modifier",
        "public", "private", "protected", "readonly", "declare", "abstract", "override",
    ];
    let binding = ["binding_identifier", "shorthand_property_identifier", "identifier"];
    proof {
        lemma_names(pruned@, pruned_kinds(), n.kind@);
        lemma_names(binding@, binding_kinds(), n.kind@);
    }
    if kind_in(n, &pruned) {
        assert(strs(out@) + Seq::<Seq<char>>::empty() == strs(out@));
        return;
    }
    if is_kind(n, "assignment_pattern") {
        if n.children.len() > 0 {
            js_bindings_exec(&n.children[0], out);
        } else {
            assert(strs(out@) + Seq::<Seq<char>>::empty() == strs(out@));
        }
        return;
    }
    if kind_in(n, &binding) {
        match copy_text(n) {
            Some(t) => {
                let tc = chars_of(t.as_str());
                let this = chars_of("this");
                if !chars_eq(tc.as_slice(), this.as_slice()) {
                    proof {
                        lemma_strs_push(out@, t);
                    }
                    out.push(t);
                } else {
                    assert(strs(out@) + Seq::<Seq<char>>::empty() == strs(out@));
                }
            },
            None => {
                assert(strs(out@) + Seq::<Seq<char>>::empty() == strs(out@));
            },
        }
        return;
    }
    let ghost mid = strs(out@);
    let mut k: usize = n.children.len();
    while k > 0
        invariant
            k <= n.children@.len(),
            strs(out@) + js_bindings_of(n.children@, k as int) == mid + js_bindings_of(
                n.children@,
                n.children@.len() as int,
            ),
        decreases k,
    {
        let ghost before = strs(out@);
        js_bindings_exec(&n.children[k - 1], out);
        assert(strs(out@) + js_bindings_of(n.children@, k - 1) == before + js_bindings_of(n.children@, k as int));
        k = k - 1;
    }
}

fn first_seen_exec(names: &Vec<String>) -> (r: Vec<String>)
    ensures
        strs(r@) == first_seen(strs(names@)),
{
    let ghost v = strs(names@);
    let mut out: Vec<String> = Vec::new();
    let mut i: usize = 0;
    assert(v.take(0) =~= Seq::<Seq<char>>::empty());
    assert(strs(out@) =~= Seq::<Seq<char>>::empty());
    while i < names.len()
        invariant
            i <= names@.len(),
            v == strs(names@),
            strs(out@) == first_seen(v.take(i as int)),
        decreases names@.len() - i,
    {
        assert(v.take(i + 1).drop_last() == v.take(i as int));
        assert(v.take(i + 1).last() == names@[i as int]@);
        let nc = chars_of(names[i].as_str());
        let mut found = false;
        let mut k: usize = 0;
        let ghost d = strs(out@);
        while k < out.len()
            invariant
                k <= out@.len(),
                d == strs(out@),
                nc@ == names@[i as int]@,
                found ==> d.contains(nc@),
                !found ==> forall|m: int| 0 <= m < k ==> d[m] != nc@,
            decreases out@.len() - k,
        {
            let oc = chars_of(out[k].as_str());
            if chars_eq(oc.as_slice(), nc.as_slice()) {
                found = true;
                assert(d[k as int] == nc@);
            }
            k = k + 1;
        }
        if !found {
            let c = names[i].clone();
            proof {
                lemma_strs_push(out@, c);
            }
            out.push(c);
        }
        i = i + 1;
    }
    assert(v.take(names@.len() as int) == v);
    out
}

/// The parameter names of a Python `parameters` node, each once.
pub fn collect_params_py(node: &SyntaxNode) -> (r: Vec<String>)
    ensures
        strs(r@) == first_seen(py_identifiers(*node)),
{
    let mut all: Vec<String> = Vec::new();
    assert(strs(all@) =~= Seq::<Seq<char>>::empty());
    py_identifiers_exec(node, &mut all);
    assert(strs(all@) =~= py_identifiers(*node));
    first_seen_exec(&all)
}

/// The parameter names of a JavaScript or TypeScript `formal_parameters`
/// node, each once.
pub fn collect_params_js_ts(node: &SyntaxNode) -> (r: Vec<String>)
    ensures
        strs(r@) == first_seen(js_bindings(*node)),
{
    let mut all: Vec<String> = Vec::new();
    assert(strs(all@) =~= Seq::<Seq<char>>::empty());
    js_bindings_exec(node, &mut all);
    assert(strs(all@) =~= js_bindings(*node));
    first_seen_exec(&all)
}

// ---------------------------------------------------------------------------
// Names of functions
// ---------------------------------------------------------------------------

/// `s` without surrounding double quotes, then single quotes, then backticks.
pub open spec fn unquoted(s: Seq<char>) -> Seq<char> {
    trim_matching(trim_matching(trim_matching(s, '"'), '\''), '`')
}

/// The name shown for a computed property `[expr]`: the expression itself
/// (unquoted) when it is short (at most 40 bytes), on one line and not
/// empty; otherwise a plain marker.
pub open spec fn computed_name(n: SyntaxNode) -> Seq<char> {
    match text_of(n) {
        Some(full) => {
            let t = trim(full);
            if t.len() > 0 && t[0] == '[' && t.last() == ']' && t.len() >= 2 {
                let inner = trim(t.subrange(1, t.len() - 1));
                if utf8_size(inner) <= 40 && inner.len() > 0 && !has_char(inner, '\n') {
                    "[computed: "@ + unquoted(inner) + "]"@
                } else {
                    "[computed]"@
                }
            } else {
                "[computed]"@
            }
        },
        None => "[computed]"@,
    }
}

fn unquoted_exec(s: &[char]) -> (r: Vec<char>)
    ensures
        r@ == unquoted(s@),
{
    let a = trim_matching_exec(s, '"');
    let b = trim_matching_exec(a.as_slice(), '\'');
    trim_matching_exec(b.as_slice(), '`')
}

/// The name shown for a computed property node.
pub fn render_computed_name(node: &SyntaxNode) -> (r: String)
    ensures
        r@ == computed_name(*node),
{
    proof {
        reveal_strlit("[computed]");
    }
    match &node.text {
        Some(full) => {
            let fc = chars_of(full.as_str());
            let t = trim_chars(fc.as_slice());
            if t.len() > 0 && t[0] == '[' && t[t.len() - 1] == ']' && t.len() >= 2 {
                let mid = crate::strings::slice_chars(t.as_slice(), 1, t.len() - 1);
                let inner = trim_chars(mid.as_slice());
                let size = utf8_size_exec(inner.as_slice());
                if size <= 40 && inner.len() > 0 && !has_char_exec(inner.as_slice(), '\n') {
                    let mut out: Vec<char> = Vec::new();
                    append_str(&mut out, "[computed: ");
                    let u = unquoted_exec(inner.as_slice());
                    append_chars(&mut out, u.as_slice());
                    append_str(&mut out, "]");
                    return string_of(out.as_slice());
                }
            }
            crate::strings::owned("[computed]")
        },
        None => crate::strings::owned("[computed]"),
    }
}

/// The kinds that name a member.
pub open spec fn member_kinds() -> Seq<Seq<char>> {
    seq!["property_identifier"@, "identifier"@, "private_property_identifier"@]
}

/// The kinds that can index a subscript.
pub open spec fn index_kinds() -> Seq<Seq<char>> {
    seq!["string"@, "number"@, "identifier"@, "member_expression"@]
}

/// The text of the first child from `i` on that names a member.
pub open spec fn member_name_from(cs: Seq<SyntaxNode>, i: int) -> Option<Seq<char>>
    decreases cs.len() - i,
{
    if i < 0 || i >= cs.len() {
        None
    } else if member_kinds().contains(cs[i].kind@) {
        text_of(cs[i])
    } else {
        member_name_from(cs, i + 1)
    }
}

/// The index of a subscript: the first child from `i` on of an index kind
/// with some text, shown as a computed name.
pub open spec fn subscript_name_from(cs: Seq<SyntaxNode>, i: int) -> Seq<char>
    decreases cs.len() - i,
{
    if i < 0 || i >= cs.len() {
        "[computed]"@
    } else if index_kinds().contains(cs[i].kind@) && text_of(cs[i]) is Some && text_of(cs[i])->0.len() > 0 {
        "[computed: "@ + unquoted(text_of(cs[i])->0) + "]"@
    } else {
        subscript_name_from(cs, i + 1)
    }
}

/// The property name of a member or subscript expression, if it has one.
pub open spec fn member_property_name(n: SyntaxNode) -> Option<Seq<char>> {
    if n.kind@ == "member_expression"@ {
        member_name_from(n.children@, 0)
    } else if n.kind@ == "subscript_expression"@ {
        Some(subscript_name_from(n.children@, 0))
    } else {
        None
    }
}

/// The property name of a member or subscript expression, if it has one.
pub fn extract_member_property_name(node: &SyntaxNode) -> (r: Option<String>)
    ensures
        match r {
            Some(t) => member_property_name(*node) == Some(t@),
            None => member_property_name(*node) is None,
        },
{
    let members = ["property_identifier", "identifier", "private_property_identifier"];
    let index = ["string", "number", "identifier", "member_expression"];
    let cs = &node.children;
    if is_kind(node, "member_expression") {
        let mut i: usize = 0;
        while i < cs.len()
            invariant
                i <= cs@.len(),
                members@.len() == 3,
                cs@ == node.children@,
                node.kind@ == "member_expression"@,
                forall|k: int| 0 <= k < 3 ==> (#[trigger] members@[k])@ == member_kinds()[k],
                member_name_from(cs@, 0) == member_name_from(cs@, i as int),
            decreases cs@.len() - i,
        {
            proof {
                lemma_names(members@, member_kinds(), cs@[i as int].kind@);
            }
            if kind_in(&cs[i], &members) {
                return copy_text(&cs[i]);
            }
            i = i + 1;
        }
        None
    } else if is_kind(node, "subscript_expression") {
        let mut i: usize = 0;
        while i < cs.len()
            invariant
                i <= cs@.len(),
                index@.len() == 4,
                cs@ == node.children@,
                node.kind@ != "member_expression"@,
                node.kind@ == "subscript_expression"@,
                forall|k: int| 0 <= k < 4 ==> (#[trigger] index@[k])@ == index_kinds()[k],
                subscript_name_from(cs@, 0) == subscript_name_from(cs@, i as int),
            decreases cs@.len() - i,
        {
            proof {
                lemma_names(index@, index_kinds(), cs@[i as int].kind@);
            }
            if kind_in(&cs[i], &index) {
                match &cs[i].text {
                    Some(t) => {
                        let tc = chars_of(t.as_str());
                        if tc.len() > 0 {
                            let mut out: Vec<char> = Vec::new();
                            append_str(&mut out, "[computed: ");
                            let u = unquoted_exec(tc.as_slice());
                            append_chars(&mut out, u.as_slice());
                            append_str(&mut out, "]");
                            return Some(string_of(out.as_slice()));
                        }
                    },
                    None => {},
                }
            }
            i = i + 1;
        }
        Some(crate::strings::owned("[computed]"))
    } else {
        None
    }
}

// ---------------------------------------------------------------------------
// Function signatures from a syntax tree
// ---------------------------------------------------------------------------

/// A function found in the tree: its parameter names and its byte range.
pub struct FuncSignature {
    pub params: Vec<String>,
    pub start_byte: usize,
    pub end_byte: usize,
}

/// A signature as values: parameters, start and end byte.
pub type SigModel = (Seq<Seq<char>>, nat, nat);

/// A signature seen as values.
pub open spec fn sig_view(f: FuncSignature) -> SigModel {
    (strs(f.params@), f.start_byte as nat, f.end_byte as nat)
}

/// Named signatures seen as values.
pub open spec fn sigs_view(v: Seq<(String, FuncSignature)>) -> Seq<(Seq<char>, SigModel)> {
    v.map_values(|e: (String, FuncSignature)| (e.0@, sig_view(e.1)))
}

/// The text of a node, or nothing.
pub open spec fn text_or_empty(n: SyntaxNode) -> Seq<char> {
    match text_of(n) {
        Some(t) => t,
        None => Seq::empty(),
    }
}

/// The name given by the children from `i` on: the text of the first one of
/// one of `kinds` that has text (a name already found is kept).
pub open spec fn name_from(cs: Seq<SyntaxNode>, i: int, kinds: Seq<Seq<char>>, name: Seq<char>) -> Seq<char>
    decreases cs.len() - i,
{
    if i < 0 || i >= cs.len() {
        name
    } else {
        let next = if name.len() == 0 && kinds.contains(cs[i].kind@) && text_of(cs[i]) is Some {
            text_of(cs[i])->0
        } else {
            name
        };
        name_from(cs, i + 1, kinds, next)
    }
}

/// A method's name from its children from `i` on: a computed property name,
/// or the text of the first member name.
pub open spec fn method_name_from(cs: Seq<SyntaxNode>, i: int, name: Seq<char>) -> Seq<char>
    decreases cs.len() - i,
{
    if i < 0 || i >= cs.len() {
        name
    } else {
        let n1 = if cs[i].kind@ == "computed_property_name"@ && name.len() == 0 {
            computed_name(cs[i])
        } else {
            name
        };
        let n2 = if n1.len() == 0 && member_kinds().contains(cs[i].kind@) && text_of(cs[i]) is Some {
            text_of(cs[i])->0
        } else {
            n1
        };
        method_name_from(cs, i + 1, n2)
    }
}

/// The kinds that name a class field.
pub open spec fn field_name_kinds() -> Seq<Seq<char>> {
    seq!["property_identifier"@, "identifier"@, "private_property_identifier"@, "computed_property_name"@]
}

/// The kinds of function values.
pub open spec fn function_kinds() -> Seq<Seq<char>> {
    seq!["function"@, "function_expression"@, "arrow_function"@]
}

/// A field's name from its children from `i` on: the first naming child.
pub open spec fn field_name_from(cs: Seq<SyntaxNode>, i: int, name: Seq<char>) -> Seq<char>
    decreases cs.len() - i,
{
    if i < 0 || i >= cs.len() {
        name
    } else {
        let next = if name.len() == 0 && field_name_kinds().contains(cs[i].kind@) {
            if cs[i].kind@ == "computed_property_name"@ {
                computed_name(cs[i])
            } else {
                text_or_empty(cs[i])
            }
        } else {
            name
        };
        field_name_from(cs, i + 1, next)
    }
}

/// The last child of one of `kinds`, if any.
pub open spec fn last_of(cs: Seq<SyntaxNode>, kinds: Seq<Seq<char>>) -> Option<int>
    decreases cs.len(),
{
    if cs.len() == 0 {
        None
    } else if kinds.contains(cs.last().kind@) {
        Some(cs.len() - 1)
    } else {
        last_of(cs.drop_last(), kinds)
    }
}

/// The first child from `i` on of one of `kinds`, if any.
pub open spec fn first_of(cs: Seq<SyntaxNode>, i: int, kinds: Seq<Seq<char>>) -> Option<int>
    decreases cs.len() - i,
{
    if i < 0 || i >= cs.len() {
        None
    } else if kinds.contains(cs[i].kind@) {
        Some(i)
    } else {
        first_of(cs, i + 1, kinds)
    }
}

/// The first `formal_parameters` node met in a search of `n` (the node, then
/// its children's subtrees from the last to the first).
pub open spec fn params_search(n: SyntaxNode) -> Option<SyntaxNode>
    decreases n,
{
    if n.kind@ == "formal_parameters"@ {
        Some(n)
    } else {
        params_search_of(n.children@, n.children@.len() as int, 0)
    }
}

/// `params_search` of the children `lo..k`, from child `k - 1` down.
pub open spec fn params_search_of(cs: Seq<SyntaxNode>, k: int, lo: int) -> Option<SyntaxNode>
    decreases cs, k,
{
    if k <= lo || k > cs.len() || lo < 0 {
        None
    } else {
        match params_search(cs[k - 1]) {
            Some(p) => Some(p),
            None => params_search_of(cs, k - 1, lo),
        }
    }
}

/// The JavaScript parameters of the first `formal_parameters` child of `f`.
pub open spec fn js_params_of_child(f: SyntaxNode) -> Seq<Seq<char>> {
    match first_of(f.children@, 0, seq!["formal_parameters"@]) {
        Some(j) => first_seen(js_bindings(f.children@[j])),
        None => Seq::empty(),
    }
}

/// The identifier texts of the children, in order.
pub open spec fn child_identifiers(cs: Seq<SyntaxNode>) -> Seq<Seq<char>>
    decreases cs.len(),
{
    if cs.len() == 0 {
        Seq::empty()
    } else {
        let rest = child_identifiers(cs.drop_last());
        let c = cs.last();
        if (c.kind@ == "identifier"@ || c.kind@ == "binding_identifier"@) && text_of(c) is Some {
            rest.push(text_of(c)->0)
        } else {
            rest
        }
    }
}

/// The name an ancestor gives to a function value below it: the variable it
/// is bound to, or the target it is assigned to.
pub open spec fn ancestor_name(p: SyntaxNode) -> Option<Seq<char>> {
    if p.children@.len() == 0 {
        None
    } else {
        let lhs = p.children@[0];
        if p.kind@ == "variable_declarator"@ {
            if lhs.kind@ == "identifier"@ || lhs.kind@ == "binding_identifier"@ {
                text_of(lhs)
            } else {
                None
            }
        } else if p.kind@ == "assignment_expression"@ {
            if lhs.kind@ == "identifier"@ || lhs.kind@ == "binding_identifier"@ || lhs.kind@
                == "property_identifier"@ {
                text_of(lhs)
            } else if lhs.kind@ == "member_expression"@ || lhs.kind@ == "subscript_expression"@ {
                member_property_name(lhs)
            } else {
                None
            }
        } else {
            None
        }
    }
}

/// The name of a function value: the first non-empty name given by one of
/// its six nearest ancestors (`names` lists them outermost first).
pub open spec fn nearest_name(names: Seq<Option<Seq<char>>>, k: int, steps: nat) -> Seq<char>
    decreases steps,
{
    if k <= 0 || k > names.len() || steps == 0 {
        Seq::empty()
    } else {
        match names[k - 1] {
            Some(t) => if t.len() > 0 {
                t
            } else {
                nearest_name(names, k - 1, (steps - 1) as nat)
            },
            None => nearest_name(names, k - 1, (steps - 1) as nat),
        }
    }
}

/// The signature node `n` declares, if any, for the language; `names` are
/// the names its ancestors give, outermost first.
pub open spec fn node_signature(lang: SupportedLanguage, n: SyntaxNode, names: Seq<Option<Seq<char>>>) -> Option<
    (Seq<char>, SigModel),
> {
    let cs = n.children@;
    let k = n.kind@;
    let range = |params: Seq<Seq<char>>| (params, n.start_byte as nat, n.end_byte as nat);
    if lang == SupportedLanguage::Python {
        if k == "function_definition"@ || k == "async_function_definition"@ {
            let name = name_from(cs, 0, seq!["identifier"@], Seq::empty());
            let params = match last_of(cs, seq!["parameters"@]) {
                Some(j) => first_seen(py_identifiers(cs[j])),
                None => Seq::empty(),
            };
            if name.len() > 0 {
                Some((name, range(params)))
            } else {
                None
            }
        } else {
            None
        }
    } else if lang == SupportedLanguage::JavaScript || lang == SupportedLanguage::TypeScript {
        if k == "function_declaration"@ || k == "method_definition"@ {
            let name = if k == "function_declaration"@ {
                name_from(cs, 0, seq!["identifier"@, "binding_identifier"@], Seq::empty())
            } else {
                method_name_from(cs, 0, Seq::empty())
            };
            let params = match last_of(cs, seq!["formal_parameters"@]) {
                Some(j) => first_seen(js_bindings(cs[j])),
                None => Seq::empty(),
            };
            if name.len() > 0 {
                Some((name, range(params)))
            } else {
                None
            }
        } else if k == "arrow_function"@ || k == "function_expression"@ {
            let name = nearest_name(names, names.len() as int, 6);
            let declared = js_params_of_child(n);
            let params = if declared.len() == 0 {
                child_identifiers(cs)
            } else {
                declared
            };
            if name.len() > 0 {
                Some((name, range(params)))
            } else {
                None
            }
        } else if k == "pair"@ || k == "property_assignment"@ {
            if cs.len() == 0 || !field_name_kinds().contains(cs[0].kind@) {
                None
            } else {
                let kname = if cs[0].kind@ == "computed_property_name"@ {
                    computed_name(cs[0])
                } else {
                    text_or_empty(cs[0])
                };
                let func_like = first_of(cs, 1, function_kinds());
                let found = match func_like {
                    Some(_) => None,
                    None => params_search_of(cs, cs.len() as int, 1),
                };
                let params_node = match found {
                    Some(p) => Some(p),
                    None => match func_like {
                        Some(f) => match first_of(cs[f].children@, 0, seq!["formal_parameters"@]) {
                            Some(j) => Some(cs[f].children@[j]),
                            None => None,
                        },
                        None => None,
                    },
                };
                if kname.len() == 0 {
                    None
                } else {
                    match params_node {
                        Some(pn) => Some((kname, range(first_seen(js_bindings(pn))))),
                        None => None,
                    }
                }
            }
        } else if k == "field_definition"@ || k == "public_field_definition"@ || k == "private_field_definition"@ {
            let name = field_name_from(cs, 0, Seq::empty());
            match last_of(cs, function_kinds()) {
                Some(f) => if name.len() > 0 {
                    Some((name, range(js_params_of_child(cs[f]))))
                } else {
                    None
                },
                None => None,
            }
        } else {
            None
        }
    } else {
        None
    }
}

/// The signatures declared in the tree of `n`, in the order they are met:
/// the node first, then its children's subtrees from the last to the first.
pub open spec fn tree_signatures(lang: SupportedLanguage, n: SyntaxNode, names: Seq<Option<Seq<char>>>) -> Seq<
    (Seq<char>, SigModel),
>
    decreases n,
{
    (match node_signature(lang, n, names) {
        Some(e) => seq![e],
        None => Seq::empty(),
    }) + tree_signatures_of(lang, n.children@, n.children@.len() as int, names.push(ancestor_name(n)))
}

/// `tree_signatures` of the first `k` children, from child `k - 1` down.
pub open spec fn tree_signatures_of(
    lang: SupportedLanguage,
    cs: Seq<SyntaxNode>,
    k: int,
    names: Seq<Option<Seq<char>>>,
) -> Seq<(Seq<char>, SigModel)>
    decreases cs, k,
{
    if k <= 0 || k > cs.len() {
        Seq::empty()
    } else {
        tree_signatures(lang, cs[k - 1], names) + tree_signatures_of(lang, cs, k - 1, names)
    }
}

/// Where `name` is kept (its last entry), if anywhere.
pub open spec fn sig_index(list: Seq<(Seq<char>, SigModel)>, name: Seq<char>) -> Option<nat>
    decreases list.len(),
{
    if list.len() == 0 {
        None
    } else if list.last().0 == name {
        Some((list.len() - 1) as nat)
    } else {
        sig_index(list.drop_last(), name)
    }
}

/// `list` with `e` stored under its name (replacing an earlier one).
pub open spec fn sig_put(list: Seq<(Seq<char>, SigModel)>, e: (Seq<char>, SigModel)) -> Seq<(Seq<char>, SigModel)> {
    match sig_index(list, e.0) {
        Some(k) => list.update(k as int, e),
        None => list.push(e),
    }
}

/// `list` with each found signature stored in turn; a later one replaces an
/// earlier one of the same name.
pub open spec fn sig_put_all(list: Seq<(Seq<char>, SigModel)>, es: Seq<(Seq<char>, SigModel)>) -> Seq<
    (Seq<char>, SigModel),
>
    decreases es.len(),
{
    if es.len() == 0 {
        list
    } else {
        sig_put(sig_put_all(list, es.drop_last()), es.last())
    }
}

/// The functions of a parsed source file by name (later ones replace
/// earlier ones of the same name), in the order their names were first met;
/// only Python, JavaScript and TypeScript are read.
pub open spec fn ast_signatures(lang: SupportedLanguage, root: Option<SyntaxNode>) -> Seq<(Seq<char>, SigModel)> {
    match root {
        Some(r) => if lang == SupportedLanguage::Python || lang == SupportedLanguage::JavaScript || lang
            == SupportedLanguage::TypeScript {
            sig_put_all(Seq::empty(), tree_signatures(lang, r, Seq::empty()))
        } else {
            Seq::empty()
        },
        None => Seq::empty(),
    }
}

// ---------------------------------------------------------------------------
// Reading signatures from a tree
// ---------------------------------------------------------------------------

/// The texts of literal kinds.
pub open spec fn kind_texts(kinds: Seq<&str>) -> Seq<Seq<char>> {
    kinds.map_values(|k: &str| k@)
}

/// Optional names seen as values.
pub open spec fn names_view(v: Seq<Option<String>>) -> Seq<Option<Seq<char>>> {
    v.map_values(|o: Option<String>| match o {
        Some(t) => Some(t@),
        None => None,
    })
}

fn kind_is_one_of(n: &SyntaxNode, kinds: &[&str]) -> (r: bool)
    ensures
        r == kind_texts(kinds@).contains(n.kind@),
{
    proof {
        lemma_names(kinds@, kind_texts(kinds@), n.kind@);
    }
    kind_in(n, kinds)
}

pub(crate) fn name_from_exec(cs: &Vec<SyntaxNode>, kinds: &[&str]) -> (r: String)
    ensures
        r@ == name_from(cs@, 0, kind_texts(kinds@), Seq::empty()),
{
    let ghost kv = kind_texts(kinds@);
    let mut name: Vec<char> = Vec::new();
    let mut i: usize = 0;
    while i < cs.len()
        invariant
            i <= cs@.len(),
            kv == kind_texts(kinds@),
            name_from(cs@, 0, kv, Seq::empty()) == name_from(cs@, i as int, kv, name@),
        decreases cs@.len() - i,
    {
        if name.len() == 0 && kind_is_one_of(&cs[i], kinds) {
            match &cs[i].text {
                Some(t) => {
                    name = chars_of(t.as_str());
                },
                None => {},
            }
        }
        i = i + 1;
    }
    string_of(name.as_slice())
}

fn method_name_exec(cs: &Vec<SyntaxNode>) -> (r: String)
    ensures
        r@ == method_name_from(cs@, 0, Seq::empty()),
{
    let members = ["property_identifier", "identifier", "private_property_identifier"];
    assert(kind_texts(members@) =~= member_kinds());
    let mut name: Vec<char> = Vec::new();
    let mut i: usize = 0;
    while i < cs.len()
        invariant
            i <= cs@.len(),
            kind_texts(members@) == member_kinds(),
            method_name_from(cs@, 0, Seq::empty()) == method_name_from(cs@, i as int, name@),
        decreases cs@.len() - i,
    {
        if name.len() == 0 && is_kind(&cs[i], "computed_property_name") {
            let r = render_computed_name(&cs[i]);
            name = chars_of(r.as_str());
        }
        if name.len() == 0 && kind_is_one_of(&cs[i], &members) {
            match &cs[i].text {
                Some(t) => {
                    name = chars_of(t.as_str());
                },
                None => {},
            }
        }
        i = i + 1;
    }
    string_of(name.as_slice())
}

fn text_or_empty_exec(n: &SyntaxNode) -> (r: Vec<char>)
    ensures
        r@ == text_or_empty(*n),
{
    match &n.text {
        Some(t) => chars_of(t.as_str()),
        None => Vec::new(),
    }
}

fn field_name_exec(cs: &Vec<SyntaxNode>) -> (r: String)
    ensures
        r@ == field_name_from(cs@, 0, Seq::empty()),
{
    let kinds = ["property_identifier", "identifier", "private_property_identifier", "computed_property_name"];
    assert(kind_texts(kinds@) =~= field_name_kinds());
    let mut name: Vec<char> = Vec::new();
    let mut i: usize = 0;
    while i < cs.len()
        invariant
            i <= cs@.len(),
            kind_texts(kinds@) == field_name_kinds(),
            field_name_from(cs@, 0, Seq::empty()) == field_name_from(cs@, i as int, name@),
        decreases cs@.len() - i,
    {
        if name.len() == 0 && kind_is_one_of(&cs[i], &kinds) {
            if is_kind(&cs[i], "computed_property_name") {
                let r = render_computed_name(&cs[i]);
                name = chars_of(r.as_str());
            } else {
                name = text_or_empty_exec(&cs[i]);
            }
        }
        i = i + 1;
    }
    string_of(name.as_slice())
}

fn last_of_exec(cs: &Vec<SyntaxNode>, kinds: &[&str]) -> (r: Option<usize>)
    ensures
        match r {
            Some(j) => last_of(cs@, kind_texts(kinds@)) == Some(j as int) && j < cs@.len(),
            None => last_of(cs@, kind_texts(kinds@)) is None,
        },
{
    let ghost kv = kind_texts(kinds@);
    let mut k: usize = cs.len();
    assert(cs@.take(k as int) == cs@);
    while k > 0
        invariant
            k <= cs@.len(),
            kv == kind_texts(kinds@),
            last_of(cs@, kv) == last_of(cs@.take(k as int), kv),
        decreases k,
    {
        assert(cs@.take(k as int).drop_last() == cs@.take(k - 1));
        assert(cs@.take(k as int).last() == cs@[k - 1]);
        if kind_is_one_of(&cs[k - 1], kinds) {
            return Some(k - 1);
        }
        k = k - 1;
    }
    None
}

fn first_of_exec(cs: &Vec<SyntaxNode>, from: usize, kinds: &[&str]) -> (r: Option<usize>)
    ensures
        match r {
            Some(j) => first_of(cs@, from as int, kind_texts(kinds@)) == Some(j as int) && j < cs@.len(),
            None => first_of(cs@, from as int, kind_texts(kinds@)) is None,
        },
{
    let ghost kv = kind_texts(kinds@);
    let mut i: usize = from;
    while i < cs.len()
        invariant
            from <= i,
            kv == kind_texts(kinds@),
            first_of(cs@, from as int, kv) == first_of(cs@, i as int, kv),
        decreases cs@.len() - i,
    {
        if kind_is_one_of(&cs[i], kinds) {
            return Some(i);
        }
        i = i + 1;
    }
    None
}

fn params_search_exec(n: &SyntaxNode) -> (r: Option<&SyntaxNode>)
    ensures
        match r {
            Some(p) => params_search(*n) == Some(*p),
            None => params_search(*n) is None,
        },
    decreases n,
{
    if is_kind(n, "formal_parameters") {
        return Some(n);
    }
    let cs = &n.children;
    let mut k: usize = cs.len();
    while k > 0
        invariant
            k <= cs@.len(),
            cs@ == n.children@,
            n.kind@ != "formal_parameters"@,
            params_search(*n) == params_search_of(cs@, k as int, 0),
        decreases k,
    {
        match params_search_exec(&cs[k - 1]) {
            Some(p) => {
                return Some(p);
            },
            None => {},
        }
        k = k - 1;
    }
    None
}

fn params_search_from(cs: &Vec<SyntaxNode>, lo: usize) -> (r: Option<&SyntaxNode>)
    ensures
        match r {
            Some(p) => params_search_of(cs@, cs@.len() as int, lo as int) == Some(*p),
            None => params_search_of(cs@, cs@.len() as int, lo as int) is None,
        },
{
    let mut k: usize = cs.len();
    while k > lo
        invariant
            k <= cs@.len(),
            params_search_of(cs@, cs@.len() as int, lo as int) == params_search_of(cs@, k as int, lo as int),
        decreases k,
    {
        match params_search_exec(&cs[k - 1]) {
            Some(p) => {
                return Some(p);
            },
            None => {},
        }
        k = k - 1;
    }
    None
}

fn child_identifiers_exec(cs: &Vec<SyntaxNode>) -> (r: Vec<String>)
    ensures
        strs(r@) == child_identifiers(cs@),
{
    let mut out: Vec<String> = Vec::new();
    let mut i: usize = 0;
    assert(cs@.take(0) =~= Seq::<SyntaxNode>::empty());
    assert(strs(out@) =~= Seq::<Seq<char>>::empty());
    while i < cs.len()
        invariant
            i <= cs@.len(),
            strs(out@) == child_identifiers(cs@.take(i as int)),
        decreases cs@.len() - i,
    {
        assert(cs@.take(i + 1).drop_last() == cs@.take(i as int));
        assert(cs@.take(i + 1).last() == cs@[i as int]);
        if is_kind(&cs[i], "identifier") || is_kind(&cs[i], "binding_identifier") {
            match copy_text(&cs[i]) {
                Some(t) => {
                    proof {
                        lemma_strs_push(out@, t);
                    }
                    out.push(t);
                },
                None => {},
            }
        }
        i = i + 1;
    }
    assert(cs@.take(cs@.len() as int) == cs@);
    out
}

fn js_params_exec(p: &SyntaxNode) -> (r: Vec<String>)
    ensures
        strs(r@) == first_seen(js_bindings(*p)),
{
    collect_params_js_ts(p)
}

fn js_params_of_child_exec(f: &SyntaxNode) -> (r: Vec<String>)
    ensures
        strs(r@) == js_params_of_child(*f),
{
    let fp = ["formal_parameters"];
    assert(kind_texts(fp@) =~= seq!["formal_parameters"@]);
    match first_of_exec(&f.children, 0, &fp) {
        Some(j) => js_params_exec(&f.children[j]),
        None => {
            let v: Vec<String> = Vec::new();
            assert(strs(v@) =~= Seq::<Seq<char>>::empty());
            v
        },
    }
}

/// The name an ancestor gives to a function value below it.
pub fn ancestor_name_exec(p: &SyntaxNode) -> (r: Option<String>)
    ensures
        match r {
            Some(t) => ancestor_name(*p) == Some(t@),
            None => ancestor_name(*p) is None,
        },
{
    if p.children.len() == 0 {
        return None;
    }
    let lhs = &p.children[0];
    if is_kind(p, "variable_declarator") {
        if is_kind(lhs, "identifier") || is_kind(lhs, "binding_identifier") {
            copy_text(lhs)
        } else {
            None
        }
    } else if is_kind(p, "assignment_expression") {
        if is_kind(lhs, "identifier") || is_kind(lhs, "binding_identifier") || is_kind(lhs, "property_identifier") {
            copy_text(lhs)
        } else if is_kind(lhs, "member_expression") || is_kind(lhs, "subscript_expression") {
            extract_member_property_name(lhs)
        } else {
            None
        }
    } else {
        None
    }
}

fn nearest_name_exec(names: &Vec<Option<String>>) -> (r: Vec<char>)
    ensures
        r@ == nearest_name(names_view(names@), names@.len() as int, 6),
{
    let ghost nv = names_view(names@);
    let mut k: usize = names.len();
    let mut steps: usize = 6;
    while k > 0 && steps > 0
        invariant
            k <= names@.len(),
            steps <= 6,
            nv == names_view(names@),
            nearest_name(nv, names@.len() as int, 6) == nearest_name(nv, k as int, steps as nat),
        decreases k,
    {
        match &names[k - 1] {
            Some(t) => {
                let tc = chars_of(t.as_str());
                if tc.len() > 0 {
                    return tc;
                }
            },
            None => {},
        }
        k = k - 1;
        steps = steps - 1;
    }
    Vec::new()
}

fn no_params() -> (r: Vec<String>)
    ensures
        strs(r@) == Seq::<Seq<char>>::empty(),
{
    let v: Vec<String> = Vec::new();
    assert(strs(v@) =~= Seq::<Seq<char>>::empty());
    v
}

pub(crate) fn is_language(a: SupportedLanguage, b: SupportedLanguage) -> (r: bool)
    ensures
        r == (a == b),
{
    a == b
}

fn signature(n: &SyntaxNode, name: String, params: Vec<String>) -> (r: (String, FuncSignature))
    ensures
        r.0@ == name@,
        sig_view(r.1) == (strs(params@), n.start_byte as nat, n.end_byte as nat),
{
    (name, FuncSignature { params, start_byte: n.start_byte, end_byte: n.end_byte })
}

/// The signature node `n` declares, if any (see `node_signature`).
pub fn node_signature_exec(lang: SupportedLanguage, n: &SyntaxNode, names: &Vec<Option<String>>) -> (r: Option<
    (String, FuncSignature),
>)
    ensures
        match r {
            Some(e) => node_signature(lang, *n, names_view(names@)) == Some((e.0@, sig_view(e.1))),
            None => node_signature(lang, *n, names_view(names@)) is None,
        },
{
    let cs = &n.children;
    let ident = ["identifier"];
    let ident2 = ["identifier", "binding_identifier"];
    let pars = ["parameters"];
    let formal = ["formal_parameters"];
    let funcs = ["function", "function_expression", "arrow_function"];
    let keys = ["property_identifier", "identifier", "private_property_identifier", "computed_property_name"];
    assert(kind_texts(ident@) =~= seq!["identifier"@]);
    assert(kind_texts(ident2@) =~= seq!["identifier"@, "binding_identifier"@]);
    assert(kind_texts(pars@) =~= seq!["parameters"@]);
    assert(kind_texts(formal@) =~= seq!["formal_parameters"@]);
    assert(kind_texts(funcs@) =~= function_kinds());
    assert(kind_texts(keys@) =~= field_name_kinds());
    if is_language(lang, SupportedLanguage::Python) {
        if is_kind(n, "function_definition") || is_kind(n, "async_function_definition") {
            let name = name_from_exec(cs, &ident);
            let params: Vec<String> = match last_of_exec(cs, &pars) {
                Some(j) => collect_params_py(&cs[j]),
                None => no_params(),
            };
            if !name.as_str().is_empty() {
                return Some(signature(n, name, params));
            }
            return None;
        }
        return None;
    }
    if !(is_language(lang, SupportedLanguage::JavaScript) || is_language(lang, SupportedLanguage::TypeScript)) {
        return None;
    }
    if is_kind(n, "function_declaration") || is_kind(n, "method_definition") {
        let name = if is_kind(n, "function_declaration") {
            name_from_exec(cs, &ident2)
        } else {
            method_name_exec(cs)
        };
        let params: Vec<String> = match last_of_exec(cs, &formal) {
            Some(j) => js_params_exec(&cs[j]),
            None => no_params(),
        };
        if !name.as_str().is_empty() {
            return Some(signature(n, name, params));
        }
        return None;
    }
    if is_kind(n, "arrow_function") || is_kind(n, "function_expression") {
        let name = string_of(nearest_name_exec(names).as_slice());
        let declared = js_params_of_child_exec(n);
        let params = if declared.len() == 0 {
            child_identifiers_exec(cs)
        } else {
            declared
        };
        if !name.as_str().is_empty() {
            return Some(signature(n, name, params));
        }
        return None;
    }
    if is_kind(n, "pair") || is_kind(n, "property_assignment") {
        if cs.len() == 0 || !kind_is_one_of(&cs[0], &keys) {
            return None;
        }
        let kname = if is_kind(&cs[0], "computed_property_name") {
            render_computed_name(&cs[0])
        } else {
            string_of(text_or_empty_exec(&cs[0]).as_slice())
        };
        let func_like = first_of_exec(cs, 1, &funcs);
        let found: Option<&SyntaxNode> = match func_like {
            Some(_) => None,
            None => params_search_from(cs, 1),
        };
        let params_node: Option<&SyntaxNode> = match found {
            Some(p) => Some(p),
            None => match func_like {
                Some(f) => match first_of_exec(&cs[f].children, 0, &formal) {
                    Some(j) => Some(&cs[f].children[j]),
                    None => None,
                },
                None => None,
            },
        };
        if kname.as_str().is_empty() {
            return None;
        }
        return match params_node {
            Some(pn) => {
                let params = js_params_exec(pn);
                Some(signature(n, kname, params))
            },
            None => None,
        };
    }
    if is_kind(n, "field_definition") || is_kind(n, "public_field_definition") || is_kind(n, "private_field_definition") {
        let name = field_name_exec(cs);
        return match last_of_exec(cs, &funcs) {
            Some(f) => {
                if !name.as_str().is_empty() {
                    let params = js_params_of_child_exec(&cs[f]);
                    Some(signature(n, name, params))
                } else {
                    None
                }
            },
            None => None,
        };
    }
    None
}

fn sig_index_exec(list: &Vec<(String, FuncSignature)>, name: &[char]) -> (r: Option<usize>)
    ensures
        match r {
            Some(k) => sig_index(sigs_view(list@), name@) == Some(k as nat) && k < list@.len(),
            None => sig_index(sigs_view(list@), name@) is None,
        },
{
    let ghost c = sigs_view(list@);
    let mut k: usize = list.len();
    assert(c.take(k as int) == c);
    while k > 0
        invariant
            k <= list@.len(),
            c == sigs_view(list@),
            sig_index(c, name@) == sig_index(c.take(k as int), name@),
        decreases k,
    {
        assert(c.take(k as int).drop_last() == c.take(k - 1));
        assert(c.take(k as int).last() == c[k - 1]);
        let kc = chars_of(list[k - 1].0.as_str());
        if chars_eq(kc.as_slice(), name) {
            return Some(k - 1);
        }
        k = k - 1;
    }
    None
}

fn sig_put_exec(list: &mut Vec<(String, FuncSignature)>, e: (String, FuncSignature))
    ensures
        sigs_view(final(list)@) == sig_put(sigs_view(old(list)@), (e.0@, sig_view(e.1))),
{
    let nc = chars_of(e.0.as_str());
    let ghost ev = (e.0@, sig_view(e.1));
    let ghost before = list@;
    match sig_index_exec(list, nc.as_slice()) {
        Some(k) => {
            list.set(k, e);
            assert(sigs_view(list@) =~= sigs_view(before).update(k as int, ev));
        },
        None => {
            list.push(e);
            assert(sigs_view(list@) =~= sigs_view(before).push(ev));
        },
    }
}

proof fn lemma_put_all_concat(list: Seq<(Seq<char>, SigModel)>, a: Seq<(Seq<char>, SigModel)>, b: Seq<(Seq<char>, SigModel)>)
    ensures
        sig_put_all(list, a + b) == sig_put_all(sig_put_all(list, a), b),
    decreases b.len(),
{
    if b.len() == 0 {
        assert(a + b == a);
    } else {
        lemma_put_all_concat(list, a, b.drop_last());
        assert((a + b).drop_last() == a + b.drop_last());
        assert((a + b).last() == b.last());
    }
}

fn walk(
    lang: SupportedLanguage,
    n: &SyntaxNode,
    names: &mut Vec<Option<String>>,
    res: &mut Vec<(String, FuncSignature)>,
)
    ensures
        names_view(final(names)@) == names_view(old(names)@),
        sigs_view(final(res)@) == sig_put_all(sigs_view(old(res)@), tree_signatures(lang, *n, names_view(old(names)@))),
    decreases n,
{
    let ghost nv = names_view(names@);
    let ghost r0 = sigs_view(res@);
    let first = node_signature_exec(lang, n, names);
    let ghost head: Seq<(Seq<char>, SigModel)> = match node_signature(lang, *n, nv) {
        Some(e) => seq![e],
        None => Seq::empty(),
    };
    match first {
        Some(e) => {
            sig_put_exec(res, e);
            assert(sig_put_all(r0, head) == sigs_view(res@)) by {
                assert(head.drop_last() =~= Seq::<(Seq<char>, SigModel)>::empty());
                assert(sig_put_all(r0, head.drop_last()) == r0);
                assert(head.last() == (e.0@, sig_view(e.1)));
            }
        },
        None => {
            assert(sig_put_all(r0, head) == r0);
        },
    }
    let ghost r1 = sigs_view(res@);
    let an = ancestor_name_exec(n);
    let ghost av = names_view(seq![an])[0];
    names.push(an);
    assert(names_view(names@) =~= nv.push(av));
    let ghost inner = nv.push(av);
    assert(inner == nv.push(ancestor_name(*n)));
    let cs = &n.children;
    let mut k: usize = cs.len();
    while k > 0
        invariant
            k <= cs@.len(),
            cs@ == n.children@,
            names_view(names@) == inner,
            sig_put_all(r1, tree_signatures_of(lang, cs@, cs@.len() as int, inner)) == sig_put_all(
                sigs_view(res@),
                tree_signatures_of(lang, cs@, k as int, inner),
            ),
        decreases k,
    {
        let ghost rb = sigs_view(res@);
        walk(lang, &cs[k - 1], names, res);
        proof {
            lemma_put_all_concat(rb, tree_signatures(lang, cs@[k - 1], inner), tree_signatures_of(lang, cs@, k - 1, inner));
        }
        k = k - 1;
    }
    let ghost full = names@;
    names.pop();
    assert(names_view(names@) =~= names_view(full).drop_last());
    proof {
        lemma_put_all_concat(r0, head, tree_signatures_of(lang, cs@, cs@.len() as int, inner));
    }
}

/// The functions of a parsed Python, JavaScript or TypeScript file (`root`
/// is `None` when the file could not be parsed), by name: a later function
/// of the same name replaces an earlier one, and names keep the order in
/// which they were first met (the tree is read node first, then the
/// children from the last to the first).
pub fn signatures_of_tree(language: SupportedLanguage, root: Option<&SyntaxNode>) -> (r: Vec<(String, FuncSignature)>)
    ensures
        sigs_view(r@) == ast_signatures(
            language,
            match root {
                Some(n) => Some(*n),
                None => None,
            },
        ),
{
    let mut res: Vec<(String, FuncSignature)> = Vec::new();
    assert(sigs_view(res@) =~= Seq::<(Seq<char>, SigModel)>::empty());
    if !(is_language(language, SupportedLanguage::Python) || is_language(language, SupportedLanguage::JavaScript)
        || is_language(language, SupportedLanguage::TypeScript)) {
        return res;
    }
    match root {
        Some(n) => {
            let mut names: Vec<Option<String>> = Vec::new();
            assert(names_view(names@) =~= Seq::<Option<Seq<char>>>::empty());
            walk(language, n, &mut names, &mut res);
            res
        },
        None => res,
    }
}

/// The functions of a Python, JavaScript or TypeScript source text, parsed
/// with tree-sitter (see `signatures_of_tree`); nothing for other languages
/// or when the text gives no tree.
pub fn extract_signatures_ast(language: SupportedLanguage, content: &str) -> (r: Vec<(String, FuncSignature)>)
    ensures
        sigs_view(r@) == ast_signatures(language, syntax_tree(language, content@)),
{
    if !(is_language(language, SupportedLanguage::Python) || is_language(language, SupportedLanguage::JavaScript)
        || is_language(language, SupportedLanguage::TypeScript)) {
        return Vec::new();
    }
    let tree = parse_source(language, content);
    match &tree {
        Some(t) => signatures_of_tree(language, Some(t)),
        None => signatures_of_tree(language, None),
    }
}

} // verus!
