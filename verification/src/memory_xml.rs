use vstd::prelude::*;
use crate::memory::{xml_escape, xml_escaped};
use crate::strings::{append_chars, append_str, chars_eq, chars_of, decimal, string_of};

verus! {

// ---------------------------------------------------------------------------
// JSON values
// ---------------------------------------------------------------------------

/// A JSON number: its value as an unsigned integer where it is one, and
/// its value as a float written out (what `Display` gives for `as_f64`).
pub struct JsonNumber {
    pub as_u64: Option<u64>,
    pub f64_text: String,
}

/// A JSON value. An object keeps its entries in order, each key once.
pub enum JsonValue {
    Null,
    Bool(bool),
    Number(JsonNumber),
    Text(String),
    Array(Vec<JsonValue>),
    Object(Vec<(String, JsonValue)>),
}

/// The value under `key` among the entries.
pub open spec fn entry_lookup(es: Seq<(String, JsonValue)>, key: Seq<char>) -> Option<JsonValue>
    decreases es.len(),
{
    if es.len() == 0 {
        None
    } else if es[0].0@ == key {
        Some(es[0].1)
    } else {
        entry_lookup(es.drop_first(), key)
    }
}

/// The value under `key` of an object; nothing for other values.
pub open spec fn jget(v: JsonValue, key: Seq<char>) -> Option<JsonValue> {
    match v {
        JsonValue::Object(es) => entry_lookup(es@, key),
        _ => None,
    }
}

/// The value under `key` of an optional object.
pub open spec fn jget_opt(v: Option<JsonValue>, key: Seq<char>) -> Option<JsonValue> {
    match v {
        Some(x) => jget(x, key),
        None => None,
    }
}

/// The text of a string value; empty for other values.
pub open spec fn jstr(v: JsonValue) -> Seq<char> {
    match v {
        JsonValue::Text(s) => s@,
        _ => Seq::empty(),
    }
}

/// The items of an array; none for other values.
pub open spec fn jitems(v: JsonValue) -> Seq<JsonValue> {
    match v {
        JsonValue::Array(a) => a@,
        _ => Seq::empty(),
    }
}

/// The unsigned value of a number; 0 for other values.
pub open spec fn ju64(v: JsonValue) -> nat {
    match v {
        JsonValue::Number(n) => match n.as_u64 {
            Some(u) => u as nat,
            None => 0,
        },
        _ => 0,
    }
}

/// The float text of a number; `0` for other values.
pub open spec fn jf64(v: JsonValue) -> Seq<char> {
    match v {
        JsonValue::Number(n) => n.f64_text@,
        _ => "0"@,
    }
}

/// An optional reference seen as an optional value.
pub open spec fn opt_json(o: Option<&JsonValue>) -> Option<JsonValue> {
    match o {
        Some(v) => Some(*v),
        None => None,
    }
}

/// The value under `key` (see `jget`).
pub fn json_get<'a>(v: &'a JsonValue, key: &str) -> (r: Option<&'a JsonValue>)
    ensures
        opt_json(r) == jget(*v, key@),
{
    match v {
        JsonValue::Object(es) => {
            let k = chars_of(key);
            let mut i: usize = 0;
            assert(es@.skip(0) =~= es@);
            while i < es.len()
                invariant
                    i <= es@.len(),
                    k@ == key@,
                    jget(*v, key@) == entry_lookup(es@, key@),
                    entry_lookup(es@, key@) == entry_lookup(es@.skip(i as int), key@),
                decreases es@.len() - i,
            {
                assert(es@.skip(i as int)[0] == es@[i as int]);
                assert(es@.skip(i as int).drop_first() =~= es@.skip(i + 1));
                let c = chars_of(es[i].0.as_str());
                if chars_eq(c.as_slice(), k.as_slice()) {
                    return Some(&es[i].1);
                }
                i = i + 1;
            }
            None
        },
        _ => None,
    }
}

fn json_get_opt<'a>(v: Option<&'a JsonValue>, key: &str) -> (r: Option<&'a JsonValue>)
    ensures
        opt_json(r) == jget_opt(opt_json(v), key@),
{
    match v {
        Some(x) => json_get(x, key),
        None => None,
    }
}

// ---------------------------------------------------------------------------
// XML pieces
// ---------------------------------------------------------------------------

/// `n` spaces.
pub open spec fn spaces(n: nat) -> Seq<char> {
    Seq::new(n, |i: int| ' ')
}

/// `<tag>body</tag>` on a line after `ind`.
pub open spec fn tag_line(ind: Seq<char>, tag: Seq<char>, body: Seq<char>) -> Seq<char> {
    ind + "<"@ + tag + ">"@ + body + "</"@ + tag + ">\n"@
}

/// The escaped text of a value as an element, where there is a value.
#[verifier::opaque]
pub open spec fn text_element(ind: Seq<char>, tag: Seq<char>, v: Option<JsonValue>) -> Seq<char> {
    match v {
        Some(x) => tag_line(ind, tag, xml_escaped(jstr(x))),
        None => Seq::empty(),
    }
}

/// The unsigned value of a number as an element, where there is a value.
#[verifier::opaque]
pub open spec fn count_element(ind: Seq<char>, tag: Seq<char>, v: Option<JsonValue>) -> Seq<char> {
    match v {
        Some(x) => tag_line(ind, tag, decimal(ju64(x))),
        None => Seq::empty(),
    }
}

/// The float text of a number as an element, where there is a value.
#[verifier::opaque]
pub open spec fn ratio_element(ind: Seq<char>, tag: Seq<char>, v: Option<JsonValue>) -> Seq<char> {
    match v {
        Some(x) => tag_line(ind, tag, jf64(x)),
        None => Seq::empty(),
    }
}

/// One element per item, each the item's escaped text.
pub open spec fn item_lines(ind: Seq<char>, tag: Seq<char>, items: Seq<JsonValue>) -> Seq<char>
    decreases items.len(),
{
    if items.len() == 0 {
        Seq::empty()
    } else {
        item_lines(ind, tag, items.drop_last()) + tag_line(ind, tag, xml_escaped(jstr(items.last())))
    }
}

/// A list element holding one element per item, where there is a value.
#[verifier::opaque]
pub open spec fn list_element(ind: Seq<char>, outer: Seq<char>, inner: Seq<char>, v: Option<JsonValue>) -> Seq<char> {
    match v {
        Some(x) => ind + "<"@ + outer + ">\n"@ + item_lines(ind + "  "@, inner, jitems(x)) + ind + "</"@ + outer
            + ">\n"@,
        None => Seq::empty(),
    }
}

fn push_spaces(out: &mut Vec<char>, n: usize)
    ensures
        final(out)@ == old(out)@ + spaces(n as nat),
{
    let ghost o0 = out@;
    let mut i: usize = 0;
    while i < n
        invariant
            i <= n,
            out@ == o0 + spaces(i as nat),
        decreases n - i,
    {
        out.push(' ');
        assert(out@ =~= o0 + spaces((i + 1) as nat));
        i = i + 1;
    }
}

fn push_tag_line(out: &mut Vec<char>, ind: &[char], tag: &str, body: &[char])
    ensures
        final(out)@ == old(out)@ + tag_line(ind@, tag@, body@),
{
    let ghost o0 = out@;
    append_chars(out, ind);
    append_str(out, "<");
    append_str(out, tag);
    append_str(out, ">");
    append_chars(out, body);
    append_str(out, "</");
    append_str(out, tag);
    append_str(out, ">\n");
    assert(out@ =~= o0 + tag_line(ind@, tag@, body@));
}

fn text_of_value(v: &JsonValue) -> (r: Vec<char>)
    ensures
        r@ == xml_escaped(jstr(*v)),
{
    match v {
        JsonValue::Text(s) => {
            let e = xml_escape(s.as_str());
            chars_of(e.as_str())
        },
        _ => {
            let e = xml_escape("");
            proof {
                reveal_strlit("");
            }
            chars_of(e.as_str())
        },
    }
}

fn push_text_element(out: &mut Vec<char>, ind: &[char], tag: &str, v: Option<&JsonValue>)
    ensures
        final(out)@ == old(out)@ + text_element(ind@, tag@, opt_json(v)),
{
    proof {
        reveal(text_element);
    }
    match v {
        Some(x) => {
            let body = text_of_value(x);
            push_tag_line(out, ind, tag, body.as_slice());
        },
        None => {},
    }
}

fn push_count_element(out: &mut Vec<char>, ind: &[char], tag: &str, v: Option<&JsonValue>)
    ensures
        final(out)@ == old(out)@ + count_element(ind@, tag@, opt_json(v)),
{
    proof {
        reveal(count_element);
    }
    match v {
        Some(x) => {
            let n: u64 = match x {
                JsonValue::Number(num) => match num.as_u64 {
                    Some(u) => u,
                    None => 0,
                },
                _ => 0,
            };
            let d = crate::strings::decimal_u64(n);
            push_tag_line(out, ind, tag, d.as_slice());
        },
        None => {},
    }
}

fn push_ratio_element(out: &mut Vec<char>, ind: &[char], tag: &str, v: Option<&JsonValue>)
    ensures
        final(out)@ == old(out)@ + ratio_element(ind@, tag@, opt_json(v)),
{
    proof {
        reveal(ratio_element);
    }
    match v {
        Some(x) => {
            let t: Vec<char> = match x {
                JsonValue::Number(num) => chars_of(num.f64_text.as_str()),
                _ => chars_of("0"),
            };
            push_tag_line(out, ind, tag, t.as_slice());
        },
        None => {},
    }
}

fn push_list_element(out: &mut Vec<char>, ind: &[char], outer: &str, inner: &str, v: Option<&JsonValue>)
    ensures
        final(out)@ == old(out)@ + list_element(ind@, outer@, inner@, opt_json(v)),
{
    proof {
        reveal(list_element);
    }
    let ghost o0 = out@;
    match v {
        Some(x) => {
            append_chars(out, ind);
            append_str(out, "<");
            append_str(out, outer);
            append_str(out, ">\n");
            let mut ind2: Vec<char> = Vec::new();
            append_chars(&mut ind2, ind);
            append_str(&mut ind2, "  ");
            let ghost o1 = out@;
            match x {
                JsonValue::Array(items) => {
                    let mut k: usize = 0;
                    assert(items@.take(0) =~= Seq::<JsonValue>::empty());
                    while k < items.len()
                        invariant
                            k <= items@.len(),
                            out@ == o1 + item_lines(ind2@, inner@, items@.take(k as int)),
                        decreases items@.len() - k,
                    {
                        assert(items@.take(k + 1).drop_last() =~= items@.take(k as int));
                        let body = text_of_value(&items[k]);
                        push_tag_line(out, ind2.as_slice(), inner, body.as_slice());
                        k = k + 1;
                    }
                    assert(items@.take(items@.len() as int) =~= items@);
                },
                _ => {},
            }
            append_chars(out, ind);
            append_str(out, "</");
            append_str(out, outer);
            append_str(out, ">\n");
            assert(out@ =~= o0 + list_element(ind@, outer@, inner@, opt_json(v)));
        },
        None => {},
    }
}

// ---------------------------------------------------------------------------
// The memory sections
// ---------------------------------------------------------------------------

/// The active context of a session: task, last action, next steps, status
/// and working files, each where present.
#[verifier::opaque]
pub open spec fn active_context_xml(i: Seq<char>, ac: Option<JsonValue>) -> Seq<char> {
    match ac {
        Some(a) => {
            let j = i + spaces(6);
            i + spaces(4) + "<active-context>\n"@ + text_element(j, "current-task"@, jget(a, "current_task"@))
                + text_element(j, "last-action"@, jget(a, "last_action"@)) + list_element(
                j,
                "next-steps"@,
                "step"@,
                jget(a, "next_steps"@),
            ) + text_element(j, "status"@, jget(a, "status"@)) + list_element(
                j,
                "working-files"@,
                "file"@,
                jget(a, "working_files"@),
            ) + i + spaces(4) + "</active-context>\n"@
        },
        None => Seq::empty(),
    }
}

/// One technical detail: content, location, status and type, where present.
#[verifier::opaque]
pub open spec fn detail_xml(i: Seq<char>, d: JsonValue) -> Seq<char> {
    let j = i + spaces(8);
    i + spaces(6) + "<technical-detail>\n"@ + text_element(j, "content"@, jget(d, "content"@)) + text_element(
        j,
        "location"@,
        jget(d, "location"@),
    ) + text_element(j, "status"@, jget(d, "status"@)) + text_element(j, "type"@, jget(d, "type"@)) + i + spaces(6)
        + "</technical-detail>\n"@
}

/// The technical details, in order.
pub open spec fn details_xml(i: Seq<char>, ds: Seq<JsonValue>) -> Seq<char>
    decreases ds.len(),
{
    if ds.len() == 0 {
        Seq::empty()
    } else {
        details_xml(i, ds.drop_last()) + detail_xml(i, ds.last())
    }
}

/// The technical state of a session, where present.
#[verifier::opaque]
pub open spec fn technical_state_xml(i: Seq<char>, ts: Option<JsonValue>) -> Seq<char> {
    match ts {
        Some(t) => i + spaces(4) + "<technical-state>\n"@ + details_xml(i, jitems(t)) + i + spaces(4)
            + "</technical-state>\n"@,
        None => Seq::empty(),
    }
}

/// The current session, indented by `indent`.
#[verifier::opaque]
pub open spec fn session_xml(session: JsonValue, indent: nat) -> Seq<char> {
    let i = spaces(indent);
    i + "  <current-session>\n"@ + active_context_xml(i, jget(session, "active_context"@)) + list_element(
        i + spaces(4),
        "key-insights"@,
        "insight"@,
        jget(session, "key_insights"@),
    ) + technical_state_xml(i, jget(session, "technical_state"@)) + i + "  </current-session>\n"@
}

/// The optimization figures, where present.
#[verifier::opaque]
pub open spec fn stats_xml(i: Seq<char>, st: Option<JsonValue>) -> Seq<char> {
    match st {
        Some(t) => {
            let j = i + spaces(6);
            i + spaces(4) + "<optimization-stats>\n"@ + count_element(j, "memories-count"@, jget(t, "memories_count"@))
                + ratio_element(j, "reduction-ratio"@, jget(t, "reduction_ratio"@)) + count_element(
                j,
                "total-tokens"@,
                jget(t, "total_tokens"@),
            ) + i + spaces(4) + "</optimization-stats>\n"@
        },
        None => Seq::empty(),
    }
}

/// The metadata, indented by `indent`.
#[verifier::opaque]
pub open spec fn metadata_xml(m: JsonValue, indent: nat) -> Seq<char> {
    let i = spaces(indent);
    i + "  <metadata>\n"@ + text_element(i + spaces(4), "last-updated"@, jget(m, "last_updated"@)) + stats_xml(
        i,
        jget(m, "optimization_stats"@),
    ) + text_element(i + spaces(4), "source"@, jget(m, "source"@)) + i + "  </metadata>\n"@
}

/// One archived solution: problem, solution text and changed files, where
/// present.
#[verifier::opaque]
pub open spec fn solution_xml(i: Seq<char>, s: JsonValue) -> Seq<char> {
    let j = i + spaces(6);
    i + spaces(4) + "<solution>\n"@ + text_element(j, "problem"@, jget(s, "problem"@)) + text_element(
        j,
        "solution-text"@,
        jget(s, "solution"@),
    ) + list_element(j, "files-changed"@, "file"@, jget(s, "files_changed"@)) + i + spaces(4) + "</solution>\n"@
}

/// The archived solutions, in order.
pub open spec fn solutions_list_xml(i: Seq<char>, ss: Seq<JsonValue>) -> Seq<char>
    decreases ss.len(),
{
    if ss.len() == 0 {
        Seq::empty()
    } else {
        solutions_list_xml(i, ss.drop_last()) + solution_xml(i, ss.last())
    }
}

/// The solutions archive, indented by `indent`.
#[verifier::opaque]
pub open spec fn solutions_xml(s: JsonValue, indent: nat) -> Seq<char> {
    let i = spaces(indent);
    i + "  <solutions-archive>\n"@ + solutions_list_xml(i, jitems(s)) + i + "  </solutions-archive>\n"@
}

/// The project information: name, description and creation time.
#[verifier::opaque]
pub open spec fn project_info_xml(p: JsonValue) -> Seq<char> {
    "  <project-info>\n"@ + text_element(spaces(4), "name"@, jget(p, "name"@)) + text_element(
        spaces(4),
        "description"@,
        jget(p, "description"@),
    ) + text_element(spaces(4), "created-at"@, jget(p, "created_at"@)) + "  </project-info>\n"@
}

/// The API configuration: the model settings, where present.
#[verifier::opaque]
pub open spec fn api_configuration_xml(c: JsonValue) -> Seq<char> {
    "  <api-configuration>\n"@ + (match jget(c, "gpt5_settings"@) {
        Some(g) => "    <gpt5-settings>\n"@ + text_element(spaces(6), "model"@, jget(g, "model"@)) + text_element(
            spaces(6),
            "endpoint"@,
            jget(g, "endpoint"@),
        ) + "    </gpt5-settings>\n"@,
        None => Seq::empty(),
    }) + "  </api-configuration>\n"@
}

/// The dynamic context: session, metadata and solutions, where present.
#[verifier::opaque]
pub open spec fn dynamic_context_xml(c: JsonValue) -> Seq<char> {
    "  <ai-dynamic-context>\n"@ + (match jget(c, "current_session"@) {
        Some(s) => session_xml(s, 4),
        None => Seq::empty(),
    }) + (match jget(c, "metadata"@) {
        Some(m) => metadata_xml(m, 4),
        None => Seq::empty(),
    }) + (match jget(c, "solutions_archive"@) {
        Some(a) => solutions_xml(a, 4),
        None => Seq::empty(),
    }) + "  </ai-dynamic-context>\n"@
}

/// The opening tag of the root element named `root`.
pub open spec fn open_tag(root: Seq<char>) -> Seq<char> {
    "<"@ + root + ">"@
}

/// The closing tag of the root element named `root`.
pub open spec fn close_tag(root: Seq<char>) -> Seq<char> {
    "</"@ + root + ">"@
}

/// The memory document of a JSON object: within the root element `root`,
/// its dynamic context (or the object itself taken as one), then its
/// project information and API configuration where it has a dynamic
/// context; the pieces on lines of their own. `None` for a value that is
/// not an object.
pub open spec fn memory_document(v: JsonValue, root: Seq<char>) -> Option<Seq<char>> {
    match v {
        JsonValue::Object(_) => Some(
            match jget(v, "ai_dynamic_context"@) {
                Some(c) => open_tag(root) + "\n"@ + dynamic_context_xml(c) + (match jget(v, "project_info"@) {
                    Some(p) => "\n"@ + project_info_xml(p),
                    None => Seq::empty(),
                }) + (match jget(v, "api_configuration"@) {
                    Some(a) => "\n"@ + api_configuration_xml(a),
                    None => Seq::empty(),
                }) + "\n"@ + close_tag(root),
                None => open_tag(root) + "\n"@ + dynamic_context_xml(v) + "\n"@ + close_tag(root),
            },
        ),
        _ => None,
    }
}

/// The XML declaration that starts a memory file.
pub open spec fn xml_header() -> Seq<char> {
    "<?xml version=\"1.0\" encoding=\"UTF-8\"?>\n"@
}

fn spaces_after(base: &[char], n: usize) -> (r: Vec<char>)
    ensures
        r@ == base@ + spaces(n as nat),
{
    let mut v: Vec<char> = Vec::new();
    append_chars(&mut v, base);
    push_spaces(&mut v, n);
    v
}

fn push_active_context(out: &mut Vec<char>, i: &[char], ac: Option<&JsonValue>)
    ensures
        final(out)@ == old(out)@ + active_context_xml(i@, opt_json(ac)),
{
    proof {
        reveal(active_context_xml);
    }
    let ghost o0 = out@;
    match ac {
        Some(a) => {
            let j = spaces_after(i, 6);
            let i4 = spaces_after(i, 4);
            append_chars(out, i4.as_slice());
            append_str(out, "<active-context>\n");
            push_text_element(out, j.as_slice(), "current-task", json_get(a, "current_task"));
            push_text_element(out, j.as_slice(), "last-action", json_get(a, "last_action"));
            push_list_element(out, j.as_slice(), "next-steps", "step", json_get(a, "next_steps"));
            push_text_element(out, j.as_slice(), "status", json_get(a, "status"));
            push_list_element(out, j.as_slice(), "working-files", "file", json_get(a, "working_files"));
            append_chars(out, i4.as_slice());
            append_str(out, "</active-context>\n");
            assert(out@ =~= o0 + active_context_xml(i@, opt_json(ac)));
        },
        None => {},
    }
}

fn push_detail(out: &mut Vec<char>, i: &[char], d: &JsonValue)
    ensures
        final(out)@ == old(out)@ + detail_xml(i@, *d),
{
    proof {
        reveal(detail_xml);
    }
    let ghost o0 = out@;
    let j = spaces_after(i, 8);
    let i6 = spaces_after(i, 6);
    append_chars(out, i6.as_slice());
    append_str(out, "<technical-detail>\n");
    push_text_element(out, j.as_slice(), "content", json_get(d, "content"));
    push_text_element(out, j.as_slice(), "location", json_get(d, "location"));
    push_text_element(out, j.as_slice(), "status", json_get(d, "status"));
    push_text_element(out, j.as_slice(), "type", json_get(d, "type"));
    append_chars(out, i6.as_slice());
    append_str(out, "</technical-detail>\n");
    assert(out@ =~= o0 + detail_xml(i@, *d));
}

fn push_technical_state(out: &mut Vec<char>, i: &[char], ts: Option<&JsonValue>)
    ensures
        final(out)@ == old(out)@ + technical_state_xml(i@, opt_json(ts)),
{
    proof {
        reveal(technical_state_xml);
    }
    let ghost o0 = out@;
    match ts {
        Some(t) => {
            let i4 = spaces_after(i, 4);
            append_chars(out, i4.as_slice());
            append_str(out, "<technical-state>\n");
            let ghost o1 = out@;
            match t {
                JsonValue::Array(items) => {
                    let mut k: usize = 0;
                    assert(items@.take(0) =~= Seq::<JsonValue>::empty());
                    while k < items.len()
                        invariant
                            k <= items@.len(),
                            out@ == o1 + details_xml(i@, items@.take(k as int)),
                        decreases items@.len() - k,
                    {
                        assert(items@.take(k + 1).drop_last() =~= items@.take(k as int));
                        push_detail(out, i, &items[k]);
                        k = k + 1;
                    }
                    assert(items@.take(items@.len() as int) =~= items@);
                },
                _ => {},
            }
            append_chars(out, i4.as_slice());
            append_str(out, "</technical-state>\n");
            assert(out@ =~= o0 + technical_state_xml(i@, opt_json(ts)));
        },
        None => {},
    }
}

fn push_session(out: &mut Vec<char>, session: &JsonValue, indent: usize)
    ensures
        final(out)@ == old(out)@ + session_xml(*session, indent as nat),
{
    proof {
        reveal(session_xml);
    }
    let ghost o0 = out@;
    let i = spaces_after(&[], indent);
    assert(i@ =~= spaces(indent as nat));
    let i4 = spaces_after(i.as_slice(), 4);
    append_chars(out, i.as_slice());
    append_str(out, "  <current-session>\n");
    push_active_context(out, i.as_slice(), json_get(session, "active_context"));
    push_list_element(out, i4.as_slice(), "key-insights", "insight", json_get(session, "key_insights"));
    push_technical_state(out, i.as_slice(), json_get(session, "technical_state"));
    append_chars(out, i.as_slice());
    append_str(out, "  </current-session>\n");
    assert(out@ =~= o0 + session_xml(*session, indent as nat));
}

fn push_stats(out: &mut Vec<char>, i: &[char], st: Option<&JsonValue>)
    ensures
        final(out)@ == old(out)@ + stats_xml(i@, opt_json(st)),
{
    proof {
        reveal(stats_xml);
    }
    let ghost o0 = out@;
    match st {
        Some(t) => {
            let j = spaces_after(i, 6);
            let i4 = spaces_after(i, 4);
            append_chars(out, i4.as_slice());
            append_str(out, "<optimization-stats>\n");
            push_count_element(out, j.as_slice(), "memories-count", json_get(t, "memories_count"));
            push_ratio_element(out, j.as_slice(), "reduction-ratio", json_get(t, "reduction_ratio"));
            push_count_element(out, j.as_slice(), "total-tokens", json_get(t, "total_tokens"));
            append_chars(out, i4.as_slice());
            append_str(out, "</optimization-stats>\n");
            assert(out@ =~= o0 + stats_xml(i@, opt_json(st)));
        },
        None => {},
    }
}

fn push_metadata(out: &mut Vec<char>, m: &JsonValue, indent: usize)
    ensures
        final(out)@ == old(out)@ + metadata_xml(*m, indent as nat),
{
    proof {
        reveal(metadata_xml);
    }
    let ghost o0 = out@;
    let i = spaces_after(&[], indent);
    assert(i@ =~= spaces(indent as nat));
    let i4 = spaces_after(i.as_slice(), 4);
    append_chars(out, i.as_slice());
    append_str(out, "  <metadata>\n");
    push_text_element(out, i4.as_slice(), "last-updated", json_get(m, "last_updated"));
    push_stats(out, i.as_slice(), json_get(m, "optimization_stats"));
    push_text_element(out, i4.as_slice(), "source", json_get(m, "source"));
    append_chars(out, i.as_slice());
    append_str(out, "  </metadata>\n");
    assert(out@ =~= o0 + metadata_xml(*m, indent as nat));
}

fn push_solution(out: &mut Vec<char>, i: &[char], sol: &JsonValue)
    ensures
        final(out)@ == old(out)@ + solution_xml(i@, *sol),
{
    proof {
        reveal(solution_xml);
    }
    let ghost o0 = out@;
    let j = spaces_after(i, 6);
    let i4 = spaces_after(i, 4);
    append_chars(out, i4.as_slice());
    append_str(out, "<solution>\n");
    push_text_element(out, j.as_slice(), "problem", json_get(sol, "problem"));
    push_text_element(out, j.as_slice(), "solution-text", json_get(sol, "solution"));
    push_list_element(out, j.as_slice(), "files-changed", "file", json_get(sol, "files_changed"));
    append_chars(out, i4.as_slice());
    append_str(out, "</solution>\n");
    assert(out@ =~= o0 + solution_xml(i@, *sol));
}

fn push_solutions(out: &mut Vec<char>, sols: &JsonValue, indent: usize)
    ensures
        final(out)@ == old(out)@ + solutions_xml(*sols, indent as nat),
{
    proof {
        reveal(solutions_xml);
    }
    let ghost o0 = out@;
    let i = spaces_after(&[], indent);
    assert(i@ =~= spaces(indent as nat));
    append_chars(out, i.as_slice());
    append_str(out, "  <solutions-archive>\n");
    let ghost o1 = out@;
    match sols {
        JsonValue::Array(items) => {
            let mut k: usize = 0;
            assert(items@.take(0) =~= Seq::<JsonValue>::empty());
            while k < items.len()
                invariant
                    k <= items@.len(),
                    out@ == o1 + solutions_list_xml(i@, items@.take(k as int)),
                decreases items@.len() - k,
            {
                assert(items@.take(k + 1).drop_last() =~= items@.take(k as int));
                push_solution(out, i.as_slice(), &items[k]);
                k = k + 1;
            }
            assert(items@.take(items@.len() as int) =~= items@);
        },
        _ => {},
    }
    append_chars(out, i.as_slice());
    append_str(out, "  </solutions-archive>\n");
    assert(out@ =~= o0 + solutions_xml(*sols, indent as nat));
}

fn push_project_info(out: &mut Vec<char>, p: &JsonValue)
    ensures
        final(out)@ == old(out)@ + project_info_xml(*p),
{
    proof {
        reveal(project_info_xml);
    }
    let ghost o0 = out@;
    let i4 = spaces_after(&[], 4);
    assert(i4@ =~= spaces(4));
    append_str(out, "  <project-info>\n");
    push_text_element(out, i4.as_slice(), "name", json_get(p, "name"));
    push_text_element(out, i4.as_slice(), "description", json_get(p, "description"));
    push_text_element(out, i4.as_slice(), "created-at", json_get(p, "created_at"));
    append_str(out, "  </project-info>\n");
    assert(out@ =~= o0 + project_info_xml(*p));
}

fn push_api_configuration(out: &mut Vec<char>, c: &JsonValue)
    ensures
        final(out)@ == old(out)@ + api_configuration_xml(*c),
{
    proof {
        reveal(api_configuration_xml);
    }
    let ghost o0 = out@;
    append_str(out, "  <api-configuration>\n");
    match json_get(c, "gpt5_settings") {
        Some(g) => {
            let i6 = spaces_after(&[], 6);
            assert(i6@ =~= spaces(6));
            append_str(out, "    <gpt5-settings>\n");
            push_text_element(out, i6.as_slice(), "model", json_get(g, "model"));
            push_text_element(out, i6.as_slice(), "endpoint", json_get(g, "endpoint"));
            append_str(out, "    </gpt5-settings>\n");
        },
        None => {},
    }
    append_str(out, "  </api-configuration>\n");
    assert(out@ =~= o0 + api_configuration_xml(*c));
}

fn push_dynamic_context(out: &mut Vec<char>, c: &JsonValue)
    ensures
        final(out)@ == old(out)@ + dynamic_context_xml(*c),
{
    proof {
        reveal(dynamic_context_xml);
    }
    let ghost o0 = out@;
    append_str(out, "  <ai-dynamic-context>\n");
    match json_get(c, "current_session") {
        Some(s) => push_session(out, s, 4),
        None => {},
    }
    match json_get(c, "metadata") {
        Some(m) => push_metadata(out, m, 4),
        None => {},
    }
    match json_get(c, "solutions_archive") {
        Some(a) => push_solutions(out, a, 4),
        None => {},
    }
    append_str(out, "  </ai-dynamic-context>\n");
    assert(out@ =~= o0 + dynamic_context_xml(*c));
}

fn open_tag_exec(root: &str) -> (r: Vec<char>)
    ensures
        r@ == open_tag(root@),
{
    let mut t: Vec<char> = Vec::new();
    append_str(&mut t, "<");
    append_str(&mut t, root);
    append_str(&mut t, ">");
    t
}

fn close_tag_exec(root: &str) -> (r: Vec<char>)
    ensures
        r@ == close_tag(root@),
{
    let mut t: Vec<char> = Vec::new();
    append_str(&mut t, "</");
    append_str(&mut t, root);
    append_str(&mut t, ">");
    t
}

/// Why a memory value could not be written as XML.
pub enum MemoryXmlError {
    /// The value is not a JSON object.
    NotAnObject,
}

/// The memory document of a JSON object within the root element `root`
/// (see `memory_document`).
pub fn json_to_claude_xml(v: &JsonValue, root: &str) -> (r: Result<String, MemoryXmlError>)
    ensures
        match r {
            Ok(t) => memory_document(*v, root@) == Some(t@),
            Err(_) => memory_document(*v, root@) is None,
        },
{
    match v {
        JsonValue::Object(_) => {},
        _ => {
            return Err(MemoryXmlError::NotAnObject);
        },
    }
    let mut out: Vec<char> = Vec::new();
    let ot = open_tag_exec(root);
    append_chars(&mut out, ot.as_slice());
    append_str(&mut out, "\n");
    let ghost start = out@;
    match json_get(v, "ai_dynamic_context") {
        Some(c) => {
            push_dynamic_context(&mut out, c);
            match json_get(v, "project_info") {
                Some(p) => {
                    append_str(&mut out, "\n");
                    push_project_info(&mut out, p);
                },
                None => {},
            }
            match json_get(v, "api_configuration") {
                Some(a) => {
                    append_str(&mut out, "\n");
                    push_api_configuration(&mut out, a);
                },
                None => {},
            }
        },
        None => {
            push_dynamic_context(&mut out, v);
        },
    }
    let ghost mid = out@;
    append_str(&mut out, "\n");
    let ct = close_tag_exec(root);
    append_chars(&mut out, ct.as_slice());
    assert(memory_document(*v, root@) == Some(out@));
    Ok(string_of(out.as_slice()))
}

/// The memory file's content: the XML declaration, then the memory
/// document of the value within the root element `root` (see
/// `memory_document`).
pub fn convert_json_to_xml(v: &JsonValue, root: &str) -> (r: Result<String, MemoryXmlError>)
    ensures
        match r {
            Ok(t) => memory_document(*v, root@) matches Some(x) && t@ == xml_header() + x,
            Err(_) => memory_document(*v, root@) is None,
        },
{
    let body = json_to_claude_xml(v, root)?;
    let mut out: Vec<char> = Vec::new();
    append_str(&mut out, "<?xml version=\"1.0\" encoding=\"UTF-8\"?>\n");
    append_str(&mut out, body.as_str());
    Ok(string_of(out.as_slice()))
}

// ---------------------------------------------------------------------------
// Checking the model's answer and the written document
// ---------------------------------------------------------------------------

/// Why the model's memory answer is refused.
pub enum MemoryResponseError {
    NotAnObject,
    MissingFields,
}

impl MemoryResponseError {
    /// The message for this refusal.
    pub fn message(&self) -> (r: &'static str)
        ensures
            r@ == (match self {
                MemoryResponseError::NotAnObject => "GPT-5 response is not a JSON object"@,
                MemoryResponseError::MissingFields => "GPT-5 response missing required memory structure fields"@,
            }),
    {
        match self {
            MemoryResponseError::NotAnObject => "GPT-5 response is not a JSON object",
            MemoryResponseError::MissingFields => "GPT-5 response missing required memory structure fields",
        }
    }
}

/// The model's answer must be an object with a dynamic context, a current
/// task or an active context.
pub open spec fn response_problem(v: JsonValue) -> Option<MemoryResponseError> {
    match v {
        JsonValue::Object(_) => if jget(v, "ai_dynamic_context"@) is None && jget(v, "current_task"@) is None && jget(
            v,
            "active_context"@,
        ) is None {
            Some(MemoryResponseError::MissingFields)
        } else {
            None
        },
        _ => Some(MemoryResponseError::NotAnObject),
    }
}

/// Checks the model's parsed answer (see `response_problem`).
pub fn validate_gpt5_response(v: &JsonValue) -> (r: Result<(), MemoryResponseError>)
    ensures
        match r {
            Ok(_) => response_problem(*v) is None,
            Err(e) => response_problem(*v) == Some(e),
        },
{
    match v {
        JsonValue::Object(_) => {},
        _ => {
            return Err(MemoryResponseError::NotAnObject);
        },
    }
    if json_get(v, "ai_dynamic_context").is_none() && json_get(v, "current_task").is_none() && json_get(
        v,
        "active_context",
    ).is_none() {
        return Err(MemoryResponseError::MissingFields);
    }
    Ok(())
}

/// Why a written memory document is refused.
pub enum XmlOutputError {
    MissingDeclaration,
    MissingRoot,
    Unbalanced,
}

/// The message for a refused document whose root element is `root`.
pub open spec fn xml_output_message(e: XmlOutputError, root: Seq<char>) -> Seq<char> {
    match e {
        XmlOutputError::MissingDeclaration => "XML output missing proper XML declaration"@,
        XmlOutputError::MissingRoot => "XML output missing required "@ + root + " root element"@,
        XmlOutputError::Unbalanced => "XML output appears to have unbalanced tags"@,
    }
}

impl XmlOutputError {
    /// The message for this refusal of a document whose root element is
    /// `root`.
    pub fn message(&self, root: &str) -> (r: String)
        ensures
            r@ == xml_output_message(*self, root@),
    {
        let mut out: Vec<char> = Vec::new();
        match self {
            XmlOutputError::MissingDeclaration => append_str(&mut out, "XML output missing proper XML declaration"),
            XmlOutputError::MissingRoot => {
                append_str(&mut out, "XML output missing required ");
                append_str(&mut out, root);
                append_str(&mut out, " root element");
            },
            XmlOutputError::Unbalanced => append_str(&mut out, "XML output appears to have unbalanced tags"),
        }
        string_of(out.as_slice())
    }
}

/// How many `<` the text holds.
pub open spec fn count_open(s: Seq<char>) -> nat
    decreases s.len(),
{
    if s.len() == 0 {
        0
    } else {
        count_open(s.drop_last()) + if s.last() == '<' {
            1nat
        } else {
            0nat
        }
    }
}

/// How many `</` the text holds.
pub open spec fn count_close(s: Seq<char>) -> nat
    decreases s.len(),
{
    if s.len() < 2 {
        0
    } else {
        count_close(s.drop_last()) + if s[s.len() - 2] == '<' && s.last() == '/' {
            1nat
        } else {
            0nat
        }
    }
}

/// What is wrong with a written memory document: no XML declaration at
/// its start, no opening or closing tag of the root element `root`, or
/// opening and closing tags (`<` not followed by `/`, against `</`)
/// differing by more than two.
pub open spec fn xml_output_problem(x: Seq<char>, root: Seq<char>) -> Option<XmlOutputError> {
    if !crate::strings::starts_with(x, "<?xml version=\"1.0\" encoding=\"UTF-8\"?>"@) {
        Some(XmlOutputError::MissingDeclaration)
    } else if !crate::strings::contains(x, open_tag(root)) || !crate::strings::contains(x, close_tag(root)) {
        Some(XmlOutputError::MissingRoot)
    } else {
        let open = count_open(x) - count_close(x);
        let close = count_close(x);
        if open - close > 2 || close - open > 2 {
            Some(XmlOutputError::Unbalanced)
        } else {
            None
        }
    }
}

proof fn lemma_close_le_open(s: Seq<char>)
    ensures
        count_close(s) <= count_open(s),
        count_close(s) <= s.len(),
    decreases s.len(),
{
    if s.len() >= 2 {
        lemma_close_le_open(s.drop_last());
        let t = s.drop_last();
        if s[s.len() - 2] == '<' && s.last() == '/' {
            lemma_open_last(t);
        }
    } else if s.len() == 1 {
        assert(s.drop_last().len() == 0);
    }
}

proof fn lemma_open_last(t: Seq<char>)
    requires
        t.len() >= 1,
        t.last() == '<',
    ensures
        count_close(t) < count_open(t),
    decreases t.len(),
{
    lemma_close_le_open(t.drop_last());
    if t.len() >= 2 {
        assert(t[t.len() - 2] == '<' ==> t.last() != '/');
    }
}

/// Checks a written memory document whose root element is `root` (see
/// `xml_output_problem`). The document has at most `i32::MAX` characters,
/// so that its tag counts are compared exactly.
pub fn validate_xml_output(xml: &str, root: &str) -> (r: Result<(), XmlOutputError>)
    requires
        xml@.len() <= i32::MAX,
    ensures
        match r {
            Ok(_) => xml_output_problem(xml@, root@) is None,
            Err(e) => xml_output_problem(xml@, root@) == Some(e),
        },
{
    let c = chars_of(xml);
    let s = c.as_slice();
    if !crate::strings::starts_with_lit(s, "<?xml version=\"1.0\" encoding=\"UTF-8\"?>") {
        return Err(XmlOutputError::MissingDeclaration);
    }
    let ot = open_tag_exec(root);
    let ct = close_tag_exec(root);
    if !crate::strings::contains_exec(s, ot.as_slice()) || !crate::strings::contains_exec(s, ct.as_slice()) {
        return Err(XmlOutputError::MissingRoot);
    }
    let mut opens: usize = 0;
    let mut closes: usize = 0;
    let mut i: usize = 0;
    assert(c@.take(0) =~= Seq::<char>::empty());
    while i < c.len()
        invariant
            i <= c@.len(),
            opens == count_open(c@.take(i as int)),
            closes == count_close(c@.take(i as int)),
            opens <= i,
        decreases c@.len() - i,
    {
        let ghost t = c@.take(i + 1);
        assert(t.drop_last() =~= c@.take(i as int));
        proof {
            lemma_close_le_open(t);
        }
        if c[i] == '<' {
            opens = opens + 1;
        }
        if i >= 1 && c[i - 1] == '<' && c[i] == '/' {
            closes = closes + 1;
        }
        i = i + 1;
    }
    assert(c@.take(c@.len() as int) =~= c@);
    proof {
        lemma_close_le_open(c@);
    }
    let open = opens - closes;
    let unbalanced = if open >= closes {
        open - closes > 2
    } else {
        closes - open > 2
    };
    if unbalanced {
        return Err(XmlOutputError::Unbalanced);
    }
    Ok(())
}

} // verus!
