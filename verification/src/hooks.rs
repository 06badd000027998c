use vstd::prelude::*;
use crate::strings::{
    append_chars, append_str, chars_of, flat_map_chars, join_strings, join_texts, replace_all, replace_all_exec,
    string_of, strs, lemma_strs_push,
};
use crate::text::truncate_utf8_safe;

verus! {

// ---------------------------------------------------------------------------
// What a tool call hands to the hooks
// ---------------------------------------------------------------------------

/// One edit of a multi-edit call: its strings, where they are strings.
pub struct ToolEdit {
    pub old_string: Option<String>,
    pub new_string: Option<String>,
}

/// The fields of a tool call's input that the hooks read, each present only
/// where the call gave a string (`edits` where it gave an array).
pub struct ToolInput {
    pub file_path: Option<String>,
    pub content: Option<String>,
    pub old_string: Option<String>,
    pub new_string: Option<String>,
    pub edits: Option<Vec<ToolEdit>>,
}

/// The text of an optional string.
pub open spec fn opt_view(o: Option<String>) -> Option<Seq<char>> {
    match o {
        Some(s) => Some(s@),
        None => None,
    }
}

/// The text of an optional string, or nothing.
pub open spec fn text_or_empty(o: Option<String>) -> Seq<char> {
    match o {
        Some(s) => s@,
        None => Seq::empty(),
    }
}

/// The new strings of the edits that have one, in order.
pub open spec fn new_strings(es: Seq<ToolEdit>) -> Seq<Seq<char>>
    decreases es.len(),
{
    if es.len() == 0 {
        Seq::empty()
    } else {
        let rest = new_strings(es.drop_last());
        match es.last().new_string {
            Some(s) => rest.push(s@),
            None => rest,
        }
    }
}

/// The content a tool call writes: the whole content of a `Write`, the new
/// string of an `Edit`, the new strings of a `MultiEdit` joined by newlines.
pub open spec fn tool_content(tool_name: Seq<char>, input: ToolInput) -> Seq<char> {
    if tool_name == "Write"@ {
        text_or_empty(input.content)
    } else if tool_name == "Edit"@ {
        text_or_empty(input.new_string)
    } else if tool_name == "MultiEdit"@ {
        match input.edits {
            Some(es) => join_texts(new_strings(es@), "\n"@),
            None => Seq::empty(),
        }
    } else {
        Seq::empty()
    }
}

fn is_lit(s: &str, lit: &str) -> (r: bool)
    ensures
        r == (s@ == lit@),
{
    let a = chars_of(s);
    let b = chars_of(lit);
    crate::strings::chars_eq(a.as_slice(), b.as_slice())
}

fn copy_text(o: &Option<String>) -> (r: String)
    ensures
        r@ == text_or_empty(*o),
{
    match o {
        Some(s) => s.clone(),
        None => String::new(),
    }
}

fn collect_new_strings(es: &Vec<ToolEdit>) -> (r: Vec<String>)
    ensures
        strs(r@) == new_strings(es@),
{
    let mut out: Vec<String> = Vec::new();
    let mut k: usize = 0;
    assert(es@.take(0) =~= Seq::<ToolEdit>::empty());
    assert(strs(out@) =~= Seq::<Seq<char>>::empty());
    while k < es.len()
        invariant
            k <= es@.len(),
            strs(out@) == new_strings(es@.take(k as int)),
        decreases es@.len() - k,
    {
        assert(es@.take(k + 1).drop_last() == es@.take(k as int));
        match &es[k].new_string {
            Some(s) => {
                let c = s.clone();
                proof {
                    lemma_strs_push(out@, c);
                }
                out.push(c);
            },
            None => {},
        }
        k = k + 1;
    }
    assert(es@.take(es@.len() as int) == es@);
    out
}

/// The content a tool call writes (empty for other tools).
pub fn extract_content_from_tool_input(tool_name: &str, tool_input: &ToolInput) -> (r: String)
    ensures
        r@ == tool_content(tool_name@, *tool_input),
{
    if is_lit(tool_name, "Write") {
        copy_text(&tool_input.content)
    } else if is_lit(tool_name, "Edit") {
        copy_text(&tool_input.new_string)
    } else if is_lit(tool_name, "MultiEdit") {
        match &tool_input.edits {
            Some(es) => {
                let parts = collect_new_strings(es);
                join_strings(&parts, "\n")
            },
            None => String::new(),
        }
    } else {
        String::new()
    }
}

/// The file path of a tool call, or the empty string.
pub fn extract_file_path(tool_input: &ToolInput) -> (r: String)
    ensures
        r@ == text_or_empty(tool_input.file_path),
{
    copy_text(&tool_input.file_path)
}

/// The pieces of the first 1000 edits that `pick` gives, each followed by a newline.
pub open spec fn edit_lines(es: Seq<ToolEdit>, old: bool) -> Seq<char>
    decreases es.len(),
{
    if es.len() == 0 {
        Seq::empty()
    } else {
        let rest = edit_lines(es.drop_last(), old);
        let piece = if old {
            es.last().old_string
        } else {
            es.last().new_string
        };
        match piece {
            Some(s) => rest + s@ + "\n"@,
            None => rest,
        }
    }
}

/// A text, or nothing when it is empty.
pub open spec fn non_empty(t: Seq<char>) -> Option<Seq<char>> {
    if t.len() == 0 {
        None
    } else {
        Some(t)
    }
}

/// The file path and the old and new text of a change. `existing` is what
/// the file held before the call, where the caller read it.
pub open spec fn old_new_contents(tool_name: Seq<char>, input: ToolInput, existing: Option<Seq<char>>) -> (
    Seq<char>,
    Option<Seq<char>>,
    Option<Seq<char>>,
) {
    let fp = text_or_empty(input.file_path);
    if tool_name == "Edit"@ {
        (fp, opt_view(input.old_string), opt_view(input.new_string))
    } else if tool_name == "MultiEdit"@ {
        match input.edits {
            Some(es) => {
                let first = if es@.len() > 1000 {
                    es@.take(1000)
                } else {
                    es@
                };
                (fp, non_empty(edit_lines(first, true)), non_empty(edit_lines(first, false)))
            },
            None => (fp, existing, None),
        }
    } else if tool_name == "Write"@ {
        (fp, existing, opt_view(input.content))
    } else {
        (fp, None, None)
    }
}

fn copy_opt(o: &Option<String>) -> (r: Option<String>)
    ensures
        opt_view(r) == opt_view(*o),
{
    match o {
        Some(s) => Some(s.clone()),
        None => None,
    }
}

pub(crate) fn edit_lines_exec(es: &Vec<ToolEdit>, old: bool) -> (r: Vec<char>)
    ensures
        r@ == edit_lines(
            if es@.len() > 1000 {
                es@.take(1000)
            } else {
                es@
            },
            old,
        ),
{
    let n: usize = if es.len() > 1000 {
        1000
    } else {
        es.len()
    };
    let ghost first = if es@.len() > 1000 {
        es@.take(1000)
    } else {
        es@
    };
    assert(first == es@.take(n as int));
    let mut out: Vec<char> = Vec::new();
    let mut k: usize = 0;
    assert(es@.take(0) =~= Seq::<ToolEdit>::empty());
    while k < n
        invariant
            n <= es@.len(),
            k <= n,
            out@ == edit_lines(es@.take(k as int), old),
        decreases n - k,
    {
        assert(es@.take(k + 1).drop_last() == es@.take(k as int));
        let piece = if old {
            &es[k].old_string
        } else {
            &es[k].new_string
        };
        match piece {
            Some(s) => {
                append_str(&mut out, s.as_str());
                append_str(&mut out, "\n");
            },
            None => {},
        }
        k = k + 1;
    }
    out
}

fn non_empty_exec(v: Vec<char>) -> (r: Option<String>)
    ensures
        opt_view(r) == non_empty(v@),
{
    if v.len() == 0 {
        None
    } else {
        Some(string_of(v.as_slice()))
    }
}

/// The file path, old text and new text of a change, as the pre-tool check
/// reads them: `Edit` gives its strings; `MultiEdit` gives the strings of its
/// first 1000 edits, each ended by a newline (or, without edits, the file's
/// current content as the old text); `Write` gives the file's current content
/// and the written content. `existing` is the file's current content, which
/// the caller reads.
pub fn extract_old_new_contents(tool_name: &str, tool_input: &ToolInput, existing: Option<String>) -> (r: (
    String,
    Option<String>,
    Option<String>,
))
    ensures
        (r.0@, opt_view(r.1), opt_view(r.2)) == old_new_contents(tool_name@, *tool_input, opt_view(existing)),
{
    let fp = copy_text(&tool_input.file_path);
    if is_lit(tool_name, "Edit") {
        (fp, copy_opt(&tool_input.old_string), copy_opt(&tool_input.new_string))
    } else if is_lit(tool_name, "MultiEdit") {
        match &tool_input.edits {
            Some(es) => {
                let old = edit_lines_exec(es, true);
                let new = edit_lines_exec(es, false);
                (fp, non_empty_exec(old), non_empty_exec(new))
            },
            None => (fp, existing, None),
        }
    } else if is_lit(tool_name, "Write") {
        (fp, existing, copy_opt(&tool_input.content))
    } else {
        (fp, None, None)
    }
}

// ---------------------------------------------------------------------------
// What the hooks answer
// ---------------------------------------------------------------------------

/// The pre-tool hook's decision.
pub struct PreToolUseHookOutput {
    pub hook_event_name: String,
    pub permission_decision: String,
    pub permission_decision_reason: Option<String>,
}

/// The pre-tool hook's answer.
pub struct PreToolUseOutput {
    pub hook_specific_output: PreToolUseHookOutput,
}

/// The post-tool hook's context for the agent.
pub struct PostToolUseHookOutput {
    pub hook_event_name: String,
    pub additional_context: String,
}

/// The post-tool hook's answer.
pub struct PostToolUseOutput {
    pub hook_specific_output: PostToolUseHookOutput,
}

/// The prompt hook's context for the agent.
pub struct UserPromptSubmitHookOutput {
    pub hook_event_name: String,
    pub additional_context: String,
}

/// The prompt hook's answer.
pub struct UserPromptSubmitOutput {
    pub hook_specific_output: UserPromptSubmitHookOutput,
}

impl PreToolUseOutput {
    /// Lets the tool call go ahead.
    pub fn allow() -> (r: Self)
        ensures
            r.hook_specific_output.hook_event_name@ == "PreToolUse"@,
            r.hook_specific_output.permission_decision@ == "allow"@,
            r.hook_specific_output.permission_decision_reason is None,
    {
        PreToolUseOutput {
            hook_specific_output: PreToolUseHookOutput {
                hook_event_name: crate::strings::owned("PreToolUse"),
                permission_decision: crate::strings::owned("allow"),
                permission_decision_reason: None,
            },
        }
    }

    /// Blocks the tool call, giving the reason.
    pub fn deny(reason: String) -> (r: Self)
        ensures
            r.hook_specific_output.hook_event_name@ == "PreToolUse"@,
            r.hook_specific_output.permission_decision@ == "deny"@,
            r.hook_specific_output.permission_decision_reason == Some(reason),
    {
        PreToolUseOutput {
            hook_specific_output: PreToolUseHookOutput {
                hook_event_name: crate::strings::owned("PreToolUse"),
                permission_decision: crate::strings::owned("deny"),
                permission_decision_reason: Some(reason),
            },
        }
    }
}

impl PostToolUseOutput {
    /// Hands `context` to the agent, cut to at most `limit` characters
    /// (clamped to 10 000..=1 000 000).
    pub fn with_context(context: &str, limit: usize) -> (r: Self)
        ensures
            r.hook_specific_output.hook_event_name@ == "PostToolUse"@,
            ({
                let lim = if limit < 10_000 {
                    10_000
                } else if limit > 1_000_000 {
                    1_000_000
                } else {
                    limit
                };
                r.hook_specific_output.additional_context@ == crate::text::truncated(context@, lim as nat)
            }),
    {
        let lim: usize = if limit < 10_000 {
            10_000
        } else if limit > 1_000_000 {
            1_000_000
        } else {
            limit
        };
        PostToolUseOutput {
            hook_specific_output: PostToolUseHookOutput {
                hook_event_name: crate::strings::owned("PostToolUse"),
                additional_context: truncate_utf8_safe(context, lim),
            },
        }
    }
}

impl UserPromptSubmitOutput {
    /// Hands `context` to the agent.
    pub fn with_context(context: String) -> (r: Self)
        ensures
            r.hook_specific_output.hook_event_name@ == "UserPromptSubmit"@,
            r.hook_specific_output.additional_context == context,
    {
        UserPromptSubmitOutput {
            hook_specific_output: UserPromptSubmitHookOutput {
                hook_event_name: crate::strings::owned("UserPromptSubmit"),
                additional_context: context,
            },
        }
    }
}

// ---------------------------------------------------------------------------
// Messages
// ---------------------------------------------------------------------------

/// The lower-case hexadecimal digit for `d < 16`.
pub open spec fn hex_digit(d: nat) -> char {
    if d < 10 {
        ((d + 48) as u8) as char
    } else {
        ((d + 87) as u8) as char
    }
}

/// A control character (`char::is_control`: general category Cc).
pub open spec fn is_control(c: char) -> bool {
    (c as u32) < 0x20 || (0x7f <= (c as u32) && (c as u32) < 0xa0)
}

/// How one character is written inside a JSON string.
pub open spec fn json_escape_char(c: char) -> Seq<char> {
    if c == '"' {
        "\\\""@
    } else if c == '\\' {
        "\\\\"@
    } else if c == '\n' {
        "\\n"@
    } else if c == '\r' {
        "\\r"@
    } else if c == '\t' {
        "\\t"@
    } else if c == '\u{8}' {
        "\\b"@
    } else if c == '\u{c}' {
        "\\f"@
    } else if is_control(c) {
        "\\u00"@ + seq![hex_digit((c as u32 / 16) as nat), hex_digit((c as u32 % 16) as nat)]
    } else {
        seq![c]
    }
}

fn hex_digit_exec(d: u32) -> (r: char)
    requires
        d < 16,
    ensures
        r == hex_digit(d as nat),
{
    if d < 10 {
        ((d as u8) + 48) as char
    } else {
        ((d as u8) + 87) as char
    }
}

/// `s` with every character written as `json_escape_char` writes it.
pub open spec fn json_escaped(s: Seq<char>) -> Seq<char> {
    flat_map_chars(s, |c: char| json_escape_char(c))
}

/// `s` with quotes, backslashes and control characters escaped for a JSON string.
pub fn escape_json_string(s: &str) -> (r: String)
    ensures
        r@ == json_escaped(s@),
{
    let cs = chars_of(s);
    let mut out: Vec<char> = Vec::new();
    let mut k: usize = 0;
    assert(cs@.take(0) =~= Seq::<char>::empty());
    while k < cs.len()
        invariant
            k <= cs@.len(),
            out@ == flat_map_chars(cs@.take(k as int), |c: char| json_escape_char(c)),
        decreases cs@.len() - k,
    {
        assert(cs@.take(k + 1).drop_last() == cs@.take(k as int));
        let c = cs[k];
        if c == '"' {
            append_str(&mut out, "\\\"");
        } else if c == '\\' {
            append_str(&mut out, "\\\\");
        } else if c == '\n' {
            append_str(&mut out, "\\n");
        } else if c == '\r' {
            append_str(&mut out, "\\r");
        } else if c == '\t' {
            append_str(&mut out, "\\t");
        } else if c == '\u{8}' {
            append_str(&mut out, "\\b");
        } else if c == '\u{c}' {
            append_str(&mut out, "\\f");
        } else if (c as u32) < 0x20 || (0x7f <= (c as u32) && (c as u32) < 0xa0) {
            append_str(&mut out, "\\u00");
            let code = c as u32;
            out.push(hex_digit_exec(code / 16));
            out.push(hex_digit_exec(code % 16));
        } else {
            out.push(c);
        }
        k = k + 1;
    }
    assert(cs@.take(cs@.len() as int) == cs@);
    string_of(out.as_slice())
}

/// The message for a chain of errors: the first, then the others after
/// `Details:` joined by ` <- `.
pub open spec fn error_message(chain: Seq<Seq<char>>) -> Seq<char> {
    if chain.len() == 0 {
        "Unknown error occurred"@
    } else if chain.len() == 1 {
        chain[0]
    } else {
        chain[0] + "\nDetails: "@ + join_texts(chain.skip(1), " <- "@)
    }
}

/// The message for a chain of errors, outermost first.
pub fn format_error_message(error_chain: &[String]) -> (r: String)
    ensures
        r@ == error_message(error_chain@.map_values(|e: String| e@)),
{
    let ghost v = error_chain@.map_values(|e: String| e@);
    if error_chain.len() == 0 {
        return crate::strings::owned("Unknown error occurred");
    }
    if error_chain.len() == 1 {
        return error_chain[0].clone();
    }
    let mut rest: Vec<String> = Vec::new();
    let mut k: usize = 1;
    assert(strs(rest@) =~= v.skip(1).take(0));
    while k < error_chain.len()
        invariant
            1 <= k <= error_chain@.len(),
            v == error_chain@.map_values(|e: String| e@),
            strs(rest@) == v.skip(1).take(k - 1),
        decreases error_chain@.len() - k,
    {
        let c = error_chain[k].clone();
        proof {
            lemma_strs_push(rest@, c);
        }
        rest.push(c);
        assert(v.skip(1).take(k as int) == v.skip(1).take(k - 1).push(v[k as int]));
        k = k + 1;
    }
    assert(v.skip(1).take(error_chain@.len() - 1) == v.skip(1));
    let joined = join_strings(&rest, " <- ");
    let mut out = chars_of(error_chain[0].as_str());
    append_str(&mut out, "\nDetails: ");
    append_str(&mut out, joined.as_str());
    string_of(out.as_slice())
}

/// The message shown when code is blocked for its quality: the reason, with
/// each written `\n` turned into a line break, inside a fixed frame.
pub open spec fn quality_message(reason: Seq<char>) -> Seq<char> {
    "РЕАЛИЗУЙТЕ КОД С КАЧЕСТВОМ, А НЕ ПРОСТО ЧТОБЫ ЗАВЕРШИТЬ ЗАДАЧУ\n[плохой и поддельный код всегда будет заблокирован]\n\nвыявленные проблемы в ваших изменениях:\n"@
        + replace_all(reason, "\\n"@, "\n"@)
        + "\n\nУЛУЧШИТЕ СВОЮ РАБОТУ — не убегайте от проблем, создавая минимальные упрощённые реализации\n[попытки сделать это также будут заблокированы]"@
}

/// The message shown when code is blocked for its quality.
pub fn format_quality_message(reason: &str) -> (r: String)
    ensures
        r@ == quality_message(reason@),
{
    proof {
        reveal_strlit("\\n");
    }
    let rc = chars_of(reason);
    let pat = chars_of("\\n");
    let rep = chars_of("\n");
    let cleaned = replace_all_exec(rc.as_slice(), pat.as_slice(), rep.as_slice());
    let mut out: Vec<char> = Vec::new();
    append_str(
        &mut out,
        "РЕАЛИЗУЙТЕ КОД С КАЧЕСТВОМ, А НЕ ПРОСТО ЧТОБЫ ЗАВЕРШИТЬ ЗАДАЧУ\n[плохой и поддельный код всегда будет заблокирован]\n\nвыявленные проблемы в ваших изменениях:\n",
    );
    append_chars(&mut out, cleaned.as_slice());
    append_str(
        &mut out,
        "\n\nУЛУЧШИТЕ СВОЮ РАБОТУ — не убегайте от проблем, создавая минимальные упрощённые реализации\n[попытки сделать это также будут заблокированы]",
    );
    string_of(out.as_slice())
}

proof fn lemma_flat_map_json(s: Seq<char>)
    ensures
        forall|i: int| 0 <= i < json_escaped(s).len() ==> !is_control(#[trigger] json_escaped(s)[i]),
    decreases s.len(),
{
    if s.len() > 0 {
        lemma_flat_map_json(s.drop_last());
        let a = json_escaped(s.drop_last());
        let c = s.last();
        let b = json_escape_char(c);
        assert(json_escaped(s) == a + b);
        reveal_strlit("\\\"");
        reveal_strlit("\\\\");
        reveal_strlit("\\n");
        reveal_strlit("\\r");
        reveal_strlit("\\t");
        reveal_strlit("\\b");
        reveal_strlit("\\f");
        reveal_strlit("\\u00");
        assert forall|j: int| 0 <= j < b.len() implies !is_control(b[j]) by {
            if is_control(c) && c != '\n' && c != '\r' && c != '\t' && c != '\u{8}' && c != '\u{c}' && c != '"'
                && c != '\\' {
                let hi = (c as u32 / 16) as nat;
                let lo = (c as u32 % 16) as nat;
                if j >= 4 {
                    let d = if j == 4 { hi } else { lo };
                    assert(b[j] == hex_digit(d));
                }
            }
        }
        assert forall|i: int| 0 <= i < (a + b).len() implies !is_control((a + b)[i]) by {
            if i >= a.len() {
                assert((a + b)[i] == b[i - a.len()]);
            } else {
                assert((a + b)[i] == a[i]);
            }
        }
    }
}

/// Escaped text holds no control character: every one is written as an escape.
pub proof fn law_json_escape_no_controls(s: Seq<char>)
    ensures
        forall|i: int| 0 <= i < json_escaped(s).len() ==> !is_control(#[trigger] json_escaped(s)[i]),
{
    lemma_flat_map_json(s);
}

} // verus!
