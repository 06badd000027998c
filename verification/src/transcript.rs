//! The conversation summary put into the validation prompt: the messages of
//! a JSONL transcript, the last thing the user asked for, and the most
//! recent messages, cut to a byte budget.
use vstd::prelude::*;
use crate::config::opt_text;
use crate::strings::{
    all_ws, append_chars, append_str, chars_eq, chars_of, is_whitespace, join_texts, lemma_deep_view_strs,
    slice_chars, string_of, strs, utf8_size, utf8_size_exec,
};

verus! {

/// One transcript line as `serde_json` reads it: the `role` of its
/// `message` object and its `content` when each is a string, and, when the
/// content is a list, each item's `text` and `name` when they are strings.
pub struct TranscriptLine {
    pub role: Option<String>,
    pub text: Option<String>,
    pub parts: Option<Vec<(Option<String>, Option<String>)>>,
}

/// A content item seen as values.
pub open spec fn part_model(p: (Option<String>, Option<String>)) -> (Option<Seq<char>>, Option<Seq<char>>) {
    (opt_text(p.0), opt_text(p.1))
}

/// A read line seen as values.
pub open spec fn line_model(t: TranscriptLine) -> (
    Option<Seq<char>>,
    Option<Seq<char>>,
    Option<Seq<(Option<Seq<char>>, Option<Seq<char>>)>>,
) {
    (
        opt_text(t.role),
        opt_text(t.text),
        match t.parts {
            Some(v) => Some(v@.map_values(|p: (Option<String>, Option<String>)| part_model(p))),
            None => None,
        },
    )
}

/// What `serde_json` reads from a transcript line: `None` when the line is
/// not JSON or has no `message` field, else the fields as `line_model`
/// shows them.
pub uninterp spec fn transcript_json(line: Seq<char>) -> Option<
    (Option<Seq<char>>, Option<Seq<char>>, Option<Seq<(Option<Seq<char>>, Option<Seq<char>>)>>),
>;

/// Parses a transcript line with `serde_json::from_str` into a
/// `serde_json::Value` and reads its `message` field with `Value::get`,
/// `Value::as_str` and `Value::as_array`. What the parse gives is named, not
/// spelled out.
#[verifier::external_body]
fn read_transcript_json(line: &str) -> (r: Option<TranscriptLine>)
    ensures
        match r {
            Some(t) => transcript_json(line@) == Some(line_model(t)),
            None => transcript_json(line@) is None,
        },
{
    let entry = serde_json::from_str::<serde_json::Value>(line).ok()?;
    let msg = entry.get("message")?;
    let field = |v: &serde_json::Value, k: &str| v.get(k).and_then(|x| x.as_str()).map(|s| s.to_string());
    let parts = msg.get("content").and_then(|v| v.as_array()).map(
        |a| a.iter().map(|c| (field(c, "text"), field(c, "name"))).collect(),
    );
    Some(TranscriptLine { role: field(msg, "role"), text: field(msg, "content"), parts })
}

/// The label of a tool call among a message's content items.
pub open spec fn tool_label(name: Seq<char>) -> Seq<char> {
    "[Tool: "@ + name + "]"@
}

/// The text of a content item: its `text`, else a label for its tool
/// `name`, else nothing.
pub open spec fn part_text(p: (Option<Seq<char>>, Option<Seq<char>>)) -> Option<Seq<char>> {
    match p.0 {
        Some(t) => Some(t),
        None => match p.1 {
            Some(n) => Some(tool_label(n)),
            None => None,
        },
    }
}

/// The texts of the content items that have one, in order.
pub open spec fn part_texts(parts: Seq<(Option<Seq<char>>, Option<Seq<char>>)>) -> Seq<Seq<char>>
    decreases parts.len(),
{
    if parts.len() == 0 {
        Seq::empty()
    } else {
        match part_text(parts.last()) {
            Some(t) => part_texts(parts.drop_last()).push(t),
            None => part_texts(parts.drop_last()),
        }
    }
}

/// A message's text: its content items' texts joined by spaces when the
/// content is a list, else the content string, else nothing.
pub open spec fn message_content(
    m: (Option<Seq<char>>, Option<Seq<char>>, Option<Seq<(Option<Seq<char>>, Option<Seq<char>>)>>),
) -> Seq<char> {
    match m.2 {
        Some(parts) => join_texts(part_texts(parts), " "@),
        None => match m.1 {
            Some(t) => t,
            None => Seq::empty(),
        },
    }
}

/// The (role, text) of a transcript line: present when the line parses,
/// has a role, and its text is not empty.
pub open spec fn transcript_message(line: Seq<char>) -> Option<(Seq<char>, Seq<char>)> {
    match transcript_json(line) {
        None => None,
        Some(m) => match m.0 {
            None => None,
            Some(role) => if message_content(m).len() == 0 {
                None
            } else {
                Some((role, message_content(m)))
            },
        },
    }
}

fn copy_chars(s: &[char]) -> (r: Vec<char>)
    ensures
        r@ == s@,
{
    slice_chars(s, 0, s.len())
}

/// The texts of the content items that have one, computed.
fn part_texts_exec(parts: &Vec<(Option<String>, Option<String>)>) -> (r: Vec<String>)
    ensures
        strs(r@) == part_texts(parts@.map_values(|p: (Option<String>, Option<String>)| part_model(p))),
{
    let ghost pm = parts@.map_values(|p: (Option<String>, Option<String>)| part_model(p));
    let mut out: Vec<String> = Vec::new();
    let mut i: usize = 0;
    while i < parts.len()
        invariant
            i <= parts@.len(),
            pm == parts@.map_values(|p: (Option<String>, Option<String>)| part_model(p)),
            strs(out@) == part_texts(pm.take(i as int)),
        decreases parts@.len() - i,
    {
        assert(pm.take(i + 1).drop_last() == pm.take(i as int));
        assert(pm.take(i + 1).last() == part_model(parts@[i as int]));
        let ghost before = out@;
        let p = &parts[i];
        match &p.0 {
            Some(t) => {
                out.push(copy_string(t));
                assert(strs(out@) =~= strs(before).push(t@));
            },
            None => match &p.1 {
                Some(n) => {
                    let mut v: Vec<char> = Vec::new();
                    append_str(&mut v, "[Tool: ");
                    append_str(&mut v, n.as_str());
                    append_str(&mut v, "]");
                    out.push(string_of(v.as_slice()));
                    assert(strs(out@) =~= strs(before).push(tool_label(n@)));
                },
                None => {},
            },
        }
        i = i + 1;
    }
    assert(pm.take(parts@.len() as int) == pm);
    out
}

fn copy_string(s: &String) -> (r: String)
    ensures
        r@ == s@,
{
    let c = chars_of(s.as_str());
    string_of(c.as_slice())
}

/// The (role, text) of a transcript line, read with `serde_json`: `None`
/// when the line is not JSON, has no `message` with a string `role`, or its
/// text is empty. A content list gives its items' texts, or `[Tool: name]`
/// for a tool call, joined by spaces.
pub fn parse_transcript_line(line: &str) -> (r: Option<(String, String)>)
    ensures
        match r {
            Some((role, content)) => transcript_message(line@) == Some((role@, content@)),
            None => transcript_message(line@) is None,
        },
{
    let t = match read_transcript_json(line) {
        Some(t) => t,
        None => return None,
    };
    let ghost m = line_model(t);
    let role = match &t.role {
        Some(r) => r,
        None => return None,
    };
    let content: String = match &t.parts {
        Some(parts) => {
            let texts = part_texts_exec(parts);
            crate::strings::join_strings(&texts, " ")
        },
        None => match &t.text {
            Some(s) => copy_string(s),
            None => String::new(),
        },
    };
    assert(content@ == message_content(m));
    if content.as_str().is_empty() {
        return None;
    }
    Some((copy_string(role), content))
}

/// The messages of a transcript's lines, in order: blank lines and lines
/// that give no message are passed over.
pub open spec fn transcript_messages(lines: Seq<Seq<char>>) -> Seq<(Seq<char>, Seq<char>)>
    decreases lines.len(),
{
    if lines.len() == 0 {
        Seq::empty()
    } else {
        let before = transcript_messages(lines.drop_last());
        let l = lines.last();
        if all_ws(l) {
            before
        } else {
            match transcript_message(l) {
                Some(m) => before.push(m),
                None => before,
            }
        }
    }
}

/// The text of the last message whose role is `user`, if any.
pub open spec fn last_user(msgs: Seq<(Seq<char>, Seq<char>)>) -> Option<Seq<char>>
    decreases msgs.len(),
{
    if msgs.len() == 0 {
        None
    } else if msgs.last().0 == "user"@ {
        Some(msgs.last().1)
    } else {
        last_user(msgs.drop_last())
    }
}

/// A text kept whole up to `limit` characters; longer, its first `keep`
/// characters and `...`.
pub open spec fn shortened(t: Seq<char>, limit: nat, keep: nat) -> Seq<char> {
    if t.len() > limit {
        t.take(keep as int) + "..."@
    } else {
        t
    }
}

/// The opening of the summary when the user asked for something.
pub open spec fn task_header(task: Seq<char>) -> Seq<char> {
    "CURRENT USER TASK: "@ + shortened(task, 150, 147) + "\n\nRECENT CONVERSATION:\n"@
}

/// The summary's line for one message; the user's message that is the
/// current task is marked so.
pub open spec fn message_line(m: (Seq<char>, Seq<char>), task: Option<Seq<char>>) -> Seq<char> {
    let t = shortened(m.1, 100, 97);
    if m.0 == "user"@ && task == Some(m.1) {
        "["@ + m.0 + "] (CURRENT TASK): "@ + t + "\n"@
    } else {
        "["@ + m.0 + "]: "@ + t + "\n"@
    }
}

/// The lines of the messages while the summary stays within 2000 bytes,
/// `used` bytes being taken already; `...` and a line break in place of the
/// first line that would pass it.
pub open spec fn conversation(msgs: Seq<(Seq<char>, Seq<char>)>, task: Option<Seq<char>>, used: nat) -> Seq<
    char,
>
    decreases msgs.len(),
{
    if msgs.len() == 0 {
        Seq::empty()
    } else {
        let line = message_line(msgs[0], task);
        if used + utf8_size(line) > 2000 {
            "...\n"@
        } else {
            line + conversation(msgs.drop_first(), task, used + utf8_size(line))
        }
    }
}

/// The summary of a transcript: the current task (the last user message),
/// then the last `max_messages` messages (at most 20) while the whole stays
/// within 2000 bytes. The character budget `max_chars` the caller names is
/// not what cuts the summary: the byte budget is.
pub open spec fn transcript_summary_text(lines: Seq<Seq<char>>, max_messages: nat, max_chars: nat) -> Seq<char> {
    let msgs = transcript_messages(lines);
    let task = last_user(msgs);
    let n: nat = if max_messages < 20 { max_messages } else { 20 };
    let start: int = if msgs.len() > n { msgs.len() - n } else { 0 };
    let head = match task {
        Some(t) => task_header(t),
        None => Seq::empty(),
    };
    head + conversation(msgs.skip(start), task, utf8_size(head))
}

/// The texts of stored messages.
pub open spec fn pair_views(v: Seq<(Vec<char>, Vec<char>)>) -> Seq<(Seq<char>, Seq<char>)> {
    v.map_values(|p: (Vec<char>, Vec<char>)| (p.0@, p.1@))
}

pub open spec fn opt_chars(o: Option<Vec<char>>) -> Option<Seq<char>> {
    match o {
        Some(v) => Some(v@),
        None => None,
    }
}

fn all_whitespace(s: &[char]) -> (r: bool)
    ensures
        r == all_ws(s@),
{
    let mut i: usize = 0;
    while i < s.len()
        invariant
            i <= s@.len(),
            forall|k: int| 0 <= k < i ==> crate::strings::is_ws(#[trigger] s@[k]),
        decreases s@.len() - i,
    {
        if !is_whitespace(s[i]) {
            return false;
        }
        i = i + 1;
    }
    true
}

fn shortened_exec(t: &[char], limit: usize, keep: usize) -> (r: Vec<char>)
    requires
        keep <= limit,
    ensures
        r@ == shortened(t@, limit as nat, keep as nat),
{
    if t.len() > limit {
        let mut v = slice_chars(t, 0, keep);
        append_str(&mut v, "...");
        v
    } else {
        copy_chars(t)
    }
}

fn message_line_exec(role: &[char], content: &[char], task: &Option<Vec<char>>) -> (r: Vec<char>)
    ensures
        r@ == message_line((role@, content@), opt_chars(*task)),
{
    let t = shortened_exec(content, 100, 97);
    let user = chars_of("user");
    let current = match task {
        Some(tk) => chars_eq(role, user.as_slice()) && chars_eq(content, tk.as_slice()),
        None => false,
    };
    let mut v: Vec<char> = Vec::new();
    append_str(&mut v, "[");
    append_chars(&mut v, role);
    if current {
        append_str(&mut v, "] (CURRENT TASK): ");
    } else {
        append_str(&mut v, "]: ");
    }
    append_chars(&mut v, t.as_slice());
    append_str(&mut v, "\n");
    v
}

/// The summary of a transcript's lines (see `transcript_summary_text`).
pub fn transcript_summary(lines: &Vec<String>, max_messages: usize, max_chars: usize) -> (r: String)
    ensures
        r@ == transcript_summary_text(lines.deep_view(), max_messages as nat, max_chars as nat),
{
    proof {
        lemma_deep_view_strs(*lines);
    }
    let ghost lv = strs(lines@);
    let mut msgs: Vec<(Vec<char>, Vec<char>)> = Vec::new();
    let mut i: usize = 0;
    while i < lines.len()
        invariant
            i <= lines@.len(),
            lv == strs(lines@),
            pair_views(msgs@) == transcript_messages(lv.take(i as int)),
        decreases lines@.len() - i,
    {
        assert(lv.take(i + 1).drop_last() == lv.take(i as int));
        assert(lv.take(i + 1).last() == lines@[i as int]@);
        let ghost before = msgs@;
        let lc = chars_of(lines[i].as_str());
        if !all_whitespace(lc.as_slice()) {
            match parse_transcript_line(lines[i].as_str()) {
                Some((role, content)) => {
                    msgs.push((chars_of(role.as_str()), chars_of(content.as_str())));
                    assert(pair_views(msgs@) =~= pair_views(before).push((role@, content@)));
                },
                None => {},
            }
        }
        i = i + 1;
    }
    assert(lv.take(lines@.len() as int) == lv);
    let ghost pv = pair_views(msgs@);
    let user = chars_of("user");
    let mut task: Option<Vec<char>> = None;
    let mut j: usize = 0;
    while j < msgs.len()
        invariant
            j <= msgs@.len(),
            pv == pair_views(msgs@),
            user@ == "user"@,
            opt_chars(task) == last_user(pv.take(j as int)),
        decreases msgs@.len() - j,
    {
        assert(pv.take(j + 1).drop_last() == pv.take(j as int));
        assert(pv.take(j + 1).last() == pv[j as int]);
        if chars_eq(msgs[j].0.as_slice(), user.as_slice()) {
            task = Some(copy_chars(msgs[j].1.as_slice()));
        }
        j = j + 1;
    }
    assert(pv.take(msgs@.len() as int) == pv);
    let n: usize = if max_messages < 20 { max_messages } else { 20 };
    let start: usize = if msgs.len() > n { msgs.len() - n } else { 0 };
    let mut out: Vec<char> = Vec::new();
    match &task {
        Some(t) => {
            append_str(&mut out, "CURRENT USER TASK: ");
            let s = shortened_exec(t.as_slice(), 150, 147);
            append_chars(&mut out, s.as_slice());
            append_str(&mut out, "\n\nRECENT CONVERSATION:\n");
        },
        None => {},
    }
    let ghost tv = opt_chars(task);
    let ghost head = out@;
    assert(head == match tv {
        Some(t) => task_header(t),
        None => Seq::<char>::empty(),
    });
    proof {
        reveal_strlit("CURRENT USER TASK: ");
        reveal_strlit("\n\nRECENT CONVERSATION:\n");
        reveal_strlit("...");
    }
    let mut used: u128 = utf8_size_exec(out.as_slice());
    let ghost goal = conversation(pv.skip(start as int), tv, used as nat);
    let mut k: usize = start;
    while k < msgs.len()
        invariant_except_break
            start <= k <= msgs@.len(),
            pv == pair_views(msgs@),
            tv == opt_chars(task),
            used <= 4000,
            out@ + conversation(pv.skip(k as int), tv, used as nat) == head + goal,
        ensures
            out@ == head + goal,
        decreases msgs@.len() - k,
    {
        let line = message_line_exec(msgs[k].0.as_slice(), msgs[k].1.as_slice(), &task);
        let size = utf8_size_exec(line.as_slice());
        let ll: usize = line.len();
        assert(size <= 4 * ll);
        let ghost rest = pv.skip(k as int);
        assert(rest[0] == pv[k as int]);
        assert(rest.drop_first() == pv.skip(k + 1));
        if used + size > 2000 {
            append_str(&mut out, "...\n");
            break;
        }
        let ghost o = out@;
        append_chars(&mut out, line.as_slice());
        assert(o + (line@ + conversation(pv.skip(k + 1), tv, (used + size) as nat)) =~= out@ + conversation(
            pv.skip(k + 1),
            tv,
            (used + size) as nat,
        ));
        used = used + size;
        k = k + 1;
    }
    string_of(out.as_slice())
}

} // verus!
