use vstd::prelude::*;
use crate::strings::{
    cat, chars_of, concat3, contains, contains_lit, decimal, decimal_exec, has_char, has_char_exec,
    index_of_char_from, lead_run, lead_ws, lines, lines_of, owned, slice_chars, starts_with,
    starts_with_lit, string_of, strs, trim, trim_bounds, trim_chars, trim_end, trim_end_chars, trim_start,
    lemma_lead_ws_bound, lemma_runs_bound, lemma_strs_push, views, utf8_size, utf8_width, char_width, strip_repeated, strip_repeated_exec,
};
use crate::regexes::{regex_found, regex_is_match};
use crate::formatting::{FormatResult, FormatterError, SupportedLanguage};

verus! {

// ---------------------------------------------------------------------------
// Measuring
// ---------------------------------------------------------------------------

/// The indentation a line gets: its leading whitespace, in bytes, rounded
/// up to an even number.
pub open spec fn indent_of(line: Seq<char>) -> nat {
    let n = utf8_size(line.take(lead_ws(line) as int));
    if n == 0 {
        0
    } else {
        ((n + 1) / 2) * 2
    }
}

/// `n` spaces.
pub open spec fn spaces(n: nat) -> Seq<char> {
    Seq::new(n, |i: int| ' ')
}

// ---------------------------------------------------------------------------
// Formatting
// ---------------------------------------------------------------------------

/// A trimmed, non-comment line, indented by `indent`: a list item gets one
/// space after its dash, a key gets `: ` before its value (or a bare `:`
/// when it has none), anything else is kept.
pub open spec fn yaml_line_text(t: Seq<char>, indent: nat) -> Seq<char> {
    let prefix = spaces(indent);
    if starts_with(t, "- "@) {
        prefix + "- "@ + trim(strip_repeated(t, "- "@))
    } else if starts_with(t, "-"@) && !starts_with(t, "--"@) {
        prefix + "- "@ + trim(t.skip(lead_run(t, '-') as int))
    } else if has_char(t, ':') {
        let k = index_of_char_from(t, ':', 0)->0;
        let key = trim(t.take(k));
        let value = trim(t.skip(k + 1));
        if value.len() == 0 {
            prefix + key + ":"@
        } else {
            prefix + key + ": "@ + value
        }
    } else {
        prefix + t
    }
}

/// One line of YAML, formatted: blank lines become empty, comments get one
/// space after `#`, other lines are re-indented and tidied.
pub open spec fn yaml_line(line: Seq<char>) -> Seq<char> {
    let t = trim(line);
    if t.len() == 0 {
        Seq::empty()
    } else if starts_with(t, "#"@) {
        "# "@ + trim_start(t.skip(lead_run(t, '#') as int))
    } else {
        yaml_line_text(t, indent_of(line))
    }
}

/// Each line formatted.
pub open spec fn yaml_lines(ls: Seq<Seq<char>>) -> Seq<Seq<char>> {
    ls.map_values(|l: Seq<char>| yaml_line(l))
}

/// Lines joined with `\n`.
pub open spec fn join_lines(ls: Seq<Seq<char>>) -> Seq<char>
    decreases ls.len(),
{
    if ls.len() == 0 {
        Seq::empty()
    } else if ls.len() == 1 {
        ls[0]
    } else {
        join_lines(ls.drop_last()) + "\n"@ + ls.last()
    }
}

/// The formatted document: its lines formatted and joined, trailing
/// whitespace dropped, and one final newline.
pub open spec fn yaml_formatted(content: Seq<char>) -> Seq<char> {
    trim_end(join_lines(yaml_lines(lines(content)))) + "\n"@
}

// ---------------------------------------------------------------------------
// Checking
// ---------------------------------------------------------------------------

/// A trimmed line that the syntax check reads (not blank, not a comment).
pub open spec fn checked_line(t: Seq<char>) -> bool {
    !(t.len() == 0 || starts_with(t, "#"@))
}

/// How often `c` occurs in `s`.
pub open spec fn count_char(s: Seq<char>, c: char) -> nat
    decreases s.len(),
{
    if s.len() == 0 {
        0
    } else {
        count_char(s.drop_last(), c) + if s.last() == c {
            1nat
        } else {
            0nat
        }
    }
}

/// Openings minus closings over the checked lines.
pub open spec fn balance(ls: Seq<Seq<char>>, open: char, close: char) -> int
    decreases ls.len(),
{
    if ls.len() == 0 {
        0
    } else {
        let t = trim(ls.last());
        balance(ls.drop_last(), open, close) + if checked_line(t) {
            count_char(t, open) - count_char(t, close)
        } else {
            0
        }
    }
}

/// The first checked line with a tab after a colon.
pub open spec fn first_tab_line(ls: Seq<Seq<char>>) -> Option<int>
    decreases ls.len(),
{
    if ls.len() == 0 {
        None
    } else {
        match first_tab_line(ls.drop_last()) {
            Some(i) => Some(i),
            None => {
                let t = trim(ls.last());
                if checked_line(t) && contains(t, ":\t"@) {
                    Some(ls.len() - 1)
                } else {
                    None
                }
            },
        }
    }
}

/// What is wrong with the document, if anything: a tab after a colon (the
/// first such line, counted from 1), unmatched braces, unmatched brackets.
pub open spec fn yaml_problem(content: Seq<char>) -> Option<Seq<char>> {
    let ls = lines(content);
    match first_tab_line(ls) {
        Some(i) => Some(
            "YAML syntax error at line "@ + decimal((i + 1) as nat) + ": Use spaces instead of tabs after colon"@,
        ),
        None => if balance(ls, '{', '}') != 0 {
            Some("YAML syntax error: Unmatched braces {}"@)
        } else if balance(ls, '[', ']') != 0 {
            Some("YAML syntax error: Unmatched brackets []"@)
        } else {
            None
        },
    }
}

/// Constructs whose use in YAML deserves a second look.
pub open spec fn risky_patterns() -> Seq<Seq<char>> {
    seq!["!!python/"@, "!!java/"@, "&\\w+"@, "\\*\\w+"@]
}

pub open spec fn risky_warnings() -> Seq<Seq<char>> {
    seq![
        "Potentially dangerous Python object deserialization"@,
        "Potentially dangerous Java object deserialization"@,
        "YAML anchors detected - verify they're used safely"@,
        "YAML aliases detected - verify they're used safely"@,
    ]
}

/// The warnings of the first `n` risky constructs that occur in `content`, in order.
pub open spec fn security_warnings(content: Seq<char>, n: nat) -> Seq<Seq<char>>
    decreases n,
{
    if n == 0 {
        Seq::empty()
    } else {
        let r = security_warnings(content, (n - 1) as nat);
        if regex_found(risky_patterns()[n - 1], content) {
            r.push(risky_warnings()[n - 1])
        } else {
            r
        }
    }
}

/// Each text with `pre` in front.
pub open spec fn prefixed_all(pre: Seq<char>, ms: Seq<Seq<char>>) -> Seq<Seq<char>> {
    ms.map_values(|m: Seq<char>| pre + m)
}

// ---------------------------------------------------------------------------
// The formatter
// ---------------------------------------------------------------------------

/// YAML formatter written here, with a syntax and security check.
pub struct YamlFormatter;

impl YamlFormatter {
    pub fn new() -> (r: YamlFormatter) {
        YamlFormatter
    }

    pub fn language(&self) -> (r: SupportedLanguage)
        ensures
            r == SupportedLanguage::Yaml,
    {
        SupportedLanguage::Yaml
    }

    /// Always: the formatter needs no outside tool.
    pub fn is_available(&self) -> (r: bool)
        ensures
            r,
    {
        true
    }

    pub fn formatter_info(&self) -> (r: String)
        ensures
            r@ == "Built-in YAML formatter with security checking"@,
    {
        owned("Built-in YAML formatter with security checking")
    }

    /// Formats one trimmed, non-comment line at the given indentation.
    pub fn format_yaml_line(&self, line: &str, indent: u128) -> (r: String)
        ensures
            r@ == yaml_line_text(line@, indent as nat),
    {
        let t = chars_of(line);
        let v = line_text(t.as_slice(), indent);
        string_of(v.as_slice())
    }

    /// Checks brace and bracket balance and tabs after colons.
    pub fn validate_yaml_syntax(&self, content: &str) -> (r: Result<(), String>)
        ensures
            match r {
                Ok(()) => yaml_problem(content@) is None,
                Err(e) => yaml_problem(content@) == Some(e@),
            },
    {
        let cc = chars_of(content);
        let n_chars = cc.len();
        assert(n_chars == content@.len());
        let ls = lines_of(cc.as_slice());
        let ghost lv = lines(content@);
        proof {
            lemma_lines_total(content@);
        }
        assert(content@.len() <= usize::MAX);
        let mut braces: i128 = 0;
        let mut brackets: i128 = 0;
        let mut i: usize = 0;
        while i < ls.len()
            invariant
                i <= ls@.len(),
                lv == lines(content@),
                lv.len() == ls@.len(),
                forall|j: int| 0 <= j < ls@.len() ==> (#[trigger] ls@[j])@ == lv[j],
                total_len(lv) <= content@.len(),
                content@.len() <= usize::MAX,
                first_tab_line(lv.take(i as int)) is None,
                braces == balance(lv.take(i as int), '{', '}'),
                brackets == balance(lv.take(i as int), '[', ']'),
                -total_len(lv.take(i as int)) <= braces <= total_len(lv.take(i as int)),
                -total_len(lv.take(i as int)) <= brackets <= total_len(lv.take(i as int)),
            decreases ls@.len() - i,
        {
            let ghost pre = lv.take(i as int);
            let ghost next = lv.take(i + 1);
            assert(next.drop_last() == pre);
            assert(next.last() == lv[i as int]);
            proof {
                lemma_total_prefix(lv, i as int + 1);
            }
            let t = trim_chars(ls[i].as_slice());
            proof {
                lemma_trim_shorter(lv[i as int]);
                assert(total_len(next) == total_len(pre) + lv[i as int].len());
            }
            let checked = !(t.len() == 0 || starts_with_lit(t.as_slice(), "#"));
            if checked {
                let (o1, c1) = count_pair(t.as_slice(), '{', '}');
                let (o2, c2) = count_pair(t.as_slice(), '[', ']');
                braces = braces + o1 as i128 - c1 as i128;
                brackets = brackets + o2 as i128 - c2 as i128;
                if contains_lit(t.as_slice(), ":\t") {
                    proof {
                        lemma_first_tab_prefix(lv, i as int + 1);
                    }
                    let n = decimal_exec(i + 1);
                    return Err(concat3(
                        "YAML syntax error at line ",
                        n.as_slice(),
                        ": Use spaces instead of tabs after colon",
                    ));
                }
            }
            i = i + 1;
        }
        assert(lv.take(ls@.len() as int) == lv);
        if braces != 0 {
            return Err(owned("YAML syntax error: Unmatched braces {}"));
        }
        if brackets != 0 {
            return Err(owned("YAML syntax error: Unmatched brackets []"));
        }
        Ok(())
    }

    /// The document formatted, when its syntax passes the check.
    pub fn format_yaml_content(&self, content: &str) -> (r: Result<String, String>)
        ensures
            match r {
                Ok(s) => yaml_problem(content@) is None && s@ == yaml_formatted(content@),
                Err(e) => yaml_problem(content@) == Some(e@),
            },
    {
        match self.validate_yaml_syntax(content) {
            Err(e) => {
                return Err(e);
            },
            Ok(()) => {},
        }
        let ls = lines_of(chars_of(content).as_slice());
        let ghost lv = lines(content@);
        let ghost fv = yaml_lines(lv);
        let mut formatted: Vec<Vec<char>> = Vec::new();
        let mut i: usize = 0;
        while i < ls.len()
            invariant
                i <= ls@.len(),
                lv == lines(content@),
                fv == yaml_lines(lv),
                lv.len() == ls@.len(),
                forall|j: int| 0 <= j < ls@.len() ==> (#[trigger] ls@[j])@ == lv[j],
                views(formatted@) == fv.take(i as int),
            decreases ls@.len() - i,
        {
            let f = format_line(ls[i].as_slice());
            assert(f@ == fv[i as int]);
            let ghost before = formatted@;
            formatted.push(f);
            proof {
                crate::strings::lemma_views_push(before, f);
            }
            assert(views(formatted@) =~= fv.take(i + 1));
            i = i + 1;
        }
        assert(fv.take(ls@.len() as int) == fv);
        let out = join_lines_exec(&formatted);
        let ghost joined = out@;
        let kept = trim_end_chars(out.as_slice());
        let mut res = kept;
        res.push('\n');
        proof {
            reveal_strlit("\n");
        }
        assert(res@ =~= trim_end(joined) + "\n"@);
        Ok(string_of(res.as_slice()))
    }

    /// The warnings for the risky constructs that occur, in order.
    pub fn check_yaml_security(&self, content: &str) -> (r: Vec<String>)
        ensures
            strs(r@) == security_warnings(content@, 4),
    {
        let pats: [&str; 4] = ["!!python/", "!!java/", "&\\w+", "\\*\\w+"];
        let warns: [&str; 4] = [
            "Potentially dangerous Python object deserialization",
            "Potentially dangerous Java object deserialization",
            "YAML anchors detected - verify they're used safely",
            "YAML aliases detected - verify they're used safely",
        ];
        assert(pats@.map_values(|x: &str| x@) =~= risky_patterns());
        assert(warns@.map_values(|x: &str| x@) =~= risky_warnings());
        let mut out: Vec<String> = Vec::new();
        let mut i: usize = 0;
        while i < 4
            invariant
                i <= 4,
                pats@.map_values(|x: &str| x@) == risky_patterns(),
                warns@.map_values(|x: &str| x@) == risky_warnings(),
                strs(out@) == security_warnings(content@, i as nat),
            decreases 4 - i,
        {
            assert(pats@[i as int]@ == risky_patterns()[i as int]);
            assert(warns@[i as int]@ == risky_warnings()[i as int]);
            if regex_is_match(pats[i], content) {
                let ghost before = out@;
                let w = owned(warns[i]);
                out.push(w);
                proof {
                    lemma_strs_push(before, w);
                }
            }
            i = i + 1;
        }
        out
    }

    /// Formats a YAML document. Security warnings come first; a document
    /// that fails the syntax check is left as it is, with the reason; else
    /// it is formatted, and counts as changed when the formatted text,
    /// trimmed, differs from the input, trimmed.
    pub fn format_code(&self, content: &str) -> (r: Result<FormatResult, FormatterError>)
        ensures
            r is Ok,
            r matches Ok(res) && ({
                let warnings = prefixed_all("YAML security warning: "@, security_warnings(content@, 4));
                match yaml_problem(content@) {
                    Some(e) => res.original@ == content@ && res.formatted@ == content@ && !res.changed
                        && strs(res.messages@) == warnings.push("YAML syntax error: "@ + e),
                    None => res.original@ == content@ && res.formatted@ == yaml_formatted(content@)
                        && res.changed == (trim(yaml_formatted(content@)) != trim(content@))
                        && strs(res.messages@) == warnings,
                }
            }),
    {
        let warnings = self.check_yaml_security(content);
        let mut messages: Vec<String> = Vec::new();
        let mut i: usize = 0;
        while i < warnings.len()
            invariant
                i <= warnings@.len(),
                strs(messages@) == prefixed_all("YAML security warning: "@, strs(warnings@).take(i as int)),
            decreases warnings@.len() - i,
        {
            let ghost before = messages@;
            let m = cat("YAML security warning: ", warnings[i].as_str());
            messages.push(m);
            proof {
                lemma_strs_push(before, m);
            }
            assert(prefixed_all("YAML security warning: "@, strs(warnings@).take(i + 1)) =~= prefixed_all(
                "YAML security warning: "@,
                strs(warnings@).take(i as int),
            ).push("YAML security warning: "@ + warnings@[i as int]@));
            i = i + 1;
        }
        assert(strs(warnings@).take(warnings@.len() as int) == strs(warnings@));
        match self.validate_yaml_syntax(content) {
            Err(e) => {
                let ghost before = messages@;
                let m = cat("YAML syntax error: ", e.as_str());
                messages.push(m);
                proof {
                    lemma_strs_push(before, m);
                }
                return Ok(FormatResult {
                    original: owned(content),
                    formatted: owned(content),
                    changed: false,
                    messages,
                });
            },
            Ok(()) => {},
        }
        match self.format_yaml_content(content) {
            Ok(formatted) => {
                let f = trim_chars(chars_of(formatted.as_str()).as_slice());
                let c = trim_chars(chars_of(content).as_slice());
                let changed = !crate::strings::chars_eq(f.as_slice(), c.as_slice());
                Ok(FormatResult { original: owned(content), formatted, changed, messages })
            },
            Err(e) => {
                let ghost before = messages@;
                let m = cat("YAML formatting error: ", e.as_str());
                messages.push(m);
                proof {
                    lemma_strs_push(before, m);
                }
                Ok(FormatResult {
                    original: owned(content),
                    formatted: owned(content),
                    changed: false,
                    messages,
                })
            },
        }
    }
}

impl Default for YamlFormatter {
    fn default() -> (r: YamlFormatter) {
        YamlFormatter::new()
    }
}

// ---------------------------------------------------------------------------
// Executable pieces
// ---------------------------------------------------------------------------

/// Lines joined with `\n`.
fn join_lines_exec(ls: &Vec<Vec<char>>) -> (r: Vec<char>)
    ensures
        r@ == join_lines(views(ls@)),
{
    proof {
        reveal_strlit("\n");
    }
    let ghost lv = views(ls@);
    let mut out: Vec<char> = Vec::new();
    let mut i: usize = 0;
    while i < ls.len()
        invariant
            i <= ls@.len(),
            lv == views(ls@),
            out@ == join_lines(lv.take(i as int)),
        decreases ls@.len() - i,
    {
        let ghost before = out@;
        let ghost next = lv.take(i + 1);
        assert(next.drop_last() == lv.take(i as int));
        assert(next.last() == ls@[i as int]@);
        if i > 0 {
            out.push('\n');
        }
        let mut k: usize = 0;
        let ghost mid = out@;
        while k < ls[i].len()
            invariant
                i < ls@.len(),
                k <= ls@[i as int]@.len(),
                out@ == mid + ls@[i as int]@.take(k as int),
            decreases ls@[i as int]@.len() - k,
        {
            out.push(ls[i][k]);
            assert(ls@[i as int]@.take(k + 1) == ls@[i as int]@.take(k as int).push(ls@[i as int]@[k as int]));
            k = k + 1;
        }
        assert(ls@[i as int]@.take(ls@[i as int]@.len() as int) == ls@[i as int]@);
        proof {
            reveal_strlit("\n");
        }
        if i == 0 {
            assert(out@ =~= next[0]);
        } else {
            assert(out@ =~= before + "\n"@ + next.last());
        }
        i = i + 1;
    }
    assert(lv.take(ls@.len() as int) == lv);
    out
}

/// The indentation a line gets.
fn line_indent(line: &[char]) -> (r: u128)
    ensures
        r == indent_of(line@),
{
    let (a, _b) = trim_bounds(line);
    let ghost lead = line@.take(a as int);
    let mut n: u128 = 0;
    let mut i: usize = 0;
    while i < a
        invariant
            i <= a,
            a <= line@.len(),
            lead == line@.take(a as int),
            n == utf8_size(lead.take(i as int)),
            n <= 4 * i,
        decreases a - i,
    {
        assert(lead.take(i + 1).drop_last() == lead.take(i as int));
        assert(lead.take(i + 1).last() == line@[i as int]);
        n = n + char_width(line[i]);
        i = i + 1;
    }
    assert(lead.take(a as int) == lead);
    if n == 0 {
        0
    } else {
        ((n + 1) / 2) * 2
    }
}

/// `n` spaces followed by `rest`.
fn indented(n: u128, rest: &[char]) -> (r: Vec<char>)
    ensures
        r@ == spaces(n as nat) + rest@,
{
    let mut out: Vec<char> = Vec::new();
    let mut i: u128 = 0;
    while i < n
        invariant
            i <= n,
            out@ == spaces(i as nat),
        decreases n - i,
    {
        out.push(' ');
        assert(out@ =~= spaces((i + 1) as nat));
        i = i + 1;
    }
    let mut j: usize = 0;
    let ghost mid = out@;
    while j < rest.len()
        invariant
            j <= rest@.len(),
            out@ == mid + rest@.take(j as int),
        decreases rest@.len() - j,
    {
        out.push(rest[j]);
        assert(rest@.take(j + 1) == rest@.take(j as int).push(rest@[j as int]));
        j = j + 1;
    }
    assert(rest@.take(rest@.len() as int) == rest@);
    out
}

/// `a` then `b` then `c`.
fn join3(a: &[char], b: &[char], c: &[char]) -> (r: Vec<char>)
    ensures
        r@ == a@ + b@ + c@,
{
    let mut out: Vec<char> = slice_chars(a, 0, a.len());
    assert(a@.subrange(0, a@.len() as int) == a@);
    let mut j: usize = 0;
    let ghost m1 = out@;
    while j < b.len()
        invariant
            j <= b@.len(),
            out@ == m1 + b@.take(j as int),
        decreases b@.len() - j,
    {
        out.push(b[j]);
        assert(b@.take(j + 1) == b@.take(j as int).push(b@[j as int]));
        j = j + 1;
    }
    assert(b@.take(b@.len() as int) == b@);
    let mut k: usize = 0;
    let ghost m2 = out@;
    while k < c.len()
        invariant
            k <= c@.len(),
            out@ == m2 + c@.take(k as int),
        decreases c@.len() - k,
    {
        out.push(c[k]);
        assert(c@.take(k + 1) == c@.take(k as int).push(c@[k as int]));
        k = k + 1;
    }
    assert(c@.take(c@.len() as int) == c@);
    out
}

/// Formats one trimmed, non-comment line at the given indentation.
fn line_text(t: &[char], indent: u128) -> (r: Vec<char>)
    ensures
        r@ == yaml_line_text(t@, indent as nat),
{
    proof {
        reveal_strlit("- ");
        reveal_strlit("-");
        reveal_strlit("--");
        reveal_strlit(":");
        reveal_strlit(": ");
    }
    if starts_with_lit(t, "- ") {
        let body = strip_repeated_exec(t, chars_of("- ").as_slice());
        let content = trim_chars(body.as_slice());
        let rest = join3(chars_of("- ").as_slice(), content.as_slice(), &[]);
        assert(rest@ =~= "- "@ + content@);
        let r = indented(indent, rest.as_slice());
        assert(r@ =~= spaces(indent as nat) + "- "@ + content@);
        return r;
    }
    if starts_with_lit(t, "-") && !starts_with_lit(t, "--") {
        let n = lead_count(t, '-');
        let body = slice_chars(t, n, t.len());
        let content = trim_chars(body.as_slice());
        let rest = join3(chars_of("- ").as_slice(), content.as_slice(), &[]);
        assert(rest@ =~= "- "@ + content@);
        let r = indented(indent, rest.as_slice());
        assert(r@ =~= spaces(indent as nat) + "- "@ + content@);
        return r;
    }
    if has_char_exec(t, ':') {
        let k = first_colon(t);
        assert(k < t.len());
        let key = trim_chars(slice_chars(t, 0, k).as_slice());
        let value = trim_chars(slice_chars(t, k + 1, t.len()).as_slice());
        assert(t@.subrange(0, k as int) == t@.take(k as int));
        assert(t@.subrange(k + 1, t@.len() as int) == t@.skip(k + 1));
        if value.len() == 0 {
            let rest = join3(key.as_slice(), chars_of(":").as_slice(), &[]);
            let r = indented(indent, rest.as_slice());
            assert(r@ =~= spaces(indent as nat) + key@ + ":"@);
            return r;
        } else {
            let rest = join3(key.as_slice(), chars_of(": ").as_slice(), value.as_slice());
            let r = indented(indent, rest.as_slice());
            assert(r@ =~= spaces(indent as nat) + key@ + ": "@ + value@);
            return r;
        }
    }
    indented(indent, t)
}

/// Number of leading `c`s.
fn lead_count(s: &[char], c: char) -> (r: usize)
    ensures
        r == lead_run(s@, c),
        r <= s@.len(),
{
    let mut i: usize = 0;
    assert(s@.skip(0) == s@);
    while i < s.len() && s[i] == c
        invariant
            i <= s@.len(),
            lead_run(s@, c) == i + lead_run(s@.skip(i as int), c),
        decreases s@.len() - i,
    {
        assert(s@.skip(i as int).drop_first() == s@.skip(i + 1));
        i = i + 1;
    }
    i
}

/// Index of the first `:` of a line that has one.
fn first_colon(t: &[char]) -> (r: usize)
    requires
        has_char(t@, ':'),
    ensures
        index_of_char_from(t@, ':', 0) == Some(r as int),
        r < t@.len(),
{
    let mut i: usize = 0;
    while i < t.len() && t[i] != ':'
        invariant
            i <= t@.len(),
            has_char(t@, ':'),
            index_of_char_from(t@, ':', 0) == index_of_char_from(t@, ':', i as int),
            forall|j: int| 0 <= j < i ==> t@[j] != ':',
        decreases t@.len() - i,
    {
        i = i + 1;
    }
    i
}

/// One line of YAML, formatted.
fn format_line(line: &[char]) -> (r: Vec<char>)
    ensures
        r@ == yaml_line(line@),
{
    let t = trim_chars(line);
    if t.len() == 0 {
        return Vec::new();
    }
    if starts_with_lit(t.as_slice(), "#") {
        let n = lead_count(t.as_slice(), '#');
        let body = slice_chars(t.as_slice(), n, t.len());
        let (a, _b) = trim_bounds(body.as_slice());
        proof {
            lemma_lead_ws_bound(body@);
        }
        let text = slice_chars(body.as_slice(), a, body.len());
        assert(text@ == trim_start(body@));
        let r = join3(chars_of("# ").as_slice(), text.as_slice(), &[]);
        assert(r@ =~= "# "@ + trim_start(t@.skip(lead_run(t@, '#') as int)));
        return r;
    }
    let indent = line_indent(line);
    line_text(t.as_slice(), indent)
}

/// How often `open` and `close` occur.
fn count_pair(s: &[char], open: char, close: char) -> (r: (u128, u128))
    ensures
        r.0 == count_char(s@, open),
        r.1 == count_char(s@, close),
        r.0 <= s@.len(),
        r.1 <= s@.len(),
{
    let mut o: u128 = 0;
    let mut c: u128 = 0;
    let mut i: usize = 0;
    while i < s.len()
        invariant
            i <= s@.len(),
            o == count_char(s@.take(i as int), open),
            c == count_char(s@.take(i as int), close),
            o <= i,
            c <= i,
        decreases s@.len() - i,
    {
        assert(s@.take(i + 1).drop_last() == s@.take(i as int));
        assert(s@.take(i + 1).last() == s@[i as int]);
        if s[i] == open {
            o = o + 1;
        }
        if s[i] == close {
            c = c + 1;
        }
        i = i + 1;
    }
    assert(s@.take(s@.len() as int) == s@);
    (o, c)
}

// ---------------------------------------------------------------------------
// Lemmas
// ---------------------------------------------------------------------------

/// The summed lengths of lines.
pub open spec fn total_len(ls: Seq<Seq<char>>) -> nat
    decreases ls.len(),
{
    if ls.len() == 0 {
        0
    } else {
        total_len(ls.drop_last()) + ls.last().len()
    }
}

proof fn lemma_total_concat(a: Seq<Seq<char>>, b: Seq<Seq<char>>)
    ensures
        total_len(a + b) == total_len(a) + total_len(b),
    decreases b.len(),
{
    if b.len() == 0 {
        assert(a + b == a);
    } else {
        lemma_total_concat(a, b.drop_last());
        assert((a + b).drop_last() == a + b.drop_last());
    }
}

proof fn lemma_total_prefix(ls: Seq<Seq<char>>, n: int)
    requires
        0 <= n <= ls.len(),
    ensures
        total_len(ls.take(n)) <= total_len(ls),
    decreases ls.len(),
{
    if n < ls.len() {
        assert(ls.drop_last().take(n) == ls.take(n));
        lemma_total_prefix(ls.drop_last(), n);
    } else {
        assert(ls.take(n) == ls);
    }
}

/// The lines of a text are no longer, together, than the text.
proof fn lemma_lines_total(s: Seq<char>)
    ensures
        total_len(lines(s)) <= s.len(),
    decreases s.len(),
{
    if s.len() > 0 {
        match index_of_char_from(s, '\n', 0) {
            None => {
                assert(lines(s) == seq![s]);
                assert(seq![s].drop_last() == Seq::<Seq<char>>::empty());
                assert(total_len(seq![s]) == total_len(Seq::<Seq<char>>::empty()) + s.len());
            },
            Some(k) => {
                if 0 <= k < s.len() {
                    let first = crate::strings::strip_cr(s.take(k));
                    assert(lines(s) == seq![first] + lines(s.skip(k + 1)));
                    lemma_lines_total(s.skip(k + 1));
                    lemma_total_concat(seq![first], lines(s.skip(k + 1)));
                    assert(seq![first].drop_last() == Seq::<Seq<char>>::empty());
                    assert(total_len(seq![first]) == total_len(Seq::<Seq<char>>::empty()) + first.len());
                    assert(first.len() <= k);
                }
            },
        }
    }
}

proof fn lemma_trim_shorter(s: Seq<char>)
    ensures
        trim(s).len() <= s.len(),
{
    crate::strings::lemma_lead_ws_bound(s);
    crate::strings::lemma_trail_ws_bound(trim_start(s));
}

/// The first tab line of a prefix, when there is one, is that of the whole.
proof fn lemma_first_tab_prefix(ls: Seq<Seq<char>>, n: int)
    requires
        0 < n <= ls.len(),
        first_tab_line(ls.take(n - 1)) is None,
        checked_line(trim(ls[n - 1])) && contains(trim(ls[n - 1]), ":\t"@),
    ensures
        first_tab_line(ls) == Some(n - 1),
    decreases ls.len(),
{
    if n < ls.len() {
        assert(ls.drop_last().take(n - 1) == ls.take(n - 1));
        assert(ls.drop_last()[n - 1] == ls[n - 1]);
        lemma_first_tab_prefix(ls.drop_last(), n);
    } else {
        assert(ls.take(n).drop_last() == ls.take(n - 1));
        assert(ls.take(n) == ls);
    }
}

} // verus!
