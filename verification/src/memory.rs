use vstd::prelude::*;
use crate::strings::{
    all_digits, append_chars, append_str, chars_of, decimal, decimal_exec, digits_value, flat_map_chars, has_char,
    string_of, trim, trim_chars,
};

verus! {

// ---------------------------------------------------------------------------
// Reading numbers
// ---------------------------------------------------------------------------

/// `str::parse::<usize>`: an optional `+`, then one or more ASCII digits, and
/// a value that fits.
pub open spec fn parse_usize(s: Seq<char>) -> Option<nat> {
    let body = if s.len() > 0 && s[0] == '+' {
        s.drop_first()
    } else {
        s
    };
    if body.len() == 0 || !all_digits(body) || digits_value(body) > usize::MAX {
        None
    } else {
        Some(digits_value(body) as nat)
    }
}

/// `str::parse::<i64>`: an optional `+` or `-`, then one or more ASCII
/// digits, and a value that fits.
pub open spec fn parse_i64(s: Seq<char>) -> Option<int> {
    let neg = s.len() > 0 && s[0] == '-';
    let body = if s.len() > 0 && (s[0] == '-' || s[0] == '+') {
        s.drop_first()
    } else {
        s
    };
    let v = if neg {
        -digits_value(body)
    } else {
        digits_value(body)
    };
    if body.len() == 0 || !all_digits(body) || v < i64::MIN || v > i64::MAX {
        None
    } else {
        Some(v)
    }
}

proof fn lemma_digits_prefix(s: Seq<char>, k: int)
    requires
        0 <= k <= s.len(),
        all_digits(s),
    ensures
        0 <= digits_value(s.take(k)) <= digits_value(s),
    decreases s.len() - k,
{
    if k < s.len() {
        lemma_digits_prefix(s, k + 1);
        assert(s.take(k + 1).drop_last() == s.take(k));
        let v = digits_value(s.take(k));
        assert(0 <= v ==> v <= 10 * v) by (nonlinear_arith);
    } else {
        assert(s.take(k) == s);
        lemma_digits_nonneg(s, s.len() as int);
    }
}

proof fn lemma_digits_nonneg(s: Seq<char>, n: int)
    requires
        0 <= n <= s.len(),
        all_digits(s),
    ensures
        0 <= digits_value(s.take(n)),
    decreases n,
{
    if n > 0 {
        lemma_digits_nonneg(s, n - 1);
        assert(s.take(n).drop_last() == s.take(n - 1));
    } else {
        assert(s.take(0) =~= Seq::<char>::empty());
    }
}

/// The value of the digits `s[start..]` when they are one or more ASCII
/// digits worth at most `cap`.
fn digits_upto(s: &[char], start: usize, cap: u64) -> (r: Option<u64>)
    requires
        start <= s@.len(),
        cap >= 9,
    ensures
        ({
            let body = s@.skip(start as int);
            match r {
                Some(v) => body.len() > 0 && all_digits(body) && v == digits_value(body) && v <= cap,
                None => body.len() == 0 || !all_digits(body) || digits_value(body) > cap,
            }
        }),
{
    let ghost body = s@.skip(start as int);
    if start >= s.len() {
        return None;
    }
    let mut acc: u64 = 0;
    let mut i: usize = start;
    assert(body.take(0) =~= Seq::<char>::empty());
    while i < s.len()
        invariant
            start <= i <= s@.len(),
            body == s@.skip(start as int),
            acc == digits_value(body.take(i - start)),
            acc <= cap,
            cap >= 9,
            all_digits(body.take(i - start)),
        decreases s@.len() - i,
    {
        let c = s[i];
        assert(body.take(i + 1 - start).drop_last() == body.take(i - start));
        assert(body.take(i + 1 - start).last() == c);
        if !('0' <= c && c <= '9') {
            assert(body[i - start] == c);
            return None;
        }
        let d: u64 = (c as u32 - 48) as u64;
        assert(d == c as int - '0' as int);
        if acc > (cap - d) / 10 {
            proof {
                assert(all_digits(body.take(i + 1 - start))) by {
                    assert forall|j: int| 0 <= j < body.take(i + 1 - start).len() implies '0' <= #[trigger] body.take(
                        i + 1 - start,
                    )[j] && body.take(i + 1 - start)[j] <= '9' by {
                        if j < i - start {
                            assert(body.take(i + 1 - start)[j] == body.take(i - start)[j]);
                        }
                    }
                }
                assert(digits_value(body.take(i + 1 - start)) == 10 * acc + d);
                assert(10 * acc + d > cap) by (nonlinear_arith)
                    requires
                        acc > (cap - d) / 10,
                        d <= 9,
                        d <= cap,
                ;
                if all_digits(body) {
                    lemma_digits_prefix(body, i + 1 - start);
                }
            }
            return None;
        }
        assert(10 * acc + d <= cap) by (nonlinear_arith)
            requires
                acc <= (cap - d) / 10,
                d <= 9,
        ;
        acc = acc * 10 + d;
        i = i + 1;
        proof {
            assert forall|j: int| 0 <= j < body.take(i - start).len() implies '0' <= #[trigger] body.take(
                i - start,
            )[j] && body.take(i - start)[j] <= '9' by {
                if j < i - 1 - start {
                    assert(body.take(i - start)[j] == body.take(i - 1 - start)[j]);
                }
            }
        }
    }
    assert(body.take(s@.len() - start) == body);
    Some(acc)
}

/// `str::parse::<usize>` on characters.
pub fn parse_usize_exec(s: &[char]) -> (r: Option<usize>)
    ensures
        match r {
            Some(v) => parse_usize(s@) == Some(v as nat),
            None => parse_usize(s@) is None,
        },
{
    let start: usize = if s.len() > 0 && s[0] == '+' {
        1
    } else {
        0
    };
    assert(s@.skip(start as int) == (if s@.len() > 0 && s@[0] == '+' {
        s@.drop_first()
    } else {
        s@
    }));
    match digits_upto(s, start, usize::MAX as u64) {
        Some(v) => Some(v as usize),
        None => None,
    }
}

/// `str::parse::<i64>` on characters.
pub fn parse_i64_exec(s: &[char]) -> (r: Option<i64>)
    ensures
        match r {
            Some(v) => parse_i64(s@) == Some(v as int),
            None => parse_i64(s@) is None,
        },
{
    let neg = s.len() > 0 && s[0] == '-';
    let start: usize = if s.len() > 0 && (s[0] == '-' || s[0] == '+') {
        1
    } else {
        0
    };
    let ghost body = if s@.len() > 0 && (s@[0] == '-' || s@[0] == '+') {
        s@.drop_first()
    } else {
        s@
    };
    assert(s@.skip(start as int) == body);
    let cap: u64 = if neg {
        9223372036854775808
    } else {
        9223372036854775807
    };
    match digits_upto(s, start, cap) {
        Some(v) => {
            if neg {
                if v == 9223372036854775808 {
                    Some(i64::MIN)
                } else {
                    Some(-(v as i64))
                }
            } else {
                Some(v as i64)
            }
        },
        None => None,
    }
}

// ---------------------------------------------------------------------------
// Input size limits
// ---------------------------------------------------------------------------

/// Default largest hook input read from standard input, in bytes.
pub const DEFAULT_MAX_STDIN_SIZE: usize = 51_200;

/// Smallest allowed setting of the input limit, in bytes.
pub const MIN_STDIN_SIZE: usize = 1_024;

/// Largest allowed setting of the input limit, in bytes.
pub const MAX_STDIN_SIZE: usize = 1_048_576;

/// A setting of the input limit, kept when it lies in the allowed range.
pub open spec fn stdin_size(size: nat) -> nat {
    if MIN_STDIN_SIZE <= size <= MAX_STDIN_SIZE {
        size
    } else {
        DEFAULT_MAX_STDIN_SIZE as nat
    }
}

/// The input limit for a setting: kept when it lies in the allowed range,
/// otherwise the default.
pub fn validate_stdin_size(size: usize) -> (r: usize)
    ensures
        r as nat == stdin_size(size as nat),
{
    if size >= MIN_STDIN_SIZE && size <= MAX_STDIN_SIZE {
        size
    } else {
        DEFAULT_MAX_STDIN_SIZE
    }
}

/// The input limit for the value of its setting, if set: the trimmed value
/// read as a size and checked against the allowed range; the default when it
/// is unset, blank or not a size.
pub open spec fn max_stdin_size_for(value: Option<Seq<char>>) -> nat {
    match value {
        None => DEFAULT_MAX_STDIN_SIZE as nat,
        Some(v) => {
            let t = trim(v);
            if t.len() == 0 {
                DEFAULT_MAX_STDIN_SIZE as nat
            } else {
                match parse_usize(t) {
                    Some(n) => stdin_size(n),
                    None => DEFAULT_MAX_STDIN_SIZE as nat,
                }
            }
        },
    }
}

/// The input limit for the value of its setting (`None` when unset).
pub fn parse_max_stdin_size(value: Option<&str>) -> (r: usize)
    ensures
        r as nat == max_stdin_size_for(
            match value {
                Some(v) => Some(v@),
                None => None,
            },
        ),
{
    match value {
        None => DEFAULT_MAX_STDIN_SIZE,
        Some(v) => {
            let c = chars_of(v);
            let t = trim_chars(c.as_slice());
            if t.len() == 0 {
                return DEFAULT_MAX_STDIN_SIZE;
            }
            match parse_usize_exec(t.as_slice()) {
                Some(n) => validate_stdin_size(n),
                None => DEFAULT_MAX_STDIN_SIZE,
            }
        },
    }
}

/// Default largest memory file, in bytes.
pub const DEFAULT_MAX_XML_SIZE: usize = 52_428_800;

/// Smallest memory file accepted, in bytes.
pub const MIN_XML_SIZE: usize = 100;

/// The memory file limit for a setting's value: its trimmed value read as a
/// signed number, rejected (giving the default) when blank, not a number,
/// negative, above `usize::MAX as i64` or below the minimum.
pub open spec fn xml_size_for(val: Seq<char>) -> nat {
    let t = trim(val);
    if t.len() == 0 {
        DEFAULT_MAX_XML_SIZE as nat
    } else {
        match parse_i64(t) {
            None => DEFAULT_MAX_XML_SIZE as nat,
            Some(size) => {
                if size < 0 || size > (usize::MAX as i64) {
                    DEFAULT_MAX_XML_SIZE as nat
                } else if size < MIN_XML_SIZE {
                    DEFAULT_MAX_XML_SIZE as nat
                } else {
                    size as nat
                }
            },
        }
    }
}

/// The memory file limit for a setting's value.
pub fn parse_xml_size_value(val: &str) -> (r: usize)
    ensures
        r as nat == xml_size_for(val@),
{
    let c = chars_of(val);
    let t = trim_chars(c.as_slice());
    if t.len() == 0 {
        return DEFAULT_MAX_XML_SIZE;
    }
    match parse_i64_exec(t.as_slice()) {
        None => DEFAULT_MAX_XML_SIZE,
        Some(size) => {
            let limit: i64 = usize::MAX as i64;
            if size < 0 || size > limit {
                DEFAULT_MAX_XML_SIZE
            } else if size < MIN_XML_SIZE as i64 {
                DEFAULT_MAX_XML_SIZE
            } else {
                size as usize
            }
        },
    }
}

/// The memory file limit for the value of its setting (`None` when unset).
pub fn parse_xml_size_limit(value: Option<&str>) -> (r: usize)
    ensures
        r as nat == match value {
            Some(v) => xml_size_for(v@),
            None => DEFAULT_MAX_XML_SIZE as nat,
        },
{
    match value {
        Some(v) => parse_xml_size_value(v),
        None => DEFAULT_MAX_XML_SIZE,
    }
}

/// Why a memory file's size is refused.
#[derive(Clone, Copy, Debug, PartialEq, Eq)]
pub enum XmlSizeError {
    TooLarge { size: usize, max: usize },
    TooSmall { size: usize },
}

impl XmlSizeError {
    /// The text of the error.
    pub open spec fn text(self) -> Seq<char> {
        match self {
            XmlSizeError::TooLarge { size, max } => "XML content size ("@ + decimal(size as nat)
                + " bytes) exceeds maximum allowed size ("@ + decimal(max as nat) + " bytes)"@,
            XmlSizeError::TooSmall { size } => "XML content size ("@ + decimal(size as nat)
                + " bytes) is too small, minimum is "@ + decimal(MIN_XML_SIZE as nat),
        }
    }

    /// The text of the error.
    pub fn message(&self) -> (r: String)
        ensures
            r@ == self.text(),
    {
        let mut out: Vec<char> = Vec::new();
        match self {
            XmlSizeError::TooLarge { size, max } => {
                append_str(&mut out, "XML content size (");
                let a = decimal_exec(*size);
                append_chars(&mut out, a.as_slice());
                append_str(&mut out, " bytes) exceeds maximum allowed size (");
                let b = decimal_exec(*max);
                append_chars(&mut out, b.as_slice());
                append_str(&mut out, " bytes)");
            },
            XmlSizeError::TooSmall { size } => {
                append_str(&mut out, "XML content size (");
                let a = decimal_exec(*size);
                append_chars(&mut out, a.as_slice());
                append_str(&mut out, " bytes) is too small, minimum is ");
                let b = decimal_exec(MIN_XML_SIZE);
                append_chars(&mut out, b.as_slice());
            },
        }
        string_of(out.as_slice())
    }
}

/// Accepts a memory file of at least the minimum and at most `max_xml_size`
/// bytes.
pub fn validate_xml_size(xml_content: &str, max_xml_size: usize) -> (r: Result<(), XmlSizeError>)
    ensures
        xml_content.len() > max_xml_size ==> r == Err::<(), XmlSizeError>(
            XmlSizeError::TooLarge { size: xml_content.len(), max: max_xml_size },
        ),
        xml_content.len() <= max_xml_size && xml_content.len() < MIN_XML_SIZE ==> r == Err::<(), XmlSizeError>(
            XmlSizeError::TooSmall { size: xml_content.len() },
        ),
        xml_content.len() <= max_xml_size && xml_content.len() >= MIN_XML_SIZE ==> r is Ok,
{
    let size = xml_content.len();
    if size > max_xml_size {
        return Err(XmlSizeError::TooLarge { size, max: max_xml_size });
    }
    if size < MIN_XML_SIZE {
        return Err(XmlSizeError::TooSmall { size });
    }
    Ok(())
}

/// How one character is written in XML text.
pub open spec fn xml_escape_char(c: char) -> Seq<char> {
    if c == '&' {
        "&amp;"@
    } else if c == '<' {
        "&lt;"@
    } else if c == '>' {
        "&gt;"@
    } else if c == '"' {
        "&quot;"@
    } else if c == '\'' {
        "&apos;"@
    } else {
        seq![c]
    }
}

/// `s` with every character written as `xml_escape_char` writes it.
pub open spec fn xml_escaped(s: Seq<char>) -> Seq<char> {
    flat_map_chars(s, |c: char| xml_escape_char(c))
}

/// A character with a meaning in XML markup other than `&`.
pub open spec fn markup_char(c: char) -> bool {
    c == '<' || c == '>' || c == '"' || c == '\''
}

/// `text` with `&`, `<`, `>`, `"` and `'` written as entities.
pub fn xml_escape(text: &str) -> (r: String)
    ensures
        r@ == xml_escaped(text@),
{
    let cs = chars_of(text);
    let mut out: Vec<char> = Vec::new();
    let mut k: usize = 0;
    assert(cs@.take(0) =~= Seq::<char>::empty());
    while k < cs.len()
        invariant
            k <= cs@.len(),
            out@ == flat_map_chars(cs@.take(k as int), |c: char| xml_escape_char(c)),
        decreases cs@.len() - k,
    {
        assert(cs@.take(k + 1).drop_last() == cs@.take(k as int));
        let c = cs[k];
        if c == '&' {
            append_str(&mut out, "&amp;");
        } else if c == '<' {
            append_str(&mut out, "&lt;");
        } else if c == '>' {
            append_str(&mut out, "&gt;");
        } else if c == '"' {
            append_str(&mut out, "&quot;");
        } else if c == '\'' {
            append_str(&mut out, "&apos;");
        } else {
            out.push(c);
        }
        k = k + 1;
    }
    assert(cs@.take(cs@.len() as int) == cs@);
    string_of(out.as_slice())
}

// ---------------------------------------------------------------------------
// The project of a stop event
// ---------------------------------------------------------------------------

/// The part of a stop event that the memory organizer reads.
pub struct StopEventInput {
    pub cwd: Option<String>,
}

/// Why no project directory can be taken from a stop event.
#[derive(Clone, Debug)]
pub enum ProjectDirError {
    EmptyPath,
    ParentComponents(String),
    ControlCharacters,
    MissingCwd,
}

/// A control character other than newline, carriage return and tab.
pub open spec fn is_bad_control(c: char) -> bool {
    ((c as u32) < 0x20 || (0x7f <= (c as u32) && (c as u32) < 0xa0)) && c != '\n' && c != '\r' && c != '\t'
}

/// The project directory of a stop event: its working directory, unless it is
/// missing, empty, holds `..` or holds a control character other than
/// newline, carriage return or tab.
pub fn determine_project_dir(input: &StopEventInput) -> (r: Result<String, ProjectDirError>)
    ensures
        match input.cwd {
            None => r matches Err(ProjectDirError::MissingCwd),
            Some(cwd) => {
                if cwd@.len() == 0 {
                    r matches Err(ProjectDirError::EmptyPath)
                } else if crate::strings::contains(cwd@, ".."@) {
                    r matches Err(ProjectDirError::ParentComponents(p)) && p@ == cwd@
                } else if exists|i: int| 0 <= i < cwd@.len() && is_bad_control(#[trigger] cwd@[i]) {
                    r matches Err(ProjectDirError::ControlCharacters)
                } else {
                    r matches Ok(d) && d@ == cwd@
                }
            },
        },
{
    match &input.cwd {
        None => Err(ProjectDirError::MissingCwd),
        Some(cwd) => {
            let c = chars_of(cwd.as_str());
            if c.len() == 0 {
                return Err(ProjectDirError::EmptyPath);
            }
            if crate::strings::contains_lit(c.as_slice(), "..") {
                return Err(ProjectDirError::ParentComponents(cwd.clone()));
            }
            let mut k: usize = 0;
            while k < c.len()
                invariant
                    k <= c@.len(),
                    c@ == cwd@,
                    input.cwd == Some(*cwd),
                    c@.len() > 0,
                    !crate::strings::contains(c@, ".."@),
                    forall|i: int| 0 <= i < k ==> !is_bad_control(#[trigger] c@[i]),
                decreases c@.len() - k,
            {
                let ch = c[k];
                let code = ch as u32;
                if (code < 0x20 || (0x7f <= code && code < 0xa0)) && ch != '\n' && ch != '\r' && ch != '\t' {
                    assert(is_bad_control(c@[k as int]));
                    return Err(ProjectDirError::ControlCharacters);
                }
                k = k + 1;
            }
            Ok(cwd.clone())
        },
    }
}

/// The input limit always lies in the allowed range, whatever the setting.
pub proof fn law_stdin_limit_in_bounds(value: Option<Seq<char>>)
    ensures
        MIN_STDIN_SIZE <= max_stdin_size_for(value) <= MAX_STDIN_SIZE,
{
}

proof fn lemma_flat_map_xml(s: Seq<char>)
    ensures
        forall|i: int| 0 <= i < xml_escaped(s).len() ==> !markup_char(#[trigger] xml_escaped(s)[i]),
    decreases s.len(),
{
    if s.len() > 0 {
        lemma_flat_map_xml(s.drop_last());
        let a = xml_escaped(s.drop_last());
        let b = xml_escape_char(s.last());
        assert(xml_escaped(s) == a + b);
        reveal_strlit("&amp;");
        reveal_strlit("&lt;");
        reveal_strlit("&gt;");
        reveal_strlit("&quot;");
        reveal_strlit("&apos;");
        assert forall|i: int| 0 <= i < (a + b).len() implies !markup_char((a + b)[i]) by {
            if i >= a.len() {
                assert((a + b)[i] == b[i - a.len()]);
            } else {
                assert((a + b)[i] == a[i]);
            }
        }
    }
}

/// Escaped text holds no `<`, `>`, `"` or `'`: markup characters appear only
/// inside entities.
pub proof fn law_xml_escape_no_markup(text: Seq<char>)
    ensures
        forall|i: int| 0 <= i < xml_escaped(text).len() ==> !markup_char(#[trigger] xml_escaped(text)[i]),
{
    lemma_flat_map_xml(text);
}

} // verus!
