use vstd::prelude::*;
use vstd::string::StringSliceAdditionalSpecFns;
use crate::strings::{
    char_width, chars_of, contains, contains_exec, contains_lit, find_from, find_from_exec,
    is_whitespace, is_ws, lower, lower_chars, starts_with, starts_with_lit, string_of, trim,
    trim_chars, utf8_size, split, split_chars, strip_repeated, strip_repeated_exec, views,
    lemma_views_push, join_texts, join_strings, owned, strs, utf8_size_exec, lemma_strs_push,
};
use crate::regexes::{regex_found, regex_group1_and_end, regex_group1_end, regex_is_match};
use crate::formatting::SupportedLanguage;

verus! {

// ---------------------------------------------------------------------------
// Code without comments or whitespace
// ---------------------------------------------------------------------------

/// Where the scan of a block comment that starts at `k` stops: just past the
/// first `*/` at or after `k`, or, without one, at the last byte (or at `k`
/// when nothing is left).
pub open spec fn block_comment_end(b: Seq<u8>, k: int) -> int
    decreases b.len() - k,
{
    if k + 1 >= b.len() {
        k
    } else if b[k] == 42u8 && b[k + 1] == 47u8 {
        k + 2
    } else {
        block_comment_end(b, k + 1)
    }
}

/// The first newline at or after `k`, or the end.
pub open spec fn line_end(b: Seq<u8>, k: int) -> int
    decreases b.len() - k,
{
    if k >= b.len() || b[k] == 10u8 {
        k
    } else {
        line_end(b, k + 1)
    }
}

/// The bytes from `i` on, without `/* */` and `//` comments and without
/// `#` lines (each up to, not including, its newline).
pub open spec fn strip_comments(b: Seq<u8>, i: int) -> Seq<u8>
    decreases b.len() - i, 1int,
{
    if i < 0 || i >= b.len() {
        Seq::empty()
    } else if i + 1 < b.len() && b[i] == 47u8 && b[i + 1] == 42u8 {
        let j = block_comment_end(b, i + 2);
        if i < j <= b.len() {
            strip_comments(b, j)
        } else {
            Seq::empty()
        }
    } else if (i + 1 < b.len() && b[i] == 47u8 && b[i + 1] == 47u8) || b[i] == 35u8 {
        let j = line_end(b, i);
        if i < j <= b.len() {
            strip_comments(b, j)
        } else {
            Seq::empty()
        }
    } else {
        seq![b[i]] + strip_comments(b, i + 1)
    }
}

/// Each byte read as the character with that number.
pub open spec fn latin1(b: Seq<u8>) -> Seq<char> {
    b.map_values(|x: u8| x as char)
}

/// The characters that are not whitespace.
pub open spec fn without_ws(s: Seq<char>) -> Seq<char>
    decreases s.len(),
{
    if s.len() == 0 {
        s
    } else if is_ws(s.last()) {
        without_ws(s.drop_last())
    } else {
        without_ws(s.drop_last()).push(s.last())
    }
}

/// The code's signal: its bytes without comments, each read as one
/// character, with all whitespace removed.
pub open spec fn code_signal(code: Seq<u8>) -> Seq<char> {
    without_ws(latin1(strip_comments(code, 0)))
}

proof fn lemma_block_end_bounds(b: Seq<u8>, k: int)
    requires
        0 <= k <= b.len(),
    ensures
        k <= block_comment_end(b, k) <= b.len(),
    decreases b.len() - k,
{
    if k + 1 < b.len() && !(b[k] == 42u8 && b[k + 1] == 47u8) {
        lemma_block_end_bounds(b, k + 1);
    }
}

proof fn lemma_line_end_bounds(b: Seq<u8>, k: int)
    requires
        0 <= k <= b.len(),
    ensures
        k <= line_end(b, k) <= b.len(),
        line_end(b, k) < b.len() ==> b[line_end(b, k)] == 10u8,
    decreases b.len() - k,
{
    if k < b.len() && b[k] != 10u8 {
        lemma_line_end_bounds(b, k + 1);
    }
}

/// The code without comments and whitespace, its bytes read one character
/// each (so that two versions of code can be compared for real changes).
pub fn normalize_code_for_signal(code: &str) -> (r: String)
    ensures
        r@ == code_signal(code.spec_bytes()),
{
    let b = code.as_bytes();
    let ghost bs = b@;
    let mut kept: Vec<u8> = Vec::new();
    let mut i: usize = 0;
    while i < b.len()
        invariant
            i <= b@.len(),
            bs == b@,
            strip_comments(bs, 0) == kept@ + strip_comments(bs, i as int),
        decreases b@.len() - i,
    {
        if i + 1 < b.len() && b[i] == 47u8 && b[i + 1] == 42u8 {
            let mut j = i + 2;
            while j < b.len() - 1 && !(b[j] == 42u8 && b[j + 1] == 47u8)
                invariant
                    i + 2 <= j <= b@.len(),
                    bs == b@,
                    block_comment_end(bs, i + 2) == block_comment_end(bs, j as int),
                decreases b@.len() - j,
            {
                j = j + 1;
            }
            if j < b.len() - 1 {
                j = j + 2;
            }
            proof {
                lemma_block_end_bounds(bs, i + 2);
            }
            assert(j == block_comment_end(bs, i + 2));
            i = j;
        } else if (i + 1 < b.len() && b[i] == 47u8 && b[i + 1] == 47u8) || b[i] == 35u8 {
            let mut j = i;
            while j < b.len() && b[j] != 10u8
                invariant
                    i <= j <= b@.len(),
                    bs == b@,
                    line_end(bs, i as int) == line_end(bs, j as int),
                decreases b@.len() - j,
            {
                j = j + 1;
            }
            proof {
                lemma_line_end_bounds(bs, i as int);
                assert(line_end(bs, i as int) == line_end(bs, i + 1));
                lemma_line_end_bounds(bs, i + 1);
            }
            i = j;
        } else {
            let ghost before = kept@;
            kept.push(b[i]);
            assert(kept@ + strip_comments(bs, i + 1) =~= before + strip_comments(bs, i as int));
            i = i + 1;
        }
    }
    assert(kept@ + strip_comments(bs, i as int) =~= kept@);
    let mut out: Vec<char> = Vec::new();
    let mut k: usize = 0;
    let ghost chars = latin1(kept@);
    while k < kept.len()
        invariant
            k <= kept@.len(),
            chars == latin1(kept@),
            out@ == without_ws(chars.take(k as int)),
        decreases kept@.len() - k,
    {
        assert(chars.take(k + 1).drop_last() == chars.take(k as int));
        let c: char = kept[k] as char;
        assert(c == chars[k as int]);
        if !is_whitespace(c) {
            out.push(c);
        }
        k = k + 1;
    }
    assert(chars.take(kept@.len() as int) == chars);
    string_of(out.as_slice())
}

// ---------------------------------------------------------------------------
// Character classes
// ---------------------------------------------------------------------------

pub open spec fn ascii_alpha(c: char) -> bool {
    ('a' <= c && c <= 'z') || ('A' <= c && c <= 'Z')
}

pub open spec fn ascii_alnum(c: char) -> bool {
    ascii_alpha(c) || ('0' <= c && c <= '9')
}

pub open spec fn ident_char(c: char) -> bool {
    ascii_alnum(c) || c == '_'
}

fn is_ascii_alnum(c: char) -> (r: bool)
    ensures
        r == ascii_alnum(c),
{
    ('a' <= c && c <= 'z') || ('A' <= c && c <= 'Z') || ('0' <= c && c <= '9')
}

// ---------------------------------------------------------------------------
// Calls
// ---------------------------------------------------------------------------

/// Where an identifier that continues at `j` ends.
pub open spec fn ident_end(s: Seq<char>, j: int) -> int
    decreases s.len() - j,
{
    if 0 <= j < s.len() && ident_char(s[j]) {
        ident_end(s, j + 1)
    } else {
        j
    }
}

/// Words that are followed by `(` without being calls.
pub open spec fn call_keyword(id: Seq<char>) -> bool {
    let l = lower(id);
    l == "if"@ || l == "for"@ || l == "while"@ || l == "switch"@ || l == "return"@ || l == "function"@
        || l == "def"@ || l == "class"@
}

/// Identifiers directly followed by `(` that are not keywords, counted
/// from position `i` on (an identifier cannot start at the last character).
pub open spec fn calls_from(s: Seq<char>, i: int) -> nat
    decreases s.len() - i,
{
    if i < 0 || i + 1 >= s.len() {
        0
    } else if ascii_alpha(s[i]) || s[i] == '_' {
        let j = ident_end(s, i + 1);
        let here: nat = if j < s.len() && s[j] == '(' && !call_keyword(s.subrange(i, j)) {
            1
        } else {
            0
        };
        if i < j <= s.len() {
            here + calls_from(s, j)
        } else {
            0
        }
    } else {
        calls_from(s, i + 1)
    }
}

proof fn lemma_ident_end_bounds(s: Seq<char>, j: int)
    requires
        0 <= j <= s.len(),
    ensures
        j <= ident_end(s, j) <= s.len(),
    decreases s.len() - j,
{
    if j < s.len() && ident_char(s[j]) {
        lemma_ident_end_bounds(s, j + 1);
    }
}

proof fn lemma_calls_bound(s: Seq<char>, i: int)
    requires
        0 <= i,
    ensures
        calls_from(s, i) <= if i <= s.len() { s.len() - i } else { 0 },
    decreases s.len() - i,
{
    if i + 1 < s.len() {
        if ascii_alpha(s[i]) || s[i] == '_' {
            lemma_ident_end_bounds(s, i + 1);
            lemma_calls_bound(s, ident_end(s, i + 1));
        } else {
            lemma_calls_bound(s, i + 1);
        }
    }
}

fn is_call_keyword(id: &[char]) -> (r: bool)
    ensures
        r == call_keyword(id@),
{
    let l = lower_chars(id);
    crate::strings::chars_eq(l.as_slice(), chars_of("if").as_slice())
        || crate::strings::chars_eq(l.as_slice(), chars_of("for").as_slice())
        || crate::strings::chars_eq(l.as_slice(), chars_of("while").as_slice())
        || crate::strings::chars_eq(l.as_slice(), chars_of("switch").as_slice())
        || crate::strings::chars_eq(l.as_slice(), chars_of("return").as_slice())
        || crate::strings::chars_eq(l.as_slice(), chars_of("function").as_slice())
        || crate::strings::chars_eq(l.as_slice(), chars_of("def").as_slice())
        || crate::strings::chars_eq(l.as_slice(), chars_of("class").as_slice())
}

/// How many call-like tokens (a non-keyword identifier directly followed by
/// `(`) the text holds.
pub fn count_call_like_tokens(s: &str) -> (r: usize)
    ensures
        r == calls_from(s@, 0),
{
    let cs = chars_of(s);
    let mut c: usize = 0;
    let mut i: usize = 0;
    proof {
        lemma_calls_bound(cs@, 0);
    }
    while cs.len() > 0 && i < cs.len() - 1
        invariant
            i <= cs@.len(),
            cs@ == s@,
            calls_from(s@, 0) == c + calls_from(s@, i as int),
            calls_from(s@, 0) <= cs@.len(),
            calls_from(s@, i as int) <= cs@.len() - i,
        decreases cs@.len() - i,
    {
        let ch = cs[i];
        if ('a' <= ch && ch <= 'z') || ('A' <= ch && ch <= 'Z') || ch == '_' {
            let mut j = i + 1;
            while j < cs.len() && (is_ascii_alnum(cs[j]) || cs[j] == '_')
                invariant
                    i + 1 <= j <= cs@.len(),
                    cs@ == s@,
                    ident_end(s@, i + 1) == ident_end(s@, j as int),
                decreases cs@.len() - j,
            {
                j = j + 1;
            }
            proof {
                lemma_ident_end_bounds(s@, i + 1);
                lemma_calls_bound(s@, j as int);
            }
            assert(calls_from(s@, i as int) == (if j < s@.len() && s@[j as int] == '(' && !call_keyword(
                s@.subrange(i as int, j as int),
            ) {
                1nat
            } else {
                0nat
            }) + calls_from(s@, j as int));
            if j < cs.len() && cs[j] == '(' {
                let id = crate::strings::slice_chars(cs.as_slice(), i, j);
                if !is_call_keyword(id.as_slice()) {
                    c = c + 1;
                }
            }
            i = j;
        } else {
            proof {
                lemma_calls_bound(s@, i + 1);
            }
            i = i + 1;
        }
    }
    c
}

// ---------------------------------------------------------------------------
// Print-only and placeholder code
// ---------------------------------------------------------------------------

/// Calls that only print or log.
pub open spec fn print_tokens() -> Seq<Seq<char>> {
    seq!["console.log("@, "print("@, "logger."@, "system.out.println("@, "debug("@]
}

/// The first print token that starts at `i`, in list order.
pub open spec fn token_at(s: Seq<char>, i: int, k: int) -> Option<int>
    decreases 5 - k,
{
    if k < 0 || k >= 5 {
        None
    } else if crate::strings::occurs_at(s, print_tokens()[k], i) {
        Some(k)
    } else {
        token_at(s, i, k + 1)
    }
}

/// ASCII letters and digits from `i` on, not counting the print tokens.
pub open spec fn alnum_outside_tokens(s: Seq<char>, i: int) -> nat
    decreases s.len() - i,
{
    if i < 0 || i >= s.len() {
        0
    } else {
        match token_at(s, i, 0) {
            Some(k) => if print_tokens()[k].len() > 0 && i + print_tokens()[k].len() <= s.len() {
                alnum_outside_tokens(s, i + print_tokens()[k].len())
            } else {
                0
            },
            None => (if ascii_alnum(s[i]) {
                1nat
            } else {
                0nat
            }) + alnum_outside_tokens(s, i + 1),
        }
    }
}

/// Code that prints or logs and has fewer than six letters or digits
/// besides the printing calls (ASCII case ignored).
pub open spec fn print_only(code: Seq<char>) -> bool {
    let low = lower(code);
    (exists|k: int| 0 <= k < 5 && contains(low, #[trigger] print_tokens()[k])) && alnum_outside_tokens(low, 0) < 6
}

proof fn lemma_token_at(s: Seq<char>, i: int, k0: int)
    requires
        0 <= k0,
    ensures
        token_at(s, i, k0) matches Some(k) ==> k0 <= k < 5 && crate::strings::occurs_at(s, print_tokens()[k], i),
    decreases 5 - k0,
{
    if k0 < 5 && !crate::strings::occurs_at(s, print_tokens()[k0], i) {
        lemma_token_at(s, i, k0 + 1);
    }
}

fn token_at_exec(s: &[char], i: usize, toks: &Vec<Vec<char>>) -> (r: Option<usize>)
    requires
        i <= s@.len(),
        toks@.len() == 5,
        forall|k: int| 0 <= k < 5 ==> (#[trigger] toks@[k])@ == print_tokens()[k],
    ensures
        match r {
            Some(k) => token_at(s@, i as int, 0) == Some(k as int) && k < 5,
            None => token_at(s@, i as int, 0) is None,
        },
{
    let mut k: usize = 0;
    while k < 5
        invariant
            k <= 5,
            i <= s@.len(),
            toks@.len() == 5,
            forall|m: int| 0 <= m < 5 ==> (#[trigger] toks@[m])@ == print_tokens()[m],
            token_at(s@, i as int, 0) == token_at(s@, i as int, k as int),
        decreases 5 - k,
    {
        if toks[k].len() <= s.len() - i && crate::strings::occurs_at_exec(s, toks[k].as_slice(), i) {
            return Some(k);
        }
        k = k + 1;
    }
    None
}

/// Does the change only print or log (ASCII case ignored, fewer than six
/// letters or digits besides the printing calls)?
pub fn detect_print_only(code: &str) -> (r: bool)
    ensures
        r == print_only(code@),
{
    let low = lower_chars(chars_of(code).as_slice());
    let toks = crate::strings::lits(&["console.log(", "print(", "logger.", "system.out.println(", "debug("]);
    assert(forall|k: int| 0 <= k < 5 ==> (#[trigger] toks@[k])@ == print_tokens()[k]);
    let mut any = false;
    let mut k: usize = 0;
    while k < 5
        invariant
            k <= 5,
            toks@.len() == 5,
            forall|m: int| 0 <= m < 5 ==> (#[trigger] toks@[m])@ == print_tokens()[m],
            any == exists|m: int| 0 <= m < k && contains(low@, #[trigger] print_tokens()[m]),
        decreases 5 - k,
    {
        if contains_exec(low.as_slice(), toks[k].as_slice()) {
            any = true;
        }
        k = k + 1;
    }
    if !any {
        return false;
    }
    let mut i: usize = 0;
    let mut alnum: usize = 0;
    while i < low.len()
        invariant
            i <= low@.len(),
            toks@.len() == 5,
            forall|m: int| 0 <= m < 5 ==> (#[trigger] toks@[m])@ == print_tokens()[m],
            alnum_outside_tokens(low@, 0) == alnum + alnum_outside_tokens(low@, i as int),
            alnum <= i,
        decreases low@.len() - i,
    {
        match token_at_exec(low.as_slice(), i, &toks) {
            Some(k) => {
                proof {
                    lemma_token_at(low@, i as int, 0);
                    reveal_strlit("console.log(");
                    reveal_strlit("print(");
                    reveal_strlit("logger.");
                    reveal_strlit("system.out.println(");
                    reveal_strlit("debug(");
                }
                assert(toks@[k as int]@.len() > 0);
                i = i + toks[k].len();
            },
            None => {
                if is_ascii_alnum(low[i]) {
                    alnum = alnum + 1;
                }
                i = i + 1;
            },
        }
    }
    alnum < 6
}

/// TODO markers or placeholders (ASCII case ignored).
pub open spec fn todo_placeholder(code: Seq<char>) -> bool {
    let low = lower(code);
    contains(low, "todo"@) || contains(low, "fixme"@) || contains(low, "notimplemented"@) || contains(
        low,
        "pass\n"@,
    )
}

/// Does the code hold a TODO, FIXME, not-implemented marker or `pass`
/// ending a line?
pub fn detect_todo_placeholder(code: &str) -> (r: bool)
    ensures
        r == todo_placeholder(code@),
{
    let low = lower_chars(chars_of(code).as_slice());
    contains_lit(low.as_slice(), "todo") || contains_lit(low.as_slice(), "fixme") || contains_lit(
        low.as_slice(),
        "notimplemented",
    ) || contains_lit(low.as_slice(), "pass\n")
}

// ---------------------------------------------------------------------------
// Swallowed errors
// ---------------------------------------------------------------------------

/// The code lower-cased (ASCII) with all whitespace removed.
pub open spec fn compact_lower(code: Seq<char>) -> Seq<char> {
    without_ws(lower(code))
}

/// A `catch(...)` whose first `){` after it is followed by `}`. The position
/// checked is the byte offset of `){` in UTF-8, plus two, used as a character
/// index.
pub open spec fn empty_catch_block(c: Seq<char>) -> bool {
    match find_from(c, "catch("@, 0) {
        Some(k1) => match find_from(c, "){"@, k1) {
            Some(k2) => {
                let b = utf8_size(c.take(k2)) + 2;
                b < c.len() && c[b as int] == '}'
            },
            None => false,
        },
        None => false,
    }
}

/// Newlines and tabs turned into spaces.
pub open spec fn spaced(s: Seq<char>) -> Seq<char> {
    s.map_values(|c: char| if c == '\n' || c == '\t' { ' ' } else { c })
}

/// A Python `except:` whose next word is `pass`.
pub open spec fn bare_except_pass(low: Seq<char>) -> bool {
    let ep = spaced(low);
    &&& contains(low, "except"@)
    &&& contains(low, ":"@)
    &&& contains(ep, "except:"@)
    &&& contains(ep, "pass"@)
    &&& match find_from(ep, "except:"@, 0) {
        Some(k) => starts_with(trim(ep.skip(k + 7)), "pass"@),
        None => false,
    }
}

/// A promise `.catch` with an empty handler.
pub open spec fn empty_promise_catch(c: Seq<char>) -> bool {
    contains(c, ".catch(()=>{})"@) || contains(c, ".catch(function(){})"@)
}

pub open spec fn empty_catch_except(code: Seq<char>) -> bool {
    empty_catch_block(compact_lower(code)) || bare_except_pass(lower(code)) || empty_promise_catch(
        compact_lower(code),
    )
}

fn compact_lower_exec(code: &str) -> (r: Vec<char>)
    ensures
        r@ == compact_lower(code@),
{
    let low = lower_chars(chars_of(code).as_slice());
    let mut out: Vec<char> = Vec::new();
    let mut i: usize = 0;
    while i < low.len()
        invariant
            i <= low@.len(),
            low@ == lower(code@),
            out@ == without_ws(low@.take(i as int)),
        decreases low@.len() - i,
    {
        assert(low@.take(i + 1).drop_last() == low@.take(i as int));
        if !is_whitespace(low[i]) {
            out.push(low[i]);
        }
        i = i + 1;
    }
    assert(low@.take(low@.len() as int) == low@);
    out
}

/// Bytes of the first `k` characters in UTF-8.
fn utf8_prefix_size(c: &[char], k: usize) -> (r: u128)
    requires
        k <= c@.len(),
    ensures
        r == utf8_size(c@.take(k as int)),
        r <= 4 * k,
{
    let mut n: u128 = 0;
    let mut i: usize = 0;
    while i < k
        invariant
            i <= k,
            k <= c@.len(),
            n == utf8_size(c@.take(i as int)),
            n <= 4 * i,
        decreases k - i,
    {
        assert(c@.take(i + 1).drop_last() == c@.take(i as int));
        n = n + char_width(c[i]);
        i = i + 1;
    }
    n
}

/// Is there an empty `catch` block, a Python `except: pass`, or an empty
/// promise `.catch` handler?
pub fn detect_empty_catch_except(code: &str) -> (r: bool)
    ensures
        r == empty_catch_except(code@),
{
    let compact = compact_lower_exec(code);
    let low = lower_chars(chars_of(code).as_slice());
    let mut block = false;
    match find_from_exec(compact.as_slice(), chars_of("catch(").as_slice(), 0) {
        Some(k1) => match find_from_exec(compact.as_slice(), chars_of("){").as_slice(), k1) {
            Some(k2) => {
                proof {
                    crate::strings::lemma_find_from_spec(compact@, "){"@, k1 as int);
                }
                let b = utf8_prefix_size(compact.as_slice(), k2) + 2;
                if b < compact.len() as u128 {
                    let bi = b as usize;
                    block = compact[bi] == '}';
                }
            },
            None => {},
        },
        None => {},
    }
    if block {
        return true;
    }
    let mut ep: Vec<char> = Vec::new();
    let mut i: usize = 0;
    while i < low.len()
        invariant
            i <= low@.len(),
            ep@ == spaced(low@).take(i as int),
        decreases low@.len() - i,
    {
        let c = low[i];
        if c == '\n' || c == '\t' {
            ep.push(' ');
        } else {
            ep.push(c);
        }
        assert(ep@ =~= spaced(low@).take(i + 1));
        i = i + 1;
    }
    assert(spaced(low@).take(low@.len() as int) == spaced(low@));
    let mut except = false;
    if contains_lit(low.as_slice(), "except") && contains_lit(low.as_slice(), ":") && contains_lit(
        ep.as_slice(),
        "except:",
    ) && contains_lit(ep.as_slice(), "pass") {
        match find_from_exec(ep.as_slice(), chars_of("except:").as_slice(), 0) {
            Some(k) => {
                proof {
                    crate::strings::lemma_find_from_spec(ep@, "except:"@, 0);
                    reveal_strlit("except:");
                }
                let rest = crate::strings::slice_chars(ep.as_slice(), k + 7, ep.len());
                assert(rest@ == ep@.skip(k + 7));
                let t = trim_chars(rest.as_slice());
                except = starts_with_lit(t.as_slice(), "pass");
            },
            None => {},
        }
    }
    if except {
        return true;
    }
    contains_lit(compact.as_slice(), ".catch(()=>{})") || contains_lit(compact.as_slice(), ".catch(function(){})")
}

/// A Go change from `if err := ...; err != nil` handling to discarding the
/// result with `_ =` (ASCII case and whitespace ignored).
pub open spec fn silent_result_discard(old: Seq<char>, new: Seq<char>) -> bool {
    let o = compact_lower(old);
    let n = compact_lower(new);
    contains(o, "iferr:="@) && contains(o, "err!=nil"@) && contains(n, "_="@) && !contains(n, "iferr:="@)
}

/// Did the change replace Go error handling by a silent `_ =` discard?
pub fn detect_silent_result_discard(old: &str, new: &str) -> (r: bool)
    ensures
        r == silent_result_discard(old@, new@),
{
    let o = compact_lower_exec(old);
    let n = compact_lower_exec(new);
    contains_lit(o.as_slice(), "iferr:=") && contains_lit(o.as_slice(), "err!=nil") && contains_lit(
        n.as_slice(),
        "_=",
    ) && !contains_lit(n.as_slice(), "iferr:=")
}

// ---------------------------------------------------------------------------
// Constant returns and stubs
// ---------------------------------------------------------------------------

/// `return` of a literal (any case), ending a statement or an expression.
pub const RETURN_LITERAL: &'static str = r#"(?i)\breturn\s+(?:\d+|true|false|null|none|\"[^\"]*\"|'[^']*')\s*(?:;|[,})]|$)"#;

/// An arrow function that gives a literal.
pub const ARROW_LITERAL: &'static str = r#"=>\s*(?:\d+|true|false|null|none|\"[^\"]*\"|'[^']*')\s*(?:[,)};]|$)"#;

/// `throw new Error("... not implemented ...")` or with TODO.
pub const JS_THROW_STUB: &'static str = r#"(?i)\bthrow\s+new\s+Error\s*\(\s*['\"][^'\"]*(not\s+implemented|todo)[^'\"]*['\"]\s*\)"#;

/// A named function whose body holds only comments and whitespace.
pub const JS_EMPTY_FUNCTION: &'static str = r#"(?s)function\s+[A-Za-z_][A-Za-z0-9_]*\s*\([^)]*\)\s*\{\s*(/\*.*?\*/|//.*?\n|\s)*\}"#;

/// The whole text is a method with an empty body.
pub const JS_EMPTY_METHOD: &'static str = r#"(?s)^[ \t]*[A-Za-z_][A-Za-z0-9_]*\s*\([^)]*\)\s*\{\s*(/\*.*?\*/|//.*?\n|\s)*\}$"#;

/// A Python function whose body is `pass`.
pub const PY_PASS_STUB: &'static str = r#"(?sm)^\s*def\s+[A-Za-z_][A-Za-z0-9_]*\s*\([^)]*\):\s*(?:#.*\n|\s)*pass\s*$"#;

/// A Python function whose body raises `NotImplementedError`.
pub const PY_RAISE_STUB: &'static str = r#"(?sm)^\s*def\s+[A-Za-z_][A-Za-z0-9_]*\s*\([^)]*\):\s*(?:#.*\n|\s)*raise\s+NotImplementedError\b[^\n]*$"#;

/// Does the code return a literal, directly or from an arrow function?
pub fn detect_return_constant(code: &str) -> (r: bool)
    ensures
        r == (regex_found(RETURN_LITERAL@, code@) || regex_found(ARROW_LITERAL@, code@)),
{
    regex_is_match(RETURN_LITERAL, code) || regex_is_match(ARROW_LITERAL, code)
}

/// Is there a JavaScript or TypeScript stub: a not-implemented throw, or a
/// function or method with an empty body?
pub fn detect_js_ts_function_stub(code: &str) -> (r: bool)
    ensures
        r == (regex_found(JS_THROW_STUB@, code@) || regex_found(JS_EMPTY_FUNCTION@, code@) || regex_found(
            JS_EMPTY_METHOD@,
            code@,
        )),
{
    regex_is_match(JS_THROW_STUB, code) || regex_is_match(JS_EMPTY_FUNCTION, code) || regex_is_match(
        JS_EMPTY_METHOD,
        code,
    )
}

/// Is there a Python function whose body is `pass` or raises `NotImplementedError`?
pub fn detect_python_function_stub(code: &str) -> (r: bool)
    ensures
        r == (regex_found(PY_PASS_STUB@, code@) || regex_found(PY_RAISE_STUB@, code@)),
{
    regex_is_match(PY_PASS_STUB, code) || regex_is_match(PY_RAISE_STUB, code)
}

pub open spec fn function_stub(language: Option<SupportedLanguage>, code: Seq<char>) -> bool {
    match language {
        Some(SupportedLanguage::Python) => regex_found(PY_PASS_STUB@, code) || regex_found(PY_RAISE_STUB@, code),
        Some(SupportedLanguage::JavaScript) | Some(SupportedLanguage::TypeScript) => regex_found(
            JS_THROW_STUB@,
            code,
        ) || regex_found(JS_EMPTY_FUNCTION@, code) || regex_found(JS_EMPTY_METHOD@, code),
        _ => false,
    }
}

/// A stub in the language's own form (Python, JavaScript and TypeScript
/// only).
pub fn detect_function_stub(language: Option<SupportedLanguage>, code: &str) -> (r: bool)
    ensures
        r == function_stub(language, code@),
{
    match language {
        Some(SupportedLanguage::Python) => detect_python_function_stub(code),
        Some(SupportedLanguage::JavaScript) | Some(SupportedLanguage::TypeScript) => detect_js_ts_function_stub(code),
        _ => false,
    }
}

// ---------------------------------------------------------------------------
// Constant returns that ignore the parameters
// ---------------------------------------------------------------------------

/// A Python function with parameters that returns a literal.
pub const PY_CONST_RETURN: &'static str = r#"(?s)def\s+[A-Za-z_][A-Za-z0-9_]*\s*\(([^)]*[^\s)])\)\s*:\s*(?:#.*\n|\s)*return\s+(?:\d+|True|False|None|"[^"]*"|'[^']*')\b"#;

/// A JavaScript function with parameters whose body returns a literal.
pub const JS_CONST_RETURN: &'static str = r#"(?s)function\s+[A-Za-z_][A-Za-z0-9_]*\s*\(([^)]*[^\s)])\)\s*\{\s*return\s+(?:\d+|true|false|null|"[^"]*"|'[^']*')\s*;?\s*\}"#;

/// An arrow function with parameters that gives a literal.
pub const ARROW_CONST_RETURN: &'static str = r#"(?s)\(([^)]*[^\s)])\)\s*=>\s*(?:\d+|true|false|null|"[^"]*"|'[^']*')\b"#;

/// The parameter names of a list: the comma-separated pieces, trimmed, with
/// leading `...` removed when `rest` is set, empty ones left out.
pub open spec fn param_names(pieces: Seq<Seq<char>>, rest: bool) -> Seq<Seq<char>>
    decreases pieces.len(),
{
    if pieces.len() == 0 {
        Seq::empty()
    } else {
        let t = trim(pieces.last());
        let n = if rest {
            strip_repeated(t, "..."@)
        } else {
            t
        };
        if n.len() > 0 {
            param_names(pieces.drop_last(), rest).push(n)
        } else {
            param_names(pieces.drop_last(), rest)
        }
    }
}

/// `p` occurs in the bytes `b`.
pub open spec fn bytes_contain(b: Seq<u8>, p: Seq<u8>) -> bool {
    exists|i: int| 0 <= i && i + p.len() <= b.len() && #[trigger] b.subrange(i, i + p.len()) == p
}

/// The 80 bytes before `end` (fewer at the start); `None` where that window
/// would start inside a character, where no such slice of the text exists.
pub open spec fn window_names_hit(code: Seq<u8>, end: nat, names: Seq<Seq<char>>) -> Option<bool> {
    let start: int = if end >= 80 {
        end - 80
    } else {
        0
    };
    if !vstd::utf8::is_char_boundary(code, start) {
        None
    } else {
        Some(
            exists|k: int|
                0 <= k < names.len() && bytes_contain(
                    code.subrange(start, end as int),
                    vstd::utf8::encode_utf8(#[trigger] names[k]),
                ),
        )
    }
}

/// The verdict of one function rule: it fires when the rule matches, names
/// parameters, and none of them is used in the window before the match
/// end; `None` where the window cannot be cut.
pub open spec fn function_rule(code: &str, pattern: Seq<char>, rest: bool) -> Option<bool> {
    match regex_group1_end(pattern, code@) {
        None => Some(false),
        Some((params, end)) => {
            let names = param_names(split(params, ','), rest);
            if names.len() == 0 {
                Some(false)
            } else if end > code.spec_bytes().len() {
                Some(false)
            } else {
                match window_names_hit(code.spec_bytes(), end, names) {
                    None => None,
                    Some(hit) => Some(!hit),
                }
            }
        },
    }
}

/// A constant return while parameters go unused: the Python rule, then the
/// JavaScript function rule, then any arrow function with parameters that
/// gives a literal. `None` where the rule would cut a character in two.
pub open spec fn const_return_ignores_params(code: &str) -> Option<bool> {
    match function_rule(code, PY_CONST_RETURN@, false) {
        None => None,
        Some(true) => Some(true),
        Some(false) => match function_rule(code, JS_CONST_RETURN@, true) {
            None => None,
            Some(true) => Some(true),
            Some(false) => Some(
                match regex_group1_end(ARROW_CONST_RETURN@, code@) {
                    Some((params, _)) => param_names(split(params, ','), true).len() > 0,
                    None => false,
                },
            ),
        },
    }
}

fn param_names_exec(params: &str, rest: bool) -> (r: Vec<Vec<char>>)
    ensures
        views(r@) == param_names(split(params@, ','), rest),
{
    let pieces = split_chars(chars_of(params).as_slice(), ',');
    let ghost pv = split(params@, ',');
    let dots = chars_of("...");
    let mut out: Vec<Vec<char>> = Vec::new();
    let mut i: usize = 0;
    while i < pieces.len()
        invariant
            i <= pieces@.len(),
            pv == split(params@, ','),
            pieces@.len() == pv.len(),
            dots@ == "..."@,
            forall|j: int| 0 <= j < pieces@.len() ==> (#[trigger] pieces@[j])@ == pv[j],
            views(out@) == param_names(pv.take(i as int), rest),
        decreases pieces@.len() - i,
    {
        assert(pv.take(i + 1).drop_last() == pv.take(i as int));
        assert(pv.take(i + 1).last() == pv[i as int]);
        let t = trim_chars(pieces[i].as_slice());
        let n = if rest {
            strip_repeated_exec(t.as_slice(), dots.as_slice())
        } else {
            t
        };
        if n.len() > 0 {
            let ghost before = out@;
            out.push(n);
            proof {
                lemma_views_push(before, n);
            }
        }
        i = i + 1;
    }
    assert(pv.take(pieces@.len() as int) == pv);
    out
}

fn bytes_at(b: &[u8], p: &[u8], i: usize) -> (r: bool)
    requires
        i + p@.len() <= b@.len(),
    ensures
        r == (b@.subrange(i as int, i + p@.len()) == p@),
{
    let n = b.len();
    let mut k: usize = 0;
    while k < p.len()
        invariant
            k <= p@.len(),
            i + p@.len() <= b@.len(),
            n == b@.len(),
            forall|j: int| 0 <= j < k ==> b@[i + j] == p@[j],
        decreases p@.len() - k,
    {
        if b[i + k] != p[k] {
            assert(b@.subrange(i as int, i + p@.len())[k as int] != p@[k as int]);
            return false;
        }
        k = k + 1;
    }
    assert(b@.subrange(i as int, i + p@.len()) =~= p@);
    true
}

fn bytes_contain_exec(b: &[u8], p: &[u8]) -> (r: bool)
    ensures
        r == bytes_contain(b@, p@),
{
    if p.len() == 0 {
        assert(b@.subrange(0, 0 + p@.len() as int) =~= p@);
        return true;
    }
    if p.len() > b.len() {
        return false;
    }
    let mut i: usize = 0;
    while i <= b.len() - p.len()
        invariant
            0 < p@.len() <= b@.len(),
            i <= b@.len() - p@.len() + 1,
            forall|j: int| 0 <= j < i ==> #[trigger] b@.subrange(j, j + p@.len()) != p@,
        decreases b@.len() - p@.len() + 1 - i,
    {
        if bytes_at(b, p, i) {
            assert(b@.subrange(i as int, i + p@.len()) == p@);
            return true;
        }
        i = i + 1;
    }
    false
}

/// The verdict of one function rule (see `function_rule`).
fn function_rule_exec(code: &str, pattern: &str, rest: bool) -> (r: Option<bool>)
    ensures
        r == function_rule(code, pattern@, rest),
{
    let (params, end) = match regex_group1_and_end(pattern, code) {
        None => {
            return Some(false);
        },
        Some(found) => found,
    };
    assert(regex_group1_end(pattern@, code@) == Some((params@, end as nat)));
    let names = param_names_exec(params.as_str(), rest);
    if names.len() == 0 {
        return Some(false);
    }
    let bytes = code.as_bytes();
    let start: usize = if end >= 80 {
        end - 80
    } else {
        0
    };
    if !code.is_char_boundary(start) {
        return None;
    }
    let window = vstd::slice::slice_subrange(bytes, start, end);
    let ghost nv = views(names@);
    let mut k: usize = 0;
    while k < names.len()
        invariant
            k <= names@.len(),
            nv == views(names@),
            nv == param_names(split(params@, ','), rest),
            nv.len() > 0,
            regex_group1_end(pattern@, code@) == Some((params@, end as nat)),
            start == (if end >= 80 {
                end - 80
            } else {
                0
            }),
            start <= end,
            end <= code.spec_bytes().len(),
            vstd::utf8::is_char_boundary(code.spec_bytes(), start as int),
            window@ == code.spec_bytes().subrange(start as int, end as int),
            forall|j: int| 0 <= j < k ==> !bytes_contain(window@, vstd::utf8::encode_utf8(#[trigger] nv[j])),
        decreases names@.len() - k,
    {
        let name = string_of(names[k].as_slice());
        let nb = name.as_str().as_bytes();
        assert(nb@ == vstd::utf8::encode_utf8(nv[k as int]));
        if bytes_contain_exec(window, nb) {
            proof {
                let sb = code.spec_bytes();
                let st: int = if end >= 80 {
                    end - 80
                } else {
                    0
                };
                assert(st == start);
                assert(window@ == sb.subrange(st, end as int));
                assert(0 <= k < nv.len() && bytes_contain(sb.subrange(st, end as int), vstd::utf8::encode_utf8(nv[k as int])));
            }
            return Some(false);
        }
        k = k + 1;
    }
    Some(true)
}

/// Does a function return a constant while ignoring its parameters? `None`
/// where the rule would slice the text inside a character.
pub fn detect_const_return_ignores_params(code: &str) -> (r: Option<bool>)
    ensures
        r == const_return_ignores_params(code),
{
    match function_rule_exec(code, PY_CONST_RETURN, false) {
        None => {
            return None;
        },
        Some(true) => {
            return Some(true);
        },
        Some(false) => {},
    }
    match function_rule_exec(code, JS_CONST_RETURN, true) {
        None => {
            return None;
        },
        Some(true) => {
            return Some(true);
        },
        Some(false) => {},
    }
    match regex_group1_and_end(ARROW_CONST_RETURN, code) {
        Some((params, _)) => Some(param_names_exec(params.as_str(), true).len() > 0),
        None => Some(false),
    }
}

// ---------------------------------------------------------------------------
// Assessing a change
// ---------------------------------------------------------------------------

/// What the anti-cheating heuristics say about a change.
#[derive(Clone, Debug, Default)]
pub struct HeuristicAssessment {
    pub is_whitespace_or_comments_only: bool,
    pub is_return_constant_only: bool,
    pub is_print_or_log_only: bool,
    pub has_todo_or_placeholder: bool,
    pub has_empty_catch_or_except: bool,
    pub is_new_file_minimal: bool,
    pub const_return_ignores_params: bool,
    pub logic_calls_removed: bool,
    pub is_allowed_minimal_context: bool,
    pub has_silent_result_discard: bool,
    pub summary: String,
}

/// The labels of the flags that are set, in this order.
pub open spec fn flag_labels(
    ws_only: bool,
    ret_const: bool,
    print_only: bool,
    const_ret: bool,
    calls_removed: bool,
    todo: bool,
    empty_catch: bool,
    silent: bool,
    new_min: bool,
) -> Seq<Seq<char>> {
    let l0: Seq<Seq<char>> = Seq::empty();
    let l1 = if ws_only { l0.push("no-op change (whitespace/comments only)"@) } else { l0 };
    let l2 = if ret_const { l1.push("returns constant only"@) } else { l1 };
    let l3 = if print_only { l2.push("print/log only"@) } else { l2 };
    let l4 = if const_ret { l3.push("constant return ignores params"@) } else { l3 };
    let l5 = if calls_removed { l4.push("logic/calls removed"@) } else { l4 };
    let l6 = if todo { l5.push("TODO present"@) } else { l5 };
    let l7 = if empty_catch { l6.push("empty catch/except"@) } else { l6 };
    let l8 = if silent { l7.push("silent result discard"@) } else { l7 };
    if new_min { l8.push("new minimal file"@) } else { l8 }
}

/// The labels joined with `, `, or "no red flags".
pub open spec fn summary_text(labels: Seq<Seq<char>>) -> Seq<char> {
    if labels.len() == 0 {
        "no red flags"@
    } else {
        join_texts(labels, ", "@)
    }
}

/// The text of an optional string, empty when absent.
pub open spec fn text_or_empty(o: Option<&str>) -> Seq<char> {
    match o {
        Some(s) => s@,
        None => Seq::empty(),
    }
}

fn push_label(labels: &mut Vec<String>, on: bool, label: &str)
    ensures
        strs(final(labels)@) == if on {
            strs(old(labels)@).push(label@)
        } else {
            strs(old(labels)@)
        },
{
    if on {
        let ghost before = labels@;
        let l = owned(label);
        labels.push(l);
        proof {
            lemma_strs_push(before, l);
        }
    }
}

/// Assesses a change to `file_path` from `old` to `new` (each absent when
/// there is none): whether it only touches whitespace or comments, returns
/// a constant, only prints, leaves a TODO, swallows errors, discards a Go
/// error, is a minimal new file, returns a constant while ignoring the
/// parameters, or removes the logic of calls; whether the file is a
/// version/health/ping endpoint; and a summary of the flags that are set.
/// `None` where the constant-return rule would cut the new code inside a
/// character.
pub fn assess_change(file_path: &str, old: Option<&str>, new: Option<&str>) -> (r: Option<HeuristicAssessment>)
    ensures
        ({
            let co = text_or_empty(old);
            let cn = text_or_empty(new);
            let cn_str: &str = match new {
                Some(s) => s,
                None => "",
            };
            match const_return_ignores_params(cn_str) {
                None => r is None,
                Some(const_ret) => r matches Some(a) && {
                    let ws_only = old is Some && new is Some && code_signal(old->0.spec_bytes()) == code_signal(
                        new->0.spec_bytes(),
                    );
                    let ret_const = regex_found(RETURN_LITERAL@, cn) || regex_found(ARROW_LITERAL@, cn);
                    let print = print_only(cn);
                    let calls_removed = (if old is Some { calls_from(co, 0) } else { 0 }) >= 3 && calls_from(cn, 0)
                        == 0 && (ret_const || print);
                    let new_min = old is None && new is Some && (utf8_size(trim(cn)) <= 64 || utf8_size(
                        code_signal(new->0.spec_bytes()),
                    ) <= 32);
                    let silent = old is Some && new is Some && silent_result_discard(co, cn);
                    &&& a.is_whitespace_or_comments_only == ws_only
                    &&& a.is_return_constant_only == ret_const
                    &&& a.is_print_or_log_only == print
                    &&& a.has_todo_or_placeholder == todo_placeholder(cn)
                    &&& a.has_empty_catch_or_except == empty_catch_except(cn)
                    &&& a.has_silent_result_discard == silent
                    &&& a.is_new_file_minimal == new_min
                    &&& a.is_allowed_minimal_context == (contains(lower(file_path@), "version"@) || contains(
                        lower(file_path@),
                        "health"@,
                    ) || contains(lower(file_path@), "ping"@))
                    &&& a.const_return_ignores_params == const_ret
                    &&& a.logic_calls_removed == calls_removed
                    &&& a.summary@ == summary_text(
                        flag_labels(
                            ws_only,
                            ret_const,
                            print,
                            const_ret,
                            calls_removed,
                            todo_placeholder(cn),
                            empty_catch_except(cn),
                            silent,
                            new_min,
                        ),
                    )
                },
            }
        }),
{
    let cn: &str = match new {
        Some(s) => s,
        None => "",
    };
    let co: &str = match old {
        Some(s) => s,
        None => "",
    };
    proof {
        reveal_strlit("");
    }
    let const_ret = match detect_const_return_ignores_params(cn) {
        None => {
            return None;
        },
        Some(b) => b,
    };
    let ws_only = match (old, new) {
        (Some(o), Some(n)) => {
            let no = normalize_code_for_signal(o);
            let nn = normalize_code_for_signal(n);
            crate::strings::chars_eq(chars_of(no.as_str()).as_slice(), chars_of(nn.as_str()).as_slice())
        },
        _ => false,
    };
    let ret_const = detect_return_constant(cn);
    let print = detect_print_only(cn);
    let todo = detect_todo_placeholder(cn);
    let empty_catch = detect_empty_catch_except(cn);
    let silent = match (old, new) {
        (Some(_), Some(_)) => detect_silent_result_discard(co, cn),
        _ => false,
    };
    let new_min = match (old, new) {
        (None, Some(n)) => {
            let t = trim_chars(chars_of(n).as_slice());
            let norm = normalize_code_for_signal(n);
            utf8_size_exec(t.as_slice()) <= 64 || utf8_size_exec(chars_of(norm.as_str()).as_slice()) <= 32
        },
        _ => false,
    };
    let path = lower_chars(chars_of(file_path).as_slice());
    let allowed = contains_lit(path.as_slice(), "version") || contains_lit(path.as_slice(), "health")
        || contains_lit(path.as_slice(), "ping");
    let old_calls: usize = match old {
        Some(o) => count_call_like_tokens(o),
        None => 0,
    };
    let new_calls = count_call_like_tokens(cn);
    let calls_removed = old_calls >= 3 && new_calls == 0 && (ret_const || print);
    let mut labels: Vec<String> = Vec::new();
    assert(strs(labels@) =~= Seq::<Seq<char>>::empty());
    push_label(&mut labels, ws_only, "no-op change (whitespace/comments only)");
    push_label(&mut labels, ret_const, "returns constant only");
    push_label(&mut labels, print, "print/log only");
    push_label(&mut labels, const_ret, "constant return ignores params");
    push_label(&mut labels, calls_removed, "logic/calls removed");
    push_label(&mut labels, todo, "TODO present");
    push_label(&mut labels, empty_catch, "empty catch/except");
    push_label(&mut labels, silent, "silent result discard");
    push_label(&mut labels, new_min, "new minimal file");
    let summary = if labels.len() == 0 {
        owned("no red flags")
    } else {
        join_strings(&labels, ", ")
    };
    assert(cn@ == text_or_empty(new));
    assert(co@ == text_or_empty(old));
    assert(ws_only == (old is Some && new is Some && code_signal(old->0.spec_bytes()) == code_signal(new->0.spec_bytes())));
    assert(silent == (old is Some && new is Some && silent_result_discard(co@, cn@)));
    assert(new_min == (old is None && new is Some && (utf8_size(trim(cn@)) <= 64 || utf8_size(code_signal(new->0.spec_bytes())) <= 32)));
    assert(calls_removed == ((if old is Some { calls_from(co@, 0) } else { 0 }) >= 3 && calls_from(cn@, 0) == 0 && (ret_const || print)));
    assert(summary@ == summary_text(flag_labels(ws_only, ret_const, print, const_ret, calls_removed, todo, empty_catch, silent, new_min)));
    Some(HeuristicAssessment {
        is_whitespace_or_comments_only: ws_only,
        is_return_constant_only: ret_const,
        is_print_or_log_only: print,
        has_todo_or_placeholder: todo,
        has_empty_catch_or_except: empty_catch,
        is_new_file_minimal: new_min,
        const_return_ignores_params: const_ret,
        logic_calls_removed: calls_removed,
        is_allowed_minimal_context: allowed,
        has_silent_result_discard: silent,
        summary,
    })
}

} // verus!
