use vstd::prelude::*;
use crate::strings::{chars_of, slice_chars, string_of, lits, to_lowercase, unicode_lower, ends_with, ends_with_exec};

verus! {

/// The zero-width characters that can hide text from a reader.
pub open spec fn is_zw(c: char) -> bool {
    c == '\u{200B}' || c == '\u{200C}' || c == '\u{200D}' || c == '\u{2060}' || c == '\u{FEFF}'
}

/// `s` without its zero-width characters.
pub open spec fn visible(s: Seq<char>) -> Seq<char>
    decreases s.len(),
{
    if s.len() == 0 {
        s
    } else if is_zw(s.last()) {
        visible(s.drop_last())
    } else {
        visible(s.drop_last()).push(s.last())
    }
}

pub fn is_zero_width_char(c: char) -> (r: bool)
    ensures
        r == is_zw(c),
{
    c == '\u{200B}' || c == '\u{200C}' || c == '\u{200D}' || c == '\u{2060}' || c == '\u{FEFF}'
}

fn visible_chars(s: &[char]) -> (r: Vec<char>)
    ensures
        r@ == visible(s@),
{
    let mut r: Vec<char> = Vec::new();
    let mut i: usize = 0;
    while i < s.len()
        invariant
            i <= s@.len(),
            r@ == visible(s@.take(i as int)),
        decreases s@.len() - i,
    {
        assert(s@.take(i + 1).drop_last() == s@.take(i as int));
        if !is_zero_width_char(s[i]) {
            r.push(s[i]);
        }
        i = i + 1;
    }
    assert(s@.take(s@.len() as int) == s@);
    r
}

/// Removes the zero-width characters from `input`, keeping all others in order.
pub fn sanitize_zero_width_chars(input: &str) -> (res: String)
    ensures
        res@ == visible(input@),
{
    let cs = chars_of(input);
    let v = visible_chars(cs.as_slice());
    string_of(v.as_slice())
}

/// `s` cut to `max_chars` visible characters ending in `…`, or `s` itself
/// when it fits; nothing when no character is allowed.
pub open spec fn truncated(s: Seq<char>, max_chars: nat) -> Seq<char> {
    if visible(s).len() <= max_chars {
        s
    } else if max_chars == 0 {
        Seq::empty()
    } else {
        visible(s).take(max_chars - 1).push('…')
    }
}

/// Shortens `s` to at most `max_chars` visible characters, the last of which
/// is `…` (nothing at all for a limit of 0); text that already fits is
/// returned unchanged, zero-width characters included.
pub fn truncate_utf8_safe(s: &str, max_chars: usize) -> (res: String)
    ensures
        res@ == truncated(s@, max_chars as nat),
{
    let cs = chars_of(s);
    let v = visible_chars(cs.as_slice());
    if v.len() <= max_chars {
        string_of(cs.as_slice())
    } else if max_chars == 0 {
        String::new()
    } else {
        let keep: usize = max_chars - 1;
        let mut t = slice_chars(v.as_slice(), 0, keep);
        t.push('…');
        string_of(t.as_slice())
    }
}

pub proof fn lemma_visible_no_zw(s: Seq<char>)
    ensures
        forall|i: int| 0 <= i < visible(s).len() ==> !is_zw(#[trigger] visible(s)[i]),
        visible(s).len() <= s.len(),
    decreases s.len(),
{
    if s.len() > 0 {
        lemma_visible_no_zw(s.drop_last());
    }
}

pub proof fn lemma_visible_of_clean(s: Seq<char>)
    requires
        forall|i: int| 0 <= i < s.len() ==> !is_zw(#[trigger] s[i]),
    ensures
        visible(s) == s,
    decreases s.len(),
{
    if s.len() > 0 {
        lemma_visible_of_clean(s.drop_last());
        assert(s.drop_last().push(s.last()) == s);
    }
}

/// Sanitizing leaves no zero-width character, and sanitizing twice is the
/// same as sanitizing once.
pub proof fn law_sanitize_idempotent(s: Seq<char>)
    ensures
        forall|i: int| 0 <= i < visible(s).len() ==> !is_zw(#[trigger] visible(s)[i]),
        visible(visible(s)) == visible(s),
{
    lemma_visible_no_zw(s);
    lemma_visible_of_clean(visible(s));
}

/// Truncation never leaves more than `max_chars` visible characters, and
/// it never changes text that fits.
pub proof fn law_truncate_bound(s: Seq<char>, max_chars: nat)
    ensures
        visible(truncated(s, max_chars)).len() <= max_chars,
        visible(s).len() <= max_chars ==> truncated(s, max_chars) == s,
{
    let res = truncated(s, max_chars);
    if visible(s).len() > max_chars && max_chars == 0 {
        assert(visible(res) =~= Seq::<char>::empty());
    } else if visible(s).len() > max_chars {
        let t = visible(s).take(max_chars - 1);
        lemma_visible_no_zw(s);
        assert forall|i: int| 0 <= i < res.len() implies !is_zw(#[trigger] res[i]) by {
            if i < t.len() {
                assert(res[i] == visible(s)[i]);
            }
        }
        lemma_visible_of_clean(res);
    }
}


/// The file extensions of source code that the hooks validate.
pub open spec fn code_extensions() -> Seq<Seq<char>> {
    seq![
        ".js"@, ".ts"@, ".jsx"@, ".tsx"@, ".mjs"@, ".cjs"@, ".py"@, ".pyw"@, ".pyc"@, ".pyo"@,
        ".java"@, ".class"@, ".jar"@, ".cpp"@, ".c"@, ".cc"@, ".cxx"@, ".h"@, ".hpp"@, ".cs"@,
        ".vb"@, ".php"@, ".php3"@, ".php4"@, ".php5"@, ".phtml"@, ".rb"@, ".rbw"@, ".go"@,
        ".rs"@, ".kt"@, ".kts"@, ".swift"@, ".sql"@, ".sh"@, ".bash"@, ".zsh"@, ".fish"@,
        ".ps1"@, ".psm1"@, ".html"@, ".htm"@, ".xhtml"@,
    ]
}

/// A file is validated when its lower-cased path ends with one of the code extensions.
pub fn should_validate_file(file_path: &str) -> (r: bool)
    ensures
        r == exists|i: int|
            0 <= i < code_extensions().len() && ends_with(
                unicode_lower(file_path@),
                #[trigger] code_extensions()[i],
            ),
{
    let exts = lits(
        &[
            ".js", ".ts", ".jsx", ".tsx", ".mjs", ".cjs", ".py", ".pyw", ".pyc", ".pyo", ".java",
            ".class", ".jar", ".cpp", ".c", ".cc", ".cxx", ".h", ".hpp", ".cs", ".vb", ".php",
            ".php3", ".php4", ".php5", ".phtml", ".rb", ".rbw", ".go", ".rs", ".kt", ".kts",
            ".swift", ".sql", ".sh", ".bash", ".zsh", ".fish", ".ps1", ".psm1", ".html", ".htm",
            ".xhtml",
        ],
    );
    assert(exts@.len() == code_extensions().len());
    assert(forall|i: int| 0 <= i < exts@.len() ==> exts@[i]@ == code_extensions()[i]);
    let lower = to_lowercase(file_path);
    let lc = chars_of(lower.as_str());
    let mut i: usize = 0;
    while i < exts.len()
        invariant
            i <= exts@.len(),
            exts@.len() == code_extensions().len(),
            forall|j: int| 0 <= j < exts@.len() ==> (#[trigger] exts@[j])@ == code_extensions()[j],
            lc@ == unicode_lower(file_path@),
            forall|j: int| 0 <= j < i ==> !ends_with(lc@, #[trigger] code_extensions()[j]),
        decreases exts@.len() - i,
    {
        if ends_with_exec(lc.as_slice(), exts[i].as_slice()) {
            assert(ends_with(lc@, code_extensions()[i as int]));
            return true;
        }
        i = i + 1;
    }
    false
}

} // verus!
