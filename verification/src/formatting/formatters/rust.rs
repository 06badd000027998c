use vstd::prelude::*;
use crate::strings::{
    chars_eq, chars_of, has_char, has_char_exec, lines, lines_of, owned, owned_list, split, split_chars,
    starts_with, starts_with_lit, string_of, strs, trim, trim_chars, trim_matching,
    trim_matching_exec, lemma_split_len, lemma_strs_push,
};
use crate::formatting::{opt_text, step_view, FormatResult, FormatterError, Next, Step, SupportedLanguage, ToolReply};
use super::{
    format_with_tool, is_default_config, lookup, result_view, tool_formatting, version_report,
    SecureCommandExecutor,
};

verus! {

/// A rustfmt configuration to start from.
pub const RUST_DEFAULT_CONFIG: &'static str = r#"# rustfmt configuration
# This file can be placed as rustfmt.toml or .rustfmt.toml

# Basic formatting options
max_width = 100
hard_tabs = false
tab_spaces = 4

# Import and use formatting
imports_layout = "Mixed"
group_imports = "StdExternalCrate"
reorder_imports = true

# Code style preferences
fn_single_line = false
where_single_line = false
force_explicit_abi = true
format_strings = false
format_macro_matchers = true
format_code_in_doc_comments = false

# Comment formatting
normalize_comments = true
wrap_comments = true
comment_width = 80

# Control flow formatting
match_block_trailing_comma = false
trailing_comma = "Vertical"
trailing_semicolon = true

# Error handling
error_on_line_overflow = false
error_on_unformatted = false

# Misc options
edition = "2021"
use_field_init_shorthand = false
use_try_shorthand = false
"#;

/// The Rust editions rustfmt is told about.
pub open spec fn known_edition(v: Seq<char>) -> bool {
    v == "2015"@ || v == "2018"@ || v == "2021"@ || v == "2024"@
}

/// The edition a line of a TOML file sets: a trimmed line that starts with
/// `edition` and has `=`, whose value after the first `=` is, once trimmed
/// and stripped of quotes, a known edition.
pub open spec fn line_edition(line: Seq<char>) -> Option<Seq<char>> {
    let t = trim(line);
    if starts_with(t, "edition"@) && has_char(t, '=') {
        let v = trim_matching(trim_matching(trim(split(t, '=')[1]), '"'), '\'');
        if known_edition(v) {
            Some(v)
        } else {
            None
        }
    } else {
        None
    }
}

/// The edition set by the first line that sets one.
pub open spec fn first_edition(ls: Seq<Seq<char>>) -> Option<Seq<char>>
    decreases ls.len(),
{
    if ls.len() == 0 {
        None
    } else {
        match first_edition(ls.drop_last()) {
            Some(v) => Some(v),
            None => line_edition(ls.last()),
        }
    }
}

/// The edition set by the first readable file (in the order given) that sets one.
pub open spec fn edition_in(files: Seq<Option<Seq<char>>>) -> Option<Seq<char>>
    decreases files.len(),
{
    if files.len() == 0 {
        None
    } else {
        match edition_in(files.drop_last()) {
            Some(v) => Some(v),
            None => match files.last() {
                Some(c) => first_edition(lines(c)),
                None => None,
            },
        }
    }
}

/// The texts of files that may be missing.
pub open spec fn file_texts(files: Seq<Option<String>>) -> Seq<Option<Seq<char>>> {
    files.map_values(|f: Option<String>| match f {
        Some(s) => Some(s@),
        None => None,
    })
}

/// rustfmt's arguments: the edition found (2021 when none is), then `--`
/// to read standard input.
pub open spec fn rustfmt_args(files: Seq<Option<Seq<char>>>) -> Seq<Seq<char>> {
    let edition = match edition_in(files) {
        Some(v) => v,
        None => "2021"@,
    };
    seq!["--edition"@, edition, "--"@]
}

/// Rust formatter built on rustfmt.
pub struct RustFormatter {
    executor: SecureCommandExecutor,
}

impl RustFormatter {
    /// The executor that runs rustfmt.
    pub closed spec fn executor(self) -> SecureCommandExecutor {
        self.executor
    }

    pub fn new() -> (r: RustFormatter)
        ensures
            is_default_config(r.executor().settings()),
    {
        RustFormatter { executor: SecureCommandExecutor::default() }
    }

    /// The edition a TOML text sets, if a line sets a known one.
    pub fn extract_edition_from_toml(&self, content: &str) -> (r: Option<String>)
        ensures
            opt_text(r) == first_edition(lines(content@)),
    {
        let ls = lines_of(chars_of(content).as_slice());
        let ghost lv = lines(content@);
        assert(lv.len() == ls@.len());
        let mut i: usize = 0;
        while i < ls.len()
            invariant
                i <= ls@.len(),
                lv == lines(content@),
                lv.len() == ls@.len(),
                forall|j: int| 0 <= j < ls@.len() ==> (#[trigger] ls@[j])@ == lv[j],
                first_edition(lv.take(i as int)) is None,
            decreases ls@.len() - i,
        {
            assert(lv.take(i + 1).drop_last() == lv.take(i as int));
            assert(lv.take(i + 1).last() == lv[i as int]);
            let t = trim_chars(ls[i].as_slice());
            if starts_with_lit(t.as_slice(), "edition") && has_char_exec(t.as_slice(), '=') {
                let parts = split_chars(t.as_slice(), '=');
                proof {
                    lemma_split_len(t@, '=');
                }
                let v0 = trim_chars(parts[1].as_slice());
                let v1 = trim_matching_exec(v0.as_slice(), '"');
                let v = trim_matching_exec(v1.as_slice(), '\'');
                let vs = string_of(v.as_slice());
                if is_known_edition(v.as_slice()) {
                    assert(line_edition(lv[i as int]) == Some(v@));
                    proof {
                        lemma_first_edition_prefix(lv, i as int + 1);
                    }
                    return Some(vs);
                }
            }
            assert(line_edition(lv[i as int]) is None);
            i = i + 1;
        }
        assert(lv.take(ls@.len() as int) == lv);
        None
    }

    /// The edition set by the first of the given files (their texts; `None`
    /// for a file that could not be read) that sets one. The files looked at
    /// are `Cargo.toml`, `rustfmt.toml` and `.rustfmt.toml`, in that order.
    pub fn detect_rust_edition(&self, files: &[Option<String>]) -> (r: Option<String>)
        ensures
            opt_text(r) == edition_in(file_texts(files@)),
    {
        let ghost fv = file_texts(files@);
        let mut i: usize = 0;
        while i < files.len()
            invariant
                i <= files@.len(),
                fv == file_texts(files@),
                edition_in(fv.take(i as int)) is None,
            decreases files@.len() - i,
        {
            assert(fv.take(i + 1).drop_last() == fv.take(i as int));
            assert(fv.take(i + 1).last() == fv[i as int]);
            match &files[i] {
                Some(content) => {
                    match self.extract_edition_from_toml(content.as_str()) {
                        Some(v) => {
                            proof {
                                lemma_edition_in_prefix(fv, i as int + 1);
                            }
                            return Some(v);
                        },
                        None => {},
                    }
                },
                None => {},
            }
            i = i + 1;
        }
        assert(fv.take(files@.len() as int) == fv);
        None
    }

    /// rustfmt's arguments: the edition of the given files (2021 when none
    /// sets one), then `--`.
    pub fn get_rustfmt_args(&self, files: &[Option<String>]) -> (r: Vec<String>)
        ensures
            strs(r@) == rustfmt_args(file_texts(files@)),
    {
        let edition = match self.detect_rust_edition(files) {
            Some(v) => v,
            None => owned("2021"),
        };
        let mut args: Vec<String> = Vec::new();
        let a = owned("--edition");
        args.push(a);
        proof {
            lemma_strs_push(Seq::empty(), a);
        }
        let ghost s1 = args@;
        args.push(edition);
        proof {
            lemma_strs_push(s1, edition);
        }
        let ghost s2 = args@;
        let b = owned("--");
        args.push(b);
        proof {
            lemma_strs_push(s2, b);
        }
        assert(strs(args@) =~= rustfmt_args(file_texts(files@)));
        args
    }

    pub fn language(&self) -> (r: SupportedLanguage)
        ensures
            r == SupportedLanguage::Rust,
    {
        SupportedLanguage::Rust
    }

    /// Is rustfmt allowed and installed? (The first reply answers.)
    pub fn is_available(&self, replies: &[ToolReply]) -> (r: Step<bool>)
        ensures
            step_view(r, |b: bool| b) == lookup(self.executor().settings(), "rustfmt"@, replies@),
    {
        self.executor.command_exists("rustfmt", replies)
    }

    /// Formats Rust code with rustfmt, for the edition that the given
    /// project files set: blank code is left alone; when rustfmt is missing
    /// the code is left alone with a remark; else its output is the new
    /// code, and its failure leaves the code alone with the reason. The
    /// first reply answers the availability check, the second is the run.
    pub fn format_code(&self, code: &str, files: &[Option<String>], replies: &[ToolReply]) -> (r: Step<
        FormatResult,
    >)
        ensures
            step_view(r, |x: FormatResult| result_view(x)) == tool_formatting(
                self.executor().settings(),
                code,
                lookup(self.executor().settings(), "rustfmt"@, replies@),
                1,
                "rustfmt"@,
                rustfmt_args(file_texts(files@)),
                "rustfmt formatter not available - skipping Rust formatting"@,
                "rustfmt failed: "@,
                replies@,
            ),
    {
        let avail = self.is_available(replies);
        let args = self.get_rustfmt_args(files);
        format_with_tool(
            &self.executor,
            code,
            avail,
            1,
            "rustfmt",
            args.as_slice(),
            "rustfmt formatter not available - skipping Rust formatting",
            "rustfmt failed: ",
            replies,
        )
    }

    /// The version line of rustfmt (see `get_formatter_version`).
    pub fn formatter_info(&self, replies: &[ToolReply]) -> (r: Step<String>)
        ensures
            step_view(r, |s: String| s@) == version_report(self.executor().settings(), "rustfmt"@, replies@),
    {
        self.executor.get_formatter_version("rustfmt", replies)
    }

    /// The suggested rustfmt configuration.
    pub fn default_config(&self) -> (r: Result<String, FormatterError>)
        ensures
            r matches Ok(s) && s@ == RUST_DEFAULT_CONFIG@,
    {
        Ok(owned(RUST_DEFAULT_CONFIG))
    }
}

impl Default for RustFormatter {
    fn default() -> (r: RustFormatter)
        ensures
            is_default_config(r.executor().settings()),
    {
        RustFormatter::new()
    }
}

/// Is `v` one of the known editions?
fn is_known_edition(v: &[char]) -> (r: bool)
    ensures
        r == known_edition(v@),
{
    chars_eq(v, chars_of("2015").as_slice()) || chars_eq(v, chars_of("2018").as_slice()) || chars_eq(
        v,
        chars_of("2021").as_slice(),
    ) || chars_eq(v, chars_of("2024").as_slice())
}

/// The edition of the first `n` lines, when they set one, is that of all.
proof fn lemma_first_edition_prefix(ls: Seq<Seq<char>>, n: int)
    requires
        0 < n <= ls.len(),
        first_edition(ls.take(n - 1)) is None,
        line_edition(ls[n - 1]) is Some,
    ensures
        first_edition(ls) == line_edition(ls[n - 1]),
    decreases ls.len(),
{
    if n < ls.len() {
        assert(ls.drop_last().take(n - 1) == ls.take(n - 1));
        assert(ls.drop_last()[n - 1] == ls[n - 1]);
        lemma_first_edition_prefix(ls.drop_last(), n);
    } else {
        assert(ls.take(n).drop_last() == ls.take(n - 1));
        assert(ls.take(n) == ls);
    }
}

/// The edition of the first `n` files, when they set one, is that of all.
proof fn lemma_edition_in_prefix(fs: Seq<Option<Seq<char>>>, n: int)
    requires
        0 < n <= fs.len(),
        edition_in(fs.take(n - 1)) is None,
        fs[n - 1] is Some,
        first_edition(lines(fs[n - 1]->0)) is Some,
    ensures
        edition_in(fs) == first_edition(lines(fs[n - 1]->0)),
    decreases fs.len(),
{
    if n < fs.len() {
        assert(fs.drop_last().take(n - 1) == fs.take(n - 1));
        assert(fs.drop_last()[n - 1] == fs[n - 1]);
        lemma_edition_in_prefix(fs.drop_last(), n);
    } else {
        assert(fs.take(n).drop_last() == fs.take(n - 1));
        assert(fs.take(n) == fs);
    }
}

} // verus!
