use vstd::prelude::*;
use crate::contracts::{contract_weakening_reasons, weakening_reasons};
use crate::gate::{language_from_extension, language_of_extension};
use crate::hooks::{extract_file_path, extract_old_new_contents, old_new_contents, opt_view, text_or_empty, ToolInput};
use crate::strings::{
    append_chars, append_str, chars_eq, chars_of, decimal, decimal_exec, join_strings, join_texts, split, split_chars,
    string_of, strs, trim, trim_chars,
};

verus! {

// ---------------------------------------------------------------------------
// What the pre-tool check gathers for its validation prompt
// ---------------------------------------------------------------------------

/// The project as scanned: its structure written out for the prompt, and
/// its file counts.
pub struct ProjectOverview {
    pub formatted: String,
    pub total_files: usize,
    pub estimated_loc: usize,
    pub code_files: usize,
}

/// The project's dependencies: how many, how many for development, and how
/// many each package manager brings.
pub struct DependencyOverview {
    pub total: usize,
    pub dev: usize,
    pub by_manager: Vec<(String, usize)>,
}

/// Complexity figures of the new code.
pub struct AstFigures {
    pub cyclomatic: usize,
    pub cognitive: usize,
    pub nesting_depth: usize,
    pub functions: usize,
    pub lines: usize,
}

/// What the check read or computed for the prompt; each `None` is a piece
/// that could not be had.
pub struct PromptSources {
    /// The validation instructions.
    pub base: String,
    /// The anti-pattern reference; empty where it could not be read.
    pub anti_patterns: String,
    /// The answer language, where its file could be read.
    pub language: Option<String>,
    /// The code changes as a diff; empty where there is none.
    pub diff_context: String,
    /// The heuristic assessment's summary of the change.
    pub heuristic_summary: String,
    /// A summary of the recent chat.
    pub transcript: Option<String>,
    /// The project directory named by the environment.
    pub project_dir: Option<String>,
    pub structure: Option<ProjectOverview>,
    pub dependencies: Option<DependencyOverview>,
    /// Complexity figures of the new file content.
    pub ast: Option<AstFigures>,
}

// ---------------------------------------------------------------------------
// The prompt
// ---------------------------------------------------------------------------

/// `text` after `head` when `text` is not empty.
pub open spec fn section(head: Seq<char>, text: Seq<char>) -> Seq<char> {
    if text.len() == 0 {
        Seq::empty()
    } else {
        head + text
    }
}

/// `text` after `head` when there is a text.
pub open spec fn opt_section(head: Seq<char>, text: Option<String>) -> Seq<char> {
    match text {
        Some(t) => head + t@,
        None => Seq::empty(),
    }
}

/// The structure and metrics sections of a scanned project.
pub open spec fn structure_text(s: Option<ProjectOverview>) -> Seq<char> {
    match s {
        Some(o) => "\n\nPROJECT STRUCTURE:\n"@ + o.formatted@ + "\n\nPROJECT METRICS:\n  Total files: "@ + decimal(
            o.total_files as nat,
        ) + "\n  Estimated LOC: "@ + decimal(o.estimated_loc as nat) + "\n  Code files: "@ + decimal(
            o.code_files as nat,
        ),
        None => Seq::empty(),
    }
}

/// A line per package manager, in the given order.
pub open spec fn manager_lines(ms: Seq<(String, usize)>) -> Seq<char>
    decreases ms.len(),
{
    if ms.len() == 0 {
        Seq::empty()
    } else {
        manager_lines(ms.drop_last()) + "\n"@ + ms.last().0@ + ": "@ + decimal(ms.last().1 as nat) + " dependencies"@
    }
}

/// The dependencies section.
pub open spec fn dependencies_text(d: Option<DependencyOverview>) -> Seq<char> {
    match d {
        Some(o) => "\n\nPROJECT DEPENDENCIES:\nTotal: "@ + decimal(o.total as nat) + " dependencies ("@ + decimal(
            o.dev as nat,
        ) + " dev, "@ + decimal((o.total - o.dev) as nat) + " production)"@ + manager_lines(o.by_manager@),
        None => Seq::empty(),
    }
}

/// The language of a path, by what follows its last `.`.
pub open spec fn path_language(path: Seq<char>) -> Option<crate::formatting::SupportedLanguage> {
    language_of_extension(split(path, '.').last())
}

/// The complexity section: only for non-empty content of a file whose path
/// names a known language, and where figures were computed.
pub open spec fn ast_text(content: Seq<char>, file_path: Seq<char>, a: Option<AstFigures>) -> Seq<char> {
    if content.len() > 0 && file_path.len() > 0 && crate::paths::extension_of(file_path) is Some
        && language_of_extension(crate::paths::extension_of(file_path)->0) is Some {
        match a {
            Some(f) => "\n\nAST ANALYSIS:\n  Cyclomatic Complexity: "@ + decimal(f.cyclomatic as nat)
                + "\n  Cognitive Complexity: "@ + decimal(f.cognitive as nat) + "\n  Nesting Depth: "@ + decimal(
                f.nesting_depth as nat,
            ) + "\n  Functions: "@ + decimal(f.functions as nat) + "\n  Lines: "@ + decimal(f.lines as nat),
            None => Seq::empty(),
        }
    } else {
        Seq::empty()
    }
}

/// The API-weakening note: for an edit of a named file with old and new
/// code, the weakening reasons found, one per line.
pub open spec fn weakening_text(
    tool_name: Seq<char>,
    input: ToolInput,
    existing: Option<Seq<char>>,
    file_path: Seq<char>,
) -> Seq<char> {
    let (path, old, new) = old_new_contents(tool_name, input, existing);
    if file_path.len() > 0 && (tool_name == "Edit"@ || tool_name == "MultiEdit"@) && old is Some && new is Some {
        let reasons = weakening_reasons(path_language(path), old->0, new->0);
        if reasons.len() > 0 {
            "\n\nHEURISTIC SUMMARY:\nAPI contract weakening suspected:\n- "@ + join_texts(reasons, "\n- "@) + "\n"@
        } else {
            Seq::empty()
        }
    } else {
        Seq::empty()
    }
}

/// The validation prompt: the instructions, then each piece that is there
/// under its heading (anti-patterns, the file, the diff, the heuristic
/// summary, the chat, the project, its structure, dependencies and
/// complexity), the answer language (the language file trimmed, Russian
/// without one), and the API-weakening note. `existing` is the file's
/// current content, where it was read.
pub open spec fn validation_prompt(
    s: PromptSources,
    tool_name: Seq<char>,
    input: ToolInput,
    existing: Option<Seq<char>>,
    content: Seq<char>,
) -> Seq<char> {
    let fp = text_or_empty(input.file_path);
    let language = match s.language {
        Some(l) => trim(l@),
        None => "RUSSIAN"@,
    };
    s.base@ + section("\n\nANTI-PATTERNS REFERENCE:\n"@, s.anti_patterns@) + section(
        "\n\nFILE BEING MODIFIED: "@,
        fp,
    ) + section("\n\nCODE CHANGES (diff format):\n"@, s.diff_context@) + "\n\nHEURISTIC SUMMARY: "@
        + s.heuristic_summary@ + opt_section("\n\nCONTEXT - Recent chat history:\n"@, s.transcript) + opt_section(
        "\n\nPROJECT: "@,
        s.project_dir,
    ) + structure_text(s.structure) + dependencies_text(s.dependencies) + ast_text(content, fp, s.ast)
        + "\n\nIMPORTANT: Respond in "@ + language + " language."@ + weakening_text(tool_name, input, existing, fp)
}

fn push_section(out: &mut Vec<char>, head: &str, text: &str)
    ensures
        final(out)@ == old(out)@ + section(head@, text@),
{
    if !text.is_empty() {
        append_str(out, head);
        append_str(out, text);
    }
}

fn push_opt_section(out: &mut Vec<char>, head: &str, text: &Option<String>)
    ensures
        final(out)@ == old(out)@ + opt_section(head@, *text),
{
    match text {
        Some(t) => {
            append_str(out, head);
            append_str(out, t.as_str());
        },
        None => {},
    }
}

fn push_number(out: &mut Vec<char>, n: usize)
    ensures
        final(out)@ == old(out)@ + decimal(n as nat),
{
    let d = decimal_exec(n);
    append_chars(out, d.as_slice());
}

fn push_structure(out: &mut Vec<char>, s: &Option<ProjectOverview>)
    ensures
        final(out)@ == old(out)@ + structure_text(*s),
{
    let ghost o0 = out@;
    match s {
        Some(o) => {
            append_str(out, "\n\nPROJECT STRUCTURE:\n");
            append_str(out, o.formatted.as_str());
            append_str(out, "\n\nPROJECT METRICS:\n  Total files: ");
            push_number(out, o.total_files);
            append_str(out, "\n  Estimated LOC: ");
            push_number(out, o.estimated_loc);
            append_str(out, "\n  Code files: ");
            push_number(out, o.code_files);
            assert(out@ =~= o0 + structure_text(*s));
        },
        None => {},
    }
}

fn push_dependencies(out: &mut Vec<char>, d: &Option<DependencyOverview>)
    requires
        d matches Some(o) ==> o.dev <= o.total,
    ensures
        final(out)@ == old(out)@ + dependencies_text(*d),
{
    let ghost o0 = out@;
    match d {
        Some(o) => {
            append_str(out, "\n\nPROJECT DEPENDENCIES:\nTotal: ");
            push_number(out, o.total);
            append_str(out, " dependencies (");
            push_number(out, o.dev);
            append_str(out, " dev, ");
            push_number(out, o.total - o.dev);
            append_str(out, " production)");
            let ghost o1 = out@;
            let ms = &o.by_manager;
            let mut k: usize = 0;
            assert(ms@.take(0) =~= Seq::<(String, usize)>::empty());
            while k < ms.len()
                invariant
                    k <= ms@.len(),
                    out@ == o1 + manager_lines(ms@.take(k as int)),
                decreases ms@.len() - k,
            {
                assert(ms@.take(k + 1).drop_last() =~= ms@.take(k as int));
                append_str(out, "\n");
                append_str(out, ms[k].0.as_str());
                append_str(out, ": ");
                push_number(out, ms[k].1);
                append_str(out, " dependencies");
                assert(out@ =~= o1 + manager_lines(ms@.take(k + 1)));
                k = k + 1;
            }
            assert(ms@.take(ms@.len() as int) =~= ms@);
            assert(out@ =~= o0 + dependencies_text(*d));
        },
        None => {},
    }
}

fn push_ast(out: &mut Vec<char>, content: &str, file_path: &str, a: &Option<AstFigures>)
    ensures
        final(out)@ == old(out)@ + ast_text(content@, file_path@, *a),
{
    let ghost o0 = out@;
    if content.is_empty() || file_path.is_empty() {
        return;
    }
    let known = match crate::paths::path_extension(file_path) {
        Some(e) => language_from_extension(e.as_str()).is_some(),
        None => false,
    };
    if !known {
        return;
    }
    match a {
        Some(f) => {
            append_str(out, "\n\nAST ANALYSIS:\n  Cyclomatic Complexity: ");
            push_number(out, f.cyclomatic);
            append_str(out, "\n  Cognitive Complexity: ");
            push_number(out, f.cognitive);
            append_str(out, "\n  Nesting Depth: ");
            push_number(out, f.nesting_depth);
            append_str(out, "\n  Functions: ");
            push_number(out, f.functions);
            append_str(out, "\n  Lines: ");
            push_number(out, f.lines);
            assert(out@ =~= o0 + ast_text(content@, file_path@, *a));
        },
        None => {},
    }
}

fn last_piece(path: &str) -> (r: String)
    ensures
        r@ == split(path@, '.').last(),
{
    let c = chars_of(path);
    let parts = split_chars(c.as_slice(), '.');
    proof {
        crate::strings::lemma_split_len(path@, '.');
    }
    string_of(parts[parts.len() - 1].as_slice())
}

fn is_text(a: &str, b: &str) -> (r: bool)
    ensures
        r == (a@ == b@),
{
    let x = chars_of(a);
    let y = chars_of(b);
    chars_eq(x.as_slice(), y.as_slice())
}

fn push_weakening(out: &mut Vec<char>, tool_name: &str, input: &ToolInput, existing: Option<String>, file_path: &str)
    ensures
        final(out)@ == old(out)@ + weakening_text(tool_name@, *input, opt_view(existing), file_path@),
{
    let ghost o0 = out@;
    let ghost ev = opt_view(existing);
    if file_path.is_empty() || !(is_text(tool_name, "Edit") || is_text(tool_name, "MultiEdit")) {
        return;
    }
    let (path, old, new) = extract_old_new_contents(tool_name, input, existing);
    match (old, new) {
        (Some(o), Some(n)) => {
            let ext = last_piece(path.as_str());
            let lang = language_from_extension(ext.as_str());
            let reasons = contract_weakening_reasons(lang, o.as_str(), n.as_str());
            if reasons.len() > 0 {
                append_str(out, "\n\nHEURISTIC SUMMARY:\nAPI contract weakening suspected:\n- ");
                let joined = join_strings(&reasons, "\n- ");
                append_str(out, joined.as_str());
                append_str(out, "\n");
            }
            assert(out@ =~= o0 + weakening_text(tool_name@, *input, ev, file_path@));
        },
        _ => {},
    }
}

/// The validation prompt (see `validation_prompt`). `existing` is the
/// file's current content, where it was read; `content` is the new file
/// content.
pub fn build_validation_prompt(
    sources: &PromptSources,
    tool_name: &str,
    tool_input: &ToolInput,
    existing: Option<String>,
    content: &str,
) -> (r: String)
    requires
        sources.dependencies matches Some(d) ==> d.dev <= d.total,
    ensures
        r@ == validation_prompt(*sources, tool_name@, *tool_input, opt_view(existing), content@),
{
    let fp = extract_file_path(tool_input);
    let mut out: Vec<char> = Vec::new();
    append_str(&mut out, sources.base.as_str());
    push_section(&mut out, "\n\nANTI-PATTERNS REFERENCE:\n", sources.anti_patterns.as_str());
    push_section(&mut out, "\n\nFILE BEING MODIFIED: ", fp.as_str());
    push_section(&mut out, "\n\nCODE CHANGES (diff format):\n", sources.diff_context.as_str());
    append_str(&mut out, "\n\nHEURISTIC SUMMARY: ");
    append_str(&mut out, sources.heuristic_summary.as_str());
    push_opt_section(&mut out, "\n\nCONTEXT - Recent chat history:\n", &sources.transcript);
    push_opt_section(&mut out, "\n\nPROJECT: ", &sources.project_dir);
    push_structure(&mut out, &sources.structure);
    push_dependencies(&mut out, &sources.dependencies);
    push_ast(&mut out, content, fp.as_str(), &sources.ast);
    append_str(&mut out, "\n\nIMPORTANT: Respond in ");
    match &sources.language {
        Some(l) => {
            let lc = chars_of(l.as_str());
            let t = trim_chars(lc.as_slice());
            append_chars(&mut out, t.as_slice());
        },
        None => append_str(&mut out, "RUSSIAN"),
    }
    append_str(&mut out, " language.");
    push_weakening(&mut out, tool_name, tool_input, existing, fp.as_str());
    string_of(out.as_slice())
}

} // verus!
