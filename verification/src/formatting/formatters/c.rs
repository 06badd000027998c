use vstd::prelude::*;
use crate::strings::{owned, owned_list, strs};
use crate::formatting::{step_view, FormatResult, FormatterError, Next, Step, SupportedLanguage, ToolReply};
use super::{
    format_with_tool, is_default_config, lookup, result_view, tool_formatting, version_report,
    SecureCommandExecutor,
};

verus! {

/// The clang-format configuration suggested for C projects.
pub const C_DEFAULT_CONFIG: &'static str = r#"---
# clang-format configuration for C code
# Based on the GNU coding standard with some modern adjustments

BasedOnStyle: GNU
Language: C

# Indentation
IndentWidth: 2
TabWidth: 8
UseTab: Never
IndentCaseLabels: true
IndentPPDirectives: None

# Spacing
SpaceAfterCStyleCast: false
SpaceBeforeParens: ControlStatements
SpaceInEmptyParentheses: false
SpacesInContainerLiterals: false
SpacesInCStyleCastParentheses: false
SpacesInParentheses: false
SpacesInSquareBrackets: false

# Line breaking
MaxEmptyLinesToKeep: 2
KeepEmptyLinesAtTheStartOfBlocks: false
ColumnLimit: 80
BreakBeforeBraces: GNU
AllowShortIfStatementsOnASingleLine: false
AllowShortLoopsOnASingleLine: false
AllowShortFunctionsOnASingleLine: None
AllowShortBlocksOnASingleLine: false

# Alignment
AlignAfterOpenBracket: Align
AlignConsecutiveAssignments: false
AlignConsecutiveDeclarations: false
AlignEscapedNewlines: Right
AlignOperands: true
AlignTrailingComments: true

# Pointer and reference alignment
PointerAlignment: Right
DerivePointerAlignment: false

# Function formatting
BinPackArguments: false
BinPackParameters: false
AllowAllArgumentsOnNextLine: false
AllowAllParametersOfDeclarationOnNextLine: false

# Include sorting
SortIncludes: true
IncludeBlocks: Preserve

# Comments
ReflowComments: true
SpacesBeforeTrailingComments: 2

# Macros and preprocessor
MacroBlockBegin: ''
MacroBlockEnd: ''
"#;

/// The arguments that clang-format gets for C code read from standard input.
pub open spec fn c_clang_format_args() -> Seq<Seq<char>> {
    seq!["--assume-filename"@, "stdin.c"@, "--style"@, "LLVM"@, "--fallback-style"@, "GNU"@, "--ferror-limit"@, "0"@]
}

/// C formatter built on clang-format.
pub struct CFormatter {
    executor: SecureCommandExecutor,
}

impl CFormatter {
    /// The executor that runs clang-format.
    pub closed spec fn executor(self) -> SecureCommandExecutor {
        self.executor
    }

    pub fn new() -> (r: CFormatter)
        ensures
            is_default_config(r.executor().settings()),
    {
        CFormatter { executor: SecureCommandExecutor::default() }
    }

    /// The arguments clang-format runs with.
    pub fn get_clang_format_args(&self) -> (r: Vec<String>)
        ensures
            strs(r@) == c_clang_format_args(),
    {
        let items: [&str; 8] = ["--assume-filename", "stdin.c", "--style", "LLVM", "--fallback-style", "GNU", "--ferror-limit", "0"];
        assert(items@.map_values(|x: &str| x@) =~= c_clang_format_args());
        owned_list(&items)
    }

    pub fn language(&self) -> (r: SupportedLanguage)
        ensures
            r == SupportedLanguage::C,
    {
        SupportedLanguage::C
    }

    /// Is clang-format allowed and installed? (The first reply answers.)
    pub fn is_available(&self, replies: &[ToolReply]) -> (r: Step<bool>)
        ensures
            step_view(r, |b: bool| b) == lookup(self.executor().settings(), "clang-format"@, replies@),
    {
        self.executor.command_exists("clang-format", replies)
    }

    /// Formats C code with clang-format: blank code is left alone; when
    /// clang-format is missing the code is left alone with a remark; else its
    /// output is the new code, and its failure leaves the code alone with
    /// the reason. The first reply answers the availability check, the
    /// second is the run.
    pub fn format_code(&self, code: &str, replies: &[ToolReply]) -> (r: Step<FormatResult>)
        ensures
            step_view(r, |x: FormatResult| result_view(x)) == tool_formatting(
                self.executor().settings(),
                code,
                lookup(self.executor().settings(), "clang-format"@, replies@),
                1,
                "clang-format"@,
                c_clang_format_args(),
                "clang-format formatter not available - skipping C formatting"@,
                "clang-format failed: "@,
                replies@,
            ),
    {
        let avail = self.is_available(replies);
        let args = self.get_clang_format_args();
        format_with_tool(
            &self.executor,
            code,
            avail,
            1,
            "clang-format",
            args.as_slice(),
            "clang-format formatter not available - skipping C formatting",
            "clang-format failed: ",
            replies,
        )
    }

    /// The version line of clang-format (see `get_formatter_version`).
    pub fn formatter_info(&self, replies: &[ToolReply]) -> (r: Step<String>)
        ensures
            step_view(r, |s: String| s@) == version_report(self.executor().settings(), "clang-format"@, replies@),
    {
        self.executor.get_formatter_version("clang-format", replies)
    }

    /// The suggested clang-format configuration.
    pub fn default_config(&self) -> (r: Result<String, FormatterError>)
        ensures
            r matches Ok(s) && s@ == C_DEFAULT_CONFIG@,
    {
        Ok(owned(C_DEFAULT_CONFIG))
    }
}

impl Default for CFormatter {
    fn default() -> (r: CFormatter)
        ensures
            is_default_config(r.executor().settings()),
    {
        CFormatter::new()
    }
}

} // verus!
