use vstd::prelude::*;
use crate::strings::{owned, owned_list, strs};
use crate::formatting::{step_view, FormatResult, FormatterError, Next, Step, SupportedLanguage, ToolReply};
use super::{
    format_with_tool, is_default_config, lookup, result_view, tool_formatting, version_report,
    SecureCommandExecutor,
};

verus! {

/// The clang-format configuration suggested for C++ projects.
pub const CPP_DEFAULT_CONFIG: &'static str = r#"---
# clang-format configuration for C++ code
# Based on Google C++ Style Guide with some modern C++ adjustments

BasedOnStyle: Google
Language: Cpp
Standard: c++17

# Indentation
IndentWidth: 2
TabWidth: 2
UseTab: Never
IndentCaseLabels: true
IndentPPDirectives: None
AccessModifierOffset: -1

# Spacing
SpaceAfterCStyleCast: false
SpaceAfterLogicalNot: false
SpaceAfterTemplateKeyword: true
SpaceBeforeAssignmentOperators: true
SpaceBeforeParens: ControlStatements
SpaceInEmptyParentheses: false
SpacesInContainerLiterals: true
SpacesInCStyleCastParentheses: false
SpacesInParentheses: false
SpacesInSquareBrackets: false
SpaceBeforeRangeBasedForLoopColon: true

# Line breaking
MaxEmptyLinesToKeep: 1
KeepEmptyLinesAtTheStartOfBlocks: false
ColumnLimit: 80
BreakBeforeBraces: Attach
AllowShortIfStatementsOnASingleLine: WithoutElse
AllowShortLoopsOnASingleLine: true
AllowShortFunctionsOnASingleLine: All
AllowShortBlocksOnASingleLine: Never
AllowShortCaseLabelsOnASingleLine: false

# Modern C++ features
Cpp11BracedListStyle: true
FixNamespaceComments: true
CompactNamespaces: false
NamespaceIndentation: None

# Template formatting
AlwaysBreakTemplateDeclarations: Yes
BreakBeforeConceptDeclarations: true

# Alignment
AlignAfterOpenBracket: Align
AlignConsecutiveAssignments: false
AlignConsecutiveDeclarations: false
AlignEscapedNewlines: Left
AlignOperands: true
AlignTrailingComments: true

# Pointer and reference alignment
PointerAlignment: Left
DerivePointerAlignment: false

# Function formatting
BinPackArguments: true
BinPackParameters: true
AllowAllArgumentsOnNextLine: true
AllowAllParametersOfDeclarationOnNextLine: true

# Include sorting
SortIncludes: true
IncludeBlocks: Regroup
IncludeCategories:
  - Regex: '^<ext/.*\.h>'
    Priority: 2
  - Regex: '^<.*\.h>'
    Priority: 1
  - Regex: '^<.*'
    Priority: 2
  - Regex: '.*'
    Priority: 3

# Comments
ReflowComments: true
SpacesBeforeTrailingComments: 2

# Constructor initializer lists
ConstructorInitializerAllOnOneLineOrOnePerLine: true
ConstructorInitializerIndentWidth: 4
BreakConstructorInitializers: BeforeColon

# Other formatting options
ExperimentalAutoDetectBinPacking: false
PenaltyBreakAssignment: 2
PenaltyBreakBeforeFirstCallParameter: 1
PenaltyBreakComment: 300
PenaltyBreakFirstLessLess: 120
PenaltyBreakString: 1000
PenaltyExcessCharacter: 1000000
PenaltyReturnTypeOnItsOwnLine: 200
"#;

/// The arguments that clang-format gets for C++ code read from standard input.
pub open spec fn cpp_clang_format_args() -> Seq<Seq<char>> {
    seq!["--assume-filename"@, "stdin.cpp"@, "--style"@, "Google"@, "--fallback-style"@, "LLVM"@, "--ferror-limit"@, "0"@]
}

/// C++ formatter built on clang-format.
pub struct CppFormatter {
    executor: SecureCommandExecutor,
}

impl CppFormatter {
    /// The executor that runs clang-format.
    pub closed spec fn executor(self) -> SecureCommandExecutor {
        self.executor
    }

    pub fn new() -> (r: CppFormatter)
        ensures
            is_default_config(r.executor().settings()),
    {
        CppFormatter { executor: SecureCommandExecutor::default() }
    }

    /// The arguments clang-format runs with.
    pub fn get_clang_format_args(&self) -> (r: Vec<String>)
        ensures
            strs(r@) == cpp_clang_format_args(),
    {
        let items: [&str; 8] = ["--assume-filename", "stdin.cpp", "--style", "Google", "--fallback-style", "LLVM", "--ferror-limit", "0"];
        assert(items@.map_values(|x: &str| x@) =~= cpp_clang_format_args());
        owned_list(&items)
    }

    pub fn language(&self) -> (r: SupportedLanguage)
        ensures
            r == SupportedLanguage::Cpp,
    {
        SupportedLanguage::Cpp
    }

    /// Is clang-format allowed and installed? (The first reply answers.)
    pub fn is_available(&self, replies: &[ToolReply]) -> (r: Step<bool>)
        ensures
            step_view(r, |b: bool| b) == lookup(self.executor().settings(), "clang-format"@, replies@),
    {
        self.executor.command_exists("clang-format", replies)
    }

    /// Formats C++ code with clang-format: blank code is left alone; when
    /// clang-format is missing the code is left alone with a remark; else its
    /// output is the new code, and its failure leaves the code alone with
    /// the reason. The first reply answers the availability check, the
    /// second is the run.
    pub fn format_code(&self, code: &str, replies: &[ToolReply]) -> (r: Step<FormatResult>)
        ensures
            step_view(r, |x: FormatResult| result_view(x)) == tool_formatting(
                self.executor().settings(),
                code,
                lookup(self.executor().settings(), "clang-format"@, replies@),
                1,
                "clang-format"@,
                cpp_clang_format_args(),
                "clang-format formatter not available - skipping C++ formatting"@,
                "clang-format failed: "@,
                replies@,
            ),
    {
        let avail = self.is_available(replies);
        let args = self.get_clang_format_args();
        format_with_tool(
            &self.executor,
            code,
            avail,
            1,
            "clang-format",
            args.as_slice(),
            "clang-format formatter not available - skipping C++ formatting",
            "clang-format failed: ",
            replies,
        )
    }

    /// The version line of clang-format (see `get_formatter_version`).
    pub fn formatter_info(&self, replies: &[ToolReply]) -> (r: Step<String>)
        ensures
            step_view(r, |s: String| s@) == version_report(self.executor().settings(), "clang-format"@, replies@),
    {
        self.executor.get_formatter_version("clang-format", replies)
    }

    /// The suggested clang-format configuration.
    pub fn default_config(&self) -> (r: Result<String, FormatterError>)
        ensures
            r matches Ok(s) && s@ == CPP_DEFAULT_CONFIG@,
    {
        Ok(owned(CPP_DEFAULT_CONFIG))
    }
}

impl Default for CppFormatter {
    fn default() -> (r: CppFormatter)
        ensures
            is_default_config(r.executor().settings()),
    {
        CppFormatter::new()
    }
}

} // verus!
