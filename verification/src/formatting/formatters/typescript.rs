use vstd::prelude::*;
use crate::strings::{owned, owned_list, strs};
use crate::formatting::{step_view, FormatResult, FormatterError, Next, Step, SupportedLanguage, ToolReply};
use super::{
    format_with_tool, is_default_config, lookup, result_view, tool_formatting, version_report,
    SecureCommandExecutor,
};

verus! {

/// The prettier configuration suggested for TypeScript projects.
pub const TYPESCRIPT_DEFAULT_CONFIG: &'static str = r#"{
  "semi": true,
  "trailingComma": "all",
  "singleQuote": false,
  "printWidth": 100,
  "tabWidth": 2,
  "useTabs": false,
  "bracketSpacing": true,
  "bracketSameLine": false,
  "arrowParens": "always",
  "endOfLine": "lf",
  "quoteProps": "as-needed",
  "requirePragma": false,
  "insertPragma": false,
  "proseWrap": "preserve",
  "embeddedLanguageFormatting": "auto",
  "parser": "typescript",
  "overrides": [
    {
      "files": ["*.tsx"],
      "options": {
        "parser": "typescript",
        "jsxSingleQuote": false,
        "jsxBracketSameLine": false
      }
    }
  ]
}"#;

/// The arguments that prettier gets for TypeScript code read from standard input.
pub open spec fn typescript_prettier_args() -> Seq<Seq<char>> {
    seq!["--parser"@, "typescript"@, "--stdin-filepath"@, "stdin.ts"@, "--print-width"@, "100"@, "--tab-width"@, "2"@, "--use-tabs"@, "false"@, "--semi"@, "true"@, "--single-quote"@, "true"@, "--trailing-comma"@, "all"@, "--bracket-spacing"@, "true"@, "--arrow-parens"@, "avoid"@]
}

/// TypeScript formatter built on prettier.
pub struct TypeScriptFormatter {
    executor: SecureCommandExecutor,
}

impl TypeScriptFormatter {
    /// The executor that runs prettier.
    pub closed spec fn executor(self) -> SecureCommandExecutor {
        self.executor
    }

    pub fn new() -> (r: TypeScriptFormatter)
        ensures
            is_default_config(r.executor().settings()),
    {
        TypeScriptFormatter { executor: SecureCommandExecutor::default() }
    }

    /// The arguments prettier runs with.
    pub fn get_prettier_args(&self) -> (r: Vec<String>)
        ensures
            strs(r@) == typescript_prettier_args(),
    {
        let items: [&str; 20] = ["--parser", "typescript", "--stdin-filepath", "stdin.ts", "--print-width", "100", "--tab-width", "2", "--use-tabs", "false", "--semi", "true", "--single-quote", "true", "--trailing-comma", "all", "--bracket-spacing", "true", "--arrow-parens", "avoid"];
        assert(items@.map_values(|x: &str| x@) =~= typescript_prettier_args());
        owned_list(&items)
    }

    pub fn language(&self) -> (r: SupportedLanguage)
        ensures
            r == SupportedLanguage::TypeScript,
    {
        SupportedLanguage::TypeScript
    }

    /// Is prettier allowed and installed? (The first reply answers.)
    pub fn is_available(&self, replies: &[ToolReply]) -> (r: Step<bool>)
        ensures
            step_view(r, |b: bool| b) == lookup(self.executor().settings(), "prettier"@, replies@),
    {
        self.executor.command_exists("prettier", replies)
    }

    /// Formats TypeScript code with prettier: blank code is left alone; when
    /// prettier is missing the code is left alone with a remark; else its
    /// output is the new code, and its failure leaves the code alone with
    /// the reason. The first reply answers the availability check, the
    /// second is the run.
    pub fn format_code(&self, code: &str, replies: &[ToolReply]) -> (r: Step<FormatResult>)
        ensures
            step_view(r, |x: FormatResult| result_view(x)) == tool_formatting(
                self.executor().settings(),
                code,
                lookup(self.executor().settings(), "prettier"@, replies@),
                1,
                "prettier"@,
                typescript_prettier_args(),
                "prettier formatter not available - skipping TypeScript formatting"@,
                "prettier failed: "@,
                replies@,
            ),
    {
        let avail = self.is_available(replies);
        let args = self.get_prettier_args();
        format_with_tool(
            &self.executor,
            code,
            avail,
            1,
            "prettier",
            args.as_slice(),
            "prettier formatter not available - skipping TypeScript formatting",
            "prettier failed: ",
            replies,
        )
    }

    /// The version line of prettier (see `get_formatter_version`).
    pub fn formatter_info(&self, replies: &[ToolReply]) -> (r: Step<String>)
        ensures
            step_view(r, |s: String| s@) == version_report(self.executor().settings(), "prettier"@, replies@),
    {
        self.executor.get_formatter_version("prettier", replies)
    }

    /// The suggested prettier configuration.
    pub fn default_config(&self) -> (r: Result<String, FormatterError>)
        ensures
            r matches Ok(s) && s@ == TYPESCRIPT_DEFAULT_CONFIG@,
    {
        Ok(owned(TYPESCRIPT_DEFAULT_CONFIG))
    }
}

impl Default for TypeScriptFormatter {
    fn default() -> (r: TypeScriptFormatter)
        ensures
            is_default_config(r.executor().settings()),
    {
        TypeScriptFormatter::new()
    }
}

} // verus!
