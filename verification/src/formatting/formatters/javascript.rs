use vstd::prelude::*;
use crate::strings::{owned, owned_list, strs};
use crate::formatting::{step_view, FormatResult, FormatterError, Next, Step, SupportedLanguage, ToolReply};
use super::{
    format_with_tool, is_default_config, lookup, result_view, tool_formatting, version_report,
    SecureCommandExecutor,
};

verus! {

/// The prettier configuration suggested for JavaScript projects.
pub const JAVASCRIPT_DEFAULT_CONFIG: &'static str = r#"{
  "semi": true,
  "trailingComma": "es5",
  "singleQuote": false,
  "printWidth": 80,
  "tabWidth": 2,
  "useTabs": false,
  "bracketSpacing": true,
  "bracketSameLine": false,
  "arrowParens": "always",
  "endOfLine": "lf",
  "quoteProps": "as-needed",
  "jsxSingleQuote": false,
  "jsxBracketSameLine": false,
  "requirePragma": false,
  "insertPragma": false,
  "proseWrap": "preserve",
  "htmlWhitespaceSensitivity": "css",
  "vueIndentScriptAndStyle": false,
  "embeddedLanguageFormatting": "auto"
}"#;

/// The arguments that prettier gets for JavaScript code read from standard input.
pub open spec fn javascript_prettier_args() -> Seq<Seq<char>> {
    seq!["--parser"@, "babel"@, "--stdin-filepath"@, "stdin.js"@, "--print-width"@, "100"@, "--tab-width"@, "2"@, "--use-tabs"@, "false"@, "--semi"@, "true"@, "--single-quote"@, "true"@, "--trailing-comma"@, "es5"@, "--bracket-spacing"@, "true"@, "--arrow-parens"@, "avoid"@]
}

/// JavaScript formatter built on prettier.
pub struct JavaScriptFormatter {
    executor: SecureCommandExecutor,
}

impl JavaScriptFormatter {
    /// The executor that runs prettier.
    pub closed spec fn executor(self) -> SecureCommandExecutor {
        self.executor
    }

    pub fn new() -> (r: JavaScriptFormatter)
        ensures
            is_default_config(r.executor().settings()),
    {
        JavaScriptFormatter { executor: SecureCommandExecutor::default() }
    }

    /// The arguments prettier runs with.
    pub fn get_prettier_args(&self) -> (r: Vec<String>)
        ensures
            strs(r@) == javascript_prettier_args(),
    {
        let items: [&str; 20] = ["--parser", "babel", "--stdin-filepath", "stdin.js", "--print-width", "100", "--tab-width", "2", "--use-tabs", "false", "--semi", "true", "--single-quote", "true", "--trailing-comma", "es5", "--bracket-spacing", "true", "--arrow-parens", "avoid"];
        assert(items@.map_values(|x: &str| x@) =~= javascript_prettier_args());
        owned_list(&items)
    }

    pub fn language(&self) -> (r: SupportedLanguage)
        ensures
            r == SupportedLanguage::JavaScript,
    {
        SupportedLanguage::JavaScript
    }

    /// Is prettier allowed and installed? (The first reply answers.)
    pub fn is_available(&self, replies: &[ToolReply]) -> (r: Step<bool>)
        ensures
            step_view(r, |b: bool| b) == lookup(self.executor().settings(), "prettier"@, replies@),
    {
        self.executor.command_exists("prettier", replies)
    }

    /// Formats JavaScript code with prettier: blank code is left alone; when
    /// prettier is missing the code is left alone with a remark; else its
    /// output is the new code, and its failure leaves the code alone with
    /// the reason. The first reply answers the availability check, the
    /// second is the run.
    pub fn format_code(&self, code: &str, replies: &[ToolReply]) -> (r: Step<FormatResult>)
        ensures
            step_view(r, |x: FormatResult| result_view(x)) == tool_formatting(
                self.executor().settings(),
                code,
                lookup(self.executor().settings(), "prettier"@, replies@),
                1,
                "prettier"@,
                javascript_prettier_args(),
                "prettier formatter not available - skipping JavaScript formatting"@,
                "prettier failed: "@,
                replies@,
            ),
    {
        let avail = self.is_available(replies);
        let args = self.get_prettier_args();
        format_with_tool(
            &self.executor,
            code,
            avail,
            1,
            "prettier",
            args.as_slice(),
            "prettier formatter not available - skipping JavaScript formatting",
            "prettier failed: ",
            replies,
        )
    }

    /// The version line of prettier (see `get_formatter_version`).
    pub fn formatter_info(&self, replies: &[ToolReply]) -> (r: Step<String>)
        ensures
            step_view(r, |s: String| s@) == version_report(self.executor().settings(), "prettier"@, replies@),
    {
        self.executor.get_formatter_version("prettier", replies)
    }

    /// The suggested prettier configuration.
    pub fn default_config(&self) -> (r: Result<String, FormatterError>)
        ensures
            r matches Ok(s) && s@ == JAVASCRIPT_DEFAULT_CONFIG@,
    {
        Ok(owned(JAVASCRIPT_DEFAULT_CONFIG))
    }
}

impl Default for JavaScriptFormatter {
    fn default() -> (r: JavaScriptFormatter)
        ensures
            is_default_config(r.executor().settings()),
    {
        JavaScriptFormatter::new()
    }
}

} // verus!
