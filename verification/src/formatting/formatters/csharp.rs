use vstd::prelude::*;
use crate::strings::{cat, chars_of, concat3, contains, contains_lit, owned, owned_list, strs, trim, trim_chars};
use crate::formatting::{step_view, FormatResult, FormatterError, Next, Step, SupportedLanguage, ToolReply};
use super::{
    execution, format_with_tool, is_default_config, lookup, result_view, tool_formatting,
    SecureCommandExecutor,
};

verus! {

/// CSharpier's settings file.
pub const CSHARP_CONFIG_JSON: &'static str = r#"{
  "$schema": "https://csharpier.com/schema.json",
  "printWidth": 100,
  "useTabs": false,
  "tabWidth": 4,
  "endOfLine": "auto",
  "includeGenerated": false,
  "preprocessorSymbolSets": []
}"#;

/// Notes on the settings, installation and use.
pub const CSHARP_CONFIG_NOTES: &'static str = r#"

// Alternative .csharpierrc.yaml configuration:
// printWidth: 100
// useTabs: false
// tabWidth: 4
// endOfLine: auto
// includeGenerated: false
// preprocessorSymbolSets: []

// CSharpier is opinionated and provides minimal configuration options.
// The tool focuses on consistent formatting rather than extensive customization.

// Installation:
// dotnet tool install -g csharpier

// Usage:
// dotnet tool run csharpier [files/directories]
// dotnet tool run csharpier --stdin-filepath stdin.cs < input.cs

// Integration with editors:
// - Visual Studio Code: Install CSharpier extension
// - Visual Studio: Use dotnet format or external tool
// - JetBrains Rider: Configure as external tool"#;

/// CSharpier's arguments for C# read from standard input.
pub open spec fn csharpier_args() -> Seq<Seq<char>> {
    seq!["tool"@, "run"@, "csharpier"@, "--stdin-filepath"@, "stdin.cs"@]
}

/// CSharpier is available when `dotnet` is allowed and installed (first
/// reply) and the list of global tools (second reply) names it.
pub open spec fn csharpier_availability(cfg: super::SecurityConfig, replies: Seq<ToolReply>) -> Next<bool> {
    match lookup(cfg, "dotnet"@, replies) {
        Next::Finish(found) => if !found {
            Next::Finish(false)
        } else {
            match execution(cfg, "dotnet"@, seq!["tool"@, "list"@, "-g"@], None, replies.skip(1)) {
                Next::Locate(c) => Next::Locate(c),
                Next::Run(c, a, i) => Next::Run(c, a, i),
                Next::Finish(Ok(out)) => Next::Finish(contains(out, "csharpier"@)),
                Next::Finish(Err(_)) => Next::Finish(false),
            }
        },
        Next::Locate(c) => Next::Locate(c),
        Next::Run(c, a, i) => Next::Run(c, a, i),
    }
}

/// CSharpier's version line: its trimmed version output, or "(version
/// unknown)" when the run fails (the first reply is the run).
pub open spec fn csharpier_version(cfg: super::SecurityConfig, replies: Seq<ToolReply>) -> Next<Seq<char>> {
    match execution(cfg, "dotnet"@, seq!["csharpier"@, "--version"@], None, replies) {
        Next::Locate(c) => Next::Locate(c),
        Next::Run(c, a, i) => Next::Run(c, a, i),
        Next::Finish(Ok(v)) => Next::Finish("CSharpier "@ + trim(v)),
        Next::Finish(Err(_)) => Next::Finish("CSharpier (version unknown)"@),
    }
}

/// C# formatter built on CSharpier (run as a dotnet tool).
pub struct CSharpFormatter {
    executor: SecureCommandExecutor,
}

impl CSharpFormatter {
    /// The executor that runs dotnet.
    pub closed spec fn executor(self) -> SecureCommandExecutor {
        self.executor
    }

    pub fn new() -> (r: CSharpFormatter)
        ensures
            is_default_config(r.executor().settings()),
    {
        CSharpFormatter { executor: SecureCommandExecutor::default() }
    }

    /// The arguments dotnet runs CSharpier with.
    pub fn get_csharpier_args(&self) -> (r: Vec<String>)
        ensures
            strs(r@) == csharpier_args(),
    {
        let items: [&str; 5] = ["tool", "run", "csharpier", "--stdin-filepath", "stdin.cs"];
        assert(items@.map_values(|x: &str| x@) =~= csharpier_args());
        owned_list(&items)
    }

    pub fn language(&self) -> (r: SupportedLanguage)
        ensures
            r == SupportedLanguage::CSharp,
    {
        SupportedLanguage::CSharp
    }

    /// Is CSharpier available? dotnet must be allowed and installed (first
    /// reply), and its list of global tools (second reply) must name CSharpier.
    pub fn is_available(&self, replies: &[ToolReply]) -> (r: Step<bool>)
        ensures
            step_view(r, |b: bool| b) == csharpier_availability(self.executor().settings(), replies@),
    {
        match self.executor.command_exists("dotnet", replies) {
            Step::Ask(q) => Step::Ask(q),
            Step::Done(found) => {
                if !found {
                    return Step::Done(false);
                }
                let items: [&str; 3] = ["tool", "list", "-g"];
                let args = owned_list(&items);
                assert(strs(args@) =~= seq!["tool"@, "list"@, "-g"@]);
                let rest = vstd::slice::slice_subrange(replies, 1, replies.len());
                assert(rest@ == replies@.skip(1));
                match self.executor.execute_formatter("dotnet", args.as_slice(), None, rest) {
                    Step::Ask(q) => Step::Ask(q),
                    Step::Done(Ok(out)) => Step::Done(contains_lit(chars_of(out.as_str()).as_slice(), "csharpier")),
                    Step::Done(Err(_)) => Step::Done(false),
                }
            },
        }
    }

    /// Formats C# code with CSharpier: blank code is left alone; when
    /// CSharpier is not available the code is left alone with a remark;
    /// else its output is the new code, and its failure leaves the code
    /// alone with the reason. The first two replies answer the availability
    /// check, the third is the run.
    pub fn format_code(&self, code: &str, replies: &[ToolReply]) -> (r: Step<FormatResult>)
        ensures
            step_view(r, |x: FormatResult| result_view(x)) == tool_formatting(
                self.executor().settings(),
                code,
                csharpier_availability(self.executor().settings(), replies@),
                2,
                "dotnet"@,
                csharpier_args(),
                "CSharpier formatter not available - skipping C# formatting"@,
                "CSharpier failed: "@,
                replies@,
            ),
    {
        let avail = self.is_available(replies);
        let args = self.get_csharpier_args();
        format_with_tool(
            &self.executor,
            code,
            avail,
            2,
            "dotnet",
            args.as_slice(),
            "CSharpier formatter not available - skipping C# formatting",
            "CSharpier failed: ",
            replies,
        )
    }

    /// CSharpier's version line (the first reply is the version run).
    pub fn formatter_info(&self, replies: &[ToolReply]) -> (r: Step<String>)
        ensures
            step_view(r, |s: String| s@) == csharpier_version(self.executor().settings(), replies@),
    {
        let items: [&str; 2] = ["csharpier", "--version"];
        let args = owned_list(&items);
        assert(strs(args@) =~= seq!["csharpier"@, "--version"@]);
        match self.executor.execute_formatter("dotnet", args.as_slice(), None, replies) {
            Step::Ask(q) => Step::Ask(q),
            Step::Done(Ok(v)) => {
                let t = trim_chars(chars_of(v.as_str()).as_slice());
                proof {
                    reveal_strlit("");
                }
                Step::Done(concat3("CSharpier ", t.as_slice(), ""))
            },
            Step::Done(Err(_)) => Step::Done(owned("CSharpier (version unknown)")),
        }
    }

    /// The suggested CSharpier settings, followed by notes on them.
    pub fn default_config(&self) -> (r: Result<String, FormatterError>)
        ensures
            r matches Ok(s) && s@ == CSHARP_CONFIG_JSON@ + CSHARP_CONFIG_NOTES@,
    {
        Ok(cat(CSHARP_CONFIG_JSON, CSHARP_CONFIG_NOTES))
    }
}

impl Default for CSharpFormatter {
    fn default() -> (r: CSharpFormatter)
        ensures
            is_default_config(r.executor().settings()),
    {
        CSharpFormatter::new()
    }
}

} // verus!
