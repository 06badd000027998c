use vstd::prelude::*;
use vstd::string::StringSliceAdditionalSpecFns;
use crate::strings::{
    chars_eq, chars_of, contains, contains_lit, ends_with, ends_with_lit, lines, lines_of, owned,
    string_of, strs, to_lowercase, trim, trim_chars, unicode_lower, lemma_strs_push, concat3, cat,
};
use super::{
    decode_utf8, error_text, opt_text, request_view, FormatResult, step_view, utf8_decoded, FormatterError, Next, ProcessOutcome, Step,
    ToolReply, ToolRequest,
};

pub mod c;
pub mod cpp;
pub mod csharp;
pub mod javascript;
pub mod php;
pub mod rust;
pub mod typescript;
pub mod yaml;

verus! {

// ---------------------------------------------------------------------------
// Limits and the whitelist
// ---------------------------------------------------------------------------

/// The limits that outside tools run under, and the tools that may run.
#[derive(Clone, Debug)]
pub struct SecurityConfig {
    /// Longest run, in seconds.
    pub max_execution_time: u64,
    /// Most memory a tool may use, in bytes (where the system can enforce it).
    pub max_memory_bytes: u64,
    /// Largest input, in bytes.
    pub max_input_bytes: usize,
    /// Largest output, in bytes.
    pub max_output_bytes: usize,
    /// The commands that may run.
    pub allowed_commands: Vec<String>,
    /// The directories a tool may work in.
    pub allowed_working_dirs: Vec<String>,
}

/// The formatting tools that may run by default.
pub open spec fn default_commands() -> Seq<Seq<char>> {
    seq![
        "rustfmt"@, "black"@, "prettier"@, "gofmt"@, "clang-format"@, "dotnet"@, "java"@,
        "php-cs-fixer"@, "rubocop"@,
    ]
}

impl Default for SecurityConfig {
    /// Thirty seconds, 100 MiB of memory, 5 MiB in, 10 MiB out, the known
    /// formatting tools, and no working directory yet.
    fn default() -> (r: SecurityConfig)
        ensures
            r.max_execution_time == 30,
            r.max_memory_bytes == 100 * 1024 * 1024,
            r.max_input_bytes == 5 * 1024 * 1024,
            r.max_output_bytes == 10 * 1024 * 1024,
            strs(r.allowed_commands@) == default_commands(),
            r.allowed_working_dirs@.len() == 0,
    {
        let names: [&str; 9] = [
            "rustfmt", "black", "prettier", "gofmt", "clang-format", "dotnet", "java",
            "php-cs-fixer", "rubocop",
        ];
        let mut allowed_commands: Vec<String> = Vec::new();
        let mut i: usize = 0;
        while i < 9
            invariant
                i <= 9,
                names@.map_values(|x: &str| x@) == default_commands(),
                strs(allowed_commands@) == default_commands().take(i as int),
            decreases 9 - i,
        {
            let ghost before = allowed_commands@;
            let name = owned(names[i]);
            allowed_commands.push(name);
            proof {
                lemma_strs_push(before, name);
            }
            assert(default_commands().take(i + 1) == default_commands().take(i as int).push(
                default_commands()[i as int],
            ));
            i = i + 1;
        }
        assert(default_commands().take(9) == default_commands());
        SecurityConfig {
            max_execution_time: 30,
            max_memory_bytes: 100 * 1024 * 1024,
            max_input_bytes: 5 * 1024 * 1024,
            max_output_bytes: 10 * 1024 * 1024,
            allowed_commands,
            allowed_working_dirs: Vec::new(),
        }
    }
}

// ---------------------------------------------------------------------------
// What counts as dangerous
// ---------------------------------------------------------------------------

/// Shell syntax and paths that have no place in a formatter's arguments.
pub open spec fn dangerous_patterns() -> Seq<Seq<char>> {
    seq![
        ";"@, "&&"@, "||"@, "|"@, "`"@, "$"@, "$("@, "${"@, "../"@, "~/"@, "/etc/"@, "&"@, ">"@,
        "<"@, ">>"@, "<<"@, "\n"@, "\r"@, "\0"@,
    ]
}

/// Endings of files that could be run.
pub open spec fn suspicious_extensions() -> Seq<Seq<char>> {
    seq![".exe"@, ".bat"@, ".cmd"@, ".sh"@, ".ps1"@]
}

/// The text holds a dangerous pattern, or ends (in lower case) like a file
/// that could be run.
pub open spec fn dangerous(s: Seq<char>) -> bool {
    ||| exists|k: int| 0 <= k < dangerous_patterns().len() && contains(s, #[trigger] dangerous_patterns()[k])
    ||| exists|k: int|
        0 <= k < suspicious_extensions().len() && ends_with(unicode_lower(s), #[trigger] suspicious_extensions()[k])
}

/// The index of the first dangerous argument, if any.
pub open spec fn first_dangerous(args: Seq<Seq<char>>) -> Option<int>
    decreases args.len(),
{
    if args.len() == 0 {
        None
    } else {
        match first_dangerous(args.drop_last()) {
            Some(i) => Some(i),
            None => if dangerous(args.last()) {
                Some(args.len() - 1)
            } else {
                None
            },
        }
    }
}

/// The version flag of a tool: none for `gofmt`, `--version` for the rest.
pub open spec fn version_args(command: Seq<char>) -> Seq<Seq<char>> {
    if command == "gofmt"@ {
        seq![]
    } else {
        seq!["--version"@]
    }
}

/// The first line of a tool's version output, trimmed and cut to 200
/// characters ("unknown version" when there is no line).
pub open spec fn version_line(out: Seq<char>) -> Seq<char> {
    let first = if lines(out).len() > 0 {
        lines(out)[0]
    } else {
        "unknown version"@
    };
    let t = trim(first);
    if t.len() <= 200 {
        t
    } else {
        t.take(200)
    }
}

// ---------------------------------------------------------------------------
// The executor
// ---------------------------------------------------------------------------

/// Runs whitelisted formatting tools under limits. It decides; the machine
/// answers its requests (see `Step`).
#[derive(Clone, Debug)]
pub struct SecureCommandExecutor {
    config: SecurityConfig,
}

/// `command` is on the whitelist of `cfg`.
pub open spec fn permits(cfg: SecurityConfig, command: Seq<char>) -> bool {
    strs(cfg.allowed_commands@).contains(command)
}

/// What the executor concludes from how a run ended.
pub open spec fn run_result(cfg: SecurityConfig, o: ProcessOutcome) -> Result<Seq<char>, Seq<char>> {
    match o {
        ProcessOutcome::SpawnFailed(m) => Err(error_text(FormatterError::SpawnFailed(m))),
        ProcessOutcome::WaitFailed(m) => Err(error_text(FormatterError::WaitFailed(m))),
        ProcessOutcome::TimedOut => Err(error_text(FormatterError::TimedOut(cfg.max_execution_time))),
        ProcessOutcome::Exited { success, stdout, stderr, elapsed_ms, elapsed_text } => {
            if elapsed_ms > cfg.max_execution_time * 1000 {
                Err(error_text(FormatterError::Overran(elapsed_text)))
            } else if stdout@.len() > cfg.max_output_bytes {
                Err(error_text(FormatterError::OutputTooLarge(stdout@.len() as usize, cfg.max_output_bytes)))
            } else if success {
                match utf8_decoded(stdout@) {
                    Ok(s) => Ok(s),
                    Err(m) => Err("Output encoding error: "@ + m),
                }
            } else {
                Err(error_text(FormatterError::Failed(stderr)))
            }
        },
    }
}

/// What the executor concludes from the reply to a run: the outcome, or a
/// run that could not start when the reply is not an outcome.
pub open spec fn reply_result(cfg: SecurityConfig, reply: ToolReply) -> Result<Seq<char>, Seq<char>> {
    match reply {
        ToolReply::Ran(o) => run_result(cfg, o),
        ToolReply::Located(_) => Err("no process was run"@),
    }
}

/// The text of a result, or the text of its error.
pub open spec fn result_text(r: Result<String, FormatterError>) -> Result<Seq<char>, Seq<char>> {
    match r {
        Ok(s) => Ok(s@),
        Err(e) => Err(error_text(e)),
    }
}

/// Looking a command up: refused off the whitelist, else the machine's answer.
pub open spec fn lookup(cfg: SecurityConfig, command: Seq<char>, replies: Seq<ToolReply>) -> Next<bool> {
    if !permits(cfg, command) {
        Next::Finish(false)
    } else if replies.len() == 0 {
        Next::Locate(command)
    } else {
        Next::Finish(replies[0] matches ToolReply::Located(found) && found)
    }
}

/// Running a tool: refused off the whitelist, with a dangerous argument or
/// with too much input; else run, and judged by how the run ended.
pub open spec fn execution(
    cfg: SecurityConfig,
    command: Seq<char>,
    args: Seq<Seq<char>>,
    input: Option<&str>,
    replies: Seq<ToolReply>,
) -> Next<Result<Seq<char>, Seq<char>>> {
    if !permits(cfg, command) {
        Next::Finish(Err("Command '"@ + command + "' not in allowed whitelist"@))
    } else if first_dangerous(args) is Some {
        Next::Finish(Err("Argument contains potentially dangerous patterns: "@ + args[first_dangerous(args)->0]))
    } else if input is Some && (input->0.spec_bytes().len() as usize) > cfg.max_input_bytes {
        Next::Finish(
            Err(error_text(FormatterError::InputTooLarge(input->0.spec_bytes().len() as usize, cfg.max_input_bytes))),
        )
    } else if replies.len() == 0 {
        Next::Run(
            command,
            args,
            match input {
                Some(s) => Some(s@),
                None => None,
            },
        )
    } else {
        Next::Finish(reply_result(cfg, replies[0]))
    }
}

/// The version report of a tool.
pub open spec fn version_report(cfg: SecurityConfig, command: Seq<char>, replies: Seq<ToolReply>) -> Next<Seq<char>> {
    match lookup(cfg, command, replies) {
        Next::Finish(found) => if !found {
            Next::Finish(command + " (not available)"@)
        } else {
            match execution(cfg, command, version_args(command), None, replies.skip(1)) {
                Next::Locate(c) => Next::Locate(c),
                Next::Run(c, a, i) => Next::Run(c, a, i),
                Next::Finish(Ok(out)) => Next::Finish(command + " "@ + version_line(out)),
                Next::Finish(Err(_)) => Next::Finish(command + " (version check failed)"@),
            }
        },
        Next::Locate(c) => Next::Locate(c),
        Next::Run(c, a, i) => Next::Run(c, a, i),
    }
}

impl SecureCommandExecutor {
    /// The limits and whitelist in force.
    pub closed spec fn settings(self) -> SecurityConfig {
        self.config
    }

    /// `command` is on the whitelist.
    pub open spec fn allows(self, command: Seq<char>) -> bool {
        permits(self.settings(), command)
    }

    pub fn new(config: SecurityConfig) -> (r: SecureCommandExecutor)
        ensures
            r.settings() == config,
    {
        SecureCommandExecutor { config }
    }

    /// Is `command` on the whitelist?
    pub fn is_allowed(&self, command: &str) -> (r: bool)
        ensures
            r == self.allows(command@),
    {
        let cc = chars_of(command);
        let list = &self.config.allowed_commands;
        let ghost names = strs(list@);
        let mut i: usize = 0;
        while i < list.len()
            invariant
                i <= list@.len(),
                list@ == self.config.allowed_commands@,
                names == strs(list@),
                cc@ == command@,
                forall|j: int| 0 <= j < i ==> names[j] != command@,
            decreases list@.len() - i,
        {
            let name = chars_of(list[i].as_str());
            if chars_eq(name.as_slice(), cc.as_slice()) {
                assert(names[i as int] == command@);
                assert(names.contains(command@));
                return true;
            }
            i = i + 1;
        }
        assert(!names.contains(command@));
        false
    }

    /// Does the text hold shell syntax, a path escape, or the name of a file
    /// that could be run?
    pub fn contains_dangerous_patterns(&self, input: &str) -> (r: bool)
        ensures
            r == dangerous(input@),
    {
        let pats: [&str; 19] = [
            ";", "&&", "||", "|", "`", "$", "$(", "${", "../", "~/", "/etc/", "&", ">", "<", ">>",
            "<<", "\n", "\r", "\0",
        ];
        assert(pats@.map_values(|x: &str| x@) =~= dangerous_patterns());
        let ic = chars_of(input);
        let mut i: usize = 0;
        while i < 19
            invariant
                i <= 19,
                ic@ == input@,
                pats@.map_values(|x: &str| x@) == dangerous_patterns(),
                forall|k: int| 0 <= k < i ==> !contains(input@, #[trigger] dangerous_patterns()[k]),
            decreases 19 - i,
        {
            if contains_lit(ic.as_slice(), pats[i]) {
                assert(contains(input@, dangerous_patterns()[i as int]));
                return true;
            }
            i = i + 1;
        }
        let exts: [&str; 5] = [".exe", ".bat", ".cmd", ".sh", ".ps1"];
        assert(exts@.map_values(|x: &str| x@) =~= suspicious_extensions());
        let lower = to_lowercase(input);
        let lc = chars_of(lower.as_str());
        let mut j: usize = 0;
        while j < 5
            invariant
                j <= 5,
                lc@ == unicode_lower(input@),
                exts@.map_values(|x: &str| x@) == suspicious_extensions(),
                forall|k: int| 0 <= k < 19 ==> !contains(input@, #[trigger] dangerous_patterns()[k]),
                forall|k: int| 0 <= k < j ==> !ends_with(unicode_lower(input@), #[trigger] suspicious_extensions()[k]),
            decreases 5 - j,
        {
            if ends_with_lit(lc.as_slice(), exts[j]) {
                assert(ends_with(unicode_lower(input@), suspicious_extensions()[j as int]));
                return true;
            }
            j = j + 1;
        }
        false
    }

    /// Refuses a command off the whitelist, then the first argument that
    /// looks dangerous.
    pub fn validate_command_security(&self, command: &str, args: &[String]) -> (r: Result<(), FormatterError>)
        ensures
            !self.allows(command@) ==> (r matches Err(FormatterError::NotAllowed(c)) && c@ == command@),
            self.allows(command@) ==> match first_dangerous(strs(args@)) {
                Some(i) => r matches Err(FormatterError::DangerousArgument(a)) && a@ == args@[i]@,
                None => r is Ok,
            },
    {
        if !self.is_allowed(command) {
            return Err(FormatterError::NotAllowed(owned(command)));
        }
        let ghost av = strs(args@);
        let mut i: usize = 0;
        while i < args.len()
            invariant
                i <= args@.len(),
                av == strs(args@),
                self.allows(command@),
                first_dangerous(av.take(i as int)) is None,
            decreases args@.len() - i,
        {
            assert(av.take(i + 1).drop_last() == av.take(i as int));
            assert(av.take(i + 1).last() == args@[i as int]@);
            if self.contains_dangerous_patterns(args[i].as_str()) {
                proof {
                    lemma_first_dangerous_prefix(av, i as int + 1);
                }
                return Err(FormatterError::DangerousArgument(owned(args[i].as_str())));
            }
            i = i + 1;
        }
        assert(av.take(args@.len() as int) == av);
        Ok(())
    }

    /// The arguments that make `command` print its version.
    pub fn get_version_args(&self, command: &str) -> (r: Vec<String>)
        ensures
            strs(r@) == version_args(command@),
    {
        let cc = chars_of(command);
        let g = chars_of("gofmt");
        let mut r: Vec<String> = Vec::new();
        if chars_eq(cc.as_slice(), g.as_slice()) {
            assert(strs(r@) =~= seq![]);
        } else {
            let flag = owned("--version");
            r.push(flag);
            proof {
                lemma_strs_push(Seq::empty(), flag);
            }
            assert(strs(r@) =~= seq!["--version"@]);
        }
        r
    }

    /// Is `command` allowed and installed? An allowed command needs the
    /// machine's answer: the first reply, where `Located(true)` means yes
    /// and any other reply no. A command off the whitelist is never looked up.
    pub fn command_exists(&self, command: &str, replies: &[ToolReply]) -> (r: Step<bool>)
        ensures
            step_view(r, |b: bool| b) == lookup(self.settings(), command@, replies@),
    {
        if !self.is_allowed(command) {
            return Step::Done(false);
        }
        if replies.len() == 0 {
            return Step::Ask(ToolRequest::Locate(owned(command)));
        }
        match &replies[0] {
            ToolReply::Located(found) => Step::Done(*found),
            ToolReply::Ran(_) => Step::Done(false),
        }
    }

    /// What a finished run amounts to: an error when it could not start,
    /// failed to be waited for, ran out of time or wrote too much; the
    /// output when the tool succeeded and wrote UTF-8; else the tool's
    /// complaint.
    pub fn finish(&self, outcome: &ProcessOutcome) -> (r: Result<String, FormatterError>)
        ensures
            result_text(r) == run_result(self.settings(), *outcome),
    {
        match outcome {
            ProcessOutcome::SpawnFailed(m) => Err(FormatterError::SpawnFailed(owned(m.as_str()))),
            ProcessOutcome::WaitFailed(m) => Err(FormatterError::WaitFailed(owned(m.as_str()))),
            ProcessOutcome::TimedOut => Err(FormatterError::TimedOut(self.config.max_execution_time)),
            ProcessOutcome::Exited { success, stdout, stderr, elapsed_ms, elapsed_text } => {
                let limit_ms: u128 = (self.config.max_execution_time as u128) * 1000;
                if (*elapsed_ms as u128) > limit_ms {
                    Err(FormatterError::Overran(owned(elapsed_text.as_str())))
                } else if stdout.len() > self.config.max_output_bytes {
                    Err(FormatterError::OutputTooLarge(stdout.len(), self.config.max_output_bytes))
                } else if *success {
                    match decode_utf8(stdout.clone()) {
                        Ok(s) => Ok(s),
                        Err(m) => Err(FormatterError::Encoding(m)),
                    }
                } else {
                    Err(FormatterError::Failed(owned(stderr.as_str())))
                }
            },
        }
    }

    /// Runs a formatter under the security checks. A command off the
    /// whitelist, a dangerous argument or an input over the limit is refused
    /// at once. Otherwise the first reply is the run's outcome; a reply that
    /// is not an outcome counts as a run that could not start.
    pub fn execute_formatter(
        &self,
        command: &str,
        args: &[String],
        input: Option<&str>,
        replies: &[ToolReply],
    ) -> (r: Step<Result<String, FormatterError>>)
        ensures
            step_view(r, |x: Result<String, FormatterError>| result_text(x)) == execution(
                self.settings(),
                command@,
                strs(args@),
                input,
                replies@,
            ),
            !self.allows(command@) ==> r matches Step::Done(Err(FormatterError::NotAllowed(_))),
            self.allows(command@) && first_dangerous(strs(args@)) is Some ==> r matches Step::Done(
                Err(FormatterError::DangerousArgument(_)),
            ),
    {
        match self.validate_command_security(command, args) {
            Err(e) => {
                let ghost av = strs(args@);
                proof {
                    lemma_first_dangerous(av);
                    if self.allows(command@) {
                        let i = first_dangerous(av)->0;
                        assert(av[i] == args@[i]@);
                    }
                }
                let r = Step::Done(Err(e));
                assert(step_view(r, |x: Result<String, FormatterError>| result_text(x)) == Next::<Result<Seq<char>, Seq<char>>>::Finish(Err(error_text(e))));
                return r;
            },
            Ok(()) => {},
        }
        let ghost settings = self.settings();
        assert(permits(settings, command@));
        assert(first_dangerous(strs(args@)) is None);
        match input {
            Some(s) => {
                if s.len() > self.config.max_input_bytes {
                    return Step::Done(Err(FormatterError::InputTooLarge(s.len(), self.config.max_input_bytes)));
                }
            },
            None => {},
        }
        if replies.len() == 0 {
            let owned_args = owned_all(args);
            let input_owned: Option<String> = match input {
                Some(s) => Some(owned(s)),
                None => None,
            };
            assert(opt_text(input_owned) == match input {
                Some(s) => Some(s@),
                None => None::<Seq<char>>,
            });
            let q = ToolRequest::Run { command: owned(command), args: owned_args, input: input_owned };
            assert(request_view::<Result<Seq<char>, Seq<char>>>(q) == execution(settings, command@, strs(args@), input, replies@));
            return Step::Ask(q);
        }
        match &replies[0] {
            ToolReply::Ran(o) => Step::Done(self.finish(o)),
            ToolReply::Located(_) => Step::Done(Err(FormatterError::SpawnFailed(owned("no process was run")))),
        }
    }

    /// The version line of `command`: "`command` (not available)" when it is
    /// not allowed or not installed, "`command` (version check failed)" when
    /// the version run fails, else the command and the first line of what it
    /// printed. The first reply answers whether it is installed, the second
    /// is the version run.
    pub fn get_formatter_version(&self, command: &str, replies: &[ToolReply]) -> (r: Step<String>)
        ensures
            step_view(r, |s: String| s@) == version_report(self.settings(), command@, replies@),
    {
        proof {
            reveal_strlit("");
        }
        match self.command_exists(command, replies) {
            Step::Ask(q) => Step::Ask(q),
            Step::Done(found) => {
                if !found {
                    return Step::Done(concat3("", chars_of(command).as_slice(), " (not available)"));
                }
                let vargs = self.get_version_args(command);
                let rest = vstd::slice::slice_subrange(replies, 1, replies.len());
                assert(rest@ == replies@.skip(1));
                match self.execute_formatter(command, vargs.as_slice(), None, rest) {
                    Step::Ask(q) => Step::Ask(q),
                    Step::Done(Ok(out)) => {
                        let line = first_line_clipped(out.as_str());
                        let head = concat3("", chars_of(command).as_slice(), " ");
                        Step::Done(concat3(head.as_str(), line.as_slice(), ""))
                    },
                    Step::Done(Err(_)) => Step::Done(concat3(
                        "",
                        chars_of(command).as_slice(),
                        " (version check failed)",
                    )),
                }
            },
        }
    }
}

impl Default for SecureCommandExecutor {
    /// An executor with the default limits and whitelist.
    fn default() -> (r: SecureCommandExecutor)
        ensures
            r.settings().max_execution_time == 30,
            r.settings().max_memory_bytes == 100 * 1024 * 1024,
            r.settings().max_input_bytes == 5 * 1024 * 1024,
            r.settings().max_output_bytes == 10 * 1024 * 1024,
            strs(r.settings().allowed_commands@) == default_commands(),
            r.settings().allowed_working_dirs@.len() == 0,
    {
        SecureCommandExecutor::new(SecurityConfig::default())
    }
}

/// The limits and whitelist of `SecurityConfig::default`.
pub open spec fn is_default_config(c: SecurityConfig) -> bool {
    &&& c.max_execution_time == 30
    &&& c.max_memory_bytes == 100 * 1024 * 1024
    &&& c.max_input_bytes == 5 * 1024 * 1024
    &&& c.max_output_bytes == 10 * 1024 * 1024
    &&& strs(c.allowed_commands@) == default_commands()
    &&& c.allowed_working_dirs@.len() == 0
}

/// A format result seen as values: before, after, changed, remarks.
pub open spec fn result_view(r: FormatResult) -> (Seq<char>, Seq<char>, bool, Seq<Seq<char>>) {
    (r.original@, r.formatted@, r.changed, strs(r.messages@))
}

/// Formatting with an outside tool: blank code is left alone; otherwise,
/// once the tool's availability is known, code is left alone with the
/// `missing` remark when the tool is missing, and else the tool runs on the
/// code (with the replies after the `skip` that the availability check
/// used). Its output is the new code; its failure leaves the code alone
/// with a remark made of `failed` and the error.
pub open spec fn tool_formatting(
    cfg: SecurityConfig,
    code: &str,
    avail: Next<bool>,
    skip: int,
    command: Seq<char>,
    args: Seq<Seq<char>>,
    missing: Seq<char>,
    failed: Seq<char>,
    replies: Seq<ToolReply>,
) -> Next<(Seq<char>, Seq<char>, bool, Seq<Seq<char>>)> {
    if trim(code@).len() == 0 {
        Next::Finish((code@, code@, false, seq![]))
    } else {
        match avail {
            Next::Locate(c) => Next::Locate(c),
            Next::Run(c, a, i) => Next::Run(c, a, i),
            Next::Finish(available) => if !available {
                Next::Finish((code@, code@, false, seq![missing]))
            } else {
                match execution(cfg, command, args, Some(code), replies.skip(skip)) {
                    Next::Locate(c) => Next::Locate(c),
                    Next::Run(c, a, i) => Next::Run(c, a, i),
                    Next::Finish(Ok(f)) => Next::Finish((code@, f, code@ != f, seq![])),
                    Next::Finish(Err(e)) => Next::Finish((code@, code@, false, seq![failed + e])),
                }
            },
        }
    }
}

/// The shared part of the formatters that call an outside tool (see
/// `tool_formatting`); `avail` is the availability check's step, which used
/// the first `skip` replies.
pub fn format_with_tool(
    exec: &SecureCommandExecutor,
    code: &str,
    avail: Step<bool>,
    skip: usize,
    command: &str,
    args: &[String],
    missing: &str,
    failed: &str,
    replies: &[ToolReply],
) -> (r: Step<FormatResult>)
    requires
        (avail matches Step::Done(b) && b) ==> skip <= replies@.len(),
    ensures
        step_view(r, |x: FormatResult| result_view(x)) == tool_formatting(
            exec.settings(),
            code,
            step_view(avail, |b: bool| b),
            skip as int,
            command@,
            strs(args@),
            missing@,
            failed@,
            replies@,
        ),
{
    let cc = chars_of(code);
    let t = trim_chars(cc.as_slice());
    if t.len() == 0 {
        let r = FormatResult::unchanged(owned(code));
        return Step::Done(r);
    }
    match avail {
        Step::Ask(q) => Step::Ask(q),
        Step::Done(available) => {
            if !available {
                let mut r = FormatResult::unchanged(owned(code));
                let m = owned(missing);
                assert(r.messages@ =~= Seq::<String>::empty());
                r.messages.push(m);
                proof {
                    lemma_strs_push(Seq::empty(), m);
                }
                return Step::Done(r);
            }
            let rest = vstd::slice::slice_subrange(replies, skip, replies.len());
            assert(rest@ == replies@.skip(skip as int));
            match exec.execute_formatter(command, args, Some(code), rest) {
                Step::Ask(q) => Step::Ask(q),
                Step::Done(Ok(f)) => Step::Done(FormatResult::new(owned(code), f)),
                Step::Done(Err(e)) => {
                    let mut r = FormatResult::unchanged(owned(code));
                    let m = cat(failed, e.message().as_str());
                    assert(r.messages@ =~= Seq::<String>::empty());
                    r.messages.push(m);
                    proof {
                        lemma_strs_push(Seq::empty(), m);
                    }
                    Step::Done(r)
                },
            }
        },
    }
}

/// Owned copies of strings, in order.
pub fn owned_all(items: &[String]) -> (r: Vec<String>)
    ensures
        strs(r@) == strs(items@),
{
    let mut out: Vec<String> = Vec::new();
    let mut i: usize = 0;
    while i < items.len()
        invariant
            i <= items@.len(),
            strs(out@) == strs(items@).take(i as int),
        decreases items@.len() - i,
    {
        let ghost before = out@;
        let a = owned(items[i].as_str());
        out.push(a);
        proof {
            lemma_strs_push(before, a);
        }
        assert(strs(items@).take(i + 1) == strs(items@).take(i as int).push(items@[i as int]@));
        i = i + 1;
    }
    assert(strs(items@).take(items@.len() as int) == strs(items@));
    out
}

/// The first dangerous argument is an argument, and it is dangerous; when
/// there is none, no argument is dangerous.
pub proof fn lemma_first_dangerous(args: Seq<Seq<char>>)
    ensures
        match first_dangerous(args) {
            Some(i) => 0 <= i < args.len() && dangerous(args[i]),
            None => forall|j: int| 0 <= j < args.len() ==> !dangerous(#[trigger] args[j]),
        },
    decreases args.len(),
{
    if args.len() > 0 {
        lemma_first_dangerous(args.drop_last());
        assert forall|j: int| 0 <= j < args.len() - 1 implies args.drop_last()[j] == #[trigger] args[j] by {}
    }
}

/// The first dangerous argument of a prefix is the first of the whole.
proof fn lemma_first_dangerous_prefix(args: Seq<Seq<char>>, n: int)
    requires
        0 < n <= args.len(),
        first_dangerous(args.take(n - 1)) is None,
        dangerous(args[n - 1]),
    ensures
        first_dangerous(args) == Some(n - 1),
    decreases args.len(),
{
    if n < args.len() {
        assert(args.drop_last().take(n - 1) == args.take(n - 1));
        assert(args.drop_last()[n - 1] == args[n - 1]);
        lemma_first_dangerous_prefix(args.drop_last(), n);
    } else {
        assert(args.take(n).drop_last() == args.take(n - 1));
        assert(args.take(n) == args);
    }
}

/// The first line of a version output, trimmed and cut to 200 characters.
fn first_line_clipped(out: &str) -> (r: Vec<char>)
    ensures
        r@ == version_line(out@),
{
    let ls = lines_of(chars_of(out).as_slice());
    let first: Vec<char> = if ls.len() > 0 {
        chars_of(string_of(ls[0].as_slice()).as_str())
    } else {
        chars_of("unknown version")
    };
    let t = trim_chars(first.as_slice());
    if t.len() <= 200 {
        t
    } else {
        let mut c: Vec<char> = Vec::new();
        let mut i: usize = 0;
        while i < 200
            invariant
                i <= 200,
                200 < t@.len(),
                c@ == t@.take(i as int),
            decreases 200 - i,
        {
            c.push(t[i]);
            assert(t@.take(i + 1) == t@.take(i as int).push(t@[i as int]));
            i = i + 1;
        }
        c
    }
}

} // verus!
