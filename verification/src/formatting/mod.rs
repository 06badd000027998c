use vstd::prelude::*;
use crate::strings::{chars_of, concat3, decimal, decimal_exec, decimal_u64, owned, strs};

pub mod formatters;

verus! {

// ---------------------------------------------------------------------------
// Results
// ---------------------------------------------------------------------------

/// The programming languages the hooks know.
#[derive(Clone, Copy, Debug, PartialEq, Eq, Structural)]
pub enum SupportedLanguage {
    Rust,
    Python,
    JavaScript,
    TypeScript,
    Java,
    CSharp,
    Go,
    C,
    Cpp,
    Php,
    Ruby,
    Yaml,
}

/// What formatting a piece of code gave: the code before and after, whether
/// they differ, and the remarks made on the way.
#[derive(Clone, Debug)]
pub struct FormatResult {
    pub original: String,
    pub formatted: String,
    pub changed: bool,
    pub messages: Vec<String>,
}

/// `r` holds exactly these texts, flag and remarks.
pub open spec fn result_is(
    r: FormatResult,
    original: Seq<char>,
    formatted: Seq<char>,
    changed: bool,
    messages: Seq<Seq<char>>,
) -> bool {
    &&& r.original@ == original
    &&& r.formatted@ == formatted
    &&& r.changed == changed
    &&& strs(r.messages@) == messages
}

impl FormatResult {
    /// The result of turning `original` into `formatted`; it is changed
    /// exactly when the two differ.
    pub fn new(original: String, formatted: String) -> (r: FormatResult)
        ensures
            result_is(r, original@, formatted@, original@ != formatted@, seq![]),
            r.messages@.len() == 0,
    {
        let changed = original != formatted;
        let r = FormatResult { original, formatted, changed, messages: Vec::new() };
        assert(strs(r.messages@) =~= seq![]);
        r
    }

    /// The code left as it was.
    pub fn unchanged(original: String) -> (r: FormatResult)
        ensures
            result_is(r, original@, original@, false, seq![]),
            r.messages@.len() == 0,
    {
        let formatted = owned(original.as_str());
        let r = FormatResult { original, formatted, changed: false, messages: Vec::new() };
        assert(strs(r.messages@) =~= seq![]);
        r
    }
}

// ---------------------------------------------------------------------------
// Errors
// ---------------------------------------------------------------------------

/// Why running an outside formatting tool gave no formatted text.
#[derive(Clone, Debug)]
pub enum FormatterError {
    /// The command is not on the whitelist.
    NotAllowed(String),
    /// An argument holds a pattern that could smuggle in another command.
    DangerousArgument(String),
    /// The input is larger than allowed (size, limit).
    InputTooLarge(usize, usize),
    /// The process could not be started (the system's reason).
    SpawnFailed(String),
    /// Waiting for the process failed (the system's reason).
    WaitFailed(String),
    /// The process did not finish within the limit, in seconds.
    TimedOut(u64),
    /// The process finished, but later than allowed (how long it took).
    Overran(String),
    /// The output is larger than allowed (size, limit).
    OutputTooLarge(usize, usize),
    /// The output is not UTF-8 (the decoder's reason).
    Encoding(String),
    /// The tool reported failure (what it wrote to its error stream).
    Failed(String),
}

/// The text that describes an error.
pub open spec fn error_text(e: FormatterError) -> Seq<char> {
    match e {
        FormatterError::NotAllowed(c) => "Command '"@ + c@ + "' not in allowed whitelist"@,
        FormatterError::DangerousArgument(a) => "Argument contains potentially dangerous patterns: "@ + a@,
        FormatterError::InputTooLarge(n, max) => "Input too large: "@ + decimal(n as nat) + " bytes (max: "@
            + decimal(max as nat) + ")"@,
        FormatterError::SpawnFailed(m) => m@,
        FormatterError::WaitFailed(m) => "Process execution error: "@ + m@,
        FormatterError::TimedOut(secs) => "Command timeout after "@ + decimal(secs as nat) + "s"@,
        FormatterError::Overran(t) => "Command execution timeout: "@ + t@,
        FormatterError::OutputTooLarge(n, max) => "Output too large: "@ + decimal(n as nat) + " bytes (max: "@
            + decimal(max as nat) + ")"@,
        FormatterError::Encoding(m) => "Output encoding error: "@ + m@,
        FormatterError::Failed(m) => "Formatter failed: "@ + m@,
    }
}

fn sized_text(pre: &str, n: usize, max: usize) -> (r: String)
    ensures
        r@ == pre@ + decimal(n as nat) + " bytes (max: "@ + decimal(max as nat) + ")"@,
{
    let first = concat3(pre, decimal_exec(n).as_slice(), " bytes (max: ");
    let r = concat3(first.as_str(), decimal_exec(max).as_slice(), ")");
    r
}

impl FormatterError {
    /// The text that describes the error.
    pub fn message(&self) -> (r: String)
        ensures
            r@ == error_text(*self),
    {
        proof {
            reveal_strlit("");
        }
        match self {
            FormatterError::NotAllowed(c) => concat3(
                "Command '",
                chars_of(c.as_str()).as_slice(),
                "' not in allowed whitelist",
            ),
            FormatterError::DangerousArgument(a) => concat3(
                "Argument contains potentially dangerous patterns: ",
                chars_of(a.as_str()).as_slice(),
                "",
            ),
            FormatterError::InputTooLarge(n, max) => sized_text("Input too large: ", *n, *max),
            FormatterError::SpawnFailed(m) => owned(m.as_str()),
            FormatterError::WaitFailed(m) => concat3(
                "Process execution error: ",
                chars_of(m.as_str()).as_slice(),
                "",
            ),
            FormatterError::TimedOut(secs) => concat3(
                "Command timeout after ",
                decimal_u64(*secs).as_slice(),
                "s",
            ),
            FormatterError::Overran(t) => concat3(
                "Command execution timeout: ",
                chars_of(t.as_str()).as_slice(),
                "",
            ),
            FormatterError::OutputTooLarge(n, max) => sized_text("Output too large: ", *n, *max),
            FormatterError::Encoding(m) => concat3(
                "Output encoding error: ",
                chars_of(m.as_str()).as_slice(),
                "",
            ),
            FormatterError::Failed(m) => concat3("Formatter failed: ", chars_of(m.as_str()).as_slice(), ""),
        }
    }
}

// ---------------------------------------------------------------------------
// Talking to the machine
// ---------------------------------------------------------------------------

/// How a run of an outside tool ended, as the machine reports it.
#[derive(Clone, Debug)]
pub enum ProcessOutcome {
    /// The process could not be started (the system's reason).
    SpawnFailed(String),
    /// Waiting for the process failed (the system's reason).
    WaitFailed(String),
    /// The process did not finish in time and was stopped.
    TimedOut,
    /// The process finished.
    Exited {
        success: bool,
        stdout: Vec<u8>,
        stderr: String,
        elapsed_ms: u64,
        elapsed_text: String,
    },
}

/// A question that only the machine can answer.
#[derive(Clone, Debug)]
pub enum ToolRequest {
    /// Is this command installed (found on the search path)?
    Locate(String),
    /// Run the command with these arguments, feeding the input (if any) on
    /// standard input.
    Run { command: String, args: Vec<String>, input: Option<String> },
}

/// The machine's answer to a request.
#[derive(Clone, Debug)]
pub enum ToolReply {
    Located(bool),
    Ran(ProcessOutcome),
}

/// The next move of a job that talks to the machine: ask it something, or
/// stop with a value. A job is given the replies to its earlier requests,
/// in order.
#[derive(Clone, Debug)]
pub enum Step<T> {
    Ask(ToolRequest),
    Done(T),
}

/// A step seen as values: ask whether a command is installed, ask to run a
/// command with arguments and input, or finish with a value.
pub enum Next<V> {
    Locate(Seq<char>),
    Run(Seq<char>, Seq<Seq<char>>, Option<Seq<char>>),
    Finish(V),
}

/// A request seen as values.
pub open spec fn request_view<V>(q: ToolRequest) -> Next<V> {
    match q {
        ToolRequest::Locate(c) => Next::Locate(c@),
        ToolRequest::Run { command, args, input } => Next::Run(command@, strs(args@), opt_text(input)),
    }
}

/// A step seen as values, its final value seen through `f`.
pub open spec fn step_view<T, V>(s: Step<T>, f: spec_fn(T) -> V) -> Next<V> {
    match s {
        Step::Ask(q) => request_view(q),
        Step::Done(t) => Next::Finish(f(t)),
    }
}

/// The optional text of an optional string.
pub open spec fn opt_text(o: Option<String>) -> Option<Seq<char>> {
    match o {
        Some(s) => Some(s@),
        None => None,
    }
}

/// `q` asks whether `command` is installed.
pub open spec fn asks_locate(q: ToolRequest, command: Seq<char>) -> bool {
    q matches ToolRequest::Locate(c) && c@ == command
}

/// `q` asks to run `command` with `args` and `input`.
pub open spec fn asks_run(q: ToolRequest, command: Seq<char>, args: Seq<Seq<char>>, input: Option<Seq<char>>) -> bool {
    &&& q is Run
    &&& q->command@ == command
    &&& strs(q->args@) == args
    &&& opt_text(q->input) == input
}

/// Decoding bytes as UTF-8 (`String::from_utf8`): the text, or the
/// decoder's description of the first bad sequence.
pub uninterp spec fn utf8_decoded(bytes: Seq<u8>) -> Result<Seq<char>, Seq<char>>;

/// `String::from_utf8`, with its error shown as text: it succeeds exactly on
/// valid UTF-8, with the text the bytes encode (as vstd's `utf8` module
/// states UTF-8); the error's text is named, not spelled out.
#[verifier::external_body]
pub fn decode_utf8(bytes: Vec<u8>) -> (r: Result<String, String>)
    ensures
        match r {
            Ok(s) => utf8_decoded(bytes@) == Ok::<Seq<char>, Seq<char>>(s@),
            Err(m) => utf8_decoded(bytes@) == Err::<Seq<char>, Seq<char>>(m@),
        },
        r is Ok == vstd::utf8::valid_utf8(bytes@),
        r matches Ok(s) ==> s@ == vstd::utf8::decode_utf8(bytes@),
{
    match String::from_utf8(bytes) {
        Ok(s) => Ok(s),
        Err(e) => Err(e.to_string()),
    }
}

} // verus!
