use vstd::prelude::*;
use crate::config::Sensitivity;
use crate::contracts::{
    callsite_issues, contract_weakening_reasons, find_contract_callsite_issues, weakening_reasons,
};
use crate::formatting::SupportedLanguage;
use crate::hooks::{extract_old_new_contents, old_new_contents, opt_view, ToolInput};
use crate::strings::{
    append_str, chars_eq, chars_of, contains, contains_lit, join_strings, join_texts, lower, lower_chars, string_of,
    strs,
};

verus! {

/// The decision of the pre-tool check.
pub struct SecurityValidation {
    pub decision: String,
    pub reason: String,
    pub security_concerns: Option<Vec<String>>,
    pub risk_level: String,
}

/// The language of a file extension (lower case as written).
pub open spec fn language_of_extension(ext: Seq<char>) -> Option<SupportedLanguage> {
    if ext == "rs"@ {
        Some(SupportedLanguage::Rust)
    } else if ext == "py"@ {
        Some(SupportedLanguage::Python)
    } else if ext == "js"@ || ext == "jsx"@ || ext == "mjs"@ || ext == "cjs"@ {
        Some(SupportedLanguage::JavaScript)
    } else if ext == "ts"@ || ext == "tsx"@ {
        Some(SupportedLanguage::TypeScript)
    } else if ext == "java"@ {
        Some(SupportedLanguage::Java)
    } else if ext == "cs"@ {
        Some(SupportedLanguage::CSharp)
    } else if ext == "go"@ {
        Some(SupportedLanguage::Go)
    } else if ext == "c"@ || ext == "h"@ {
        Some(SupportedLanguage::C)
    } else if ext == "cpp"@ || ext == "cc"@ || ext == "cxx"@ || ext == "hpp"@ {
        Some(SupportedLanguage::Cpp)
    } else if ext == "php"@ {
        Some(SupportedLanguage::Php)
    } else if ext == "rb"@ {
        Some(SupportedLanguage::Ruby)
    } else if ext == "yml"@ || ext == "yaml"@ {
        Some(SupportedLanguage::Yaml)
    } else {
        None
    }
}

fn is(s: &[char], lit: &str) -> (r: bool)
    ensures
        r == (s@ == lit@),
{
    let l = chars_of(lit);
    chars_eq(s, l.as_slice())
}

/// The language of a file extension.
pub fn language_from_extension(ext: &str) -> (r: Option<SupportedLanguage>)
    ensures
        r == language_of_extension(ext@),
{
    let e = chars_of(ext);
    let s = e.as_slice();
    if is(s, "rs") {
        Some(SupportedLanguage::Rust)
    } else if is(s, "py") {
        Some(SupportedLanguage::Python)
    } else if is(s, "js") || is(s, "jsx") || is(s, "mjs") || is(s, "cjs") {
        Some(SupportedLanguage::JavaScript)
    } else if is(s, "ts") || is(s, "tsx") {
        Some(SupportedLanguage::TypeScript)
    } else if is(s, "java") {
        Some(SupportedLanguage::Java)
    } else if is(s, "cs") {
        Some(SupportedLanguage::CSharp)
    } else if is(s, "go") {
        Some(SupportedLanguage::Go)
    } else if is(s, "c") || is(s, "h") {
        Some(SupportedLanguage::C)
    } else if is(s, "cpp") || is(s, "cc") || is(s, "cxx") || is(s, "hpp") {
        Some(SupportedLanguage::Cpp)
    } else if is(s, "php") {
        Some(SupportedLanguage::Php)
    } else if is(s, "rb") {
        Some(SupportedLanguage::Ruby)
    } else if is(s, "yml") || is(s, "yaml") {
        Some(SupportedLanguage::Yaml)
    } else {
        None
    }
}

/// Code that touches credentials, SQL or shell commands (ASCII case ignored).
pub open spec fn security_sensitive(code: Seq<char>) -> bool {
    let low = lower(code);
    ||| contains(low, "password"@)
    ||| contains(low, "secret"@)
    ||| contains(low, "api_key"@)
    ||| contains(low, "token"@)
    ||| (contains(low, "select"@) && contains(low, "where"@))
    ||| (contains(low, "insert"@) && contains(low, "values"@))
    ||| (contains(low, "update"@) && contains(low, "set"@))
    ||| (contains(low, "delete"@) && contains(low, "from"@))
    ||| contains(low, "child_process.exec"@)
    ||| contains(low, "subprocess."@)
    ||| contains(low, "os.system("@)
}

/// Code that touches credentials, SQL or shell commands.
pub fn is_security_sensitive(code: &str) -> (r: bool)
    ensures
        r == security_sensitive(code@),
{
    let c = chars_of(code);
    let l = lower_chars(c.as_slice());
    let s = l.as_slice();
    contains_lit(s, "password") || contains_lit(s, "secret") || contains_lit(s, "api_key") || contains_lit(s, "token")
        || (contains_lit(s, "select") && contains_lit(s, "where")) || (contains_lit(s, "insert") && contains_lit(
        s,
        "values",
    )) || (contains_lit(s, "update") && contains_lit(s, "set")) || (contains_lit(s, "delete") && contains_lit(
        s,
        "from",
    )) || contains_lit(s, "child_process.exec") || contains_lit(s, "subprocess.") || contains_lit(s, "os.system(")
}

/// The message of a denial for a weakened contract.
pub open spec fn gate_message(sec_risk: bool, reasons: Seq<Seq<char>>, calls: Seq<Seq<char>>) -> Seq<char> {
    (if sec_risk {
        "Security-sensitive change combined with API weakening. "@
    } else {
        Seq::empty()
    }) + "Please preserve API contract (do not remove/rename parameters) or provide a migration strategy.\n"@
        + "Detected issues:\n- "@ + join_texts(reasons, "\n- "@) + (if calls.len() > 0 {
        "\n- "@ + join_texts(calls, "\n- "@)
    } else {
        Seq::empty()
    })
}

/// What the contract check decides for a change of `old` into `code_new`:
/// nothing when no contract was weakened or the policy lets it pass;
/// otherwise a denial, of high risk when the code is security-sensitive.
pub open spec fn gate_decision(
    sensitivity: Sensitivity,
    language: Option<SupportedLanguage>,
    old: Seq<char>,
    code_new: Seq<char>,
    new: Seq<char>,
) -> Option<(Seq<char>, bool)> {
    let reasons = weakening_reasons(language, old, new);
    let sec = security_sensitive(code_new);
    let calls = callsite_issues(language, old, code_new);
    let trigger = sensitivity == Sensitivity::High || (sensitivity == Sensitivity::Medium && (sec || calls.len()
        > 0));
    if reasons.len() == 0 || !trigger {
        None
    } else {
        Some((gate_message(sec, reasons, calls), sec))
    }
}

/// The contract check of the pre-tool hook for an `Edit` or `MultiEdit` of a
/// named file: the old and new code come from the tool input, the language
/// from the file's extension, and the new code is `content` unless that is
/// empty. A denial names the weakened contracts and the broken call sites.
pub open spec fn contract_gate_decision(
    sensitivity: Sensitivity,
    tool_name: Seq<char>,
    input: ToolInput,
    content: Seq<char>,
) -> Option<(Seq<char>, bool)> {
    let (_p, old, new) = old_new_contents(tool_name, input, None);
    match opt_view(input.file_path) {
        None => None,
        Some(fp) => {
            if (tool_name == "Edit"@ || tool_name == "MultiEdit"@) && old is Some && new is Some {
                let lang = match crate::paths::extension_of(fp) {
                    Some(e) => language_of_extension(e),
                    None => None,
                };
                let code_new = if content.len() > 0 {
                    content
                } else {
                    new->0
                };
                gate_decision(sensitivity, lang, old->0, code_new, new->0)
            } else {
                None
            }
        },
    }
}

/// A denial with the given message, for an API contract, of high risk when
/// `sec` holds and medium risk otherwise.
pub open spec fn is_denial(v: SecurityValidation, msg: Seq<char>, sec: bool) -> bool {
    &&& v.decision@ == "deny"@
    &&& v.reason@ == msg
    &&& match v.security_concerns {
        Some(c) => strs(c@) == seq!["api_contract"@],
        None => false,
    }
    &&& v.risk_level@ == if sec {
        "high"@
    } else {
        "medium"@
    }
}

fn sensitivity_is(a: Sensitivity, b: Sensitivity) -> (r: bool)
    ensures
        r == (a == b),
{
    match (a, b) {
        (Sensitivity::Low, Sensitivity::Low) => true,
        (Sensitivity::Medium, Sensitivity::Medium) => true,
        (Sensitivity::High, Sensitivity::High) => true,
        _ => false,
    }
}

fn gate_message_exec(sec_risk: bool, reasons: &Vec<String>, calls: &Vec<String>) -> (r: String)
    ensures
        r@ == gate_message(sec_risk, strs(reasons@), strs(calls@)),
{
    let mut out: Vec<char> = Vec::new();
    if sec_risk {
        append_str(&mut out, "Security-sensitive change combined with API weakening. ");
    }
    append_str(
        &mut out,
        "Please preserve API contract (do not remove/rename parameters) or provide a migration strategy.\n",
    );
    append_str(&mut out, "Detected issues:\n- ");
    let j = join_strings(reasons, "\n- ");
    append_str(&mut out, j.as_str());
    if calls.len() > 0 {
        append_str(&mut out, "\n- ");
        let k = join_strings(calls, "\n- ");
        append_str(&mut out, k.as_str());
    }
    string_of(out.as_slice())
}

/// Denies a change that weakens an API contract when the policy asks for it:
/// always under high sensitivity, under medium sensitivity only for
/// security-sensitive code or when a call site breaks. The denial's risk is
/// high for security-sensitive code, else medium.
pub fn contract_gate(
    sensitivity: Sensitivity,
    tool_name: &str,
    tool_input: &ToolInput,
    content: &str,
) -> (r: Option<SecurityValidation>)
    ensures
        match contract_gate_decision(sensitivity, tool_name@, *tool_input, content@) {
            None => r is None,
            Some((msg, sec)) => r matches Some(v) && is_denial(v, msg, sec),
        },
{
    let fp = match &tool_input.file_path {
        Some(p) => p,
        None => return None,
    };
    let tc = chars_of(tool_name);
    if !(is(tc.as_slice(), "Edit") || is(tc.as_slice(), "MultiEdit")) {
        return None;
    }
    let (_p, old_opt, new_opt) = extract_old_new_contents(tool_name, tool_input, None);
    let (old, new) = match (old_opt, new_opt) {
        (Some(o), Some(n)) => (o, n),
        _ => return None,
    };
    let lang = match crate::paths::path_extension(fp.as_str()) {
        Some(e) => language_from_extension(e.as_str()),
        None => None,
    };
    let reasons = contract_weakening_reasons(lang, old.as_str(), new.as_str());
    assert(strs(reasons@).len() == reasons@.len());
    if reasons.len() == 0 {
        return None;
    }
    let code_new: &str = if !content.is_empty() {
        content
    } else {
        new.as_str()
    };
    let sec_risk = is_security_sensitive(code_new);
    let calls = find_contract_callsite_issues(lang, old.as_str(), code_new);
    assert(strs(calls@).len() == calls@.len());
    let trigger = sensitivity_is(sensitivity, Sensitivity::High) || (sensitivity_is(sensitivity, Sensitivity::Medium)
        && (sec_risk || calls.len() > 0));
    if !trigger {
        return None;
    }
    let msg = gate_message_exec(sec_risk, &reasons, &calls);
    let items = ["api_contract"];
    let concerns = crate::strings::owned_list(&items);
    assert(items@.map_values(|x: &str| x@) =~= seq!["api_contract"@]);
    Some(
        SecurityValidation {
            decision: crate::strings::owned("deny"),
            reason: msg,
            security_concerns: Some(concerns),
            risk_level: if sec_risk {
                crate::strings::owned("high")
            } else {
                crate::strings::owned("medium")
            },
        },
    )
}

/// The note added to the validation prompt when contracts look weakened.
pub fn contract_summary(reasons: &Vec<String>) -> (r: String)
    ensures
        reasons@.len() == 0 ==> r@ == Seq::<char>::empty(),
        reasons@.len() > 0 ==> r@ == "\n\nHEURISTIC SUMMARY:\nAPI contract weakening suspected:\n- "@ + join_texts(
            strs(reasons@),
            "\n- "@,
        ) + "\n"@,
{
    if reasons.len() == 0 {
        return String::new();
    }
    let mut out: Vec<char> = Vec::new();
    append_str(&mut out, "\n\nHEURISTIC SUMMARY:\nAPI contract weakening suspected:\n- ");
    let j = join_strings(reasons, "\n- ");
    append_str(&mut out, j.as_str());
    append_str(&mut out, "\n");
    string_of(out.as_slice())
}

} // verus!
