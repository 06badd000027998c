//! The model-provider settings of the hooks: which provider each hook asks,
//! with which key, address, model and limits, the limits a settings file
//! gives (each defaulted and clamped), and the checks on the settings.
use vstd::prelude::*;
use crate::strings::{all_ws, chars_of};

verus! {

/// A provider of models.
#[derive(Clone, Copy, Debug, PartialEq, Eq, Structural)]
pub enum AIProvider {
    OpenAI,
    Anthropic,
    Google,
    XAI,
}

/// The numeric settings, each within its bounds.
#[derive(Clone, Copy, Debug, PartialEq, Eq, Structural)]
pub struct Limits {
    pub max_tokens: u32,
    pub max_issues: usize,
    pub request_timeout_secs: u64,
    pub connect_timeout_secs: u64,
    pub gpt5_max_output_tokens: u32,
    pub claude_max_output_tokens: u32,
    pub gemini_max_output_tokens: u32,
    pub grok_max_output_tokens: u32,
}

/// The numeric settings a settings file gives, each when present.
#[derive(Clone, Copy, Debug, PartialEq, Eq, Structural)]
pub struct FileLimits {
    pub max_tokens: Option<u32>,
    pub max_issues: Option<usize>,
    pub request_timeout_secs: Option<u64>,
    pub connect_timeout_secs: Option<u64>,
    pub gpt5_max_output_tokens: Option<u32>,
    pub claude_max_output_tokens: Option<u32>,
    pub gemini_max_output_tokens: Option<u32>,
    pub grok_max_output_tokens: Option<u32>,
}

/// A setting: the given value or the default, clamped to `lo..=hi`.
pub open spec fn clamped_or(v: Option<int>, default: int, lo: int, hi: int) -> int {
    let x = match v {
        Some(x) => x,
        None => default,
    };
    if x < lo {
        lo
    } else if x > hi {
        hi
    } else {
        x
    }
}

pub open spec fn opt_int_u32(v: Option<u32>) -> Option<int> {
    match v {
        Some(x) => Some(x as int),
        None => None,
    }
}

pub open spec fn opt_int_u64(v: Option<u64>) -> Option<int> {
    match v {
        Some(x) => Some(x as int),
        None => None,
    }
}

pub open spec fn opt_int_usize(v: Option<usize>) -> Option<int> {
    match v {
        Some(x) => Some(x as int),
        None => None,
    }
}

fn clamp_u32(v: Option<u32>, default: u32, lo: u32, hi: u32) -> (r: u32)
    requires
        lo <= hi,
    ensures
        r == clamped_or(opt_int_u32(v), default as int, lo as int, hi as int),
{
    let x = match v {
        Some(x) => x,
        None => default,
    };
    if x < lo {
        lo
    } else if x > hi {
        hi
    } else {
        x
    }
}

fn clamp_u64(v: Option<u64>, default: u64, lo: u64, hi: u64) -> (r: u64)
    requires
        lo <= hi,
    ensures
        r == clamped_or(opt_int_u64(v), default as int, lo as int, hi as int),
{
    let x = match v {
        Some(x) => x,
        None => default,
    };
    if x < lo {
        lo
    } else if x > hi {
        hi
    } else {
        x
    }
}

fn clamp_usize(v: Option<usize>, default: usize, lo: usize, hi: usize) -> (r: usize)
    requires
        lo <= hi,
    ensures
        r == clamped_or(opt_int_usize(v), default as int, lo as int, hi as int),
{
    let x = match v {
        Some(x) => x,
        None => default,
    };
    if x < lo {
        lo
    } else if x > hi {
        hi
    } else {
        x
    }
}

/// The limits a settings file sets: each given value, or its default, kept
/// within its bounds (max tokens 4000 in 100..=100000, issues 10 in 1..=50,
/// request timeout 60 s in 10..=600, connect timeout 30 s in 5..=120, and
/// output tokens 12000 in 1000..=128000 for GPT-5, 4000 in 1000..=8000 for
/// Anthropic models, 8000 in 1000..=32000 for Gemini, 8000 in 1000..=8000 for Grok).
pub fn limits_from_file(f: &FileLimits) -> (r: Limits)
    ensures
        r.max_tokens == clamped_or(opt_int_u32(f.max_tokens), 4000, 100, 100_000),
        r.max_issues == clamped_or(opt_int_usize(f.max_issues), 10, 1, 50),
        r.request_timeout_secs == clamped_or(opt_int_u64(f.request_timeout_secs), 60, 10, 600),
        r.connect_timeout_secs == clamped_or(opt_int_u64(f.connect_timeout_secs), 30, 5, 120),
        r.gpt5_max_output_tokens == clamped_or(opt_int_u32(f.gpt5_max_output_tokens), 12000, 1000, 128_000),
        r.claude_max_output_tokens == clamped_or(opt_int_u32(f.claude_max_output_tokens), 4000, 1000, 8000),
        r.gemini_max_output_tokens == clamped_or(opt_int_u32(f.gemini_max_output_tokens), 8000, 1000, 32_000),
        r.grok_max_output_tokens == clamped_or(opt_int_u32(f.grok_max_output_tokens), 8000, 1000, 8000),
{
    Limits {
        max_tokens: clamp_u32(f.max_tokens, 4000, 100, 100_000),
        max_issues: clamp_usize(f.max_issues, 10, 1, 50),
        request_timeout_secs: clamp_u64(f.request_timeout_secs, 60, 10, 600),
        connect_timeout_secs: clamp_u64(f.connect_timeout_secs, 30, 5, 120),
        gpt5_max_output_tokens: clamp_u32(f.gpt5_max_output_tokens, 12000, 1000, 128_000),
        claude_max_output_tokens: clamp_u32(f.claude_max_output_tokens, 4000, 1000, 8000),
        gemini_max_output_tokens: clamp_u32(f.gemini_max_output_tokens, 8000, 1000, 32_000),
        grok_max_output_tokens: clamp_u32(f.grok_max_output_tokens, 8000, 1000, 8000),
    }
}

/// The provider settings of the hooks (the sampling temperature, a floating
/// point number, is kept by the caller).
pub struct ProviderSettings {
    pub openai_api_key: String,
    pub anthropic_api_key: String,
    pub google_api_key: String,
    pub xai_api_key: String,
    pub openai_base_url: String,
    pub anthropic_base_url: String,
    pub google_base_url: String,
    pub xai_base_url: String,
    pub pretool_provider: AIProvider,
    pub posttool_provider: AIProvider,
    pub pretool_model: String,
    pub posttool_model: String,
    pub limits: Limits,
}

/// The key of a provider.
pub open spec fn key_of(s: ProviderSettings, p: AIProvider) -> Seq<char> {
    match p {
        AIProvider::OpenAI => s.openai_api_key@,
        AIProvider::Anthropic => s.anthropic_api_key@,
        AIProvider::Google => s.google_api_key@,
        AIProvider::XAI => s.xai_api_key@,
    }
}

/// What is wrong with provider settings, checked in this order.
#[derive(Clone, Copy, Debug, PartialEq, Eq, Structural)]
pub enum SettingsProblem {
    MissingPretoolKey(AIProvider),
    MissingPosttoolKey(AIProvider),
    EmptyPretoolModel,
    EmptyPosttoolModel,
    MaxTokensOutOfRange,
    RequestTimeoutOutOfRange,
}

/// The first problem of the settings, if any: a missing key for either
/// hook's provider, a blank model, max tokens outside 1..=100000, or a
/// request timeout outside 1..=600 seconds.
pub open spec fn settings_problem(s: ProviderSettings) -> Option<SettingsProblem> {
    if key_of(s, s.pretool_provider).len() == 0 {
        Some(SettingsProblem::MissingPretoolKey(s.pretool_provider))
    } else if key_of(s, s.posttool_provider).len() == 0 {
        Some(SettingsProblem::MissingPosttoolKey(s.posttool_provider))
    } else if all_ws(s.pretool_model@) {
        Some(SettingsProblem::EmptyPretoolModel)
    } else if all_ws(s.posttool_model@) {
        Some(SettingsProblem::EmptyPosttoolModel)
    } else if s.limits.max_tokens == 0 || s.limits.max_tokens > 100_000 {
        Some(SettingsProblem::MaxTokensOutOfRange)
    } else if s.limits.request_timeout_secs == 0 || s.limits.request_timeout_secs > 600 {
        Some(SettingsProblem::RequestTimeoutOutOfRange)
    } else {
        None
    }
}

fn blank(s: &str) -> (r: bool)
    ensures
        r == all_ws(s@),
{
    let c = chars_of(s);
    let mut i: usize = 0;
    while i < c.len()
        invariant
            i <= c@.len(),
            c@ == s@,
            forall|k: int| 0 <= k < i ==> crate::strings::is_ws(#[trigger] c@[k]),
        decreases c@.len() - i,
    {
        if !crate::strings::is_whitespace(c[i]) {
            return false;
        }
        i = i + 1;
    }
    true
}

impl ProviderSettings {
    /// The key for a provider.
    pub fn get_api_key_for_provider(&self, provider: &AIProvider) -> (r: &str)
        ensures
            r@ == key_of(*self, *provider),
    {
        match provider {
            AIProvider::OpenAI => self.openai_api_key.as_str(),
            AIProvider::Anthropic => self.anthropic_api_key.as_str(),
            AIProvider::Google => self.google_api_key.as_str(),
            AIProvider::XAI => self.xai_api_key.as_str(),
        }
    }

    /// The address of a provider.
    pub fn get_base_url_for_provider(&self, provider: &AIProvider) -> (r: &str)
        ensures
            r@ == match *provider {
                AIProvider::OpenAI => self.openai_base_url@,
                AIProvider::Anthropic => self.anthropic_base_url@,
                AIProvider::Google => self.google_base_url@,
                AIProvider::XAI => self.xai_base_url@,
            },
    {
        match provider {
            AIProvider::OpenAI => self.openai_base_url.as_str(),
            AIProvider::Anthropic => self.anthropic_base_url.as_str(),
            AIProvider::Google => self.google_base_url.as_str(),
            AIProvider::XAI => self.xai_base_url.as_str(),
        }
    }

    /// The output token limit of a provider's models.
    pub fn get_max_output_tokens_for_provider(&self, provider: &AIProvider) -> (r: u32)
        ensures
            r == match *provider {
                AIProvider::OpenAI => self.limits.gpt5_max_output_tokens,
                AIProvider::Anthropic => self.limits.claude_max_output_tokens,
                AIProvider::Google => self.limits.gemini_max_output_tokens,
                AIProvider::XAI => self.limits.grok_max_output_tokens,
            },
    {
        match provider {
            AIProvider::OpenAI => self.limits.gpt5_max_output_tokens,
            AIProvider::Anthropic => self.limits.claude_max_output_tokens,
            AIProvider::Google => self.limits.gemini_max_output_tokens,
            AIProvider::XAI => self.limits.grok_max_output_tokens,
        }
    }

    /// Checks the settings (see `settings_problem`).
    pub fn validate(&self) -> (r: Result<(), SettingsProblem>)
        ensures
            match r {
                Ok(_) => settings_problem(*self) is None,
                Err(p) => settings_problem(*self) == Some(p),
            },
    {
        if self.get_api_key_for_provider(&self.pretool_provider).is_empty() {
            return Err(SettingsProblem::MissingPretoolKey(self.pretool_provider));
        }
        if self.get_api_key_for_provider(&self.posttool_provider).is_empty() {
            return Err(SettingsProblem::MissingPosttoolKey(self.posttool_provider));
        }
        if blank(self.pretool_model.as_str()) {
            return Err(SettingsProblem::EmptyPretoolModel);
        }
        if blank(self.posttool_model.as_str()) {
            return Err(SettingsProblem::EmptyPosttoolModel);
        }
        if self.limits.max_tokens == 0 || self.limits.max_tokens > 100_000 {
            return Err(SettingsProblem::MaxTokensOutOfRange);
        }
        if self.limits.request_timeout_secs == 0 || self.limits.request_timeout_secs > 600 {
            return Err(SettingsProblem::RequestTimeoutOutOfRange);
        }
        Ok(())
    }
}

/// Limits read from a file always pass the range checks.
pub proof fn law_file_limits_in_range(f: FileLimits, s: ProviderSettings)
    requires
        s.limits.max_tokens == clamped_or(opt_int_u32(f.max_tokens), 4000, 100, 100_000),
        s.limits.request_timeout_secs == clamped_or(opt_int_u64(f.request_timeout_secs), 60, 10, 600),
    ensures
        settings_problem(s) != Some(SettingsProblem::MaxTokensOutOfRange),
        settings_problem(s) != Some(SettingsProblem::RequestTimeoutOutOfRange),
{
}

} // verus!
