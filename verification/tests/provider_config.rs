use rust_validation_hooks::provider_config::{
    limits_from_file, AIProvider, FileLimits, ProviderSettings, SettingsProblem,
};

fn no_limits() -> FileLimits {
    FileLimits {
        max_tokens: None,
        max_issues: None,
        request_timeout_secs: None,
        connect_timeout_secs: None,
        gpt5_max_output_tokens: None,
        claude_max_output_tokens: None,
        gemini_max_output_tokens: None,
        grok_max_output_tokens: None,
    }
}

fn settings() -> ProviderSettings {
    ProviderSettings {
        openai_api_key: String::new(),
        anthropic_api_key: "ak".to_string(),
        google_api_key: String::new(),
        xai_api_key: "xk".to_string(),
        openai_base_url: "https://o".to_string(),
        anthropic_base_url: "https://a".to_string(),
        google_base_url: "https://g".to_string(),
        xai_base_url: "https://x".to_string(),
        pretool_provider: AIProvider::XAI,
        posttool_provider: AIProvider::Anthropic,
        pretool_model: "grok-code-fast-1".to_string(),
        posttool_model: "sonnet".to_string(),
        limits: limits_from_file(&no_limits()),
    }
}

#[test]
fn file_limits_default_and_clamp() {
    let d = limits_from_file(&no_limits());
    assert_eq!(
        (d.max_tokens, d.max_issues, d.request_timeout_secs, d.connect_timeout_secs),
        (4000, 10, 60, 30)
    );
    assert_eq!(
        (d.gpt5_max_output_tokens, d.claude_max_output_tokens, d.gemini_max_output_tokens, d.grok_max_output_tokens),
        (12000, 4000, 8000, 8000)
    );
    let mut f = no_limits();
    f.max_tokens = Some(5);
    f.max_issues = Some(500);
    f.request_timeout_secs = Some(1);
    f.connect_timeout_secs = Some(70);
    f.grok_max_output_tokens = Some(20_000);
    let l = limits_from_file(&f);
    assert_eq!((l.max_tokens, l.max_issues, l.request_timeout_secs, l.connect_timeout_secs), (100, 50, 10, 70));
    assert_eq!(l.grok_max_output_tokens, 8000);
}

#[test]
fn provider_lookups() {
    let s = settings();
    assert_eq!(s.get_api_key_for_provider(&AIProvider::XAI), "xk");
    assert_eq!(s.get_base_url_for_provider(&AIProvider::Google), "https://g");
    assert_eq!(s.get_max_output_tokens_for_provider(&AIProvider::OpenAI), 12000);
}

#[test]
fn settings_checks_in_order() {
    assert_eq!(settings().validate(), Ok(()));
    let mut s = settings();
    s.pretool_provider = AIProvider::OpenAI;
    s.pretool_model = "  ".to_string();
    assert_eq!(s.validate(), Err(SettingsProblem::MissingPretoolKey(AIProvider::OpenAI)));
    let mut s = settings();
    s.posttool_model = " \t".to_string();
    assert_eq!(s.validate(), Err(SettingsProblem::EmptyPosttoolModel));
    let mut s = settings();
    s.limits.max_tokens = 0;
    assert_eq!(s.validate(), Err(SettingsProblem::MaxTokensOutOfRange));
    let mut s = settings();
    s.limits.request_timeout_secs = 601;
    assert_eq!(s.validate(), Err(SettingsProblem::RequestTimeoutOutOfRange));
}
