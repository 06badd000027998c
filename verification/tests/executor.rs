use rust_validation_hooks::formatting::formatters::{SecureCommandExecutor, SecurityConfig};
use rust_validation_hooks::formatting::{FormatterError, ProcessOutcome, Step, ToolReply, ToolRequest};

#[test]
fn test_security_config_default() {
    let config = SecurityConfig::default();
    assert!(config.allowed_commands.contains(&"rustfmt".to_string()));
    assert!(config.allowed_commands.contains(&"black".to_string()));
    assert_eq!(config.max_execution_time, 30);
    assert!(config.max_output_bytes > 0);
}

#[test]
fn test_dangerous_patterns_detection() {
    let executor = SecureCommandExecutor::default();

    assert!(executor.contains_dangerous_patterns("file.txt; rm -rf /"));
    assert!(executor.contains_dangerous_patterns("$(malicious)"));
    assert!(executor.contains_dangerous_patterns("file && rm file"));
    assert!(executor.contains_dangerous_patterns("../../../etc/passwd"));
    assert!(executor.contains_dangerous_patterns("file.exe"));

    assert!(!executor.contains_dangerous_patterns("normal_file.rs"));
    assert!(!executor.contains_dangerous_patterns("--indent=4"));
    assert!(!executor.contains_dangerous_patterns("output.json"));
}

#[test]
fn test_command_whitelist_validation() {
    let executor = SecureCommandExecutor::default();

    assert!(matches!(
        executor.execute_formatter("rm", &["-rf".to_string(), "/".to_string()], None, &[]),
        Step::Done(Err(_))
    ));
    assert!(matches!(
        executor.execute_formatter("curl", &["http://evil.com".to_string()], None, &[]),
        Step::Done(Err(_))
    ));
    assert!(matches!(
        executor.execute_formatter("bash", &["-c".to_string(), "echo hi".to_string()], None, &[]),
        Step::Done(Err(_))
    ));
}

#[test]
fn test_argument_injection_protection() {
    let executor = SecureCommandExecutor::default();

    let dangerous_args = vec![
        "file.txt; rm -rf /".to_string(),
        "--option=$(malicious)".to_string(),
        "file && rm file".to_string(),
    ];

    assert!(matches!(
        executor.execute_formatter("rustfmt", &dangerous_args, None, &[]),
        Step::Done(Err(_))
    ));
}

fn exited(success: bool, stdout: &str, stderr: &str) -> ToolReply {
    ToolReply::Ran(ProcessOutcome::Exited {
        success,
        stdout: stdout.as_bytes().to_vec(),
        stderr: stderr.to_string(),
        elapsed_ms: 10,
        elapsed_text: "10ms".to_string(),
    })
}

#[test]
fn refused_commands_name_the_command() {
    let executor = SecureCommandExecutor::default();
    match executor.execute_formatter("rm", &[], None, &[]) {
        Step::Done(Err(e)) => {
            assert!(matches!(e, FormatterError::NotAllowed(_)));
            assert_eq!(e.message(), "Command 'rm' not in allowed whitelist");
        }
        _ => panic!("rm must be refused"),
    }
}

#[test]
fn dangerous_argument_is_the_first_one() {
    let executor = SecureCommandExecutor::default();
    let args = vec!["--check".to_string(), "a|b".to_string(), "c;d".to_string()];
    match executor.execute_formatter("rustfmt", &args, None, &[]) {
        Step::Done(Err(e)) => {
            assert_eq!(e.message(), "Argument contains potentially dangerous patterns: a|b");
        }
        _ => panic!("a dangerous argument must be refused"),
    }
}

#[test]
fn suspicious_endings_are_case_blind() {
    let executor = SecureCommandExecutor::default();
    assert!(executor.contains_dangerous_patterns("RUN.BAT"));
    assert!(executor.contains_dangerous_patterns("x.Sh"));
    assert!(!executor.contains_dangerous_patterns("x.shell"));
}

#[test]
fn allowed_run_asks_the_machine_then_reads_the_outcome() {
    let executor = SecureCommandExecutor::default();
    let args = vec!["--edition".to_string(), "2021".to_string()];
    match executor.execute_formatter("rustfmt", &args, Some("fn main(){}"), &[]) {
        Step::Ask(ToolRequest::Run { command, args: a, input }) => {
            assert_eq!(command, "rustfmt");
            assert_eq!(a, args);
            assert_eq!(input, Some("fn main(){}".to_string()));
        }
        _ => panic!("an allowed run must be asked for"),
    }
    let ok = executor.execute_formatter("rustfmt", &args, Some("x"), &[exited(true, "fn main() {}\n", "")]);
    assert!(matches!(ok, Step::Done(Ok(ref s)) if s == "fn main() {}\n"));
    let failed = executor.execute_formatter("rustfmt", &args, Some("x"), &[exited(false, "", "boom")]);
    match failed {
        Step::Done(Err(e)) => assert_eq!(e.message(), "Formatter failed: boom"),
        _ => panic!("a failed run is an error"),
    }
}

#[test]
fn oversized_input_and_output_are_refused() {
    let mut config = SecurityConfig::default();
    config.max_input_bytes = 3;
    config.max_output_bytes = 2;
    let executor = SecureCommandExecutor::new(config);
    match executor.execute_formatter("rustfmt", &[], Some("abcd"), &[]) {
        Step::Done(Err(e)) => assert_eq!(e.message(), "Input too large: 4 bytes (max: 3)"),
        _ => panic!("too much input"),
    }
    match executor.execute_formatter("rustfmt", &[], Some("ab"), &[exited(true, "abc", "")]) {
        Step::Done(Err(e)) => assert_eq!(e.message(), "Output too large: 3 bytes (max: 2)"),
        _ => panic!("too much output"),
    }
}

#[test]
fn timeouts_and_bad_encoding() {
    let executor = SecureCommandExecutor::default();
    match executor.execute_formatter("rustfmt", &[], None, &[ToolReply::Ran(ProcessOutcome::TimedOut)]) {
        Step::Done(Err(e)) => assert_eq!(e.message(), "Command timeout after 30s"),
        _ => panic!("timeout"),
    }
    let late = ToolReply::Ran(ProcessOutcome::Exited {
        success: true,
        stdout: vec![b'o', b'k'],
        stderr: String::new(),
        elapsed_ms: 30_001,
        elapsed_text: "30.001s".to_string(),
    });
    match executor.execute_formatter("rustfmt", &[], None, &[late]) {
        Step::Done(Err(e)) => assert_eq!(e.message(), "Command execution timeout: 30.001s"),
        _ => panic!("late"),
    }
    let bad = ToolReply::Ran(ProcessOutcome::Exited {
        success: true,
        stdout: vec![0xff, 0xfe],
        stderr: String::new(),
        elapsed_ms: 1,
        elapsed_text: "1ms".to_string(),
    });
    match executor.execute_formatter("rustfmt", &[], None, &[bad]) {
        Step::Done(Err(e)) => assert!(e.message().starts_with("Output encoding error: ")),
        _ => panic!("bad utf-8"),
    }
}

#[test]
fn command_lookup_needs_the_whitelist_then_the_machine() {
    let executor = SecureCommandExecutor::default();
    assert!(matches!(executor.command_exists("curl", &[]), Step::Done(false)));
    assert!(matches!(executor.command_exists("rustfmt", &[]), Step::Ask(ToolRequest::Locate(ref c)) if c == "rustfmt"));
    assert!(matches!(executor.command_exists("rustfmt", &[ToolReply::Located(true)]), Step::Done(true)));
    assert!(matches!(executor.command_exists("rustfmt", &[ToolReply::Located(false)]), Step::Done(false)));
}

#[test]
fn version_lines() {
    let executor = SecureCommandExecutor::default();
    assert!(matches!(executor.get_formatter_version("curl", &[]), Step::Done(ref s) if s == "curl (not available)"));
    assert!(matches!(
        executor.get_formatter_version("rustfmt", &[ToolReply::Located(false)]),
        Step::Done(ref s) if s == "rustfmt (not available)"
    ));
    match executor.get_formatter_version("rustfmt", &[ToolReply::Located(true)]) {
        Step::Ask(ToolRequest::Run { args, input, .. }) => {
            assert_eq!(args, vec!["--version".to_string()]);
            assert_eq!(input, None);
        }
        _ => panic!("the version run must be asked for"),
    }
    let out = exited(true, "  rustfmt 1.8.0-stable (2025-01-01)  \nsecond line\n", "");
    assert!(matches!(
        executor.get_formatter_version("rustfmt", &[ToolReply::Located(true), out]),
        Step::Done(ref s) if s == "rustfmt rustfmt 1.8.0-stable (2025-01-01)"
    ));
    assert!(matches!(
        executor.get_formatter_version("rustfmt", &[ToolReply::Located(true), exited(false, "", "x")]),
        Step::Done(ref s) if s == "rustfmt (version check failed)"
    ));
    assert!(executor.get_version_args("gofmt").is_empty());
}
