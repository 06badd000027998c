use rust_validation_hooks::formatting::formatters::rust::RustFormatter;
use rust_validation_hooks::formatting::{
    FormatResult, FormatterError, ProcessOutcome, Step, SupportedLanguage, ToolReply, ToolRequest,
};

/// Answers requests as a machine on which no formatting tool is installed.
fn offline<T>(step: impl Fn(&[ToolReply]) -> Step<T>) -> T {
    let mut replies: Vec<ToolReply> = Vec::new();
    loop {
        match step(&replies) {
            Step::Done(v) => return v,
            Step::Ask(ToolRequest::Locate(_)) => replies.push(ToolReply::Located(false)),
            Step::Ask(ToolRequest::Run { .. }) => replies.push(ToolReply::Ran(ProcessOutcome::SpawnFailed(
                "No such file or directory (os error 2)".to_string(),
            ))),
        }
    }
}

/// A formatting job run on a machine without tools.
fn run_format(step: impl Fn(&[ToolReply]) -> Step<FormatResult>) -> Result<FormatResult, FormatterError> {
    Ok(offline(step))
}

#[test]
fn test_rust_formatter_creation() {
    let formatter = RustFormatter::new();
    assert_eq!(formatter.language(), SupportedLanguage::Rust);
}

#[test]
fn rust_test_empty_code_handling() {
    let formatter = RustFormatter::new();
    let result = run_format(|r| formatter.format_code("", &[], r)).unwrap();
    assert!(!result.changed);
    assert_eq!(result.formatted, "");
}

#[test]
fn rust_test_whitespace_only_code() {
    let formatter = RustFormatter::new();
    let result = run_format(|r| formatter.format_code("   \n\t  \n", &[], r)).unwrap();
    assert!(!result.changed);
}

#[test]
fn rust_test_formatter_info() {
    let formatter = RustFormatter::new();
    let info = offline(|r| formatter.formatter_info(r));
    assert!(info.contains("rustfmt"));
}

#[test]
fn rust_test_default_config_generation() {
    let formatter = RustFormatter::new();
    let config = formatter.default_config().unwrap();
    assert!(config.contains("max_width"));
    assert!(config.contains("tab_spaces"));
    assert!(config.contains("edition"));
}

#[test]
fn test_rustfmt_args() {
    let formatter = RustFormatter::new();
    let args = formatter.get_rustfmt_args(&[]);
    assert!(args.contains(&"--".to_string()));
}

#[test]
fn test_simple_rust_code_formatting() {
    let formatter = RustFormatter::new();

    // Skip if rustfmt is not available
    if !offline(|r| formatter.is_available(r)) {
        println!("Skipping rustfmt integration test - rustfmt not available");
        return;
    }

    let unformatted_code = "fn main(){println!(\"Hello, world!\");}";
    let result = run_format(|r| formatter.format_code(unformatted_code, &[], r));

    match result {
        Ok(format_result) => {
            // rustfmt should format this code
            assert!(format_result.changed || format_result.messages.is_empty());

            // Formatted code should be valid Rust
            assert!(format_result.formatted.contains("fn main()"));
            assert!(format_result.formatted.contains("println!"));
        }
        Err(e) => {
            println!("rustfmt formatting failed: {:?}", e);
            // This is acceptable if rustfmt has issues with the test environment
        }
    }
}

#[test]
fn test_complex_rust_code_formatting() {
    let formatter = RustFormatter::new();

    if !offline(|r| formatter.is_available(r)) {
        println!("Skipping rustfmt integration test - rustfmt not available");
        return;
    }

    let complex_code = r#"
use std::collections::HashMap;
fn process_data(data:Vec<String>)->HashMap<String,usize>{
let mut result=HashMap::new();
for item in data{result.insert(item.clone(),item.len());}
result}
"#
    .trim();

    let result = run_format(|r| formatter.format_code(complex_code, &[], r));

    match result {
        Ok(format_result) => {
            if format_result.changed {
                // Check that formatting improved the code structure
                assert!(format_result.formatted.contains("-> HashMap"));
                assert!(format_result.formatted.contains("for item in data"));
            }
        }
        Err(e) => {
            println!("rustfmt formatting of complex code failed: {:?}", e);
        }
    }
}

#[test]
fn rust_test_syntax_error_handling() {
    let formatter = RustFormatter::new();

    if !offline(|r| formatter.is_available(r)) {
        println!("Skipping rustfmt integration test - rustfmt not available");
        return;
    }

    let invalid_code = "fn main( { println!(\"broken syntax\"; }";
    let result = run_format(|r| formatter.format_code(invalid_code, &[], r));

    match result {
        Ok(format_result) => {
            // Should return original code with error message
            assert!(!format_result.changed);
            assert_eq!(format_result.formatted, invalid_code);
            assert!(!format_result.messages.is_empty());
        }
        Err(_) => {
            // This is also acceptable - formatter detected the error
        }
    }
}
