use rust_validation_hooks::formatting::formatters::javascript::JavaScriptFormatter;
use rust_validation_hooks::formatting::{
    FormatResult, FormatterError, ProcessOutcome, Step, SupportedLanguage, ToolReply, ToolRequest,
};

/// Answers requests as a machine on which no formatting tool is installed.
fn offline<T>(step: impl Fn(&[ToolReply]) -> Step<T>) -> T {
    let mut replies: Vec<ToolReply> = Vec::new();
    loop {
        match step(&replies) {
            Step::Done(v) => return v,
            Step::Ask(ToolRequest::Locate(_)) => replies.push(ToolReply::Located(false)),
            Step::Ask(ToolRequest::Run { .. }) => replies.push(ToolReply::Ran(ProcessOutcome::SpawnFailed(
                "No such file or directory (os error 2)".to_string(),
            ))),
        }
    }
}

/// A formatting job run on a machine without tools.
fn run_format(step: impl Fn(&[ToolReply]) -> Step<FormatResult>) -> Result<FormatResult, FormatterError> {
    Ok(offline(step))
}

#[test]
fn test_javascript_formatter_creation() {
    let formatter = JavaScriptFormatter::new();
    assert_eq!(formatter.language(), SupportedLanguage::JavaScript);
}

#[test]
fn javascript_test_empty_code_handling() {
    let formatter = JavaScriptFormatter::new();
    let result = run_format(|r| formatter.format_code("", r)).unwrap();
    assert!(!result.changed);
    assert_eq!(result.formatted, "");
}

#[test]
fn javascript_test_whitespace_only_code() {
    let formatter = JavaScriptFormatter::new();
    let result = run_format(|r| formatter.format_code("   \n\t  \n", r)).unwrap();
    assert!(!result.changed);
}

#[test]
fn javascript_test_formatter_info() {
    let formatter = JavaScriptFormatter::new();
    let info = offline(|r| formatter.formatter_info(r));
    assert!(info.contains("prettier"));
}

#[test]
fn javascript_test_default_config_generation() {
    let formatter = JavaScriptFormatter::new();
    let config = formatter.default_config().unwrap();
    assert!(config.contains("semi"));
    assert!(config.contains("printWidth"));
    assert!(config.contains("tabWidth"));
}

#[test]
fn javascript_test_prettier_args() {
    let formatter = JavaScriptFormatter::new();
    let args = formatter.get_prettier_args();
    assert!(args.contains(&"--parser".to_string()));
    assert!(args.contains(&"babel".to_string()));
    assert!(args.contains(&"--stdin-filepath".to_string()));
}

#[test]
fn test_simple_javascript_formatting() {
    let formatter = JavaScriptFormatter::new();

    // Skip if prettier is not available
    if !offline(|r| formatter.is_available(r)) {
        println!("Skipping prettier integration test - prettier not available");
        return;
    }

    let unformatted_code = "function hello(){console.log('Hello, world!');}";
    let result = run_format(|r| formatter.format_code(unformatted_code, r));

    match result {
        Ok(format_result) => {
            // prettier should format this code
            assert!(format_result.changed || format_result.messages.is_empty());

            // Formatted code should be valid JavaScript
            assert!(format_result.formatted.contains("function hello()"));
            assert!(format_result.formatted.contains("console.log"));
        }
        Err(e) => {
            println!("prettier formatting failed: {:?}", e);
            // This is acceptable if prettier has issues with the test environment
        }
    }
}

#[test]
fn test_complex_javascript_formatting() {
    let formatter = JavaScriptFormatter::new();

    if !offline(|r| formatter.is_available(r)) {
        println!("Skipping prettier integration test - prettier not available");
        return;
    }

    let complex_code = r#"
const users=[{name:"John",age:30},{name:"Jane",age:25}];
function processUsers(userList){
return userList.map(user=>({...user,status:"active"})).filter(user=>user.age>20);
}
console.log(processUsers(users));"#
        .trim();

    let result = run_format(|r| formatter.format_code(complex_code, r));

    match result {
        Ok(format_result) => {
            if format_result.changed {
                // Check that formatting improved the code structure
                assert!(format_result.formatted.contains("const users"));
                assert!(format_result.formatted.contains("function processUsers"));
            }
        }
        Err(e) => {
            println!("prettier formatting of complex code failed: {:?}", e);
        }
    }
}

#[test]
fn javascript_test_syntax_error_handling() {
    let formatter = JavaScriptFormatter::new();

    if !offline(|r| formatter.is_available(r)) {
        println!("Skipping prettier integration test - prettier not available");
        return;
    }

    let invalid_code = "function hello( { console.log('broken syntax'; }";
    let result = run_format(|r| formatter.format_code(invalid_code, r));

    match result {
        Ok(format_result) => {
            // Should return original code with error message
            assert!(!format_result.changed);
            assert_eq!(format_result.formatted, invalid_code);
            assert!(!format_result.messages.is_empty());
        }
        Err(_) => {
            // This is also acceptable - formatter detected the error
        }
    }
}

#[test]
fn test_arrow_functions_and_modern_syntax() {
    let formatter = JavaScriptFormatter::new();

    if !offline(|r| formatter.is_available(r)) {
        println!("Skipping prettier integration test - prettier not available");
        return;
    }

    let modern_code = "const add=(a,b)=>a+b;const multiply=function(x,y){return x*y;};";
    let result = run_format(|r| formatter.format_code(modern_code, r));

    match result {
        Ok(format_result) => {
            if format_result.changed {
                // Check that modern JS syntax is handled correctly
                assert!(format_result.formatted.contains("=>"));
                assert!(format_result.formatted.contains("const add"));
                assert!(format_result.formatted.contains("const multiply"));
            }
        }
        Err(e) => {
            println!("prettier formatting of modern JS failed: {:?}", e);
        }
    }
}
