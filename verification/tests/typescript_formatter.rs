use rust_validation_hooks::formatting::formatters::typescript::TypeScriptFormatter;
use rust_validation_hooks::formatting::{
    FormatResult, FormatterError, ProcessOutcome, Step, SupportedLanguage, ToolReply, ToolRequest,
};

/// Answers requests as a machine on which no formatting tool is installed.
fn offline<T>(step: impl Fn(&[ToolReply]) -> Step<T>) -> T {
    let mut replies: Vec<ToolReply> = Vec::new();
    loop {
        match step(&replies) {
            Step::Done(v) => return v,
            Step::Ask(ToolRequest::Locate(_)) => replies.push(ToolReply::Located(false)),
            Step::Ask(ToolRequest::Run { .. }) => replies.push(ToolReply::Ran(ProcessOutcome::SpawnFailed(
                "No such file or directory (os error 2)".to_string(),
            ))),
        }
    }
}

/// A formatting job run on a machine without tools.
fn run_format(step: impl Fn(&[ToolReply]) -> Step<FormatResult>) -> Result<FormatResult, FormatterError> {
    Ok(offline(step))
}

#[test]
fn test_typescript_formatter_creation() {
    let formatter = TypeScriptFormatter::new();
    assert_eq!(formatter.language(), SupportedLanguage::TypeScript);
}

#[test]
fn typescript_test_empty_code_handling() {
    let formatter = TypeScriptFormatter::new();
    let result = run_format(|r| formatter.format_code("", r)).unwrap();
    assert!(!result.changed);
    assert_eq!(result.formatted, "");
}

#[test]
fn typescript_test_whitespace_only_code() {
    let formatter = TypeScriptFormatter::new();
    let result = run_format(|r| formatter.format_code("   \n\t  \n", r)).unwrap();
    assert!(!result.changed);
}

#[test]
fn typescript_test_formatter_info() {
    let formatter = TypeScriptFormatter::new();
    let info = offline(|r| formatter.formatter_info(r));
    assert!(info.contains("prettier"));
}

#[test]
fn typescript_test_default_config_generation() {
    let formatter = TypeScriptFormatter::new();
    let config = formatter.default_config().unwrap();
    assert!(config.contains("typescript"));
    assert!(config.contains("printWidth"));
    assert!(config.contains("overrides"));
    assert!(config.contains("*.tsx"));
}

#[test]
fn typescript_test_prettier_args() {
    let formatter = TypeScriptFormatter::new();
    let args = formatter.get_prettier_args();
    assert!(args.contains(&"--parser".to_string()));
    assert!(args.contains(&"typescript".to_string()));
    assert!(args.contains(&"--stdin-filepath".to_string()));
}

#[test]
fn test_simple_typescript_formatting() {
    let formatter = TypeScriptFormatter::new();

    // Skip if prettier is not available
    if !offline(|r| formatter.is_available(r)) {
        println!("Skipping prettier integration test - prettier not available");
        return;
    }

    let unformatted_code = "interface User{name:string;age:number;}function greet(user:User){console.log(`Hello, ${user.name}`);}";
    let result = run_format(|r| formatter.format_code(unformatted_code, r));

    match result {
        Ok(format_result) => {
            // prettier should format this code
            assert!(format_result.changed || format_result.messages.is_empty());

            // Formatted code should be valid TypeScript
            assert!(format_result.formatted.contains("interface User"));
            assert!(format_result.formatted.contains("function greet"));
        }
        Err(e) => {
            println!("prettier formatting failed: {:?}", e);
            // This is acceptable if prettier has issues with the test environment
        }
    }
}

#[test]
fn test_complex_typescript_formatting() {
    let formatter = TypeScriptFormatter::new();

    if !offline(|r| formatter.is_available(r)) {
        println!("Skipping prettier integration test - prettier not available");
        return;
    }

    let complex_code = r#"
type UserStatus='active'|'inactive';
interface User{readonly id:number;name:string;email?:string;status:UserStatus;}
class UserService<T extends User>{
private users:T[]=[];
public addUser(user:T):void{this.users.push(user);}
public getActiveUsers():T[]{return this.users.filter(u=>u.status==='active');}
}"#
    .trim();

    let result = run_format(|r| formatter.format_code(complex_code, r));

    match result {
        Ok(format_result) => {
            if format_result.changed {
                // Check that formatting improved the code structure
                assert!(format_result.formatted.contains("type UserStatus"));
                assert!(format_result.formatted.contains("interface User"));
                assert!(format_result.formatted.contains("class UserService"));
            }
        }
        Err(e) => {
            println!("prettier formatting of complex TypeScript failed: {:?}", e);
        }
    }
}

#[test]
fn test_generics_and_decorators() {
    let formatter = TypeScriptFormatter::new();

    if !offline(|r| formatter.is_available(r)) {
        println!("Skipping prettier integration test - prettier not available");
        return;
    }

    let generics_code = "function identity<T>(arg:T):T{return arg;}const result:string=identity<string>('hello');";
    let result = run_format(|r| formatter.format_code(generics_code, r));

    match result {
        Ok(format_result) => {
            if format_result.changed {
                // Check that TypeScript specific syntax is handled correctly
                assert!(format_result.formatted.contains("<T>"));
                assert!(format_result.formatted.contains("function identity"));
            }
        }
        Err(e) => {
            println!("prettier formatting of generics failed: {:?}", e);
        }
    }
}

#[test]
fn test_async_await_formatting() {
    let formatter = TypeScriptFormatter::new();

    if !offline(|r| formatter.is_available(r)) {
        println!("Skipping prettier integration test - prettier not available");
        return;
    }

    let async_code = "async function fetchUser(id:number):Promise<User>{const response=await fetch(`/users/${id}`);return response.json();}";
    let result = run_format(|r| formatter.format_code(async_code, r));

    match result {
        Ok(format_result) => {
            if format_result.changed {
                // Check that async/await syntax is preserved
                assert!(format_result.formatted.contains("async function"));
                assert!(format_result.formatted.contains("await"));
                assert!(format_result.formatted.contains("Promise<User>"));
            }
        }
        Err(e) => {
            println!("prettier formatting of async/await failed: {:?}", e);
        }
    }
}

#[test]
fn typescript_test_syntax_error_handling() {
    let formatter = TypeScriptFormatter::new();

    if !offline(|r| formatter.is_available(r)) {
        println!("Skipping prettier integration test - prettier not available");
        return;
    }

    let invalid_code = "interface User{ name:string age:number }"; // Missing semicolon
    let result = run_format(|r| formatter.format_code(invalid_code, r));

    match result {
        Ok(format_result) => {
            // Should return original code with error message or formatted if fixable
            if !format_result.changed {
                assert_eq!(format_result.formatted, invalid_code);
                assert!(!format_result.messages.is_empty());
            }
        }
        Err(_) => {
            // This is also acceptable - formatter detected the error
        }
    }
}
