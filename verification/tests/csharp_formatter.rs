use rust_validation_hooks::formatting::formatters::csharp::CSharpFormatter;
use rust_validation_hooks::formatting::{
    FormatResult, FormatterError, ProcessOutcome, Step, SupportedLanguage, ToolReply, ToolRequest,
};

/// Answers requests as a machine on which no formatting tool is installed.
fn offline<T>(step: impl Fn(&[ToolReply]) -> Step<T>) -> T {
    let mut replies: Vec<ToolReply> = Vec::new();
    loop {
        match step(&replies) {
            Step::Done(v) => return v,
            Step::Ask(ToolRequest::Locate(_)) => replies.push(ToolReply::Located(false)),
            Step::Ask(ToolRequest::Run { .. }) => replies.push(ToolReply::Ran(ProcessOutcome::SpawnFailed(
                "No such file or directory (os error 2)".to_string(),
            ))),
        }
    }
}

/// A formatting job run on a machine without tools.
fn run_format(step: impl Fn(&[ToolReply]) -> Step<FormatResult>) -> Result<FormatResult, FormatterError> {
    Ok(offline(step))
}

#[test]
fn test_csharp_formatter_creation() {
    let formatter = CSharpFormatter::new();
    assert_eq!(formatter.language(), SupportedLanguage::CSharp);
}

#[test]
fn csharp_test_empty_code_handling() {
    let formatter = CSharpFormatter::new();
    let result = run_format(|r| formatter.format_code("", r)).unwrap();
    assert!(!result.changed);
    assert_eq!(result.formatted, "");
}

#[test]
fn csharp_test_whitespace_only_code() {
    let formatter = CSharpFormatter::new();
    let result = run_format(|r| formatter.format_code("   \n\t  \n", r)).unwrap();
    assert!(!result.changed);
}

/// Test that formatter_info returns CSharpier version information
#[test]
fn csharp_test_formatter_info() {
    let formatter = CSharpFormatter::new();
    let info = offline(|r| formatter.formatter_info(r));
    // Should return either version info with "CSharpier" prefix or fallback message
    assert!(
        info.starts_with("CSharpier"),
        "Expected formatter_info to start with 'CSharpier', got: '{}'",
        info
    );
}

#[test]
fn csharp_test_default_config_generation() {
    let formatter = CSharpFormatter::new();
    let config = formatter.default_config().unwrap();
    assert!(config.contains("printWidth"));
    assert!(config.contains("tabWidth"));
    assert!(config.contains("CSharpier"));
}

#[test]
fn test_csharpier_args() {
    let formatter = CSharpFormatter::new();
    let args = formatter.get_csharpier_args();
    assert!(args.contains(&"tool".to_string()));
    assert!(args.contains(&"run".to_string()));
    assert!(args.contains(&"csharpier".to_string()));
    assert!(args.contains(&"--stdin-filepath".to_string()));
    assert!(args.contains(&"stdin.cs".to_string()));
    assert_eq!(args.len(), 5);
}

#[test]
fn test_simple_csharp_formatting() {
    let formatter = CSharpFormatter::new();

    // Skip if dotnet is not available
    if !offline(|r| formatter.is_available(r)) {
        println!("Skipping dotnet format integration test - dotnet not available");
        return;
    }

    let unformatted_code = "namespace Example{public class Hello{public void Method(){Console.WriteLine(\"Hello, World!\");}}}";
    let result = run_format(|r| formatter.format_code(unformatted_code, r));

    match result {
        Ok(format_result) => {
            // dotnet format should format this code OR provide error message
            assert!(format_result.changed || !format_result.messages.is_empty());

            // Formatted code should be valid C#
            assert!(format_result.formatted.contains("namespace Example"));
            assert!(format_result.formatted.contains("public class Hello"));
        }
        Err(e) => {
            println!("dotnet format formatting failed: {:?}", e);
            // This is acceptable if dotnet format has issues with the test environment
        }
    }
}

#[test]
fn test_complex_csharp_formatting() {
    let formatter = CSharpFormatter::new();

    if !offline(|r| formatter.is_available(r)) {
        println!("Skipping dotnet format integration test - dotnet not available");
        return;
    }

    let complex_code = r#"
using System;using System.Collections.Generic;using System.Linq;
namespace UserService{
public interface IUserService{List<User>GetUsers();void AddUser(User user);}
public class UserService:IUserService{
private readonly List<User>_users=new List<User>();
public List<User>GetUsers(){return _users.Where(u=>u.IsActive).ToList();}
public void AddUser(User user){if(user!=null)_users.Add(user);}
}
public class User{public string Name{get;set;}public int Age{get;set;}public bool IsActive{get;set;}}
}
"#.trim();

    let result = run_format(|r| formatter.format_code(complex_code, r));

    match result {
        Ok(format_result) => {
            if format_result.changed {
                // Check that formatting improved the code structure
                assert!(format_result
                    .formatted
                    .contains("public interface IUserService"));
                assert!(format_result.formatted.contains("public class UserService"));
                assert!(format_result.formatted.contains("public class User"));
            }
        }
        Err(e) => {
            println!("dotnet format formatting of complex code failed: {:?}", e);
        }
    }
}

#[test]
fn test_csharp_generics_and_linq() {
    let formatter = CSharpFormatter::new();

    if !offline(|r| formatter.is_available(r)) {
        println!("Skipping dotnet format integration test - dotnet not available");
        return;
    }

    let generics_code = "public class Repository<T>where T:class,new(){private List<T>_items=new List<T>();public IEnumerable<T>FindAll(Func<T,bool>predicate){return _items.Where(predicate).OrderBy(x=>x.ToString());}}";
    let result = run_format(|r| formatter.format_code(generics_code, r));

    match result {
        Ok(format_result) => {
            if format_result.changed {
                // Check that C# generics and LINQ are handled correctly
                assert!(format_result.formatted.contains("Repository<T>"));
                assert!(format_result.formatted.contains("where T : class"));
                assert!(format_result.formatted.contains("Func<T, bool>"));
            }
        }
        Err(e) => {
            println!("dotnet format formatting of generics failed: {:?}", e);
        }
    }
}

#[test]
fn test_csharp_async_await() {
    let formatter = CSharpFormatter::new();

    if !offline(|r| formatter.is_available(r)) {
        println!("Skipping dotnet format integration test - dotnet not available");
        return;
    }

    let async_code = "public async Task<List<User>>GetUsersAsync(){using var httpClient=new HttpClient();var response=await httpClient.GetStringAsync(\"/api/users\");return JsonSerializer.Deserialize<List<User>>(response);}";
    let result = run_format(|r| formatter.format_code(async_code, r));

    match result {
        Ok(format_result) => {
            if format_result.changed {
                // Check that async/await syntax is preserved
                assert!(format_result.formatted.contains("async Task"));
                assert!(format_result.formatted.contains("await"));
                assert!(format_result.formatted.contains("using var"));
            }
        }
        Err(e) => {
            println!("dotnet format formatting of async code failed: {:?}", e);
        }
    }
}

#[test]
fn csharp_test_syntax_error_handling() {
    let formatter = CSharpFormatter::new();

    if !offline(|r| formatter.is_available(r)) {
        println!("Skipping dotnet format integration test - dotnet not available");
        return;
    }

    let invalid_code = "namespace Broken {\npublic class Test {\npublic void Method( {\nConsole.WriteLine(\"missing brace\";\n}"; // Missing closing brace and parenthesis
    let result = run_format(|r| formatter.format_code(invalid_code, r));

    match result {
        Ok(format_result) => {
            // Should return original code with error message
            assert!(!format_result.changed);
            assert_eq!(format_result.formatted, invalid_code);
            assert!(!format_result.messages.is_empty());
        }
        Err(_) => {
            // This is also acceptable - formatter detected the error
        }
    }
}

#[test]
fn test_modern_csharp_features() {
    let formatter = CSharpFormatter::new();

    if !offline(|r| formatter.is_available(r)) {
        println!("Skipping dotnet format integration test - dotnet not available");
        return;
    }

    let modern_code = "public record User(string Name,int Age){public bool IsAdult=>Age>=18;}public static class Extensions{public static T GetOrDefault<T>(this T?value,T defaultValue)where T:struct=>value??defaultValue;}";
    let result = run_format(|r| formatter.format_code(modern_code, r));

    match result {
        Ok(format_result) => {
            if format_result.changed {
                // Check that modern C# features are preserved
                assert!(format_result.formatted.contains("record User"));
                assert!(format_result.formatted.contains("=>"));
                assert!(format_result.formatted.contains("where T : struct"));
            }
        }
        Err(e) => {
            println!("dotnet format formatting of modern C# failed: {:?}", e);
        }
    }
}
