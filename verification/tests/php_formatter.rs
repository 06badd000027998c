use rust_validation_hooks::formatting::formatters::php::PhpFormatter;
use rust_validation_hooks::formatting::{
    FormatResult, FormatterError, ProcessOutcome, Step, SupportedLanguage, ToolReply, ToolRequest,
};

/// Answers requests as a machine on which no formatting tool is installed.
fn offline<T>(step: impl Fn(&[ToolReply]) -> Step<T>) -> T {
    let mut replies: Vec<ToolReply> = Vec::new();
    loop {
        match step(&replies) {
            Step::Done(v) => return v,
            Step::Ask(ToolRequest::Locate(_)) => replies.push(ToolReply::Located(false)),
            Step::Ask(ToolRequest::Run { .. }) => replies.push(ToolReply::Ran(ProcessOutcome::SpawnFailed(
                "No such file or directory (os error 2)".to_string(),
            ))),
        }
    }
}

/// A formatting job run on a machine without tools.
fn run_format(step: impl Fn(&[ToolReply]) -> Step<FormatResult>) -> Result<FormatResult, FormatterError> {
    Ok(offline(step))
}

#[test]
fn test_php_formatter_creation() {
    let formatter = PhpFormatter::new();
    assert_eq!(formatter.language(), SupportedLanguage::Php);
}

#[test]
fn php_test_empty_code_handling() {
    let formatter = PhpFormatter::new();
    let result = run_format(|r| formatter.format_code("", r)).unwrap();
    assert!(!result.changed);
    assert_eq!(result.formatted, "");
}

#[test]
fn php_test_whitespace_only_code() {
    let formatter = PhpFormatter::new();
    let result = run_format(|r| formatter.format_code("   \n\t  \n", r)).unwrap();
    assert!(!result.changed);
}

#[test]
fn php_test_formatter_info() {
    let formatter = PhpFormatter::new();
    let info = offline(|r| formatter.formatter_info(r));
    assert!(info.contains("php-cs-fixer"));
}

#[test]
fn php_test_default_config_generation() {
    let formatter = PhpFormatter::new();
    let config = formatter.default_config().unwrap();
    assert!(config.contains("PhpCsFixer\\Config"));
    assert!(config.contains("@PSR12"));
    assert!(config.contains("array_syntax"));
}

#[test]
fn test_php_cs_fixer_args() {
    let formatter = PhpFormatter::new();
    let args = formatter.get_php_cs_fixer_args();
    assert!(args.contains(&"fix".to_string()));
    assert!(args.contains(&"--rules=@PER-CS3.0".to_string()));
    assert!(args.contains(&"--using-cache=no".to_string()));
    assert!(args.contains(&"--diff".to_string()));
    assert!(args.contains(&"--allow-risky=yes".to_string()));
    assert!(args.contains(&"-".to_string()));
    assert_eq!(args.len(), 6); // Updated for 2025 standards with more args
}

#[test]
fn test_simple_php_formatting() {
    let formatter = PhpFormatter::new();

    // Skip if php-cs-fixer is not available
    if !offline(|r| formatter.is_available(r)) {
        println!("Skipping php-cs-fixer integration test - php-cs-fixer not available");
        return;
    }

    let unformatted_code = "<?php function hello(){echo 'Hello, World!';}";
    let result = run_format(|r| formatter.format_code(unformatted_code, r));

    match result {
        Ok(format_result) => {
            // php-cs-fixer should format this code
            assert!(format_result.changed || format_result.messages.is_empty());

            // Formatted code should be valid PHP
            assert!(format_result.formatted.contains("<?php"));
            assert!(format_result.formatted.contains("function hello"));
        }
        Err(e) => {
            println!("php-cs-fixer formatting failed: {:?}", e);
            // This is acceptable if php-cs-fixer has issues with the test environment
        }
    }
}

#[test]
fn test_complex_php_formatting() {
    let formatter = PhpFormatter::new();

    if !offline(|r| formatter.is_available(r)) {
        println!("Skipping php-cs-fixer integration test - php-cs-fixer not available");
        return;
    }

    let complex_code = r#"
<?php
namespace App\Services;
use Illuminate\Support\Collection;
use App\Models\User;
class UserService{
private $users;
public function __construct(){$this->users=collect();}
public function addUser(string $name,int $age):User{
$user=new User();$user->name=$name;$user->age=$age;
$this->users->push($user);return $user;}
public function getAdultUsers():Collection{
return $this->users->filter(function($user){return $user->age>=18;});
}
}
"#
    .trim();

    let result = run_format(|r| formatter.format_code(complex_code, r));

    match result {
        Ok(format_result) => {
            if format_result.changed {
                // Check that formatting improved the code structure
                assert!(format_result.formatted.contains("namespace App\\Services"));
                assert!(format_result.formatted.contains("class UserService"));
                assert!(format_result.formatted.contains("public function"));
            }
        }
        Err(e) => {
            println!("php-cs-fixer formatting of complex code failed: {:?}", e);
        }
    }
}

#[test]
fn test_php_arrays_and_functions() {
    let formatter = PhpFormatter::new();

    if !offline(|r| formatter.is_available(r)) {
        println!("Skipping php-cs-fixer integration test - php-cs-fixer not available");
        return;
    }

    let array_code = "<?php $users=array('john','jane','bob');$ages=[25,30,35];array_map(function($user,$age){return['name'=>$user,'age'=>$age];},array_combine($users,$ages));";
    let result = run_format(|r| formatter.format_code(array_code, r));

    match result {
        Ok(format_result) => {
            if format_result.changed {
                // Check that PHP array syntax is handled correctly
                assert!(format_result.formatted.contains("<?php"));
                assert!(format_result.formatted.contains("array_map"));
                assert!(format_result.formatted.contains("function"));
            }
        }
        Err(e) => {
            println!("php-cs-fixer formatting of arrays failed: {:?}", e);
        }
    }
}

#[test]
fn test_php_classes_and_oop() {
    let formatter = PhpFormatter::new();

    if !offline(|r| formatter.is_available(r)) {
        println!("Skipping php-cs-fixer integration test - php-cs-fixer not available");
        return;
    }

    let oop_code = "<?php class Animal{protected $name;public function __construct($name){$this->name=$name;}abstract public function makeSound();}class Dog extends Animal{public function makeSound(){return 'Woof!';}}";
    let result = run_format(|r| formatter.format_code(oop_code, r));

    match result {
        Ok(format_result) => {
            if format_result.changed {
                // Check that OOP features are preserved
                assert!(format_result.formatted.contains("class Animal"));
                assert!(format_result.formatted.contains("extends Animal"));
                assert!(format_result.formatted.contains("protected"));
                assert!(format_result.formatted.contains("abstract"));
            }
        }
        Err(e) => {
            println!("php-cs-fixer formatting of OOP code failed: {:?}", e);
        }
    }
}

#[test]
fn php_test_syntax_error_handling() {
    let formatter = PhpFormatter::new();

    if !offline(|r| formatter.is_available(r)) {
        println!("Skipping php-cs-fixer integration test - php-cs-fixer not available");
        return;
    }

    let invalid_code = "<?php function broken( {echo 'missing brace';"; // Missing closing brace and parenthesis
    let result = run_format(|r| formatter.format_code(invalid_code, r));

    match result {
        Ok(format_result) => {
            // Should return original code with error message
            assert!(!format_result.changed);
            assert_eq!(format_result.formatted, invalid_code);
            assert!(!format_result.messages.is_empty());
        }
        Err(_) => {
            // This is also acceptable - formatter detected the error
        }
    }
}

#[test]
fn test_php_modern_features() {
    let formatter = PhpFormatter::new();

    if !offline(|r| formatter.is_available(r)) {
        println!("Skipping php-cs-fixer integration test - php-cs-fixer not available");
        return;
    }

    let modern_code = "<?php function process(array $items):array{return array_filter($items,fn($item)=>$item!==null);}$result=process([1,null,2,null,3]);match($result){[]=>throw new Exception('Empty'),[_]=>$result};";
    let result = run_format(|r| formatter.format_code(modern_code, r));

    match result {
        Ok(format_result) => {
            if format_result.changed {
                // Check that modern PHP features are preserved
                assert!(format_result.formatted.contains("fn("));
                assert!(format_result.formatted.contains("match("));
                assert!(format_result.formatted.contains("array"));
            }
        }
        Err(e) => {
            println!("php-cs-fixer formatting of modern PHP failed: {:?}", e);
        }
    }
}
