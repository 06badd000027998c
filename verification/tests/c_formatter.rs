use rust_validation_hooks::formatting::formatters::c::CFormatter;
use rust_validation_hooks::formatting::{
    FormatResult, FormatterError, ProcessOutcome, Step, SupportedLanguage, ToolReply, ToolRequest,
};

/// Answers requests as a machine on which no formatting tool is installed.
fn offline<T>(step: impl Fn(&[ToolReply]) -> Step<T>) -> T {
    let mut replies: Vec<ToolReply> = Vec::new();
    loop {
        match step(&replies) {
            Step::Done(v) => return v,
            Step::Ask(ToolRequest::Locate(_)) => replies.push(ToolReply::Located(false)),
            Step::Ask(ToolRequest::Run { .. }) => replies.push(ToolReply::Ran(ProcessOutcome::SpawnFailed(
                "No such file or directory (os error 2)".to_string(),
            ))),
        }
    }
}

/// A formatting job run on a machine without tools.
fn run_format(step: impl Fn(&[ToolReply]) -> Step<FormatResult>) -> Result<FormatResult, FormatterError> {
    Ok(offline(step))
}

#[test]
fn test_c_formatter_creation() {
    let formatter = CFormatter::new();
    assert_eq!(formatter.language(), SupportedLanguage::C);
}

#[test]
fn c_test_empty_code_handling() {
    let formatter = CFormatter::new();
    let result = run_format(|r| formatter.format_code("", r)).unwrap();
    assert!(!result.changed);
    assert_eq!(result.formatted, "");
}

#[test]
fn c_test_whitespace_only_code() {
    let formatter = CFormatter::new();
    let result = run_format(|r| formatter.format_code("   \n\t  \n", r)).unwrap();
    assert!(!result.changed);
}

#[test]
fn c_test_formatter_info() {
    let formatter = CFormatter::new();
    let info = offline(|r| formatter.formatter_info(r));
    assert!(info.contains("clang-format"));
}

#[test]
fn c_test_default_config_generation() {
    let formatter = CFormatter::new();
    let config = formatter.default_config().unwrap();
    assert!(config.contains("BasedOnStyle"));
    assert!(config.contains("GNU"));
    assert!(config.contains("IndentWidth"));
}

#[test]
fn c_test_clang_format_args() {
    let formatter = CFormatter::new();
    let args = formatter.get_clang_format_args();
    assert!(args.contains(&"--assume-filename".to_string()));
    assert!(args.contains(&"stdin.c".to_string()));
    assert!(args.contains(&"--style".to_string()));
    assert!(args.contains(&"LLVM".to_string()));
    assert!(args.contains(&"--fallback-style".to_string()));
    assert!(args.contains(&"GNU".to_string()));
    assert!(args.contains(&"--ferror-limit".to_string()));
    assert_eq!(args.len(), 8); // Updated for 2025 standards with more args
}

#[test]
fn test_simple_c_formatting() {
    let formatter = CFormatter::new();

    // Skip if clang-format is not available
    if !offline(|r| formatter.is_available(r)) {
        println!("Skipping clang-format integration test - clang-format not available");
        return;
    }

    let unformatted_code =
        "#include <stdio.h>\nint main(){printf(\"Hello, World!\");return 0;}";
    let result = run_format(|r| formatter.format_code(unformatted_code, r));

    match result {
        Ok(format_result) => {
            // clang-format should format this code
            assert!(format_result.changed || format_result.messages.is_empty());

            // Formatted code should be valid C
            assert!(format_result.formatted.contains("#include <stdio.h>"));
            assert!(format_result.formatted.contains("int main"));
        }
        Err(e) => {
            println!("clang-format formatting failed: {:?}", e);
            // This is acceptable if clang-format has issues with the test environment
        }
    }
}

#[test]
fn test_complex_c_formatting() {
    let formatter = CFormatter::new();

    if !offline(|r| formatter.is_available(r)) {
        println!("Skipping clang-format integration test - clang-format not available");
        return;
    }

    let complex_code = r#"
#include <stdio.h>
#include <stdlib.h>
#include <string.h>
typedef struct{char*name;int age;float salary;}Employee;
Employee*create_employee(char*name,int age,float salary){
Employee*emp=malloc(sizeof(Employee));
if(emp){emp->name=strdup(name);emp->age=age;emp->salary=salary;}
return emp;}
void print_employee(Employee*emp){
if(emp)printf("Name: %s, Age: %d, Salary: %.2f\n",emp->name,emp->age,emp->salary);
}
int main(){Employee*emp=create_employee("John Doe",30,50000.0);print_employee(emp);free(emp->name);free(emp);return 0;}
"#.trim();

    let result = run_format(|r| formatter.format_code(complex_code, r));

    match result {
        Ok(format_result) => {
            if format_result.changed {
                // Check that formatting improved the code structure
                assert!(format_result.formatted.contains("typedef struct"));
                assert!(format_result
                    .formatted
                    .contains("Employee *create_employee"));
                assert!(format_result.formatted.contains("int main"));
            }
        }
        Err(e) => {
            println!("clang-format formatting of complex code failed: {:?}", e);
        }
    }
}

#[test]
fn test_c_pointers_and_arrays() {
    let formatter = CFormatter::new();

    if !offline(|r| formatter.is_available(r)) {
        println!("Skipping clang-format integration test - clang-format not available");
        return;
    }

    let pointer_code = "int*ptr;int arr[10];void func(int*p,int n){for(int i=0;i<n;i++){ptr[i]=arr[i]*2;}}";
    let result = run_format(|r| formatter.format_code(pointer_code, r));

    match result {
        Ok(format_result) => {
            if format_result.changed {
                // Check that C pointer syntax is handled correctly
                assert!(format_result.formatted.contains("int *"));
                assert!(format_result.formatted.contains("arr["));
                assert!(format_result.formatted.contains("for ("));
            }
        }
        Err(e) => {
            println!("clang-format formatting of pointers failed: {:?}", e);
        }
    }
}

#[test]
fn test_c_macros_and_preprocessor() {
    let formatter = CFormatter::new();

    if !offline(|r| formatter.is_available(r)) {
        println!("Skipping clang-format integration test - clang-format not available");
        return;
    }

    let macro_code = "#define MAX_SIZE 100\n#define MIN(a,b) ((a)<(b)?(a):(b))\n#ifdef DEBUG\n#define DBG_PRINT(x) printf x\n#else\n#define DBG_PRINT(x)\n#endif\nint main(){int size=MIN(50,MAX_SIZE);DBG_PRINT((\"Size: %d\\n\",size));return 0;}";
    let result = run_format(|r| formatter.format_code(macro_code, r));

    match result {
        Ok(format_result) => {
            if format_result.changed {
                // Check that preprocessor directives are handled
                assert!(format_result.formatted.contains("#define"));
                assert!(format_result.formatted.contains("#ifdef"));
                assert!(format_result.formatted.contains("#else"));
            }
        }
        Err(e) => {
            println!("clang-format formatting of macros failed: {:?}", e);
        }
    }
}

#[test]
fn c_test_syntax_error_handling() {
    let formatter = CFormatter::new();

    if !offline(|r| formatter.is_available(r)) {
        println!("Skipping clang-format integration test - clang-format not available");
        return;
    }

    let invalid_code =
        "#include <stdio.h>\nint main( {\nprintf(\"missing brace\";\nreturn 0;"; // Missing closing brace and parenthesis
    let result = run_format(|r| formatter.format_code(invalid_code, r));

    match result {
        Ok(format_result) => {
            // Should return original code with error message
            assert!(!format_result.changed);
            assert_eq!(format_result.formatted, invalid_code);
            assert!(!format_result.messages.is_empty());
        }
        Err(_) => {
            // This is also acceptable - formatter detected the error
        }
    }
}

#[test]
fn test_function_declarations() {
    let formatter = CFormatter::new();

    if !offline(|r| formatter.is_available(r)) {
        println!("Skipping clang-format integration test - clang-format not available");
        return;
    }

    let func_code = "static inline int max(int a,int b);extern void process_data(const char*data,size_t len);int max(int a,int b){return a>b?a:b;}void process_data(const char*data,size_t len){for(size_t i=0;i<len;i++)putchar(data[i]);}";
    let result = run_format(|r| formatter.format_code(func_code, r));

    match result {
        Ok(format_result) => {
            if format_result.changed {
                // Check that function declarations are formatted properly
                assert!(format_result.formatted.contains("static inline"));
                assert!(format_result.formatted.contains("extern"));
                assert!(format_result.formatted.contains("const char *"));
            }
        }
        Err(e) => {
            println!(
                "clang-format formatting of function declarations failed: {:?}",
                e
            );
        }
    }
}
