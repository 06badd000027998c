use rust_validation_hooks::formatting::formatters::cpp::CppFormatter;
use rust_validation_hooks::formatting::{
    FormatResult, FormatterError, ProcessOutcome, Step, SupportedLanguage, ToolReply, ToolRequest,
};

/// Answers requests as a machine on which no formatting tool is installed.
fn offline<T>(step: impl Fn(&[ToolReply]) -> Step<T>) -> T {
    let mut replies: Vec<ToolReply> = Vec::new();
    loop {
        match step(&replies) {
            Step::Done(v) => return v,
            Step::Ask(ToolRequest::Locate(_)) => replies.push(ToolReply::Located(false)),
            Step::Ask(ToolRequest::Run { .. }) => replies.push(ToolReply::Ran(ProcessOutcome::SpawnFailed(
                "No such file or directory (os error 2)".to_string(),
            ))),
        }
    }
}

/// A formatting job run on a machine without tools.
fn run_format(step: impl Fn(&[ToolReply]) -> Step<FormatResult>) -> Result<FormatResult, FormatterError> {
    Ok(offline(step))
}

#[test]
fn test_cpp_formatter_creation() {
    let formatter = CppFormatter::new();
    assert_eq!(formatter.language(), SupportedLanguage::Cpp);
}

#[test]
fn cpp_test_empty_code_handling() {
    let formatter = CppFormatter::new();
    let result = run_format(|r| formatter.format_code("", r)).unwrap();
    assert!(!result.changed);
    assert_eq!(result.formatted, "");
}

#[test]
fn cpp_test_whitespace_only_code() {
    let formatter = CppFormatter::new();
    let result = run_format(|r| formatter.format_code("   \n\t  \n", r)).unwrap();
    assert!(!result.changed);
}

#[test]
fn cpp_test_formatter_info() {
    let formatter = CppFormatter::new();
    let info = offline(|r| formatter.formatter_info(r));
    assert!(info.contains("clang-format"));
}

#[test]
fn cpp_test_default_config_generation() {
    let formatter = CppFormatter::new();
    let config = formatter.default_config().unwrap();
    assert!(config.contains("BasedOnStyle"));
    assert!(config.contains("Google"));
    assert!(config.contains("Cpp"));
    assert!(config.contains("c++17"));
}

#[test]
fn cpp_test_clang_format_args() {
    let formatter = CppFormatter::new();
    let args = formatter.get_clang_format_args();
    assert!(args.contains(&"--assume-filename".to_string()));
    assert!(args.contains(&"stdin.cpp".to_string()));
    assert!(args.contains(&"--style".to_string()));
    assert!(args.contains(&"Google".to_string()));
    assert!(args.contains(&"--fallback-style".to_string()));
    assert!(args.contains(&"LLVM".to_string()));
    assert!(args.contains(&"--ferror-limit".to_string()));
    assert_eq!(args.len(), 8); // Updated for 2025 standards with more args
}

#[test]
fn test_simple_cpp_formatting() {
    let formatter = CppFormatter::new();

    // Skip if clang-format is not available
    if !offline(|r| formatter.is_available(r)) {
        println!("Skipping clang-format integration test - clang-format not available");
        return;
    }

    let unformatted_code =
        "#include <iostream>\nint main(){std::cout<<\"Hello, World!\"<<std::endl;return 0;}";
    let result = run_format(|r| formatter.format_code(unformatted_code, r));

    match result {
        Ok(format_result) => {
            // clang-format should format this code
            assert!(format_result.changed || format_result.messages.is_empty());

            // Formatted code should be valid C++
            assert!(format_result.formatted.contains("#include <iostream>"));
            assert!(format_result.formatted.contains("int main"));
        }
        Err(e) => {
            println!("clang-format formatting failed: {:?}", e);
            // This is acceptable if clang-format has issues with the
            // test environment
        }
    }
}

#[test]
fn test_complex_cpp_formatting() {
    let formatter = CppFormatter::new();

    if !offline(|r| formatter.is_available(r)) {
        println!("Skipping clang-format integration test - clang-format not available");
        return;
    }

    let complex_code = r#"
#include <iostream>
#include <vector>
#include <algorithm>
#include <memory>
class Person{
private:std::string name_;int age_;
public:Person(std::string name,int age):name_(std::move(name)),age_(age){}
const std::string&getName()const{return name_;}
int getAge()const{return age_;}
};
class PersonManager{
private:std::vector<std::unique_ptr<Person>>people_;
public:void addPerson(std::unique_ptr<Person>person){people_.push_back(std::move(person));}
std::vector<Person*>getAdults()const{
std::vector<Person*>adults;
std::copy_if(people_.begin(),people_.end(),std::back_inserter(adults),
[](const auto&p){return p->getAge()>=18;});
return adults;}
};
"#
    .trim();

    let result = run_format(|r| formatter.format_code(complex_code, r));

    match result {
        Ok(format_result) => {
            if format_result.changed {
                // Check that formatting improved the code structure
                assert!(format_result.formatted.contains("class Person"));
                assert!(format_result.formatted.contains("class PersonManager"));
                assert!(format_result.formatted.contains("std::unique_ptr"));
            }
        }
        Err(e) => {
            println!("clang-format formatting of complex code failed: {:?}", e);
        }
    }
}

#[test]
fn test_cpp_templates_and_stl() {
    let formatter = CppFormatter::new();

    if !offline(|r| formatter.is_available(r)) {
        println!("Skipping clang-format integration test - clang-format not available");
        return;
    }

    let template_code = "template<typename T,typename U>auto add(T t,U u)->decltype(t+u){return t+u;}template<>int add<int,int>(int a,int b){return a+b;}std::vector<int>nums{1,2,3,4,5};auto result=std::accumulate(nums.begin(),nums.end(),0);";
    let result = run_format(|r| formatter.format_code(template_code, r));

    match result {
        Ok(format_result) => {
            if format_result.changed {
                // Check that C++ template syntax is handled correctly
                assert!(format_result.formatted.contains("template<"));
                assert!(format_result.formatted.contains("decltype"));
                assert!(format_result.formatted.contains("std::vector"));
            }
        }
        Err(e) => {
            println!("clang-format formatting of templates failed: {:?}", e);
        }
    }
}

#[test]
fn test_modern_cpp_features() {
    let formatter = CppFormatter::new();

    if !offline(|r| formatter.is_available(r)) {
        println!("Skipping clang-format integration test - clang-format not available");
        return;
    }

    let modern_code = "auto lambda=[](const auto&x){return x*2;};std::vector<int>v{1,2,3,4,5};std::transform(v.begin(),v.end(),v.begin(),lambda);for(const auto&item:v){std::cout<<item<<\" \";}";
    let result = run_format(|r| formatter.format_code(modern_code, r));

    match result {
        Ok(format_result) => {
            if format_result.changed {
                // Check that modern C++ features are preserved
                assert!(format_result.formatted.contains("auto lambda"));
                assert!(format_result.formatted.contains("const auto&"));
                assert!(format_result.formatted.contains("for ("));
            }
        }
        Err(e) => {
            println!("clang-format formatting of modern C++ failed: {:?}", e);
        }
    }
}

#[test]
fn test_namespace_formatting() {
    let formatter = CppFormatter::new();

    if !offline(|r| formatter.is_available(r)) {
        println!("Skipping clang-format integration test - clang-format not available");
        return;
    }

    let namespace_code = "namespace utils{namespace string{std::string trim(const std::string&s){auto start=s.find_first_not_of(\" \\t\");if(start==std::string::npos)return\"\";auto end=s.find_last_not_of(\" \\t\");return s.substr(start,end-start+1);}}}using namespace utils::string;";
    let result = run_format(|r| formatter.format_code(namespace_code, r));

    match result {
        Ok(format_result) => {
            if format_result.changed {
                // Check that namespace formatting is handled
                assert!(format_result.formatted.contains("namespace utils"));
                assert!(format_result.formatted.contains("namespace string"));
                assert!(format_result.formatted.contains("using namespace"));
            }
        }
        Err(e) => {
            println!("clang-format formatting of namespaces failed: {:?}", e);
        }
    }
}

#[test]
fn cpp_test_syntax_error_handling() {
    let formatter = CppFormatter::new();

    if !offline(|r| formatter.is_available(r)) {
        println!("Skipping clang-format integration test - clang-format not available");
        return;
    }

    let invalid_code =
        "#include <iostream>\nint main( {\nstd::cout<<\"missing brace\"<<std::endl;\nreturn 0;"; // Missing closing brace and parenthesis
    let result = run_format(|r| formatter.format_code(invalid_code, r));

    match result {
        Ok(format_result) => {
            // Should return original code with error message
            assert!(!format_result.changed);
            assert_eq!(format_result.formatted, invalid_code);
            assert!(!format_result.messages.is_empty());
        }
        Err(_) => {
            // This is also acceptable - formatter detected the error
        }
    }
}
