use rust_validation_hooks::formatting::formatters::c::CFormatter;
use rust_validation_hooks::formatting::formatters::csharp::CSharpFormatter;
use rust_validation_hooks::formatting::formatters::rust::RustFormatter;
use rust_validation_hooks::formatting::{FormatResult, ProcessOutcome, Step, ToolReply, ToolRequest};

fn ran(success: bool, stdout: &str, stderr: &str) -> ToolReply {
    ToolReply::Ran(ProcessOutcome::Exited {
        success,
        stdout: stdout.as_bytes().to_vec(),
        stderr: stderr.to_string(),
        elapsed_ms: 5,
        elapsed_text: "5ms".to_string(),
    })
}

fn done(step: Step<FormatResult>) -> FormatResult {
    match step {
        Step::Done(r) => r,
        Step::Ask(q) => panic!("unexpected request {:?}", q),
    }
}

#[test]
fn missing_tool_leaves_code_with_a_remark() {
    let f = CFormatter::new();
    let r = done(f.format_code("int x;", &[ToolReply::Located(false)]));
    assert!(!r.changed);
    assert_eq!(r.formatted, "int x;");
    assert_eq!(r.messages, vec!["clang-format formatter not available - skipping C formatting".to_string()]);
}

#[test]
fn formatting_asks_for_the_tool_then_the_run() {
    let f = CFormatter::new();
    assert!(matches!(f.format_code("int x;", &[]), Step::Ask(ToolRequest::Locate(ref c)) if c == "clang-format"));
    match f.format_code("int x;", &[ToolReply::Located(true)]) {
        Step::Ask(ToolRequest::Run { command, args, input }) => {
            assert_eq!(command, "clang-format");
            assert_eq!(args, f.get_clang_format_args());
            assert_eq!(input, Some("int x;".to_string()));
        }
        _ => panic!("the run must be asked for"),
    }
}

#[test]
fn tool_output_is_the_new_code() {
    let f = CFormatter::new();
    let r = done(f.format_code("int  x;", &[ToolReply::Located(true), ran(true, "int x;\n", "")]));
    assert!(r.changed);
    assert_eq!(r.original, "int  x;");
    assert_eq!(r.formatted, "int x;\n");
    assert!(r.messages.is_empty());
    let same = done(f.format_code("int x;\n", &[ToolReply::Located(true), ran(true, "int x;\n", "")]));
    assert!(!same.changed);
}

#[test]
fn tool_failure_keeps_the_code_and_the_reason() {
    let f = CFormatter::new();
    let r = done(f.format_code("int main( {", &[ToolReply::Located(true), ran(false, "", "syntax error")]));
    assert!(!r.changed);
    assert_eq!(r.formatted, "int main( {");
    assert_eq!(r.messages, vec!["clang-format failed: Formatter failed: syntax error".to_string()]);
}

#[test]
fn rust_edition_comes_from_the_project_files() {
    let f = RustFormatter::new();
    let cargo = Some("[package]\nname = \"x\"\nedition = \"2018\"\n".to_string());
    assert_eq!(f.get_rustfmt_args(&[cargo.clone(), None, None]), vec!["--edition", "2018", "--"]);
    assert_eq!(f.get_rustfmt_args(&[None, Some("edition = '2024'".to_string())]), vec!["--edition", "2024", "--"]);
    assert_eq!(f.get_rustfmt_args(&[Some("edition = \"1999\"".to_string())]), vec!["--edition", "2021", "--"]);
    assert_eq!(f.extract_edition_from_toml("  edition=\"2015\"  "), Some("2015".to_string()));
    assert_eq!(f.extract_edition_from_toml("# edition = \"2018\""), None);
}

#[test]
fn csharpier_needs_dotnet_and_the_tool() {
    let f = CSharpFormatter::new();
    assert!(matches!(f.is_available(&[ToolReply::Located(false)]), Step::Done(false)));
    match f.is_available(&[ToolReply::Located(true)]) {
        Step::Ask(ToolRequest::Run { command, args, .. }) => {
            assert_eq!(command, "dotnet");
            assert_eq!(args, vec!["tool", "list", "-g"]);
        }
        _ => panic!("the tool list must be asked for"),
    }
    let listed = ran(true, "Package Id   Version\ncsharpier    0.30.0\n", "");
    assert!(matches!(f.is_available(&[ToolReply::Located(true), listed.clone()]), Step::Done(true)));
    let r = done(f.format_code("class A{}", &[ToolReply::Located(true), listed, ran(true, "class A { }\n", "")]));
    assert_eq!(r.formatted, "class A { }\n");
    let info = f.formatter_info(&[ran(true, " 0.30.0 \n", "")]);
    assert!(matches!(info, Step::Done(ref s) if s == "CSharpier 0.30.0"));
}
