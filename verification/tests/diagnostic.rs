use quoth::{Diagnostic, DiagnosticLevel, Source, Span};
use std::rc::Rc;

fn code_two_lines() -> &'static str {
    "fn main() {\n    let x = 42;\n    println!(\"{}\", x);\n}\n"
}

fn code_three_lines() -> &'static str {
    "fn compute(first: u32, second: u32) -> u32 {\n    let total = first * 2 + second * 3;\n    total + first + second + 1000\n}\n// end of the sample\n"
}

#[test]
fn test_diagnostic_display_single_line() {
    let diag = Diagnostic::new(
        DiagnosticLevel::Error,
        Span::new(Rc::new(Source::from_str("this is a triumph")), 5..7),
        "this is an error",
        Some("the thing"),
        Vec::new(),
    );
    println!("{}", diag.to_string());
    assert_eq!(
        diag.to_string(),
        "error: this is an error\n --> the thing:1:5\n  |\n1 | this is a triumph\n         ^^\n"
    );
}

#[test]
fn test_diagnostic_display_two_line() {
    let diag = Diagnostic::new(
        DiagnosticLevel::Warning,
        Span::new(Rc::new(Source::from_str(code_two_lines())), 20..36),
        "this is a warning",
        None,
        Vec::new(),
    );
    println!("{}", diag.to_string());
    assert_eq!(
        diag.to_string(),
        "warning: this is a warning\n --> input:2:8\n  |\n2 |     let x = 42;\n            ^^^^^^^\n3 |     println!(\"{}\", x);\n        ^^^^\n"
    );
}

#[test]
fn test_diagnostic_display_three_line() {
    let diag = Diagnostic::new(
        DiagnosticLevel::Warning,
        Span::new(Rc::new(Source::from_str(code_three_lines())), 38..106),
        "this is a warning",
        None,
        Vec::new(),
    );
    println!("{}", diag.to_string());
    assert_eq!(
        diag.to_string(),
        "warning: this is a warning\n --> input:1:38\n  |\n1 | fn compute(first: u32, second: u32) -> u32 {\n                                          ^^^^^^\n2 |     let total = first * 2 + second * 3;\n        ^^^^^^^^^^^^^^^^^^^^^^^^^^^^^^^^^^^\n3 |     total + first + second + 1000\n        ^^^^^^^^^^^^^^^^^\n"
    );
}

#[test]
fn test_diagnostic_display_with_children() {
    let source = Rc::new(Source::from_str(code_three_lines()));
    let mut children = Vec::new();
    children.push(Diagnostic::new(
        DiagnosticLevel::Warning,
        Span::new(source.clone(), 108..127),
        "this is a warning",
        None,
        Vec::new(),
    ));
    let diag = Diagnostic::new(
        DiagnosticLevel::Warning,
        Span::new(source.clone(), 38..106),
        "this is a warning",
        None,
        children,
    );
    println!("{}", diag.to_string());
    assert_eq!(
        diag.to_string(),
        "warning: this is a warning\n --> input:1:38\n  |\n1 | fn compute(first: u32, second: u32) -> u32 {\n                                          ^^^^^^\n2 |     let total = first * 2 + second * 3;\n        ^^^^^^^^^^^^^^^^^^^^^^^^^^^^^^^^^^^\n3 |     total + first + second + 1000\n        ^^^^^^^^^^^^^^^^^\nwarning: this is a warning\n --> input:3:23\n  |\n3 |     total + first + second + 1000\n                           ^^^^^^^^^^\n4 | }\n    ^\n5 | // end of the sample\n    ^^^^^^\n"
    );
}
