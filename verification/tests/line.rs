use lib::lexer::Lexer;
use lib::{Directive, Line};

fn roundtrip(data: &str) -> String {
    let lines = Line::parse_lines(Lexer::new(data).tokenize().unwrap()).unwrap();
    lines.iter().map(|l| l.to_string()).collect()
}

#[test]
fn roundtrip_mixed_content() {
    let data = "# global\nAddKeysToAgent yes\n\nHost a\n\tHostName 1.2.3.4\n";
    assert_eq!(roundtrip(data), data);
}

#[test]
fn roundtrip_crlf() {
    let data = "Host a\r\n\tUser x\r\n";
    assert_eq!(roundtrip(data), data);
}

#[test]
fn roundtrip_no_trailing_newline() {
    let data = "Host a\n\tUser x";
    assert_eq!(roundtrip(data), data);
}

#[test]
fn roundtrip_equals_separator() {
    let data = "Host = a\n\tPort=22\n";
    assert_eq!(roundtrip(data), data);
}

#[test]
fn roundtrip_trailing_blank_lines() {
    let data = "Host a\n\tUser x\n\n   ";
    assert_eq!(roundtrip(data), data);
}

fn sample_directive() -> Directive {
    Directive::new("User", "x").unwrap()
}

fn sample_line() -> Line {
    Line::from_directive(sample_directive())
}

#[test]
fn with_ending_rejects_garbage() {
    assert!(sample_line().with_ending("\r").is_err());
    assert!(sample_line().with_ending(" \n").is_err());
}

#[test]
fn with_indent_rejects_newline() {
    assert!(sample_line().with_indent("\n").is_err());
}

#[test]
fn with_indent_accepts_blank_chars() {
    assert!(sample_line().with_indent("\t  ").is_ok());
}

#[test]
fn with_sep_accepts_valid_forms() {
    assert!(sample_directive().with_separator(" ").is_ok());
    assert!(sample_directive().with_separator("=").is_ok());
    assert_eq!(
        sample_directive()
            .with_separator(" = ")
            .unwrap()
            .separator(),
        " = "
    );
}

#[test]
fn with_sep_rejects_double_equal() {
    assert!(sample_directive().with_separator("==").is_err());
    assert!(sample_directive().with_separator("a==").is_err());
}

#[test]
fn with_sep_rejects_newline() {
    assert!(sample_directive().with_separator(" \n ").is_err());
}

#[test]
fn with_sep_rejects_empty() {
    assert!(sample_directive().with_separator("").is_err());
}
