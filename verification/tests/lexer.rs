use lib::lexer::{Lexer, Position, TokenKind};
use lib::{Error, ParseErrorKind};

#[test]
fn lexer_parse_single_comment() {
    let data = "# this is a comment";
    let lexer = Lexer::new(data);
    let tokens = lexer.tokenize().unwrap();
    assert_eq!(tokens.len(), 1);
    assert_eq!(tokens[0].kind, TokenKind::Comment);
    assert_eq!(tokens[0].data, data);
}

#[test]
fn lexer_parse_whitespace() {
    let data = "      ";
    let lexer = Lexer::new(data);
    let tokens = lexer.tokenize().unwrap();
    assert_eq!(tokens.len(), 1);
    assert_eq!(tokens[0].kind, TokenKind::WhiteSpace);
    assert_eq!(tokens[0].data, data);
}

#[test]
fn lexer_parse_line_ending_lf() {
    let data = "\n";
    let lexer = Lexer::new(data);
    let tokens = lexer.tokenize().unwrap();
    assert_eq!(tokens.len(), 1);
    assert_eq!(tokens[0].kind, TokenKind::LineEnding);
    assert_eq!(tokens[0].data, data);
}

#[test]
fn lexer_parse_line_ending_crlf() {
    let data = "\r\n";
    let lexer = Lexer::new(data);
    let tokens = lexer.tokenize().unwrap();
    assert_eq!(tokens.len(), 1);
    assert_eq!(tokens[0].kind, TokenKind::LineEnding);
    assert_eq!(tokens[0].data, data);
}

#[test]
fn lexer_parse_line_ending_crlflf() {
    let data = "\r\n\n";
    let lexer = Lexer::new(data);
    let tokens = lexer.tokenize().unwrap();
    assert_eq!(tokens.len(), 2);
    assert_eq!(tokens[0].kind, TokenKind::LineEnding);
    assert_eq!(tokens[0].data, "\r\n");
    assert_eq!(tokens[1].kind, TokenKind::LineEnding);
    assert_eq!(tokens[1].data, "\n");
}

#[test]
fn lexer_err_on_line_ending_cr() {
    let data = "\r";
    let lexer = Lexer::new(data);
    let err = lexer.tokenize();
    assert!(err.is_err());
}

#[test]
fn parse_key() {
    let key = "Host";
    let sep = " ";
    let value = "my.host";
    let data = format!("{key}{sep}{value}");

    let lexer = Lexer::new(&data);
    let tokens = lexer.tokenize().unwrap();

    assert_eq!(tokens.len(), 3);
    assert_eq!(tokens[0].kind, TokenKind::FieldKey);
    assert_eq!(tokens[0].data, key);
}

fn check_field(key: &str, sep: &str, value: &str) {
    let data = format!("{key}{sep}{value}");

    let lexer = Lexer::new(&data);
    let tokens = lexer.tokenize().unwrap();

    assert_eq!(tokens.len(), 3);
    assert_eq!(tokens[0].kind, TokenKind::FieldKey);
    assert_eq!(tokens[0].data, key);
    assert_eq!(tokens[1].kind, TokenKind::FieldSeparator);
    assert_eq!(tokens[1].data, sep);
    assert_eq!(tokens[2].kind, TokenKind::FieldValue);
    assert_eq!(tokens[2].data, value);
}

#[test]
fn lexer_parse_key_single_whitespace_value() {
    check_field("Host", " ", "my.host");
}

#[test]
fn lexer_parse_key_multiple_whitespace_value() {
    check_field("Host", "   ", "my.host");
}

#[test]
fn lexer_parse_key_equal_value() {
    check_field("Host", "=", "my.host");
}

#[test]
fn lexer_parse_key_sep_quoted_value() {
    check_field("Host", "=", "\"my.host\"");
}

#[test]
fn lexer_err_on_unclosed_double_quote() {
    let key = "Host";
    let sep = "=";
    let value = "\"test";
    let data = format!("{key}{sep}{value}");

    let lexer = Lexer::new(&data);
    let err = lexer.tokenize();
    assert!(err.is_err());
}

#[test]
fn lexer_parse_key_equal_whitespace_value() {
    check_field("Host", "=  ", "my.host");
}

#[test]
fn lexer_parse_key_whitespace_equal_value() {
    check_field("Host", "  =", "my.host");
}

#[test]
fn lexer_parse_key_equal_whitespace_equal_value() {
    check_field("Host", "  =  ", "my.host");
}

#[test]
fn lexer_err_on_key_two_equal_value() {
    let key = "Host";
    let sep = "==";
    let value = "my.host";
    let data = format!("{key}{sep}{value}");

    let lexer = Lexer::new(&data);
    let err = lexer.tokenize();
    assert!(err.is_err());
}

#[test]
fn whitespace_stops_at_newline() {
    let tokens = Lexer::new("  \nHost x").tokenize().unwrap();
    assert_eq!(tokens[0].data, "  ");
    assert_eq!(tokens[1].kind, TokenKind::LineEnding);
}

#[test]
fn token_positions_point_at_token_start() {
    let tokens = Lexer::new("Host a\nUser b").tokenize().unwrap();

    let positions: Vec<(usize, usize)> = tokens
        .iter()
        .map(|t| {
            let p = t.pos.expect("lexed tokens carry a position");
            (p.line, p.col)
        })
        .collect();

    assert_eq!(
        positions,
        vec![(1, 1), (1, 5), (1, 6), (1, 7), (2, 1), (2, 5), (2, 6)]
    );
}

#[test]
fn crlf_does_not_shift_the_next_line() {
    let tokens = Lexer::new("Host a\r\nUser b").tokenize().unwrap();
    let key = &tokens[4];
    assert_eq!(key.kind, TokenKind::FieldKey);
    assert_eq!(key.data, "User");
    assert_eq!(key.pos, Some(Position { line: 2, col: 1 }));
}

#[test]
fn error_points_at_the_offending_char() {
    let err = Lexer::new("Host a\nPort==22\n").tokenize().unwrap_err();
    assert_eq!(
        err,
        Error::Parse {
            line: 2,
            col: 6,
            kind: ParseErrorKind::SeparatorHasMoreThanOneEqual,
        }
    );
}
