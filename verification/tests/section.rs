use lib::lexer::Lexer;
use lib::{FieldKey, Indent, Line, LineEnding, Section};

fn parse(data: &str) -> (Vec<Line>, Vec<Section>) {
    let lines = Line::parse_lines(Lexer::new(data).tokenize().unwrap()).unwrap();
    Section::parse_sections(lines).unwrap()
}

fn section_from(data: &str) -> Section {
    let (_, mut sections) = parse(data);
    sections.remove(0)
}

#[test]
fn preamble_collects_lines_before_first_section() {
    let (preamble, sections) = parse("# c\nAddKeysToAgent yes\n\nHost a\n\tUser x\n");
    assert_eq!(preamble.len(), 3);
    assert_eq!(sections.len(), 1);
    assert_eq!(sections[0].header().value(), "a");
    assert_eq!(sections[0].line_count(), 1);
}

#[test]
fn match_starts_a_new_section() {
    let (_, sections) = parse("Host a\n\tUser x\nMatch user foo\n\tPort 22\n");
    assert_eq!(sections.len(), 2);
    assert_eq!(sections[1].header().key(), "Match");
    assert_eq!(sections[1].line_count(), 1);
}

#[test]
fn trailing_trivia_belongs_to_previous_section() {
    let data = "Host a\n\tUser x\n# note\n\n";
    let (preamble, sections) = parse(data);
    assert!(preamble.is_empty());
    assert_eq!(sections.len(), 1);
    let out: String = sections.iter().map(|s| s.to_string()).collect();
    assert_eq!(out, data);
}

#[test]
fn push_line_terminates_unterminated_header() {
    let mut s = section_from("Host a");
    let line = Line::directive(FieldKey::User, "x")
        .unwrap()
        .with_indent(Indent::default().as_str())
        .unwrap();
    s.push(line).unwrap();

    let ending = LineEnding::default().as_str();
    assert_eq!(s.to_string(), format!("Host a{ending}\tUser x{ending}",));
}

#[test]
fn push_line_terminates_unterminated_last_body_line() {
    let mut s = section_from("Host a\n\tUser x");
    let line = Line::directive(FieldKey::Hostname, "1.2.3.4")
        .unwrap()
        .with_indent(Indent::default().as_str())
        .unwrap();
    s.push(line).unwrap();
    assert_eq!(s.to_string(), "Host a\n\tUser x\n\tHostname 1.2.3.4\n");
}
