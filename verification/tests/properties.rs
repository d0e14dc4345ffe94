use lib::field::HostFields;
use lib::field_keys::KNOWN_KEYS;
use lib::tokenizer::{tokenize_str, TokenKind};
use lib::{
    Directive, Error, FieldKey, HostSettings, Indent, Line, LineEnding, ParseErrorKind, SSHConfig,
    Section, Selector,
};

fn values(s: &HostSettings, k: FieldKey) -> Vec<String> {
    s.get_all(&k).iter().map(|f| f.value.clone()).collect()
}

#[test]
fn read_back_after_set_on_existing_section() {
    let mut config = SSHConfig::parse(
        "# top\nHost a\n\tUser old\n\tIdentityFile k1\n\tPort 22\n\tIdentityFile k2\n\tUser dup\n",
    )
    .unwrap();
    let mut settings = HostSettings::new("a");
    settings.push_dedup(FieldKey::IdentityFile, "k1");
    settings.push_dedup(FieldKey::IdentityFile, "k3");
    settings.push_dedup(FieldKey::User, "new");
    settings.push_dedup(FieldKey::Hostname, "h");
    config.set_host_settings(&settings).unwrap();
    let back = config.exact_host_settings("a");
    assert_eq!(values(&back, FieldKey::IdentityFile), vec!["k1", "k3"]);
    assert_eq!(values(&back, FieldKey::User), vec!["new"]);
    assert_eq!(values(&back, FieldKey::Hostname), vec!["h"]);
    assert_eq!(values(&back, FieldKey::Port), Vec::<String>::new());
    assert_eq!(
        config.to_string(),
        "# top\nHost a\n\tUser new\n\tIdentityFile k1\n\tUser dup\n\tIdentityFile k3\n\tHostname h\n"
    );
}

#[test]
fn read_back_after_set_on_new_section() {
    let mut config = SSHConfig::parse("Host b\n\tUser bob\n").unwrap();
    let mut settings = HostSettings::new("a");
    settings.push_dedup(FieldKey::SendEnv, "LANG");
    settings.push_dedup(FieldKey::SendEnv, "LC_*");
    settings.push_dedup(FieldKey::Port, "2222");
    config.set_host_settings(&settings).unwrap();
    let back = config.exact_host_settings("a");
    assert_eq!(values(&back, FieldKey::SendEnv), vec!["LANG", "LC_*"]);
    assert_eq!(values(&back, FieldKey::Port), vec!["2222"]);
    assert_eq!(back.field_count(), 3);
}

#[test]
fn every_keyword_reads_back_as_itself() {
    for i in 0..KNOWN_KEYS {
        let k = FieldKey::from_ordinal(i);
        assert_eq!(FieldKey::parse(k.as_canonical_str()), k);
        assert_eq!(FieldKey::parse(&k.as_canonical_str().to_uppercase()), k);
    }
}

#[test]
fn parse_then_write_gives_back_the_text() {
    for data in [
        "",
        "\n\n",
        "   ",
        "# only a comment",
        "Host a\r\n\tUser x\r\n\n",
        "AddKeysToAgent yes\nHost *\n  IdentityFile ~/.ssh/id_ed25519\n  # c\n\n",
        "Host=a\nMatch all\n\tPort  =  22",
    ] {
        assert_eq!(SSHConfig::parse(data).unwrap().to_string(), data);
    }
}

#[test]
fn parse_errors_carry_line_and_column() {
    assert_eq!(
        SSHConfig::parse("Host a\n\tUser").err(),
        Some(Error::Parse { line: 2, col: 6, kind: ParseErrorKind::KeyBoundaryNotFound })
    );
    assert_eq!(
        SSHConfig::parse("Host a\rb").err(),
        Some(Error::Parse { line: 1, col: 8, kind: ParseErrorKind::UnterminatedCRLF })
    );
    assert_eq!(
        SSHConfig::parse("Host \"a").err().map(|e| match e {
            Error::Parse { kind, .. } => kind,
            _ => ParseErrorKind::InvalidParserUse,
        }),
        Some(ParseErrorKind::UnclosedDoubleQuote)
    );
}

#[test]
fn error_messages() {
    assert_eq!(Error::EmptyValue.to_string(), "empty value");
    assert_eq!(Error::EmptyKey.to_string(), "empty key");
    assert_eq!(
        Error::Parse { line: 2, col: 6, kind: ParseErrorKind::SeparatorHasMoreThanOneEqual }
            .to_string(),
        "separator has more than one '=' at ln:2 col:6"
    );
    assert_eq!(
        Error::InvalidIndent("\n".to_string()).to_string(),
        "invalid indent: \"\\n\""
    );
    assert_eq!(
        Error::NotCumulative("User".to_string()).to_string(),
        "FieldKey already exist and is not cumulative: \"User\""
    );
    assert_eq!(ParseErrorKind::UnterminatedCRLF.to_string(), "unterminated CRLF, expected LF");
}

#[test]
fn each_error_has_an_input_that_gives_it() {
    assert_eq!(Indent::new(" x").err(), Some(Error::InvalidIndent(" x".to_string())));
    assert_eq!(
        Directive::new("User", "x").unwrap().with_separator("==").err(),
        Some(Error::InvalidSeparator("==".to_string()))
    );
    assert_eq!(Line::comment("a\nb").err(), Some(Error::InvalidComment("a\nb".to_string())));
    assert_eq!(
        Line::blank().with_ending("\r").err(),
        Some(Error::InvalidLineEnding("\r".to_string()))
    );
    assert_eq!(
        Selector::new(FieldKey::User, "x").err(),
        Some(Error::NotASelector("User".to_string()))
    );
    let mut s = Section::new(Selector::new(FieldKey::Host, "a").unwrap());
    assert_eq!(
        s.push(Line::directive(FieldKey::Match, "all").unwrap()).err(),
        Some(Error::UnexpectedSelector("Match all".to_string()))
    );
    assert_eq!(s.line_count(), 0);
    let mut h = HostSettings::new("a");
    h.push(FieldKey::User, "x").unwrap();
    assert_eq!(h.push(FieldKey::User, "y").err(), Some(Error::NotCumulative("User".to_string())));
    assert_eq!(h.push(FieldKey::Host, "y").err(), Some(Error::UnexpectedSelector("Host".to_string())));
    assert_eq!(Directive::new("", "x").err(), Some(Error::EmptyKey));
    assert_eq!(Directive::new("User", "  ").err(), Some(Error::EmptyValue));
}

#[test]
fn host_settings_operations() {
    let mut h = HostSettings::new("a");
    assert!(h.is_empty());
    h.push(FieldKey::IdentityFile, "k1").unwrap();
    h.push(FieldKey::IdentityFile, "k2").unwrap();
    h.push(FieldKey::User, "u").unwrap();
    assert_eq!(h.field_count(), 3);
    assert_eq!(values(&h, FieldKey::IdentityFile), vec!["k1", "k2"]);
    h.push_dedup(FieldKey::User, "ignored");
    assert_eq!(h.get_one(&FieldKey::User).unwrap().value, "u");
    h.replace(FieldKey::IdentityFile, "k9").unwrap();
    assert_eq!(values(&h, FieldKey::IdentityFile), vec!["k9"]);
    assert!(h.remove_all(&FieldKey::User));
    assert!(!h.remove_all(&FieldKey::User));
    assert!(!h.contains_key(&FieldKey::User));
    *h.get_one_mut(&FieldKey::IdentityFile).unwrap() = "k0".to_string();
    assert_eq!(values(&h, FieldKey::IdentityFile), vec!["k0"]);
    assert_eq!(h.host(), "a");
}

#[test]
fn set_host_settings_failures() {
    let mut config = SSHConfig::parse("Host a\n\tUser x\n").unwrap();
    let mut settings = HostSettings::new("a");
    settings.push_dedup(FieldKey::IdentityFile, "k1");
    settings.push_dedup(FieldKey::User, " ");
    assert_eq!(config.set_host_settings(&settings).err(), Some(Error::EmptyValue));
    assert_eq!(config.to_string(), "Host a\n\tUser x\n\tIdentityFile k1\n");

    let mut config = SSHConfig::parse("Host a\n\tUser x\n").unwrap();
    let mut settings = HostSettings::new("a");
    settings.push_dedup(FieldKey::Match, "all");
    assert_eq!(
        config.set_host_settings(&settings).err(),
        Some(Error::UnexpectedSelector("Match all".to_string()))
    );

    let mut config = SSHConfig::parse("Host a\n").unwrap();
    let settings = HostSettings::new(" ");
    assert_eq!(config.set_host_settings(&settings).err(), Some(Error::EmptyValue));
    assert_eq!(config.to_string(), "Host a\n");
}

#[test]
fn sections_and_lines() {
    let mut config = SSHConfig::parse("Host dev\n    Port=22\n").unwrap();
    {
        let section = config.section_mut("dev").unwrap();
        section.get_one_mut(&FieldKey::Port).unwrap().set_value("2222").unwrap();
        section.push(Line::comment("tuned").unwrap()).unwrap();
    }
    assert_eq!(config.to_string(), "Host dev\n    Port=2222\n    # tuned\n");
    let mut prod = Section::new(Selector::new(FieldKey::Host, "prod").unwrap())
        .with_indent(Indent::new("    ").unwrap())
        .with_ending(LineEnding::Lf);
    prod.push(Line::directive(FieldKey::Hostname, "10.0.0.1").unwrap()).unwrap();
    prod.push(Line::blank()).unwrap();
    config.push_section(prod);
    assert_eq!(
        config.to_string(),
        "Host dev\n    Port=2222\n    # tuned\nHost prod\n    Hostname 10.0.0.1\n\n"
    );
    assert!(config.section("prod").is_some());
    let removed = config.remove_selector("dev").unwrap();
    assert_eq!(removed.header().value(), "dev");
    assert!(config.remove_selector("dev").is_none());
    assert_eq!(config.sections().len(), 1);
}

#[test]
fn retain_keeps_marked_lines_in_order() {
    let mut config = SSHConfig::parse("Host a\n\tUser x\n\t# c\n\tPort 1\n\n").unwrap();
    let section = config.section_mut("a").unwrap();
    section.retain(|l| l.as_directive().is_none());
    assert_eq!(section.to_string(), "Host a\n\t# c\n\n");
}

#[test]
fn conversions() {
    let line: Line = Directive::new("User", "x").unwrap().into();
    assert_eq!(line.to_string(), "User x");
    let k: FieldKey = "identityfile".parse().unwrap();
    assert_eq!(k, FieldKey::IdentityFile);
    assert_eq!(LineEnding::Crlf.as_str(), "\r\n");
}

#[test]
fn host_fields_dedupe_lower_case_keys() {
    let mut h = HostFields::new();
    h.add_field("User", "a");
    h.add_field("USER", "b");
    h.add_field("Port", "22");
    assert_eq!(h.len(), 2);
    assert!(!h.is_empty());
    assert!(h.contains_key("user"));
    assert!(!h.contains_key("User"));
    assert_eq!(h.get_one("uSeR").map(|s| s.as_str()), Some("a"));
    assert_eq!(h.get_multiple("PORT"), vec!["22"]);
    assert!(h.get_one("Host").is_none());
}

#[test]
fn tokenizer_messages() {
    assert_eq!(tokenize_str("\r").err().unwrap(), "at ln:1 pos:3, file ended too soon");
    assert_eq!(tokenize_str("\rx").err().unwrap(), "at ln:1 pos:3, expected '\n' found 'x'");
    assert_eq!(
        tokenize_str("Host==x").err().unwrap(),
        "at ln:1 pos:7, separator contain two '='"
    );
    assert_eq!(tokenize_str("\nHost").err().unwrap(), "at ln:2 pos:7, key boundary not found");
    assert_eq!(tokenize_str("Host ").err().unwrap(), "at ln:1 pos:7, separator boundary not found");
    assert_eq!(tokenize_str("Host =\n").err().unwrap(), "at ln:1 pos:8, separator boundary not found");
    assert_eq!(tokenize_str("H\u{e9}=\"x").err().unwrap(), "at ln:1 pos:4, unclosed double quote");
    let tokens = tokenize_str("  \nHost x").unwrap();
    assert_eq!(tokens[0].kind, TokenKind::WhiteSpace);
    assert_eq!(tokens[0].data, "  \n");
    assert_eq!(tokens.len(), 4);
}

#[test]
fn tokens_cover_the_text() {
    let data = "# c\r\n  Host=a b\n\tIdentityFile \"x y\"\n";
    let tokens = tokenize_str(data).unwrap();
    let joined: String = tokens.iter().map(|t| t.data.as_str()).collect();
    assert_eq!(joined, data);
}

#[test]
fn keywords_in_any_case() {
    assert_eq!(FieldKey::parse("hOsTnAmE"), FieldKey::Hostname);
    assert_eq!(FieldKey::parse("MATCH"), FieldKey::Match);
    assert_eq!(FieldKey::parse("match").to_string(), "Match");
}

#[test]
fn comments_and_blank_lines_survive_a_set() {
    let mut config =
        SSHConfig::parse("Host a\n\t# one\n\tUser x\n\n\tIdentityFile k\n\t# two\n").unwrap();
    let mut settings = HostSettings::new("a");
    settings.push_dedup(FieldKey::Port, "2");
    config.set_host_settings(&settings).unwrap();
    assert_eq!(config.to_string(), "Host a\n\t# one\n\n\t# two\n\tPort 2\n");
}

#[test]
fn directives_with_mutability() {
    let mut config =
        SSHConfig::parse("Host a\n\tIdentityFile k1\n\t# c\n\tUser u\n\tIdentityFile k2\n").unwrap();
    let section = config.section_mut("a").unwrap();
    for d in section.get_all_mut(&FieldKey::IdentityFile) {
        let v = format!("{}.pub", d.value());
        d.set_value(&v).unwrap();
    }
    assert_eq!(
        section.to_string(),
        "Host a\n\tIdentityFile k1.pub\n\t# c\n\tUser u\n\tIdentityFile k2.pub\n"
    );
    let all = section.directives_mut();
    assert_eq!(all.len(), 3);
    for d in all {
        d.set_value("x").unwrap();
    }
    assert_eq!(
        section.to_string(),
        "Host a\n\tIdentityFile x\n\t# c\n\tUser x\n\tIdentityFile x\n"
    );
}

#[test]
fn section_insert_terminates_the_line_before() {
    let mut config = SSHConfig::parse("Host a\n\tUser x").unwrap();
    let section = config.section_mut("a").unwrap();
    section.insert(0, Line::directive(FieldKey::Port, "22").unwrap()).unwrap();
    assert_eq!(section.to_string(), "Host a\n\tPort 22\n\tUser x");
    section.push(Line::comment("c").unwrap()).unwrap();
    assert_eq!(section.to_string(), "Host a\n\tPort 22\n\tUser x\n\t# c\n");
}

#[test]
fn insert_section_terminates_the_section_before() {
    let mut config = SSHConfig::parse("").unwrap();
    config.insert_section(0, Section::new(Selector::new(FieldKey::Host, "a").unwrap()));
    config.insert_section(0, Section::new(Selector::new(FieldKey::Host, "b").unwrap()));
    assert_eq!(config.to_string(), "Host bHost a");
    config.insert_section(1, Section::new(Selector::new(FieldKey::Host, "c").unwrap()));
    assert_eq!(config.to_string(), "Host b\nHost cHost a");

    let mut config = SSHConfig::parse("# top").unwrap();
    config.insert_section(0, Section::new(Selector::new(FieldKey::Host, "a").unwrap()));
    assert_eq!(config.to_string(), "# top\nHost a");
}

#[test]
fn setting_twice_changes_nothing() {
    let mut config =
        SSHConfig::parse("# top\nHost a\n\tUser x\n\tIdentityFile k0\n\t# note\nHost b\n").unwrap();
    let mut settings = HostSettings::new("a");
    settings.push(FieldKey::User, "y").unwrap();
    settings.push(FieldKey::IdentityFile, "k1").unwrap();
    settings.push(FieldKey::IdentityFile, "k2").unwrap();
    config.set_host_settings(&settings).unwrap();
    let once = config.to_string();
    assert_eq!(
        once,
        "# top\nHost a\n\tUser y\n\t# note\n\tIdentityFile k1\n\tIdentityFile k2\nHost b\n"
    );
    config.set_host_settings(&settings).unwrap();
    assert_eq!(config.to_string(), once);

    let mut fresh = HostSettings::new("c");
    fresh.push(FieldKey::Port, "22").unwrap();
    config.set_host_settings(&fresh).unwrap();
    let once = config.to_string();
    config.set_host_settings(&fresh).unwrap();
    assert_eq!(config.to_string(), once);
}

#[test]
fn token_shapes() {
    let tokens = tokenize_str("Port = 22\r\n# c").unwrap();
    let got: Vec<(TokenKind, String)> = tokens.into_iter().map(|t| (t.kind, t.data)).collect();
    assert_eq!(
        got,
        vec![
            (TokenKind::Key, "Port".to_string()),
            (TokenKind::Separator, " = ".to_string()),
            (TokenKind::Value, "22".to_string()),
            (TokenKind::LineEnding, "\r\n".to_string()),
            (TokenKind::Comment, "# c".to_string()),
        ]
    );
}

#[test]
fn field_keys_hash_as_they_compare() {
    let mut keys = std::collections::HashSet::new();
    keys.insert(FieldKey::User);
    keys.insert(FieldKey::parse("USER"));
    keys.insert(FieldKey::Other("custom".to_string()));
    keys.insert(FieldKey::parse("custom"));
    assert_eq!(keys.len(), 2);
    assert!(keys.contains(&FieldKey::parse("user")));
}
