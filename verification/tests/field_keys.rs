use lib::FieldKey;

#[test]
fn parse_is_case_insensitive() {
    assert_eq!(FieldKey::parse("IdentityFile"), FieldKey::IdentityFile);
    assert_eq!(FieldKey::parse("identityfile"), FieldKey::IdentityFile);
    assert_eq!(FieldKey::parse("IDENTITYFILE"), FieldKey::IdentityFile);
}

#[test]
fn unknown_becomes_other() {
    assert_eq!(
        FieldKey::parse("MadeUpOption"),
        FieldKey::Other("MadeUpOption".to_string())
    );
    assert_ne!(FieldKey::parse("a"), FieldKey::parse("A"));
}

#[test]
fn cumulative_flags() {
    assert!(FieldKey::parse("IdentityFile").is_cumulative());
    assert!(FieldKey::parse("LocalForward").is_cumulative());
    assert!(!FieldKey::parse("User").is_cumulative());
    assert!(!FieldKey::parse("CanonicalDomains").is_cumulative());
}

#[test]
fn display_roundtrips_canonical() {
    assert_eq!(FieldKey::Hostname.to_string(), "Hostname");
    assert_eq!(FieldKey::parse("hostname").to_string(), "Hostname");
}
