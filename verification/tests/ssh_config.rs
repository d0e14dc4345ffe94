use lib::{Field, FieldKey, HostSettings, LineEnding, SSHConfig};

#[test]
fn single_host_single_param() {
    let data = "
Host my.server.local
    Hostname 1.2.3.4
";

    let config = SSHConfig::parse(data).unwrap();
    let host_params = config.exact_host_settings("my.server.local");
    assert_eq!(host_params.field_count(), 1);

    assert!(host_params.contains_key(&FieldKey::Hostname));
    assert_eq!(
        host_params.get_one(&FieldKey::Hostname).unwrap().value,
        "1.2.3.4"
    );
}

#[test]
fn single_host_multiple_params() {
    let data = "
Host my.server.local
    Hostname 1.2.3.4
    User test
";

    let config = SSHConfig::parse(data).unwrap();
    let host_params = config.exact_host_settings("my.server.local");
    assert_eq!(host_params.field_count(), 2);
    assert!(host_params.contains_key(&FieldKey::Hostname));
    assert_eq!(
        host_params.get_one(&FieldKey::Hostname).unwrap().value,
        "1.2.3.4"
    );
    assert!(host_params.contains_key(&FieldKey::User));
    assert_eq!(host_params.get_one(&FieldKey::User).unwrap().value, "test");
}

#[test]
fn keep_first_duplicated_params() {
    let data = "
Host my.server.local
    User first
    User second
";

    let config = SSHConfig::parse(data).unwrap();
    let host_params = config.exact_host_settings("my.server.local");
    assert_eq!(host_params.field_count(), 1);
    assert!(host_params.contains_key(&FieldKey::User));
    assert_eq!(host_params.get_one(&FieldKey::User).unwrap().value, "first");
}

#[test]
fn keep_both_cumulative_params() {
    let data = "
Host my.server.local
    IdentityFile ~/.ssh/fake_key1
    IdentityFile ~/.ssh/fake_key2
";

    let config = SSHConfig::parse(data).unwrap();
    let host_params = config.exact_host_settings("my.server.local");
    let cumulative_params: Vec<&Field> = host_params.get_all(&FieldKey::IdentityFile);
    assert_eq!(cumulative_params.len(), 2);
    assert_eq!(cumulative_params[0].value, "~/.ssh/fake_key1");
    assert_eq!(cumulative_params[1].value, "~/.ssh/fake_key2");
}

#[test]
fn match_options_do_not_leak_into_host() {
    let data = "Host a\n\tUser x\nMatch user foo\n\tPort 22\n";
    let config = SSHConfig::parse(data).unwrap();
    let settings = config.exact_host_settings("a");
    assert_eq!(settings.field_count(), 1);
    assert!(!settings.contains_key(&FieldKey::Port));
}

#[test]
fn set_host_settings_creates_missing_host() {
    let mut config = SSHConfig::parse("Host b\n\tUser bob\n").unwrap();
    let mut new_host = HostSettings::new("a");
    new_host.push_dedup(FieldKey::Hostname, "1.2.3.4");
    config.set_host_settings(&new_host).unwrap();

    let a = config.exact_host_settings("a");
    assert_eq!(a.get_one(&FieldKey::Hostname).unwrap().value, "1.2.3.4");
    let b = config.exact_host_settings("b");
    assert_eq!(b.get_one(&FieldKey::User).unwrap().value, "bob");
}

#[test]
fn set_host_settings_on_empty_config() {
    let mut config = SSHConfig::parse("").unwrap();
    let mut new_host = HostSettings::new("a");
    new_host.push_dedup(FieldKey::User, "me");
    config.set_host_settings(&new_host).unwrap();
    assert_eq!(
        config
            .exact_host_settings("a")
            .get_one(&FieldKey::User)
            .unwrap()
            .value,
        "me"
    );
}

#[test]
fn full_roundtrip() {
    let lf = "\n";
    let crlf = "\r\n";
    let tab = "\t";
    let spaces = "    ";
    let sep = " ";
    let sep_eq = "=";
    let sep_eq_ws = " = ";
    let trailing_ws = "   ";

    let data = format!(
        "# defaults{lf}\
            AddKeysToAgent{sep}yes{lf}\
            {lf}\
            Host{sep}a{lf}\
            {spaces}HostName{sep}1.2.3.4{lf}\
            {tab}User{sep}test{lf}\
            {lf}\
            host{sep}b{lf}\
            {spaces}HostName{sep}1.2.3.4{lf}\
            {tab}User{sep}test{lf}\
            {lf}\
            Host{sep_eq_ws}b{crlf}\
            {tab}Port{sep_eq}22{crlf}\
            {lf}\
            Host{sep}dev prod *.local{lf}\
            {tab}MyCustomOption{sep}value{lf}\
            {lf}\
            Match{sep}user foo{lf}\
            {tab}Port{sep}22{lf}\
            {lf}\
            Host{sep}*{lf}\
            {tab}IdentityFile{sep}~/.ssh/id{lf}\
            {lf}\
            {trailing_ws}"
    );
    assert_eq!(SSHConfig::parse(&data).unwrap().to_string(), data);
}

#[test]
fn infer_line_ending_lf() {
    let config = SSHConfig::parse("Host a\n\tUser x\n").unwrap();
    assert_eq!(config.infer_line_ending().as_str(), "\n");
}

#[test]
fn infer_line_ending_crlf() {
    let config = SSHConfig::parse("Host a\r\n\tUser x\r\n").unwrap();
    assert_eq!(config.infer_line_ending().as_str(), "\r\n");
}

#[test]
fn infer_line_ending_from_comment_only_preamble() {
    let config = SSHConfig::parse("# managed by hand\r\n").unwrap();
    assert_eq!(config.infer_line_ending().as_str(), "\r\n");
}

#[test]
fn infer_line_ending_uses_document_order() {
    let config = SSHConfig::parse("AddKeysToAgent yes\nHost a\r\n\tUser x\r\n").unwrap();
    assert_eq!(config.infer_line_ending().as_str(), "\n");
}

#[test]
fn infer_line_ending_defaults_on_empty_config() {
    let config = SSHConfig::parse("").unwrap();
    assert_eq!(config.infer_line_ending(), LineEnding::default());
}

#[test]
fn infer_line_ending_defaults_when_file_has_no_ending() {
    let config = SSHConfig::parse("Host a").unwrap();
    assert_eq!(config.infer_line_ending(), LineEnding::default());
}


#[test]
fn set_updates_value_in_place_preserving_formatting() {
    let mut config = SSHConfig::parse("Host a\n\tPort=22\n# trailing comment\n").unwrap();
    let mut settings = HostSettings::new("a");
    settings.push_dedup(FieldKey::Port, "2222");
    config.set_host_settings(&settings).unwrap();

    assert_eq!(
        config.to_string(),
        "Host a\n\tPort=2222\n# trailing comment\n"
    );
}

#[test]
fn set_matches_existing_key_case_insensitively() {
    let mut config = SSHConfig::parse("Host a\n\thostname 1.1.1.1\n").unwrap();
    let mut settings = HostSettings::new("a");
    settings.push_dedup(FieldKey::Hostname, "2.2.2.2");
    config.set_host_settings(&settings).unwrap();

    assert_eq!(config.to_string(), "Host a\n\thostname 2.2.2.2\n");
}

#[test]
fn set_append_key_matching_section_style() {
    let mut config = SSHConfig::parse("Host a\r\n    User x\r\n").unwrap();
    let mut settings = config.exact_host_settings("a");
    settings.push_dedup(FieldKey::Hostname, "1.2.3.4");
    config.set_host_settings(&settings).unwrap();

    assert_eq!(
        config.to_string(),
        "Host a\r\n    User x\r\n    Hostname 1.2.3.4\r\n"
    );
}

#[test]
fn set_creates_missing_host_with_inferred_crlf() {
    let mut config = SSHConfig::parse("Host b\r\n\tUser bob\r\n").unwrap();
    let mut settings = HostSettings::new("a");
    settings.push_dedup(FieldKey::Hostname, "1.2.3.4");
    config.set_host_settings(&settings).unwrap();

    assert_eq!(
        config.to_string(),
        "Host a\r\n\tHostname 1.2.3.4\r\nHost b\r\n\tUser bob\r\n"
    );
}

#[test]
fn set_creates_host_on_empty_config_with_defaults() {
    let mut config = SSHConfig::parse("").unwrap();
    let mut settings = HostSettings::new("a");
    settings.push_dedup(FieldKey::User, "me");
    config.set_host_settings(&settings).unwrap();

    let ending = LineEnding::default().as_str();
    assert_eq!(
        config.to_string(),
        format!("Host a{ending}\tUser me{ending}")
    );
}

#[test]
fn set_terminates_unterminated_preamble_before_inserting() {
    let mut config = SSHConfig::parse("AddKeysToAgent yes").unwrap();
    let mut settings = HostSettings::new("a");
    settings.push_dedup(FieldKey::User, "me");
    config.set_host_settings(&settings).unwrap();

    let ending = LineEnding::default().as_str();
    assert_eq!(
        config.to_string(),
        format!("AddKeysToAgent yes{ending}Host a{ending}\tUser me{ending}")
    );
}

#[test]
fn set_removes_keys_absent_from_settings() {
    let mut config = SSHConfig::parse(
        "Host a\n\t# keep me\n\tHostname 1.2.3.4\n\tForwardAgent yes\n\tUser x\nHost b\n\tForwardAgent yes\n",
    )
    .unwrap();

    let mut settings = HostSettings::new("a");
    settings.push_dedup(FieldKey::Hostname, "1.2.3.4");
    settings.push_dedup(FieldKey::User, "x");
    config.set_host_settings(&settings).unwrap();

    assert_eq!(
        config.to_string(),
        "Host a\n\t# keep me\n\tHostname 1.2.3.4\n\tUser x\nHost b\n\tForwardAgent yes\n"
    );
}

#[test]
fn cumulative_valid_preserved_divergence_appended() {
    let mut config =
        SSHConfig::parse("Host a\n\tIdentityFile ~/.ssh/key1\n\tIdentityFile ~/.ssh/key2\n")
            .unwrap();

    let mut settings = HostSettings::new("a");
    settings.push_dedup(FieldKey::IdentityFile, "~/.ssh/key1");
    settings.push_dedup(FieldKey::IdentityFile, "~/.ssh/keyX");
    config.set_host_settings(&settings).unwrap();

    assert_eq!(
        config.to_string(),
        "Host a\n\tIdentityFile ~/.ssh/key1\n\tIdentityFile ~/.ssh/keyX\n"
    );
}

#[test]
fn cumulative_divergence_preserves_desired_order() {
    let mut config =
        SSHConfig::parse("Host a\n\tIdentityFile A\n\tIdentityFile B\n\tIdentityFile C\n")
            .unwrap();

    let mut settings = HostSettings::new("a");
    for v in ["A", "X", "C"] {
        settings.push_dedup(FieldKey::IdentityFile, v);
    }
    config.set_host_settings(&settings).unwrap();

    assert_eq!(
        config.to_string(),
        "Host a\n\tIdentityFile A\n\tIdentityFile X\n\tIdentityFile C\n"
    );
}

#[test]
fn cumulative_shrink_removes_extra() {
    let mut config = SSHConfig::parse("Host a\n\tIdentityFile A\n\tIdentityFile B\n").unwrap();

    let mut settings = HostSettings::new("a");
    settings.push_dedup(FieldKey::IdentityFile, "A");
    config.set_host_settings(&settings).unwrap();

    assert_eq!(config.to_string(), "Host a\n\tIdentityFile A\n");
}

#[test]
fn cumulative_grow_appends_new() {
    let mut config = SSHConfig::parse("Host a\n\tIdentityFile A\n").unwrap();

    let mut settings = HostSettings::new("a");
    settings.push_dedup(FieldKey::IdentityFile, "A");
    settings.push_dedup(FieldKey::IdentityFile, "B");
    config.set_host_settings(&settings).unwrap();

    assert_eq!(
        config.to_string(),
        "Host a\n\tIdentityFile A\n\tIdentityFile B\n"
    );
}

#[test]
fn cumulative_full_match_noop() {
    let data = "Host a\n    IdentityFile A\n    # note\n    IdentityFile B\n";
    let mut config = SSHConfig::parse(data).unwrap();

    let mut settings = HostSettings::new("a");
    settings.push_dedup(FieldKey::IdentityFile, "A");
    settings.push_dedup(FieldKey::IdentityFile, "B");
    config.set_host_settings(&settings).unwrap();

    assert_eq!(config.to_string(), data);
}

#[test]
fn cumulative_key_absent_from_desired_is_removed() {
    let mut config =
        SSHConfig::parse("Host a\n\tIdentityFile A\n\tIdentityFile B\n\tUser bob\n").unwrap();

    let mut settings = HostSettings::new("a");
    settings.push_dedup(FieldKey::User, "bob");
    config.set_host_settings(&settings).unwrap();

    assert_eq!(config.to_string(), "Host a\n\tUser bob\n");
}

#[test]
fn cumulative_interleaved_keys_both_diverge() {
    let mut config = SSHConfig::parse(
        "Host a\n\tSetEnv A=1\n\tIdentityFile k1\n\tSetEnv B=2\n\tIdentityFile k2\n",
    )
    .unwrap();

    let mut settings = HostSettings::new("a");
    settings.push_dedup(FieldKey::IdentityFile, "k1");
    settings.push_dedup(FieldKey::IdentityFile, "kX");
    settings.push_dedup(FieldKey::SetEnv, "A=1");
    settings.push_dedup(FieldKey::SetEnv, "B=9");
    config.set_host_settings(&settings).unwrap();

    assert_eq!(
        config.to_string(),
        "Host a\n\tSetEnv A=1\n\tIdentityFile k1\n\tIdentityFile kX\n\tSetEnv B=9\n"
    );
}
