use repo_monitor::config::{
    classify_line, first_value, parse_entries, parse_env_file, pick_first_owned, resolve_config,
    split_lines, Config, EnvEntry, LineKind, MissingInput, RawConfig,
};

fn no_inputs() -> RawConfig {
    RawConfig { local_path: None, remote: None, branch: None, ssh_key_path: None }
}

fn entries_of(text: &[u8]) -> Vec<EnvEntry> {
    parse_env_file(&text.to_vec()).expect("file should parse")
}

#[test]
fn split_keeps_every_line() {
    let lines = split_lines(&b"a\nbb\n\nccc".to_vec());
    let views: Vec<&[u8]> = lines.iter().map(|l| l.as_slice()).collect();
    assert_eq!(views, vec![b"a".as_slice(), b"bb", b"", b"ccc"]);
}

#[test]
fn split_of_empty_input_is_one_blank_line() {
    let lines = split_lines(&Vec::new());
    assert_eq!(lines.len(), 1);
    assert!(lines[0].is_empty());
}

#[test]
fn split_with_trailing_line_feed_ends_with_blank_line() {
    let lines = split_lines(&b"a\n".to_vec());
    assert_eq!(lines.len(), 2);
    assert_eq!(lines[0], b"a".to_vec());
    assert!(lines[1].is_empty());
}

#[test]
fn classify_blank_comment_entry_and_malformed() {
    assert!(matches!(classify_line(&Vec::new()), LineKind::Blank));
    assert!(matches!(classify_line(&b"# REMOTE=elsewhere".to_vec()), LineKind::Comment));
    match classify_line(&b"REMOTE=origin".to_vec()) {
        LineKind::Entry { key, value } => {
            assert_eq!(key, b"REMOTE".to_vec());
            assert_eq!(value, b"origin".to_vec());
        }
        _ => panic!("expected an entry"),
    }
    assert!(matches!(classify_line(&b"no mark here".to_vec()), LineKind::Malformed));
}

#[test]
fn entry_splits_at_the_first_mark() {
    match classify_line(&b"KEY=a=b".to_vec()) {
        LineKind::Entry { key, value } => {
            assert_eq!(key, b"KEY".to_vec());
            assert_eq!(value, b"a=b".to_vec());
        }
        _ => panic!("expected an entry"),
    }
}

#[test]
fn entry_value_may_be_empty() {
    match classify_line(&b"KEY=".to_vec()) {
        LineKind::Entry { key, value } => {
            assert_eq!(key, b"KEY".to_vec());
            assert!(value.is_empty());
        }
        _ => panic!("expected an entry"),
    }
}

#[test]
fn parse_skips_blanks_and_comments() {
    let es = entries_of(b"# settings\n\nLOCAL_PATH=test_repo\nREMOTE=origin\n");
    assert_eq!(es.len(), 2);
    assert_eq!(es[0].key, b"LOCAL_PATH".to_vec());
    assert_eq!(es[0].value, b"test_repo".to_vec());
    assert_eq!(es[1].key, b"REMOTE".to_vec());
    assert_eq!(es[1].value, b"origin".to_vec());
}

#[test]
fn parse_reports_the_first_malformed_line() {
    let lines = split_lines(&b"A=1\nbroken\nB=2\nworse".to_vec());
    assert!(matches!(parse_entries(&lines), Err(1)));
}

#[test]
fn lookup_takes_the_first_occurrence() {
    let es = entries_of(b"REMOTE=first\nREMOTE=second\n");
    assert_eq!(first_value(&es, &b"REMOTE".to_vec()), Some(b"first".to_vec()));
}

#[test]
fn lookup_misses_an_absent_key() {
    let es = entries_of(b"REMOTE=origin\n");
    assert_eq!(first_value(&es, &b"BRANCH".to_vec()), None);
}

#[test]
fn precedence_is_flag_then_environment_then_file() {
    assert_eq!(
        pick_first_owned(Some(b"f".to_vec()), Some(b"e".to_vec()), Some(b"c".to_vec())),
        Some(b"f".to_vec())
    );
    assert_eq!(
        pick_first_owned(None, Some(b"e".to_vec()), Some(b"c".to_vec())),
        Some(b"e".to_vec())
    );
    assert_eq!(pick_first_owned(None, None, Some(b"c".to_vec())), Some(b"c".to_vec()));
    assert_eq!(pick_first_owned(None, None, None), None);
}

#[test]
fn resolve_fills_every_input_from_the_file() {
    let es = entries_of(
        b"LOCAL_PATH=test_repo\nREMOTE=origin\nBRANCH=master\nSSH_KEY_PATH=test_key\n",
    );
    let c: Config = resolve_config(no_inputs(), no_inputs(), &es).expect("should resolve");
    assert_eq!(c.local_path, b"test_repo".to_vec());
    assert_eq!(c.remote, b"origin".to_vec());
    assert_eq!(c.branch, b"master".to_vec());
    assert_eq!(c.ssh_key_path, Some(b"test_key".to_vec()));
}

#[test]
fn resolve_lets_a_flag_override_the_file() {
    let es = entries_of(b"LOCAL_PATH=from_file\nREMOTE=origin\nBRANCH=master\n");
    let flags = RawConfig {
        local_path: Some(b"from_flag".to_vec()),
        remote: None,
        branch: None,
        ssh_key_path: None,
    };
    let c = resolve_config(flags, no_inputs(), &es).expect("should resolve");
    assert_eq!(c.local_path, b"from_flag".to_vec());
}

#[test]
fn resolve_lets_the_environment_override_the_file() {
    let es = entries_of(b"LOCAL_PATH=from_file\nREMOTE=origin\nBRANCH=master\n");
    let envs = RawConfig {
        local_path: Some(b"from_env".to_vec()),
        remote: None,
        branch: None,
        ssh_key_path: None,
    };
    let c = resolve_config(no_inputs(), envs, &es).expect("should resolve");
    assert_eq!(c.local_path, b"from_env".to_vec());
}

#[test]
fn resolve_leaves_the_credential_optional() {
    let es = entries_of(b"LOCAL_PATH=test_repo\nREMOTE=origin\nBRANCH=master\n");
    let c = resolve_config(no_inputs(), no_inputs(), &es).expect("should resolve");
    assert_eq!(c.ssh_key_path, None);
}

#[test]
fn resolve_names_the_first_missing_input() {
    let none = entries_of(b"");
    match resolve_config(no_inputs(), no_inputs(), &none) {
        Err(m) => assert_eq!(m, MissingInput::LocalPath),
        Ok(_) => panic!("resolution should fail"),
    }
    let lp_only = entries_of(b"LOCAL_PATH=test_repo\n");
    match resolve_config(no_inputs(), no_inputs(), &lp_only) {
        Err(m) => assert_eq!(m, MissingInput::Remote),
        Ok(_) => panic!("resolution should fail"),
    }
    let no_branch = entries_of(b"LOCAL_PATH=test_repo\nREMOTE=origin\n");
    match resolve_config(no_inputs(), no_inputs(), &no_branch) {
        Err(m) => assert_eq!(m, MissingInput::Branch),
        Ok(_) => panic!("resolution should fail"),
    }
}

#[test]
fn parse_env_file_rejects_a_file_with_a_malformed_line() {
    assert!(matches!(parse_env_file(&b"A=1\n : \n".to_vec()), Err(1)));
}
