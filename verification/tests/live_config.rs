use codex_plus_core::live_config::{live_config_snapshot, preview_live_config};

#[test]
fn reads_valid_config_with_hash_and_summary() {
    let bytes = b"model = 'gpt'\n\n[profiles.dev]\nmodel='x'\n".to_vec();
    let snapshot = live_config_snapshot("home/config.toml".to_string(), Some(bytes));
    assert!(snapshot.exists);
    assert_eq!(snapshot.parse_status, "valid");
    assert_eq!(snapshot.summary.root_keys, vec!["model"]);
    assert_eq!(snapshot.summary.tables, vec!["profiles"]);
    assert_eq!(snapshot.sha256.len(), 64);
}

#[test]
fn previews_invalid_config_without_writing() {
    let preview = preview_live_config("model = [");
    assert_eq!(preview.parse_status, "invalid");
    assert!(preview.error.is_some());
}

#[test]
fn missing_config_is_reported_as_missing() {
    let snapshot = live_config_snapshot("home/config.toml".to_string(), None);
    assert!(!snapshot.exists);
    assert_eq!(snapshot.parse_status, "missing");
    assert_eq!(snapshot.text, "");
    assert_eq!(snapshot.sha256, "e3b0c44298fc1c149afbf4c8996fb92427ae41e4649b934ca495991b7852b855");
}

#[test]
fn summary_keys_are_sorted() {
    let preview = preview_live_config("zeta = 1\nalpha = 2\n[tools]\n[agents]\n");
    assert_eq!(preview.parse_status, "valid");
    assert_eq!(preview.error, None);
    assert_eq!(preview.summary.root_keys, vec!["alpha", "zeta"]);
    assert_eq!(preview.summary.tables, vec!["agents", "tools"]);
}

#[test]
fn invalid_bytes_are_read_lossily() {
    let snapshot = live_config_snapshot("c".to_string(), Some(vec![b'a', b' ', b'=', b' ', 0xff]));
    assert!(snapshot.exists);
    assert!(snapshot.text.contains('\u{fffd}'));
    assert_eq!(snapshot.parse_status, "invalid");
}

#[test]
fn reading_a_file_agrees_with_previewing_its_text() {
    for text in ["model = 'gpt'\n\n[profiles.dev]\nmodel='x'\n", "b = 1\na = 2\n[z]\n[y]\n", "model = [", ""] {
        let snapshot = live_config_snapshot("config.toml".to_string(), Some(text.as_bytes().to_vec()));
        let preview = preview_live_config(text);
        assert_eq!(snapshot.parse_status, preview.parse_status);
        assert_eq!(snapshot.summary.root_keys, preview.summary.root_keys);
        assert_eq!(snapshot.summary.tables, preview.summary.tables);
        assert_eq!(snapshot.text, text);
    }
    let preview = preview_live_config("b = 1\na = 2\n[z]\n[y]\n");
    assert_eq!(preview.summary.root_keys, vec!["a", "b"]);
    assert_eq!(preview.summary.tables, vec!["y", "z"]);
}

#[test]
fn missing_file_snapshot() {
    let snapshot = live_config_snapshot("config.toml".to_string(), None);
    assert!(!snapshot.exists);
    assert_eq!(snapshot.parse_status, "missing");
    assert_eq!(snapshot.sha256, "e3b0c44298fc1c149afbf4c8996fb92427ae41e4649b934ca495991b7852b855");
}

#[test]
fn a_key_is_never_both_a_plain_key_and_a_table() {
    let preview = preview_live_config("a = 1\n[b]\nx = 2\n[c.d]\n");
    assert_eq!(preview.summary.root_keys, vec!["a"]);
    assert_eq!(preview.summary.tables, vec!["b", "c"]);
    assert_eq!(preview_live_config("a = 1\n[a]\n").parse_status, "invalid");
}
