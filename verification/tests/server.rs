use codex_plus_core::json::JsonValue;
use codex_plus_core::server::{
    acknowledgement_ok, base_is_current, bearer_token, commit_decision, fold_log, notifies, password_matches, socket_step, SocketAction, SocketEvent, replay_matches,
    token_hash,
    valid_change_id, valid_device_name, valid_files, CommitOutcome, LogRow, ServerSnapshot, StoredChange,
};

fn s(text: &str) -> JsonValue {
    JsonValue::Str(text.to_string())
}

/// One uploaded file, with its keys in the order the service stores them.
fn item(path: &str) -> JsonValue {
    JsonValue::Object(vec![
        ("contentHash".to_string(), s(&"a".repeat(64))),
        ("deleted".to_string(), JsonValue::Bool(false)),
        ("encryptedContent".to_string(), s(&"x".repeat(40))),
        ("path".to_string(), s(path)),
    ])
}

fn item_text(path: &str) -> String {
    format!(
        "{{\"contentHash\":\"{}\",\"deleted\":false,\"encryptedContent\":\"{}\",\"path\":\"{}\"}}",
        "a".repeat(64),
        "x".repeat(40),
        path
    )
}

fn files(path: &str) -> JsonValue {
    JsonValue::Array(vec![item(path)])
}

/// The service's log as the tests keep it: each committed change with its
/// user, id, device, file list and whether it replaced what came before.
struct Event {
    version: u64,
    user: String,
    change_id: String,
    device_id: String,
    path: String,
    replace: bool,
}

#[derive(Default)]
struct Log {
    events: Vec<Event>,
}

impl Log {
    /// A change from user `user`, whose token is bound to device `a`.
    fn commit(&mut self, user: &str, id: &str, device_id: &str, base: u64, path: &str, replace: bool) -> CommitOutcome {
        let device_ok = device_id == "a";
        let stored = self.events.iter().find(|e| e.change_id == id).map(|e| {
            (StoredChange { username: e.user.clone(), device_id: e.device_id.clone(), files: files(&e.path) }, e.replace)
        });
        let latest = self.events.iter().filter(|e| e.user == user).map(|e| e.version).max().unwrap_or(0);
        let outcome = commit_decision(
            id,
            &files(path),
            device_ok,
            stored.as_ref().map(|(c, r)| (c, *r)),
            user,
            device_id,
            base,
            replace,
            latest,
        );
        if outcome == CommitOutcome::Accepted {
            self.insert(user, id, device_id, path, replace);
        }
        outcome
    }

    fn insert(&mut self, user: &str, id: &str, device_id: &str, path: &str, replace: bool) {
        let version = self.events.len() as u64 + 1;
        self.events.push(Event {
            version,
            user: user.into(),
            change_id: id.into(),
            device_id: device_id.into(),
            path: path.into(),
            replace,
        });
    }

    fn snapshot(&self, user: &str) -> ServerSnapshot {
        let rows: Vec<LogRow> = self
            .events
            .iter()
            .filter(|e| e.user == user)
            .map(|e| LogRow {
                version: e.version,
                files: if e.path.is_empty() { "[]".to_string() } else { format!("[{}]", item_text(&e.path)) },
                replace: e.replace,
            })
            .collect();
        fold_log(&rows).unwrap()
    }
}

#[test]
fn compare_and_swap_retry_and_replace_snapshot() {
    let mut log = Log::default();
    assert_eq!(log.commit("user", "first", "a", 0, "settings.json", false), CommitOutcome::Accepted);
    assert_eq!(log.commit("user", "first", "a", 0, "settings.json", false), CommitOutcome::Replayed);
    assert_eq!(log.commit("user", "stale", "a", 0, "config.toml", false), CommitOutcome::Stale);
    assert_eq!(log.commit("user", "future", "a", 99, "config.toml", false), CommitOutcome::Stale);
    assert_eq!(log.commit("user", "replace", "a", 0, "config.toml", true), CommitOutcome::Accepted);
    let snap = log.snapshot("user");
    assert_eq!(snap.entries.len(), 1);
    assert_eq!(snap.entries[0].0, "config.toml");
}

#[test]
fn device_binding_and_idempotency_payload_are_enforced() {
    let mut log = Log::default();
    assert_eq!(log.commit("user", "spoof", "b", 0, "auth.json", true), CommitOutcome::Forbidden);
    let _ = log.commit("user", "first", "a", 0, "settings.json", true);
    assert_eq!(log.commit("user", "first", "a", 0, "auth.json", true), CommitOutcome::Conflict);
}

#[test]
fn another_users_version_does_not_block_commit() {
    let mut log = Log::default();
    log.insert("other", "other-id", "other-device", "", false);
    assert_eq!(log.commit("user", "first", "a", 0, "settings.json", false), CommitOutcome::Accepted);
    assert_eq!(log.snapshot("other").version, 1);
}

#[test]
fn acknowledgement_requires_version_and_content() {
    let mut log = Log::default();
    let _ = log.commit("user", "first", "a", 0, "settings.json", true);
    let snap = log.snapshot("user");
    assert!(!acknowledgement_ok(&snap, 1, &Vec::new()));
    assert!(acknowledgement_ok(&snap, 1, &vec![("settings.json".to_string(), Some("a".repeat(64)))]));
}

#[test]
fn rejects_paths_and_duplicates() {
    for path in ["../auth.json", "/etc/passwd", "C:\\auth.json", "config.toml/secret"] {
        assert!(!valid_files(&files(path)));
    }
    let file = item("auth.json");
    assert!(!valid_files(&JsonValue::Array(vec![file.deep_clone(), file])));
}

#[test]
fn accepts_well_formed_uploads() {
    assert!(valid_files(&files("auth.json")));
    let all = JsonValue::Array(vec![item("auth.json"), item("config.toml"), item("models.json"), item("settings.json")]);
    assert!(valid_files(&all));
    let tombstone = JsonValue::Object(vec![
        ("contentHash".to_string(), s("")),
        ("deleted".to_string(), JsonValue::Bool(true)),
        ("encryptedContent".to_string(), s("")),
        ("path".to_string(), s("models.json")),
    ]);
    assert!(valid_files(&JsonValue::Array(vec![tombstone])));
    let unhashed = JsonValue::Object(vec![
        ("deleted".to_string(), JsonValue::Bool(false)),
        ("encryptedContent".to_string(), s(&"x".repeat(40))),
        ("path".to_string(), s("auth.json")),
    ]);
    assert!(valid_files(&JsonValue::Array(vec![unhashed])));
}

#[test]
fn refuses_malformed_uploads() {
    assert!(!valid_files(&JsonValue::Array(vec![])));
    assert!(!valid_files(&item("auth.json")));
    let five = JsonValue::Array(vec![item("auth.json"), item("config.toml"), item("models.json"), item("settings.json"), item("auth.json")]);
    assert!(!valid_files(&five));
    let short = JsonValue::Object(vec![
        ("deleted".to_string(), JsonValue::Bool(false)),
        ("encryptedContent".to_string(), s(&"x".repeat(39))),
        ("path".to_string(), s("auth.json")),
    ]);
    assert!(!valid_files(&JsonValue::Array(vec![short])));
    let no_flag = JsonValue::Object(vec![
        ("encryptedContent".to_string(), s(&"x".repeat(40))),
        ("path".to_string(), s("auth.json")),
    ]);
    assert!(!valid_files(&JsonValue::Array(vec![no_flag])));
    let bad_hash = JsonValue::Object(vec![
        ("contentHash".to_string(), s(&"g".repeat(64))),
        ("deleted".to_string(), JsonValue::Bool(false)),
        ("encryptedContent".to_string(), s(&"x".repeat(40))),
        ("path".to_string(), s("auth.json")),
    ]);
    assert!(!valid_files(&JsonValue::Array(vec![bad_hash])));
    let deleted_with_content = JsonValue::Object(vec![
        ("deleted".to_string(), JsonValue::Bool(true)),
        ("encryptedContent".to_string(), s("x")),
        ("path".to_string(), s("auth.json")),
    ]);
    assert!(!valid_files(&JsonValue::Array(vec![deleted_with_content])));
}

#[test]
fn malformed_change_ids_are_bad_requests() {
    assert!(!valid_change_id(""));
    assert!(valid_change_id(&"i".repeat(128)));
    assert!(!valid_change_id(&"i".repeat(129)));
    let outcome = commit_decision("", &files("auth.json"), true, None, "u", "a", 0, false, 0);
    assert_eq!(outcome, CommitOutcome::BadRequest);
    let outcome = commit_decision("id", &files("../x"), true, None, "u", "a", 0, false, 0);
    assert_eq!(outcome, CommitOutcome::BadRequest);
}

#[test]
fn replays_must_match_everything() {
    let stored = StoredChange { username: "u".into(), device_id: "a".into(), files: files("auth.json") };
    assert!(replay_matches(&stored, false, "u", "a", &files("auth.json"), false));
    assert!(!replay_matches(&stored, false, "v", "a", &files("auth.json"), false));
    assert!(!replay_matches(&stored, false, "u", "b", &files("auth.json"), false));
    assert!(!replay_matches(&stored, false, "u", "a", &files("config.toml"), false));
    assert!(!replay_matches(&stored, true, "u", "a", &files("auth.json"), false));
    assert!(base_is_current(true, 5, 9));
    assert!(base_is_current(false, 9, 9));
    assert!(!base_is_current(false, 5, 9));
}

#[test]
fn later_files_win_and_replacements_clear() {
    let rows = vec![
        LogRow { version: 1, files: format!("[{},{}]", item_text("auth.json"), item_text("config.toml")), replace: false },
        LogRow { version: 2, files: format!("[{}]", item_text("auth.json")), replace: false },
    ];
    let snap = fold_log(&rows).unwrap();
    assert_eq!(snap.version, 2);
    let paths: Vec<&str> = snap.entries.iter().map(|(p, _)| p.as_str()).collect();
    assert_eq!(paths, vec!["auth.json", "config.toml"]);
    let replaced = vec![rows[0].clone(), LogRow { version: 3, files: format!("[{}]", item_text("models.json")), replace: true }];
    let snap = fold_log(&replaced).unwrap();
    assert_eq!(snap.version, 3);
    assert_eq!(snap.entries.len(), 1);
    assert_eq!(snap.entries[0].0, "models.json");
    let empty = fold_log(&Vec::new()).unwrap();
    assert_eq!((empty.version, empty.entries.len()), (0, 0));
    assert!(fold_log(&vec![LogRow { version: 1, files: "not json".into(), replace: false }]).is_none());
    assert!(fold_log(&vec![LogRow { version: 1, files: "[{\"name\":1}]".into(), replace: false }]).is_none());
}

#[test]
fn acknowledgement_of_an_empty_log_is_refused() {
    let empty = fold_log(&Vec::new()).unwrap();
    assert!(!acknowledgement_ok(&empty, 0, &Vec::new()));
}

#[test]
fn deleted_files_are_acknowledged_without_digest() {
    let tomb = "{\"contentHash\":\"\",\"deleted\":true,\"encryptedContent\":\"\",\"path\":\"auth.json\"}";
    let snap = fold_log(&vec![LogRow { version: 4, files: format!("[{}]", tomb), replace: false }]).unwrap();
    assert!(acknowledgement_ok(&snap, 4, &vec![("auth.json".to_string(), None)]));
    assert!(!acknowledgement_ok(&snap, 4, &vec![("auth.json".to_string(), Some(String::new()))]));
}

#[test]
fn tokens_and_device_names() {
    assert_eq!(bearer_token("Bearer token-a"), Some("token-a".to_string()));
    assert_eq!(bearer_token("bearer token-a"), None);
    assert_eq!(bearer_token("Bearer"), None);
    assert_eq!(token_hash("abc"), "ba7816bf8f01cfea414140de5dae2223b00361a396177a9cb410ff61f20015ad");
    assert!(valid_device_name("laptop"));
    assert!(!valid_device_name(" \t\n"));
    assert!(!valid_device_name(""));
    assert!(valid_device_name(&"n".repeat(96)));
    assert!(!valid_device_name(&"n".repeat(97)));
}

#[test]
fn passwords_are_compared_by_digest() {
    let stored = token_hash("secret");
    assert!(password_matches(Some(&stored), "secret"));
    assert!(!password_matches(Some(&stored), "Secret"));
    assert!(!password_matches(None, "secret"));
    assert!(!password_matches(Some("secret"), "secret"));
}

#[test]
fn device_names_of_unicode_spaces_are_blank() {
    assert!(!valid_device_name("\u{3000}\u{00a0}\u{2009}"));
    assert!(valid_device_name("\u{200b}"));
    assert!(valid_device_name(" desk "));
}

#[test]
fn users_hear_only_of_their_own_changes() {
    assert!(notifies("alice", "alice"));
    assert!(!notifies("alice", "bob"));
    assert!(!notifies("alice", "Alice"));
}

#[test]
fn notification_socket_steps() {
    assert_eq!(socket_step("alice", &SocketEvent::Heartbeat { authorized: true }), SocketAction::Ping);
    assert_eq!(socket_step("alice", &SocketEvent::Heartbeat { authorized: false }), SocketAction::Stop);
    assert_eq!(socket_step("alice", &SocketEvent::PeerPing), SocketAction::Pong);
    assert_eq!(socket_step("alice", &SocketEvent::PeerClosed), SocketAction::Stop);
    assert_eq!(socket_step("alice", &SocketEvent::Lagged), SocketAction::Stop);
    assert_eq!(socket_step("alice", &SocketEvent::BroadcastClosed), SocketAction::Stop);
    assert_eq!(socket_step("alice", &SocketEvent::Other), SocketAction::Ignore);
    let own = SocketEvent::Broadcast { event_user: "alice".to_string(), authorized: true };
    assert_eq!(socket_step("alice", &own), SocketAction::Send);
    let revoked = SocketEvent::Broadcast { event_user: "alice".to_string(), authorized: false };
    assert_eq!(socket_step("alice", &revoked), SocketAction::Stop);
    let other = SocketEvent::Broadcast { event_user: "bob".to_string(), authorized: true };
    assert_eq!(socket_step("alice", &other), SocketAction::Ignore);
}
