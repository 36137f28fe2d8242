use codex_plus_core::contents::{contents_equal, hashes, wire_hashes, Contents};
use codex_plus_core::engine::{
    alignment, background_step, build_change, check_unchanged, confirm_download, confirm_upload, debounce_ready, enable_check,
    plan_sync, rollback_plan, settings_token, validate_all, write_plan, BackgroundAction, BackgroundEvent, Engine, LocalState, Operation, Status, SyncPlan, SyncSettings,
    WriteAction,
};
use codex_plus_core::error::SyncError;
use codex_plus_core::files::FileSlot;
use codex_plus_core::projection::{accept_file, restore_settings, FileBytes, FileMeta};
use codex_plus_core::protocol::{SyncDeviceResponse, SyncSnapshot};
use codex_plus_core::snapshot::{decrypt_snapshot, encrypt_files};

const LOCAL_SETTINGS: &[u8] = br#"{"configSyncDeviceToken":"local-only","theme":"dark"}"#;

fn regular(len: usize) -> Option<FileMeta> {
    Some(FileMeta { symlink: false, regular: true, len: len as u64 })
}

/// The files of a device whose Codex home is empty and whose manager
/// settings hold a device token and a theme.
fn collected() -> Contents {
    let mut c = Contents::empty();
    let settings = accept_file(FileSlot::Settings, regular(LOCAL_SETTINGS.len()), FileBytes::Read(LOCAL_SETTINGS.to_vec()))
        .unwrap();
    c.set(FileSlot::Settings, settings);
    for slot in [FileSlot::Auth, FileSlot::Config, FileSlot::Models] {
        c.set(slot, accept_file(slot, None, FileBytes::Missing).unwrap());
    }
    c
}

fn settings(server: &str, token: &str, device_token: &str, device_id: &str) -> SyncSettings {
    SyncSettings {
        enabled: false,
        server_url: server.into(),
        token: token.into(),
        device_name: "laptop".into(),
        device_id: device_id.into(),
        device_token: device_token.into(),
        cursor: 0,
    }
}

fn state(secret: &str) -> LocalState {
    LocalState { secret: secret.to_string(), ..Default::default() }
}

fn sealed(c: &Contents, version: u64, secret: &str) -> SyncSnapshot {
    SyncSnapshot { version, files: encrypt_files(c, 0, secret).unwrap() }
}

#[test]
fn settings_projection_preserves_device_credentials() {
    let local = collected();
    let projected = String::from_utf8(local.settings.clone().unwrap()).unwrap();
    assert!(!projected.contains("local-only"));
    let restored = restore_settings(br#"{"theme":"light","configSyncDeviceToken":"foreign"}"#, Some(LOCAL_SETTINGS)).unwrap();
    let value: serde_json::Value = serde_json::from_slice(&restored).unwrap();
    assert_eq!(value["configSyncDeviceToken"], "local-only");
    assert_eq!(value["theme"], "light");
}

#[test]
fn snapshot_authenticates_paths_missing_slots_and_key() {
    let content = collected();
    let st = state("test-key");
    let mut snapshot = SyncSnapshot { version: 1, files: encrypt_files(&content, st.version, &st.secret).unwrap() };
    assert!(contents_equal(&decrypt_snapshot(&snapshot, "test-key").unwrap(), &content));
    assert!(decrypt_snapshot(&snapshot, "wrong-key").is_err());
    snapshot.files[0].path = "../auth.json".into();
    assert!(decrypt_snapshot(&snapshot, "test-key").is_err());
}

#[test]
fn snapshot_errors_name_what_is_wrong() {
    let content = collected();
    let good = sealed(&content, 1, "k");
    let mut empty = good.clone();
    empty.version = 0;
    assert_eq!(decrypt_snapshot(&empty, "k").unwrap_err(), SyncError::ServerEmpty);
    let mut short = good.clone();
    short.files.pop();
    assert_eq!(decrypt_snapshot(&short, "k").unwrap_err(), SyncError::IncompleteSnapshot);
    let mut illegal = good.clone();
    illegal.files[0].path = "../auth.json".into();
    assert_eq!(decrypt_snapshot(&illegal, "k").unwrap_err(), SyncError::IllegalPath);
    let mut duplicate = good.clone();
    duplicate.files[1] = duplicate.files[0].clone();
    assert_eq!(decrypt_snapshot(&duplicate, "k").unwrap_err(), SyncError::DuplicateFile);
    let mut swapped = good.clone();
    swapped.files[0].path = "config.toml".into();
    swapped.files[1].path = "auth.json".into();
    assert_eq!(decrypt_snapshot(&swapped, "k").unwrap_err(), SyncError::PathMismatch);
    let mut hash = good.clone();
    hash.files[3].content_hash = "0".repeat(64);
    assert_eq!(decrypt_snapshot(&hash, "k").unwrap_err(), SyncError::HashMismatch);
    let mut deleted = good.clone();
    deleted.files[0].deleted = true;
    assert_eq!(decrypt_snapshot(&deleted, "k").unwrap_err(), SyncError::DeletionMarker);
    assert_eq!(decrypt_snapshot(&good, "other").unwrap_err(), SyncError::UndecryptableFile(FileSlot::Auth));
    let no_settings = sealed(&Contents::empty(), 1, "k");
    assert_eq!(decrypt_snapshot(&no_settings, "k").unwrap_err(), SyncError::MissingSettings);
}

#[test]
fn sealed_files_carry_digest_and_version() {
    let content = collected();
    let files = encrypt_files(&content, 7, "k").unwrap();
    let names: Vec<&str> = files.iter().map(|f| f.path.as_str()).collect();
    assert_eq!(names, vec!["auth.json", "config.toml", "models.json", "settings.json"]);
    assert!(files.iter().all(|f| f.version == 7 && !f.deleted));
    assert_eq!(files[0].content_hash, "");
    assert_eq!(files[3].content_hash, codex_plus_core::crypto::content_hash(content.settings.as_ref().unwrap()));
}

#[test]
fn paths_of_the_synchronized_files() {
    let e = Engine { home: "home".into(), settings_path: "manager/settings.json".into(), state_dir: "state".into() };
    assert_eq!(e.path("settings.json").unwrap(), "manager/settings.json");
    let sep = std::path::MAIN_SEPARATOR;
    assert_eq!(e.path("config.toml").unwrap(), format!("home{sep}config.toml"));
    assert_eq!(e.path("models.json").unwrap(), format!("home{sep}config-sync-models.json"));
    assert_eq!(e.path("auth.json").unwrap(), format!("home{sep}auth.json"));
    assert_eq!(e.path("../auth.json").unwrap_err(), SyncError::IllegalPath);
    assert_eq!(e.path("state.json").unwrap_err(), SyncError::IllegalPath);
}

#[test]
fn files_must_be_small_regular_files() {
    let link = Some(FileMeta { symlink: true, regular: false, len: 3 });
    assert_eq!(accept_file(FileSlot::Auth, link, FileBytes::Read(b"{}".to_vec())), Err(SyncError::NotRegularFile(FileSlot::Auth)));
    let big = Some(FileMeta { symlink: false, regular: true, len: 600_001 });
    assert_eq!(accept_file(FileSlot::Models, big, FileBytes::Read(b"{}".to_vec())), Err(SyncError::FileTooLarge(FileSlot::Models)));
    assert_eq!(accept_file(FileSlot::Auth, regular(600_000), FileBytes::Read(b"{}".to_vec())), Ok(Some(b"{}".to_vec())));
    assert_eq!(accept_file(FileSlot::Auth, None, FileBytes::Unreadable), Err(SyncError::ReadFailed(FileSlot::Auth)));
    assert_eq!(accept_file(FileSlot::Settings, regular(2), FileBytes::Read(b"[]".to_vec())), Err(SyncError::SettingsNotObject));
}

#[test]
fn the_key_is_the_sync_token_and_never_the_login_token() {
    let mut s = settings("https://sync.example/", "shared", "device", "d");
    assert_eq!(settings_token(&s).unwrap(), "shared");
    s.token = "device".into();
    assert_eq!(settings_token(&s).unwrap_err(), SyncError::TokenIsLoginToken);
    s.token.clear();
    assert_eq!(settings_token(&s).unwrap_err(), SyncError::MissingToken);
}

#[test]
fn connecting_records_the_new_registration() {
    let mut s = settings("https://old.example", "shared", "old-token", "old-id");
    s.enabled = true;
    s.cursor = 12;
    s.record_connection(
        "https://new.example".into(),
        "desk".into(),
        SyncDeviceResponse { device_id: "new-id".into(), device_token: "new-token".into() },
    );
    assert!(!s.enabled);
    assert_eq!((s.server_url.as_str(), s.device_name.as_str()), ("https://new.example", "desk"));
    assert_eq!((s.device_id.as_str(), s.device_token.as_str(), s.cursor), ("new-id", "new-token", 0));
    assert_eq!(s.token, "shared");
}

#[test]
fn enabling_needs_alignment() {
    assert_eq!(enable_check(true, false), Err(SyncError::NotAligned));
    assert_eq!(enable_check(true, true), Ok(()));
    assert_eq!(enable_check(false, false), Ok(()));
}

#[test]
fn rollback_restores_latest_first() {
    let mut originals = Contents::empty();
    originals.set(FileSlot::Config, Some(b"a = 1".to_vec()));
    let plan = rollback_plan(&vec![FileSlot::Config, FileSlot::Auth], &originals);
    assert_eq!(plan.len(), 2);
    assert_eq!(plan[0].0, FileSlot::Auth);
    assert!(matches!(plan[0].1, WriteAction::MoveAside));
    assert_eq!(plan[1].0, FileSlot::Config);
    assert!(matches!(&plan[1].1, WriteAction::Write(b) if b == b"a = 1"));
}

#[test]
fn session_keeps_state_only_for_the_same_server_device_and_token() {
    let e = Engine { home: "h".into(), settings_path: "s".into(), state_dir: "st".into() };
    let settings = settings("https://sync.example//", "t", "dev-token", "dev");
    let saved = LocalState { server: "https://sync.example".into(), device: "dev".into(), secret: "t".into(), version: 9, enabled: true, ..Default::default() };
    let (client, st) = e.session(&settings, saved).unwrap();
    assert_eq!(st.version, 9);
    assert!(st.enabled);
    assert_eq!(client.config().server_url, "https://sync.example");
    assert_eq!(client.config().device_token, "dev-token");
    assert_eq!(client.config().device_id, "dev");
    assert_eq!(st.secret, "t");
    let other = LocalState { server: "https://old.example".into(), device: "dev".into(), secret: "t".into(), version: 9, enabled: true, ..Default::default() };
    let (_, fresh) = e.session(&settings, other).unwrap();
    assert_eq!(fresh.version, 0);
    assert!(!fresh.enabled);
    assert_eq!(fresh.server, "https://sync.example");
    let insecure = SyncSettings { server_url: "http://sync.example".into(), ..settings.clone() };
    assert_eq!(e.session(&insecure, LocalState::default()).unwrap_err(), SyncError::InsecureServerUrl);
}

#[test]
fn explicit_runs_overwrite_and_switch_auto_off() {
    let local = collected();
    let remote = sealed(&local, 3, "k");
    let mut st = state("k");
    st.enabled = true;
    assert!(matches!(plan_sync(Operation::Push, &mut st, &local, &remote), Ok(SyncPlan::Upload { force: true })));
    assert!(!st.enabled);
    st.enabled = true;
    match plan_sync(Operation::Pull, &mut st, &local, &remote) {
        Ok(SyncPlan::Download(c)) => assert!(contents_equal(&c, &local)),
        _ => panic!("a pull downloads the server's files"),
    }
    assert!(!st.enabled);
}

#[test]
fn automatic_runs_follow_the_changed_side() {
    let local = collected();
    let remote = sealed(&local, 3, "k");
    let mut st = state("k");
    assert!(matches!(plan_sync(Operation::Auto, &mut st, &local, &remote), Ok(SyncPlan::Idle)));
    st.enabled = true;
    assert!(matches!(plan_sync(Operation::Auto, &mut st, &local, &remote), Err(SyncError::NotAligned)));
    st.record_sync(3, hashes(&local), 100);
    assert!(alignment(&remote, &st, &local));
    assert!(matches!(plan_sync(Operation::Auto, &mut st, &local, &remote), Ok(SyncPlan::Idle)));
    let mut edited = local.clone();
    edited.set(FileSlot::Auth, Some(b"{\"k\":1}".to_vec()));
    assert!(matches!(plan_sync(Operation::Auto, &mut st, &edited, &remote), Ok(SyncPlan::Upload { force: false })));
    let newer = sealed(&edited, 4, "k");
    assert!(matches!(plan_sync(Operation::Auto, &mut st, &local, &newer), Ok(SyncPlan::Download(_))));
    assert!(st.enabled);
    let mut other = local.clone();
    other.set(FileSlot::Auth, Some(b"{\"k\":2}".to_vec()));
    assert_eq!(plan_sync(Operation::Auto, &mut st, &other, &newer).err(), Some(SyncError::BothChanged));
    assert!(!st.enabled);
}

#[test]
fn both_sides_with_the_same_edit_is_no_conflict() {
    let local = collected();
    let mut st = state("k");
    st.enabled = true;
    st.record_sync(3, hashes(&local), 1);
    let mut edited = local.clone();
    edited.set(FileSlot::Models, Some(b"[1]".to_vec()));
    let newer = sealed(&edited, 5, "k");
    assert!(matches!(plan_sync(Operation::Auto, &mut st, &edited, &newer), Ok(SyncPlan::Download(_))));
    assert!(st.enabled);
}

#[test]
fn uploads_check_formats_and_seal_every_slot() {
    let local = collected();
    let mut st = state("k");
    st.device = "dev".into();
    st.version = 2;
    let change = build_change(&local, &st).unwrap();
    assert_eq!(change.device_id, "dev");
    assert_eq!(change.base_version, 2);
    assert_eq!(change.change_id.len(), 36);
    assert_eq!(change.files.len(), 4);
    let mut broken = local.clone();
    broken.set(FileSlot::Config, Some(b"model = [".to_vec()));
    assert_eq!(validate_all(&broken), Err(SyncError::ConfigNotToml));
    assert_eq!(build_change(&broken, &st).err(), Some(SyncError::ConfigNotToml));
    broken.set(FileSlot::Auth, Some(b"{".to_vec()));
    assert_eq!(validate_all(&broken), Err(SyncError::InvalidContent(FileSlot::Auth)));
}

#[test]
fn upload_is_confirmed_against_the_committed_snapshot() {
    let local = collected();
    let check = sealed(&local, 4, "k");
    assert_eq!(confirm_upload(&local, &local, 4, &check, "k"), Ok(()));
    assert_eq!(confirm_upload(&local, &local, 5, &check, "k"), Err(SyncError::ServerMovedOn));
    let mut changed = local.clone();
    changed.set(FileSlot::Auth, Some(b"{}".to_vec()));
    assert_eq!(confirm_upload(&local, &changed, 4, &check, "k"), Err(SyncError::LocalChangedDuringUpload));
    let other = sealed(&changed, 4, "k");
    assert_eq!(confirm_upload(&local, &local, 4, &other, "k"), Err(SyncError::ServerMovedOn));
}

#[test]
fn pull_writes_checked_files_and_refuses_concurrent_edits() {
    let before = collected();
    let mut after = before.clone();
    after.set(FileSlot::Config, Some(b"model = 'new'\n".to_vec()));
    assert_eq!(check_unchanged(&before, &before), Ok(()));
    let old = Some(b"model = 'old'\n".to_vec());
    match write_plan(FileSlot::Config, &after.config, &old, &old) {
        Ok(WriteAction::Write(bytes)) => assert_eq!(bytes, b"model = 'new'\n"),
        _ => panic!("the received file is written"),
    }
    assert!(matches!(write_plan(FileSlot::Auth, &None, &Some(b"{}".to_vec()), &Some(b"{}".to_vec())), Ok(WriteAction::MoveAside)));
    let edited = Some(b"model = 'mine'\n".to_vec());
    assert_eq!(write_plan(FileSlot::Config, &after.config, &old, &edited).err(), Some(SyncError::ModifiedByOther(FileSlot::Config)));
    assert_eq!(check_unchanged(&after, &before), Err(SyncError::ConcurrentLocalEdit));
    assert_eq!(confirm_download(&after, &before), Err(SyncError::WriteBackMismatch));
    assert_eq!(confirm_download(&after, &after), Ok(()));
}

#[test]
fn received_settings_keep_the_device_settings() {
    let original = Some(LOCAL_SETTINGS.to_vec());
    let received = Some(br#"{"theme":"light"}"#.to_vec());
    match write_plan(FileSlot::Settings, &received, &original, &original) {
        Ok(WriteAction::Write(bytes)) => {
            let value: serde_json::Value = serde_json::from_slice(&bytes).unwrap();
            assert_eq!(value["configSyncDeviceToken"], "local-only");
            assert_eq!(value["theme"], "light");
        },
        _ => panic!("settings are written"),
    }
}

#[test]
fn digests_of_missing_files() {
    let local = collected();
    let h = hashes(&local);
    let w = wire_hashes(&local);
    assert_eq!(h[0], ("auth.json".to_string(), None));
    assert_eq!(w[0], ("auth.json".to_string(), Some(String::new())));
    assert_eq!(h[3].1.as_ref().unwrap().len(), 64);
    assert_eq!(w[3], h[3]);
}

#[test]
fn background_runs_wait_for_two_equal_samples() {
    let h = hashes(&collected());
    assert!(!debounce_ready(&None, &Some(h.clone())));
    assert!(!debounce_ready(&Some(h.clone()), &None));
    assert!(!debounce_ready(&None, &None));
    assert!(debounce_ready(&Some(h.clone()), &Some(h.clone())));
    let mut other = h.clone();
    other[0].1 = Some("x".into());
    assert!(!debounce_ready(&Some(h), &Some(other)));
}

#[test]
fn background_step_runs_only_automatic_sync_after_a_stable_sample() {
    let h = hashes(&collected());
    let (kept, action) = background_step(None, BackgroundEvent::Sampled(Some(h.clone())));
    assert!(matches!(action, BackgroundAction::Wait));
    assert_eq!(kept, Some(h.clone()));
    let (kept, action) = background_step(kept, BackgroundEvent::Sampled(Some(h.clone())));
    assert!(matches!(action, BackgroundAction::Run(Operation::Auto)));
    assert_eq!(kept, Some(h.clone()));
    let (kept, action) = background_step(kept, BackgroundEvent::Sampled(None));
    assert!(matches!(action, BackgroundAction::Wait));
    assert_eq!(kept, None);
    let (kept, action) = background_step(Some(h.clone()), BackgroundEvent::AutoSyncOff);
    assert!(matches!(action, BackgroundAction::Disconnect));
    assert_eq!(kept, Some(h.clone()));
    let (kept, action) = background_step(Some(h.clone()), BackgroundEvent::SessionFailed);
    assert!(matches!(action, BackgroundAction::Disconnect));
    assert_eq!(kept, Some(h));
}

#[test]
fn state_bookkeeping() {
    let mut st = state("k");
    st.set_error("boom".into());
    assert_eq!(st.error, "boom");
    st.set_enabled(true);
    assert!(st.enabled);
    assert_eq!(st.error, "");
    st.set_error("again".into());
    st.record_sync(8, Vec::new(), 42);
    assert_eq!((st.version, st.last_sync, st.error.as_str()), (8, Some(42), ""));
    let mut report = Status::from_state(&st);
    assert!(!report.connected);
    assert_eq!(report.local_version, 8);
    let remote = sealed(&collected(), 9, "k");
    report.reached(&remote, false);
    assert!(report.connected);
    assert_eq!((report.server_version, report.files), (9, 4));
}
