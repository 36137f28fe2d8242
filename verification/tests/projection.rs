use codex_plus_core::error::SyncError;
use codex_plus_core::files::FileSlot;
use codex_plus_core::json::{insert_entry, json_equal, object_get, JsonValue};
use codex_plus_core::projection::{
    catalog_inside_home, catalog_reference, local_setting, project_config, project_settings, restore_settings, validate_content,
};

#[test]
fn device_only_settings() {
    assert!(local_setting("configSyncToken"));
    assert!(local_setting("configSync"));
    assert!(local_setting("codexAppPath"));
    assert!(local_setting("weixinConnectToken"));
    assert!(!local_setting("theme"));
    assert!(!local_setting("configsyncToken"));
    assert!(!local_setting("codexAppPathX"));
}

#[test]
fn projected_settings_are_compact_and_shared_only() {
    let out = project_settings(br#"{"theme":"dark","configSyncServerUrl":"https://x","ccsDbPath":"/p","lang":"en"}"#).unwrap();
    assert_eq!(out, br#"{"lang":"en","theme":"dark"}"#.to_vec());
    assert_eq!(project_settings(b"nope"), Err(SyncError::SettingsNotJson));
    assert_eq!(project_settings(b"[1]"), Err(SyncError::SettingsNotObject));
}

#[test]
fn restored_settings_are_indented() {
    let out = restore_settings(br#"{"theme":"light"}"#, None).unwrap();
    assert_eq!(String::from_utf8(out).unwrap(), "{\n  \"theme\": \"light\"\n}");
    assert_eq!(restore_settings(br#"{"a":1}"#, Some(b"oops")), Err(SyncError::LocalSettingsNotJson));
    assert_eq!(restore_settings(br#"{"a":1}"#, Some(b"[]")), Err(SyncError::LocalSettingsNotObject));
    assert_eq!(restore_settings(b"1", None), Err(SyncError::SettingsNotObject));
}

#[test]
fn restored_settings_drop_received_device_settings() {
    let out = restore_settings(br#"{"theme":"light","ccsDbPath":"/theirs"}"#, Some(br#"{"theme":"dark"}"#)).unwrap();
    let value: serde_json::Value = serde_json::from_slice(&out).unwrap();
    assert_eq!(value["theme"], "light");
    assert!(value.get("ccsDbPath").is_none());
}

#[test]
fn config_names_the_shared_model_catalog() {
    let out = project_config(b"model_catalog_json = \"my-models.json\"\nmodel = 'gpt'\n").unwrap();
    let text = String::from_utf8(out).unwrap();
    assert!(text.contains("config-sync-models.json"));
    assert!(!text.contains("my-models.json"));
    assert!(text.contains("model = 'gpt'"));
    assert_eq!(project_config(b"model = 'gpt'\n# note\n").unwrap(), b"model = 'gpt'\n# note\n".to_vec());
    assert_eq!(project_config(b"model = [").err(), Some(SyncError::ConfigNotToml));
    assert_eq!(project_config(&[0xff, 0xfe]).err(), Some(SyncError::ConfigNotUtf8));
}

#[test]
fn catalog_reference_reads_the_top_level_string() {
    assert_eq!(catalog_reference("model_catalog_json = \"cat.json\""), Ok(Some("cat.json".to_string())));
    assert_eq!(catalog_reference("model = 'x'"), Ok(None));
    assert_eq!(catalog_reference("model_catalog_json = 3"), Ok(None));
    assert_eq!(catalog_reference("[t]\nmodel_catalog_json = \"cat.json\""), Ok(None));
    assert_eq!(catalog_reference("model = ["), Err(SyncError::ConfigNotToml));
}

#[test]
fn formats_are_checked_per_file() {
    assert_eq!(validate_content(FileSlot::Config, b"a = 1"), Ok(()));
    assert_eq!(validate_content(FileSlot::Config, b"a = "), Err(SyncError::ConfigNotToml));
    assert_eq!(validate_content(FileSlot::Config, &[0xc3]), Err(SyncError::ConfigNotUtf8));
    assert_eq!(validate_content(FileSlot::Models, b"[1,2]"), Ok(()));
    assert_eq!(validate_content(FileSlot::Auth, b"{"), Err(SyncError::InvalidContent(FileSlot::Auth)));
    assert_eq!(validate_content(FileSlot::Settings, b"1"), Ok(()));
}

#[test]
fn json_objects_keep_their_keys_sorted() {
    let mut entries: Vec<(String, JsonValue)> = Vec::new();
    insert_entry(&mut entries, "b".into(), JsonValue::Bool(true));
    insert_entry(&mut entries, "a".into(), JsonValue::Null);
    insert_entry(&mut entries, "b".into(), JsonValue::Bool(false));
    let keys: Vec<&str> = entries.iter().map(|(k, _)| k.as_str()).collect();
    assert_eq!(keys, vec!["a", "b"]);
    assert!(json_equal(object_get(&entries, "b").unwrap(), &JsonValue::Bool(false)));
    assert!(object_get(&entries, "c").is_none());
    let doc = JsonValue::Object(entries);
    assert!(json_equal(&doc.deep_clone(), &doc));
    assert!(!json_equal(&doc, &JsonValue::Null));
}

fn parts(path: &[&str]) -> Vec<Vec<u8>> {
    path.iter().map(|p| p.as_bytes().to_vec()).collect()
}

#[test]
fn catalog_must_lie_inside_the_home() {
    let home = parts(&["/", "home", "u", ".codex"]);
    assert!(catalog_inside_home(&home, &parts(&["/", "home", "u", ".codex", "models.json"])));
    assert!(catalog_inside_home(&home, &parts(&["/", "home", "u", ".codex", "sub", "m.json"])));
    assert!(!catalog_inside_home(&home, &parts(&["/", "home", "u", "models.json"])));
    assert!(!catalog_inside_home(&home, &parts(&["/", "home", "u", ".codex-other", "m.json"])));
    assert!(!catalog_inside_home(&home, &parts(&["/", "home"])));
}
