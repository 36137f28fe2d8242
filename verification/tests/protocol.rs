use codex_plus_core::error::SyncError;
use codex_plus_core::files::FileSlot;
use codex_plus_core::json::JsonValue;
use codex_plus_core::protocol::{
    change_json, login_url, sync_candidate_paths, validate_server_url, SyncChange, SyncClient, SyncClientConfig, SyncFile,
};
use codex_plus_core::text::decimal_string;

fn client(server: &str) -> SyncClient {
    SyncClient::new(SyncClientConfig {
        server_url: server.to_string(),
        access_token: String::new(),
        device_token: "tok".to_string(),
        device_id: "dev".to_string(),
    })
    .unwrap()
}

#[test]
fn server_addresses_must_be_https_or_loopback() {
    assert_eq!(validate_server_url("https://sync.example"), Ok(()));
    assert_eq!(validate_server_url("http://127.0.0.1:8080"), Ok(()));
    assert_eq!(validate_server_url("http://localhost/"), Ok(()));
    assert_eq!(validate_server_url("http://[::1]:9000"), Ok(()));
    assert_eq!(validate_server_url("http://sync.example"), Err(SyncError::InsecureServerUrl));
    assert_eq!(validate_server_url("ftp://sync.example"), Err(SyncError::InsecureServerUrl));
    assert_eq!(validate_server_url("not a url"), Err(SyncError::InvalidServerUrl));
}

#[test]
fn server_addresses_carry_no_credentials_query_or_fragment() {
    assert_eq!(validate_server_url("https://user:pw@sync.example"), Err(SyncError::ServerUrlExtras));
    assert_eq!(validate_server_url("https://user@sync.example"), Err(SyncError::ServerUrlExtras));
    assert_eq!(validate_server_url("https://sync.example/?a=1"), Err(SyncError::ServerUrlExtras));
    assert_eq!(validate_server_url("https://sync.example/#top"), Err(SyncError::ServerUrlExtras));
}

#[test]
fn clients_refuse_bad_addresses() {
    let config = SyncClientConfig {
        server_url: "http://sync.example".into(),
        access_token: String::new(),
        device_token: String::new(),
        device_id: String::new(),
    };
    assert_eq!(SyncClient::new(config).err(), Some(SyncError::InsecureServerUrl));
}

#[test]
fn endpoints_are_joined_by_one_slash() {
    let c = client("https://sync.example//");
    assert_eq!(c.url("/v1/sync/state"), "https://sync.example/v1/sync/state");
    assert_eq!(c.url("v1/devices"), "https://sync.example/v1/devices");
    assert_eq!(c.config().device_token, "tok");
    assert_eq!(c.config().device_id, "dev");
}

#[test]
fn websocket_address_follows_the_scheme() {
    assert_eq!(client("https://sync.example/").websocket_url(), "wss://sync.example/v1/sync/ws");
    assert_eq!(client("http://127.0.0.1:8080").websocket_url(), "ws://127.0.0.1:8080/v1/sync/ws");
}

#[test]
fn candidate_paths_in_the_codex_home() {
    let sep = std::path::MAIN_SEPARATOR;
    let paths = sync_candidate_paths("home");
    assert_eq!(
        paths,
        vec![
            format!("home{sep}settings.json"),
            format!("home{sep}config.toml"),
            format!("home{sep}models.json"),
            format!("home{sep}auth.json"),
        ]
    );
}

#[test]
fn file_slots_and_names() {
    for (i, name) in ["auth.json", "config.toml", "models.json", "settings.json"].iter().enumerate() {
        let slot = FileSlot::from_name(name).unwrap();
        assert_eq!(slot.name(), *name);
        assert_eq!(slot.index(), i);
        assert_eq!(FileSlot::at(i), slot);
    }
    assert_eq!(FileSlot::from_name("state.json"), None);
    assert_eq!(FileSlot::from_name("Auth.json"), None);
}

#[test]
fn login_address() {
    assert_eq!(login_url("https://sync.example/"), Ok("https://sync.example/v1/auth/login".to_string()));
    assert_eq!(login_url("http://sync.example"), Err(SyncError::InsecureServerUrl));
}

#[test]
fn numbers_are_written_in_decimal() {
    assert_eq!(decimal_string(0), "0");
    assert_eq!(decimal_string(7), "7");
    assert_eq!(decimal_string(10), "10");
    assert_eq!(decimal_string(1234567890), "1234567890");
    assert_eq!(decimal_string(u64::MAX), u64::MAX.to_string());
}

#[test]
fn changes_travel_as_json_with_ordered_keys() {
    let file = SyncFile {
        path: "auth.json".into(),
        content_hash: "ab".into(),
        version: 3,
        encrypted_content: "sealed".into(),
        deleted: false,
    };
    let change = SyncChange { change_id: "id".into(), device_id: "dev".into(), base_version: 12, files: vec![file] };
    let json = change_json(&change);
    let entries = match &json {
        JsonValue::Object(entries) => entries,
        _ => panic!("a change is an object"),
    };
    let keys: Vec<&str> = entries.iter().map(|(k, _)| k.as_str()).collect();
    assert_eq!(keys, vec!["baseVersion", "changeId", "deviceId", "files"]);
    assert!(matches!(&entries[0].1, JsonValue::Number(n) if n == "12"));
    assert!(matches!(&entries[1].1, JsonValue::Str(s) if s == "id"));
    let items = match &entries[3].1 {
        JsonValue::Array(items) => items,
        _ => panic!("the files are an array"),
    };
    let file_entries = match &items[0] {
        JsonValue::Object(e) => e,
        _ => panic!("a file is an object"),
    };
    let file_keys: Vec<&str> = file_entries.iter().map(|(k, _)| k.as_str()).collect();
    assert_eq!(file_keys, vec!["contentHash", "deleted", "encryptedContent", "path", "version"]);
    assert!(matches!(&file_entries[1].1, JsonValue::Bool(false)));
    assert!(matches!(&file_entries[4].1, JsonValue::Number(n) if n == "3"));
}
