//! What of each local file is synchronized: device-only settings are left
//! out, the model catalog is pointed at its synchronized copy, and every file
//! is checked against its format.

use vstd::prelude::*;
use vstd::string::{StrSliceExecFns, StringSliceAdditionalSpecFns};
use vstd::utf8::{decode_utf8, encode_utf8, valid_utf8};
use crate::error::SyncError;
use crate::files::FileSlot;
use crate::json::{
    JsonValue, JsonView, entries_view, insert_entry, obj_insert, obj_get, lemma_get_push, lemma_get_absent,
    lemma_obj_insert, keys_sorted, entry_keys, json_compact_spec, json_parse, json_parse_spec, json_pretty_spec,
    json_numbers_ok, json_to_vec, json_to_vec_pretty, insert_pos, lemma_view_containers,
};
use crate::text::{key_lt, str_equal};

verus! {

// ---------------------------------------------------------------- std and toml

/// Whether `s` starts with `prefix`, character by character.
pub(crate) fn has_prefix(s: &str, prefix: &str) -> (r: bool)
    ensures
        r == (s@.len() >= prefix@.len() && s@.take(prefix@.len() as int) == prefix@),
{
    let n = prefix.unicode_len();
    let m = s.unicode_len();
    if n > m {
        return false;
    }
    let mut i: usize = 0;
    while i < n
        invariant
            n == prefix@.len(),
            m == s@.len(),
            n <= m,
            i <= n,
            forall|j: int| 0 <= j < i ==> s@[j] == prefix@[j],
        decreases n - i,
    {
        if s.get_char(i) != prefix.get_char(i) {
            assert(s@.take(n as int)[i as int] != prefix@[i as int]);
            return false;
        }
        i = i + 1;
    }
    assert(s@.take(n as int) =~= prefix@);
    true
}

/// `std::str::from_utf8`: the text of valid UTF-8 bytes.
#[verifier::external_body]
pub(crate) fn utf8_text(bytes: &[u8]) -> (r: Option<&str>)
    ensures
        r is Some <==> valid_utf8(bytes@),
        r matches Some(s) ==> s@ == decode_utf8(bytes@),
{
    std::str::from_utf8(bytes).ok()
}

/// The top-level entries that `toml_edit` reads from a document, in document
/// order, each with whether it is a table; or the parser's error message.
pub uninterp spec fn toml_edit_inspect_spec(text: Seq<char>) -> Result<Seq<(Seq<char>, bool)>, Seq<char>>;

/// The text that `toml_edit` prints for the document `text` after
/// `doc[key] = value(string)`.
pub uninterp spec fn toml_edit_assign_spec(text: Seq<char>, key: Seq<char>, value: Seq<char>) -> Seq<char>;

/// The text that `toml_edit` prints for the document `text`, unchanged.
pub uninterp spec fn toml_edit_render_spec(text: Seq<char>) -> Seq<char>;

/// Whether `toml::from_str::<toml::Value>` accepts `text`.
pub uninterp spec fn toml_accepts_spec(text: Seq<char>) -> bool;

/// What `toml::from_str::<toml::Value>` reads at the top-level key `key`:
/// `None` where the text is not TOML, `Some(None)` where the key is absent or
/// not a string, `Some(Some(s))` for a string.
pub uninterp spec fn toml_top_string_spec(text: Seq<char>, key: Seq<char>) -> Option<Option<Seq<char>>>;

/// `text.parse::<toml_edit::DocumentMut>()`, then its top-level items with
/// `Item::is_table`, or `to_string` of the parse error. The items come from
/// the table's map, so no key occurs twice.
#[verifier::external_body]
pub(crate) fn toml_edit_inspect(text: &str) -> (r: Result<Vec<(String, bool)>, String>)
    ensures
        r matches Ok(es) ==> forall|i: int, j: int| 0 <= i < j < es@.len() ==> #[trigger] es@[i].0@ != #[trigger] es@[j].0@,
        match r {
            Ok(es) => toml_edit_inspect_spec(text@) == Ok::<Seq<(Seq<char>, bool)>, Seq<char>>(
                es@.map_values(|e: (String, bool)| (e.0@, e.1)),
            ),
            Err(m) => toml_edit_inspect_spec(text@) == Err::<Seq<(Seq<char>, bool)>, Seq<char>>(m@),
        },
{
    match text.parse::<toml_edit::DocumentMut>() {
        Ok(doc) => Ok(doc.iter().map(|(k, item)| (k.to_string(), item.is_table())).collect()),
        Err(error) => Err(error.to_string()),
    }
}

/// Parses `text` with `toml_edit`, sets `doc[key] = toml_edit::value(value)`
/// and prints the document; `None` exactly where parsing fails.
#[verifier::external_body]
fn toml_edit_assign(text: &str, key: &str, value: &str) -> (r: Option<String>)
    ensures
        r is Some <==> toml_edit_inspect_spec(text@) is Ok,
        r matches Some(s) ==> s@ == toml_edit_assign_spec(text@, key@, value@),
{
    let mut doc = text.parse::<toml_edit::DocumentMut>().ok()?;
    doc[key] = toml_edit::value(value);
    Some(doc.to_string())
}

/// Parses `text` with `toml_edit` and prints it again; `None` exactly where
/// parsing fails.
#[verifier::external_body]
fn toml_edit_render(text: &str) -> (r: Option<String>)
    ensures
        r is Some <==> toml_edit_inspect_spec(text@) is Ok,
        r matches Some(s) ==> s@ == toml_edit_render_spec(text@),
{
    text.parse::<toml_edit::DocumentMut>().ok().map(|doc| doc.to_string())
}

/// `toml::from_str::<toml::Value>(text).is_ok()`.
#[verifier::external_body]
fn toml_accepts(text: &str) -> (r: bool)
    ensures
        r == toml_accepts_spec(text@),
{
    toml::from_str::<toml::Value>(text).is_ok()
}

/// `toml::from_str::<toml::Value>(text)`, then `get(key)` and `as_str`.
#[verifier::external_body]
fn toml_top_string(text: &str, key: &str) -> (r: Option<Option<String>>)
    ensures
        match r {
            None => toml_top_string_spec(text@, key@) is None,
            Some(None) => toml_top_string_spec(text@, key@) == Some(None::<Seq<char>>),
            Some(Some(s)) => toml_top_string_spec(text@, key@) == Some(Some(s@)),
        },
{
    let config = toml::from_str::<toml::Value>(text).ok()?;
    Some(config.get(key).and_then(|v| v.as_str()).map(str::to_string))
}

// ---------------------------------------------------------------- settings.json

/// Settings that belong to one device and never leave it: everything of the
/// sync connection (`configSync*`) and machine-specific paths and tokens.
pub open spec fn is_local_setting(key: Seq<char>) -> bool {
    ||| (key.len() >= 10 && key.take(10) == "configSync"@)
    ||| key == "codexAppPath"@
    ||| key == "codexAppUserDataDir"@
    ||| key == "ccsDbPath"@
    ||| key == "codexAppImageOverlayPath"@
    ||| key == "weixinConnectWorkDir"@
    ||| key == "weixinConnectCodexPath"@
    ||| key == "weixinConnectToken"@
}

/// Whether a settings key belongs to this device only.
pub fn local_setting(key: &str) -> (r: bool)
    ensures
        r == is_local_setting(key@),
{
    proof { reveal_strlit("configSync"); }
    has_prefix(key, "configSync") || str_equal(key, "codexAppPath") || str_equal(key, "codexAppUserDataDir")
        || str_equal(key, "ccsDbPath") || str_equal(key, "codexAppImageOverlayPath")
        || str_equal(key, "weixinConnectWorkDir") || str_equal(key, "weixinConnectCodexPath")
        || str_equal(key, "weixinConnectToken")
}

/// The entries that are shared between devices, in order.
pub open spec fn shared_entries(e: Seq<(Seq<char>, JsonView)>) -> Seq<(Seq<char>, JsonView)>
    decreases e.len(),
{
    if e.len() == 0 {
        e
    } else if is_local_setting(e.last().0) {
        shared_entries(e.drop_last())
    } else {
        shared_entries(e.drop_last()).push(e.last())
    }
}

/// The synchronized form of `settings.json`: the object without its
/// device-only keys, written compactly.
pub open spec fn project_settings_spec(raw: Seq<u8>) -> Result<Seq<u8>, SyncError> {
    match json_parse_spec(raw) {
        None => Err(SyncError::SettingsNotJson),
        Some(JsonView::Object(e)) => Ok(json_compact_spec(JsonView::Object(shared_entries(e)))),
        Some(_) => Err(SyncError::SettingsNotObject),
    }
}

fn shared_only(entries: &Vec<(String, JsonValue)>) -> (r: Vec<(String, JsonValue)>)
    ensures
        entries_view(r@) == shared_entries(entries_view(entries@)),
{
    let ghost ev = entries_view(entries@);
    let mut out: Vec<(String, JsonValue)> = Vec::new();
    let mut i: usize = 0;
    assert(ev.take(0) =~= Seq::<(Seq<char>, JsonView)>::empty());
    assert(entries_view(out@) =~= Seq::<(Seq<char>, JsonView)>::empty());
    while i < entries.len()
        invariant
            i <= entries@.len(),
            ev == entries_view(entries@),
            entries_view(out@) == shared_entries(ev.take(i as int)),
        decreases entries@.len() - i,
    {
        proof {
            assert(ev.take(i + 1).drop_last() =~= ev.take(i as int));
            assert(ev.take(i + 1).last() == ev[i as int]);
        }
        if !local_setting(entries[i].0.as_str()) {
            let ghost before = entries_view(out@);
            out.push((entries[i].0.clone(), entries[i].1.deep_clone()));
            proof {
                assert(entries_view(out@) =~= before.push(ev[i as int]));
            }
        }
        i = i + 1;
    }
    assert(ev.take(entries@.len() as int) =~= ev);
    out
}

/// Entries whose values all have serde_json numbers.
pub open spec fn entries_numbers_ok(e: Seq<(Seq<char>, JsonView)>) -> bool {
    forall|i: int| 0 <= i < e.len() ==> json_numbers_ok(#[trigger] e[i].1)
}

proof fn lemma_shared_numbers(e: Seq<(Seq<char>, JsonView)>)
    requires
        entries_numbers_ok(e),
    ensures
        entries_numbers_ok(shared_entries(e)),
    decreases e.len(),
{
    if e.len() > 0 {
        let prev = e.drop_last();
        assert(entries_numbers_ok(prev)) by {
            assert forall|i: int| 0 <= i < prev.len() implies json_numbers_ok(#[trigger] prev[i].1) by {
                assert(prev[i] == e[i]);
            }
        }
        lemma_shared_numbers(prev);
        assert(json_numbers_ok(e[e.len() - 1].1));
    }
}

proof fn lemma_insert_numbers(e: Seq<(Seq<char>, JsonView)>, k: Seq<char>, v: JsonView)
    requires
        entries_numbers_ok(e),
        json_numbers_ok(v),
    ensures
        entries_numbers_ok(obj_insert(e, k, v)),
{
    let p = insert_pos(e, k);
    crate::json::lemma_insert_pos(e, k);
    let r = obj_insert(e, k, v);
    assert forall|i: int| 0 <= i < r.len() implies json_numbers_ok(#[trigger] r[i].1) by {
        if p < e.len() && e[p].0 == k {
            if i != p {
                assert(r[i] == e[i]);
            }
        } else if i < p {
            assert(r[i] == e[i]);
        } else if i > p {
            assert(r[i] == e[i - 1]);
        }
    }
}

proof fn lemma_keep_local_numbers(value: Seq<(Seq<char>, JsonView)>, original: Seq<(Seq<char>, JsonView)>)
    requires
        entries_numbers_ok(value),
        entries_numbers_ok(original),
    ensures
        entries_numbers_ok(keep_local(value, original)),
    decreases original.len(),
{
    if original.len() > 0 {
        let prev = original.drop_last();
        assert(entries_numbers_ok(prev)) by {
            assert forall|i: int| 0 <= i < prev.len() implies json_numbers_ok(#[trigger] prev[i].1) by {
                assert(prev[i] == original[i]);
            }
        }
        lemma_keep_local_numbers(value, prev);
        assert(json_numbers_ok(original[original.len() - 1].1));
        if is_local_setting(original.last().0) {
            lemma_insert_numbers(keep_local(value, prev), original.last().0, original.last().1);
        }
    }
}

/// The synchronized form of `settings.json`.
pub fn project_settings(raw: &[u8]) -> (r: Result<Vec<u8>, SyncError>)
    ensures
        match r {
            Ok(b) => project_settings_spec(raw@) == Ok::<Seq<u8>, SyncError>(b@),
            Err(e) => project_settings_spec(raw@) == Err::<Seq<u8>, SyncError>(e),
        },
{
    let value = match json_parse(raw) {
        None => return Err(SyncError::SettingsNotJson),
        Some(v) => v,
    };
    proof { lemma_view_containers(value); }
    match &value {
        JsonValue::Object(entries) => {
            let shared = JsonValue::Object(shared_only(entries));
            proof {
                lemma_view_containers(shared);
                lemma_shared_numbers(entries_view(entries@));
            }
            Ok(json_to_vec(&shared))
        },
        _ => Err(SyncError::SettingsNotObject),
    }
}

// ---------------------------------------------------------------- restoring device settings

/// The settings `value` with every device-only entry of `original` put back.
pub open spec fn keep_local(value: Seq<(Seq<char>, JsonView)>, original: Seq<(Seq<char>, JsonView)>) -> Seq<(Seq<char>, JsonView)>
    decreases original.len(),
{
    if original.len() == 0 {
        value
    } else if is_local_setting(original.last().0) {
        obj_insert(keep_local(value, original.drop_last()), original.last().0, original.last().1)
    } else {
        keep_local(value, original.drop_last())
    }
}

/// The `settings.json` to write for received settings `raw`: the shared
/// settings of `raw` with the device-only settings of the file it replaces,
/// written indented.
pub open spec fn restore_settings_spec(raw: Seq<u8>, original: Option<Seq<u8>>) -> Result<Seq<u8>, SyncError> {
    match project_settings_spec(raw) {
        Err(e) => Err(e),
        Ok(p) => match json_parse_spec(p) {
            None => Err(SyncError::SettingsNotJson),
            Some(v) => match original {
                None => Ok(json_pretty_spec(v)),
                Some(o) => match json_parse_spec(o) {
                    None => Err(SyncError::LocalSettingsNotJson),
                    Some(JsonView::Object(oe)) => match v {
                        JsonView::Object(ve) => Ok(json_pretty_spec(JsonView::Object(keep_local(ve, oe)))),
                        _ => Err(SyncError::SettingsNotObject),
                    },
                    Some(_) => Err(SyncError::LocalSettingsNotObject),
                },
            },
        },
    }
}

/// The bytes of an optional byte slice.
pub open spec fn opt_slice_view(o: Option<&[u8]>) -> Option<Seq<u8>> {
    match o {
        Some(b) => Some(b@),
        None => None,
    }
}

/// The settings file to write when received settings `raw` replace the
/// device's `original` one: shared settings come from `raw`, device-only
/// settings stay as `original` had them.
pub fn restore_settings(raw: &[u8], original: Option<&[u8]>) -> (r: Result<Vec<u8>, SyncError>)
    ensures
        match r {
            Ok(b) => restore_settings_spec(raw@, opt_slice_view(original)) == Ok::<Seq<u8>, SyncError>(b@),
            Err(e) => restore_settings_spec(raw@, opt_slice_view(original)) == Err::<Seq<u8>, SyncError>(e),
        },
{
    let projected = project_settings(raw)?;
    let value = match json_parse(projected.as_slice()) {
        None => return Err(SyncError::SettingsNotJson),
        Some(v) => v,
    };
    proof { lemma_view_containers(value); }
    match original {
        None => Ok(json_to_vec_pretty(&value)),
        Some(o) => {
            let old = match json_parse(o) {
                None => return Err(SyncError::LocalSettingsNotJson),
                Some(v) => v,
            };
            proof { lemma_view_containers(old); }
            let old_entries = match &old {
                JsonValue::Object(e) => e,
                _ => return Err(SyncError::LocalSettingsNotObject),
            };
            let mut entries = match value {
                JsonValue::Object(e) => e,
                _ => return Err(SyncError::SettingsNotObject),
            };
            let ghost ve = entries_view(entries@);
            let ghost oe = entries_view(old_entries@);
            let mut i: usize = 0;
            assert(oe.take(0) =~= Seq::<(Seq<char>, JsonView)>::empty());
            while i < old_entries.len()
                invariant
                    i <= old_entries@.len(),
                    oe == entries_view(old_entries@),
                    entries_view(entries@) == keep_local(ve, oe.take(i as int)),
                decreases old_entries@.len() - i,
            {
                proof {
                    assert(oe.take(i + 1).drop_last() =~= oe.take(i as int));
                    assert(oe.take(i + 1).last() == oe[i as int]);
                }
                if local_setting(old_entries[i].0.as_str()) {
                    insert_entry(&mut entries, old_entries[i].0.clone(), old_entries[i].1.deep_clone());
                }
                i = i + 1;
            }
            assert(oe.take(old_entries@.len() as int) =~= oe);
            let merged = JsonValue::Object(entries);
            proof {
                lemma_view_containers(merged);
                lemma_keep_local_numbers(ve, oe);
            }
            Ok(json_to_vec_pretty(&merged))
        },
    }
}

// ---------------------------------------------------------------- laws of the settings

/// Law: the synchronized settings hold no device-only key, and every other
/// key with the value it had.
pub proof fn law_projection_keeps_only_shared(e: Seq<(Seq<char>, JsonView)>, k: Seq<char>)
    ensures
        obj_get(shared_entries(e), k) == if is_local_setting(k) { None } else { obj_get(e, k) },
    decreases e.len(),
{
    if e.len() > 0 {
        let prev = e.drop_last();
        let x = e.last();
        assert(e =~= prev.push(x));
        law_projection_keeps_only_shared(prev, k);
        lemma_get_push(prev, x, k);
        if !is_local_setting(x.0) {
            lemma_get_push(shared_entries(prev), x, k);
        }
    }
}

/// Law: none of the device-only settings is ever synchronized: the
/// manager's own paths, the WeChat bridge's paths and token, and every
/// `configSync…` setting are missing from the synchronized settings,
/// whatever the device's file holds.
pub proof fn law_device_settings_never_shared(e: Seq<(Seq<char>, JsonView)>)
    ensures
        obj_get(shared_entries(e), "codexAppPath"@) is None,
        obj_get(shared_entries(e), "codexAppUserDataDir"@) is None,
        obj_get(shared_entries(e), "ccsDbPath"@) is None,
        obj_get(shared_entries(e), "codexAppImageOverlayPath"@) is None,
        obj_get(shared_entries(e), "weixinConnectWorkDir"@) is None,
        obj_get(shared_entries(e), "weixinConnectCodexPath"@) is None,
        obj_get(shared_entries(e), "weixinConnectToken"@) is None,
        forall|k: Seq<char>| k.len() >= 10 && k.take(10) == "configSync"@
            ==> #[trigger] obj_get(shared_entries(e), k) is None,
{
    law_projection_keeps_only_shared(e, "codexAppPath"@);
    law_projection_keeps_only_shared(e, "codexAppUserDataDir"@);
    law_projection_keeps_only_shared(e, "ccsDbPath"@);
    law_projection_keeps_only_shared(e, "codexAppImageOverlayPath"@);
    law_projection_keeps_only_shared(e, "weixinConnectWorkDir"@);
    law_projection_keeps_only_shared(e, "weixinConnectCodexPath"@);
    law_projection_keeps_only_shared(e, "weixinConnectToken"@);
    assert forall|k: Seq<char>| k.len() >= 10 && k.take(10) == "configSync"@
        implies #[trigger] obj_get(shared_entries(e), k) is None by {
        law_projection_keeps_only_shared(e, k);
    }
}

proof fn lemma_sorted_prefix(e: Seq<(Seq<char>, JsonView)>)
    requires
        e.len() > 0,
        keys_sorted(entry_keys(e)),
    ensures
        keys_sorted(entry_keys(e.drop_last())),
        !entry_keys(e.drop_last()).contains(e.last().0),
{
    crate::text::lemma_key_order();
    let ks = entry_keys(e);
    assert(entry_keys(e.drop_last()) =~= ks.drop_last());
    if entry_keys(e.drop_last()).contains(e.last().0) {
        let j = choose|j: int| 0 <= j < ks.drop_last().len() && ks.drop_last()[j] == e.last().0;
        assert(key_lt(ks[j], ks[e.len() - 1]));
    }
}

/// Law: restoring received settings keeps each device-only setting of the
/// device's own file and takes every other setting from the received ones.
pub proof fn law_restore_keeps_device_settings(
    received: Seq<(Seq<char>, JsonView)>,
    original: Seq<(Seq<char>, JsonView)>,
    k: Seq<char>,
)
    requires
        keys_sorted(entry_keys(received)),
        keys_sorted(entry_keys(original)),
    ensures
        keys_sorted(entry_keys(keep_local(received, original))),
        obj_get(keep_local(received, original), k) == if is_local_setting(k) && obj_get(original, k) is Some {
            obj_get(original, k)
        } else {
            obj_get(received, k)
        },
    decreases original.len(),
{
    if original.len() > 0 {
        let prev = original.drop_last();
        let x = original.last();
        assert(original =~= prev.push(x));
        lemma_sorted_prefix(original);
        law_restore_keeps_device_settings(received, prev, k);
        lemma_get_push(prev, x, k);
        if x.0 == k {
            lemma_get_absent(prev, k);
        }
        if is_local_setting(x.0) {
            lemma_obj_insert(keep_local(received, prev), x.0, x.1, k);
        }
    }
}

// ---------------------------------------------------------------- config.toml

/// The keys of top-level TOML entries.
pub open spec fn toml_keys(entries: Seq<(Seq<char>, bool)>) -> Seq<Seq<char>> {
    entries.map_values(|e: (Seq<char>, bool)| e.0)
}

/// The synchronized form of `config.toml`: where the document names a model
/// catalog, the name is replaced by `config-sync-models.json`, the file that
/// receiving devices write the catalog to.
pub open spec fn project_config_spec(raw: Seq<u8>) -> Result<Seq<u8>, SyncError> {
    if !valid_utf8(raw) {
        Err(SyncError::ConfigNotUtf8)
    } else {
        let text = decode_utf8(raw);
        match toml_edit_inspect_spec(text) {
            Err(_) => Err(SyncError::ConfigNotToml),
            Ok(entries) => Ok(encode_utf8(
                if toml_keys(entries).contains("model_catalog_json"@) {
                    toml_edit_assign_spec(text, "model_catalog_json"@, "config-sync-models.json"@)
                } else {
                    toml_edit_render_spec(text)
                },
            )),
        }
    }
}

fn has_toml_key(entries: &Vec<(String, bool)>, key: &str) -> (r: bool)
    ensures
        r == toml_keys(entries@.map_values(|e: (String, bool)| (e.0@, e.1))).contains(key@),
{
    let ghost keys = toml_keys(entries@.map_values(|e: (String, bool)| (e.0@, e.1)));
    let mut i: usize = 0;
    while i < entries.len()
        invariant
            i <= entries@.len(),
            keys == toml_keys(entries@.map_values(|e: (String, bool)| (e.0@, e.1))),
            forall|j: int| 0 <= j < i ==> keys[j] != key@,
        decreases entries@.len() - i,
    {
        if str_equal(entries[i].0.as_str(), key) {
            assert(keys[i as int] == key@);
            return true;
        }
        i = i + 1;
    }
    false
}

fn text_bytes(s: &str) -> (r: Vec<u8>)
    ensures
        r@ == encode_utf8(s@),
{
    vstd::slice::slice_to_vec(s.as_bytes())
}

/// The synchronized form of `config.toml`.
pub fn project_config(raw: &[u8]) -> (r: Result<Vec<u8>, SyncError>)
    ensures
        match r {
            Ok(b) => project_config_spec(raw@) == Ok::<Seq<u8>, SyncError>(b@),
            Err(e) => project_config_spec(raw@) == Err::<Seq<u8>, SyncError>(e),
        },
{
    let text = match utf8_text(raw) {
        None => return Err(SyncError::ConfigNotUtf8),
        Some(t) => t,
    };
    let entries = match toml_edit_inspect(text) {
        Err(_) => return Err(SyncError::ConfigNotToml),
        Ok(es) => es,
    };
    if has_toml_key(&entries, "model_catalog_json") {
        match toml_edit_assign(text, "model_catalog_json", "config-sync-models.json") {
            Some(out) => Ok(text_bytes(out.as_str())),
            None => Err(SyncError::ConfigNotToml),
        }
    } else {
        match toml_edit_render(text) {
            Some(out) => Ok(text_bytes(out.as_str())),
            None => Err(SyncError::ConfigNotToml),
        }
    }
}

/// Where `config.toml` (the text `config`) says the model catalog is: the
/// string at its top-level `model_catalog_json`, if any.
pub open spec fn catalog_reference_spec(config: Seq<char>) -> Result<Option<Seq<char>>, SyncError> {
    match toml_top_string_spec(config, "model_catalog_json"@) {
        None => Err(SyncError::ConfigNotToml),
        Some(r) => Ok(r),
    }
}

/// The components of a path, each as its raw bytes.
pub open spec fn components_view(c: Seq<Vec<u8>>) -> Seq<Seq<u8>> {
    c.map_values(|b: Vec<u8>| b@)
}

/// Whether the catalog file lies inside the Codex home, given both paths
/// resolved and split into components: the home's components begin the
/// catalog's (as `Path::starts_with` compares them).
pub fn catalog_inside_home(home: &Vec<Vec<u8>>, catalog: &Vec<Vec<u8>>) -> (r: bool)
    ensures
        r == (home@.len() <= catalog@.len()
            && components_view(catalog@).take(home@.len() as int) == components_view(home@)),
{
    if home.len() > catalog.len() {
        return false;
    }
    let mut i: usize = 0;
    while i < home.len()
        invariant
            home@.len() <= catalog@.len(),
            i <= home@.len(),
            forall|j: int| 0 <= j < i ==> home@[j]@ == catalog@[j]@,
        decreases home@.len() - i,
    {
        if !crate::text::bytes_equal(home[i].as_slice(), catalog[i].as_slice()) {
            assert(components_view(catalog@).take(home@.len() as int)[i as int] != components_view(home@)[i as int]);
            return false;
        }
        i = i + 1;
    }
    assert(components_view(catalog@).take(home@.len() as int) =~= components_view(home@));
    true
}

/// The model catalog file that `config.toml` names, if it names one.
pub fn catalog_reference(config: &str) -> (r: Result<Option<String>, SyncError>)
    ensures
        match r {
            Ok(Some(s)) => catalog_reference_spec(config@) == Ok::<Option<Seq<char>>, SyncError>(Some(s@)),
            Ok(None) => catalog_reference_spec(config@) == Ok::<Option<Seq<char>>, SyncError>(None),
            Err(e) => catalog_reference_spec(config@) == Err::<Option<Seq<char>>, SyncError>(e),
        },
{
    match toml_top_string(config, "model_catalog_json") {
        None => Err(SyncError::ConfigNotToml),
        Some(r) => Ok(r),
    }
}

// ---------------------------------------------------------------- formats

/// The format check of a file: `config.toml` must be UTF-8 TOML, every other
/// file JSON.
pub open spec fn validate_content_spec(slot: FileSlot, raw: Seq<u8>) -> Result<(), SyncError> {
    if slot == FileSlot::Config {
        if !valid_utf8(raw) {
            Err(SyncError::ConfigNotUtf8)
        } else if !toml_accepts_spec(decode_utf8(raw)) {
            Err(SyncError::ConfigNotToml)
        } else {
            Ok(())
        }
    } else if json_parse_spec(raw) is None {
        Err(SyncError::InvalidContent(slot))
    } else {
        Ok(())
    }
}

/// Checks a file's content against its format.
pub fn validate_content(slot: FileSlot, raw: &[u8]) -> (r: Result<(), SyncError>)
    ensures
        r == validate_content_spec(slot, raw@),
{
    match slot {
        FileSlot::Config => match utf8_text(raw) {
            None => Err(SyncError::ConfigNotUtf8),
            Some(text) => if toml_accepts(text) { Ok(()) } else { Err(SyncError::ConfigNotToml) },
        },
        _ => match json_parse(raw) {
            None => Err(SyncError::InvalidContent(slot)),
            Some(_) => Ok(()),
        },
    }
}

// ---------------------------------------------------------------- reading local files

/// What the file system says of a path before it is read.
#[derive(Debug, Clone, Copy)]
pub struct FileMeta {
    pub symlink: bool,
    pub regular: bool,
    pub len: u64,
}

/// The outcome of reading a file.
#[derive(Debug, Clone)]
pub enum FileBytes {
    Missing,
    Unreadable,
    Read(Vec<u8>),
}

/// The largest synchronized file, in bytes.
pub const MAX_FILE_LEN: u64 = 600_000;

/// The synchronized form of a file's bytes.
pub open spec fn project_file_spec(slot: FileSlot, raw: Seq<u8>) -> Result<Seq<u8>, SyncError> {
    match slot {
        FileSlot::Settings => project_settings_spec(raw),
        FileSlot::Config => project_config_spec(raw),
        _ => Ok(raw),
    }
}

/// What a local file contributes to the synchronized set: the file must be a
/// regular file (not a link) of at most [`MAX_FILE_LEN`] bytes; a missing
/// file is a missing slot; the content is projected for its slot.
pub open spec fn accept_file_spec(slot: FileSlot, meta: Option<FileMeta>, bytes: FileBytes) -> Result<Option<Seq<u8>>, SyncError> {
    if meta matches Some(m) && (m.symlink || !m.regular) {
        Err(SyncError::NotRegularFile(slot))
    } else if meta matches Some(m) && m.len > MAX_FILE_LEN {
        Err(SyncError::FileTooLarge(slot))
    } else {
        match bytes {
            FileBytes::Missing => Ok(None),
            FileBytes::Unreadable => Err(SyncError::ReadFailed(slot)),
            FileBytes::Read(raw) => match project_file_spec(slot, raw@) {
                Ok(p) => Ok(Some(p)),
                Err(e) => Err(e),
            },
        }
    }
}

/// The synchronized content of one local file.
pub fn accept_file(slot: FileSlot, meta: Option<FileMeta>, bytes: FileBytes) -> (r: Result<Option<Vec<u8>>, SyncError>)
    ensures
        match r {
            Ok(Some(b)) => accept_file_spec(slot, meta, bytes) == Ok::<Option<Seq<u8>>, SyncError>(Some(b@)),
            Ok(None) => accept_file_spec(slot, meta, bytes) == Ok::<Option<Seq<u8>>, SyncError>(None),
            Err(e) => accept_file_spec(slot, meta, bytes) == Err::<Option<Seq<u8>>, SyncError>(e),
        },
{
    if let Some(m) = meta {
        if m.symlink || !m.regular {
            return Err(SyncError::NotRegularFile(slot));
        }
        if m.len > MAX_FILE_LEN {
            return Err(SyncError::FileTooLarge(slot));
        }
    }
    match bytes {
        FileBytes::Missing => Ok(None),
        FileBytes::Unreadable => Err(SyncError::ReadFailed(slot)),
        FileBytes::Read(raw) => {
            let projected = match slot {
                FileSlot::Settings => project_settings(raw.as_slice()),
                FileSlot::Config => project_config(raw.as_slice()),
                _ => Ok(raw),
            };
            match projected {
                Ok(p) => Ok(Some(p)),
                Err(e) => Err(e),
            }
        },
    }
}

/// Law: a readable regular file of at most 600000 bytes is taken in its
/// synchronized form: `settings.json` without its device-only settings,
/// `config.toml` with its catalog pointed at the synchronized copy (each
/// refused exactly where that projection fails), the other files as they are.
pub proof fn law_accepted_file_is_projected(slot: FileSlot, m: FileMeta, raw: Vec<u8>)
    requires
        !m.symlink,
        m.regular,
        m.len <= 600000,
    ensures
        slot == FileSlot::Config ==> accept_file_spec(slot, Some(m), FileBytes::Read(raw)) == match project_config_spec(raw@) {
            Ok(p) => Ok::<Option<Seq<u8>>, SyncError>(Some(p)),
            Err(e) => Err(e),
        },
        slot == FileSlot::Settings ==> accept_file_spec(slot, Some(m), FileBytes::Read(raw)) == match project_settings_spec(raw@) {
            Ok(p) => Ok::<Option<Seq<u8>>, SyncError>(Some(p)),
            Err(e) => Err(e),
        },
        slot == FileSlot::Models || slot == FileSlot::Auth
            ==> accept_file_spec(slot, Some(m), FileBytes::Read(raw)) == Ok::<Option<Seq<u8>>, SyncError>(Some(raw@)),
{
}

/// Law: a `config.toml` that names a model catalog is synchronized with
/// `model_catalog_json` set to `config-sync-models.json`, the file that
/// receiving devices write the catalog to; one that names none is
/// synchronized as toml_edit prints it back.
pub proof fn law_config_points_at_synced_catalog(raw: Seq<u8>)
    requires
        valid_utf8(raw),
        toml_edit_inspect_spec(decode_utf8(raw)) is Ok,
    ensures
        toml_keys(toml_edit_inspect_spec(decode_utf8(raw))->Ok_0).contains("model_catalog_json"@)
            ==> project_config_spec(raw) == Ok::<Seq<u8>, SyncError>(encode_utf8(
                toml_edit_assign_spec(decode_utf8(raw), "model_catalog_json"@, "config-sync-models.json"@),
            )),
        !toml_keys(toml_edit_inspect_spec(decode_utf8(raw))->Ok_0).contains("model_catalog_json"@)
            ==> project_config_spec(raw) == Ok::<Seq<u8>, SyncError>(encode_utf8(toml_edit_render_spec(decode_utf8(raw)))),
{
}

} // verus!
