//! The sync service's rules: which uploads it accepts, how its change log
//! folds into the current snapshot, and when a device's acknowledgement holds.
//! The service keeps its log in a database; these functions decide on what
//! it reads.

use vstd::prelude::*;
use vstd::string::StringSliceAdditionalSpecFns;
use vstd::utf8::encode_utf8;
use crate::contents::{Hashes, hashes_view, opt_string_view, wire_digest, wire_hashes_spec};
use crate::crypto::{content_hash, content_hash_spec};
use crate::files::{FileSlot, lemma_slot_names_ordered, slot_at, slot_name, slot_of_name};
use crate::json::{
    JsonValue, JsonView, entries_view, entry_keys, insert_entry, items_view, json_equal, json_parse, json_parse_spec, json_same,
    insert_pos, keys_sorted, lemma_insert_pos, lemma_obj_insert, lemma_view_containers, obj_get, obj_insert,
    object_get,
};
use crate::protocol::file_json_spec;
use crate::snapshot::{SyncFileView, sealed_file};
use crate::text::{key_lt, str_equal};

verus! {

// ---------------------------------------------------------------- reading fields

/// `item.get(key).and_then(Value::as_str).unwrap_or_default()`.
pub open spec fn str_field(item: JsonView, key: Seq<char>) -> Seq<char> {
    match item {
        JsonView::Object(e) => match obj_get(e, key) {
            Some(JsonView::Str(s)) => s,
            _ => Seq::empty(),
        },
        _ => Seq::empty(),
    }
}

/// `item.get(key).and_then(Value::as_bool)`.
pub open spec fn bool_field(item: JsonView, key: Seq<char>) -> Option<bool> {
    match item {
        JsonView::Object(e) => match obj_get(e, key) {
            Some(JsonView::Bool(b)) => Some(b),
            _ => None,
        },
        _ => None,
    }
}

fn get_str(item: &JsonValue, key: &str) -> (r: String)
    ensures
        r@ == str_field(item@, key@),
{
    proof { lemma_view_containers(*item); }
    match item {
        JsonValue::Object(e) => match object_get(e, key) {
            Some(JsonValue::Str(s)) => s.clone(),
            Some(other) => {
                proof { lemma_view_containers(*other); }
                assert(crate::json::json_kind(other@) != 3);
                String::new()
            },
            None => String::new(),
        },
        other => {
            assert(crate::json::json_kind(other@) != 5);
            String::new()
        },
    }
}

fn get_bool(item: &JsonValue, key: &str) -> (r: Option<bool>)
    ensures
        r == bool_field(item@, key@),
{
    proof { lemma_view_containers(*item); }
    match item {
        JsonValue::Object(e) => match object_get(e, key) {
            Some(JsonValue::Bool(b)) => Some(*b),
            Some(other) => {
                proof { lemma_view_containers(*other); }
                assert(crate::json::json_kind(other@) != 1);
                None
            },
            None => None,
        },
        other => {
            assert(crate::json::json_kind(other@) != 5);
            None
        },
    }
}

// ---------------------------------------------------------------- accepted uploads

/// An ASCII hex digit, as a byte.
pub open spec fn is_hex_byte(b: u8) -> bool {
    (48 <= b <= 57) || (65 <= b <= 70) || (97 <= b <= 102)
}

/// A SHA-256 hex digest: 64 hex digits.
pub open spec fn hex_digest_text(hash: Seq<char>) -> bool {
    encode_utf8(hash).len() == 64 && forall|i: int| 0 <= i < 64 ==> is_hex_byte(#[trigger] encode_utf8(hash)[i])
}

/// The largest encrypted content the service stores, in bytes.
pub open spec fn max_encrypted_len() -> int {
    900_000
}

/// One uploaded file is acceptable: a synchronized file name; encrypted
/// content of at most 900 000 bytes; a deletion marker that is present, and
/// either set with no content and no hash, or clear with content of at
/// least 40 bytes and no hash or a hex SHA-256 digest.
pub open spec fn file_ok(item: JsonView) -> bool {
    let path = str_field(item, "path"@);
    let content = str_field(item, "encryptedContent"@);
    let hash = str_field(item, "contentHash"@);
    &&& slot_of_name(path) is Some
    &&& encode_utf8(content).len() <= max_encrypted_len()
    &&& match bool_field(item, "deleted"@) {
        Some(true) => content.len() == 0 && hash.len() == 0,
        Some(false) => encode_utf8(content).len() >= 40 && (hash.len() == 0 || hex_digest_text(hash)),
        None => false,
    }
}

/// An upload's file list is acceptable: an array of one to four acceptable
/// files with distinct paths.
pub open spec fn valid_files_spec(files: JsonView) -> bool {
    match files {
        JsonView::Array(items) => {
            &&& items.len() > 0
            &&& items.len() <= 4
            &&& forall|i: int| 0 <= i < items.len() ==> #[trigger] file_ok(items[i])
            &&& forall|i: int, j: int| 0 <= i < j < items.len() ==>
                str_field(#[trigger] items[i], "path"@) != str_field(#[trigger] items[j], "path"@)
        },
        _ => false,
    }
}

fn is_hex_digest(hash: &str) -> (r: bool)
    ensures
        r == hex_digest_text(hash@),
{
    let bytes = hash.as_bytes();
    if bytes.len() != 64 {
        return false;
    }
    let mut i: usize = 0;
    while i < 64
        invariant
            i <= 64,
            bytes@ == encode_utf8(hash@),
            bytes@.len() == 64,
            forall|j: int| 0 <= j < i ==> is_hex_byte(#[trigger] bytes@[j]),
        decreases 64 - i,
    {
        let b = bytes[i];
        if !((48 <= b && b <= 57) || (65 <= b && b <= 70) || (97 <= b && b <= 102)) {
            return false;
        }
        i = i + 1;
    }
    true
}

fn file_acceptable(item: &JsonValue) -> (r: bool)
    ensures
        r == file_ok(item@),
{
    let path = get_str(item, "path");
    let content = get_str(item, "encryptedContent");
    let hash = get_str(item, "contentHash");
    let deleted = get_bool(item, "deleted");
    if FileSlot::from_name(path.as_str()).is_none() {
        return false;
    }
    if content.as_str().as_bytes().len() > 900_000 {
        return false;
    }
    assert(encode_utf8(content@).len() <= max_encrypted_len());
    assert(slot_of_name(path@) is Some);
    match deleted {
        Some(true) => content.as_str().is_empty() && hash.as_str().is_empty(),
        Some(false) => content.as_str().as_bytes().len() >= 40 && (hash.as_str().is_empty() || is_hex_digest(hash.as_str())),
        None => false,
    }
}

/// Whether an upload's file list is acceptable; see [`valid_files_spec`].
pub fn valid_files(files: &JsonValue) -> (r: bool)
    ensures
        r == valid_files_spec(files@),
{
    proof { lemma_view_containers(*files); }
    let items = match files {
        JsonValue::Array(items) => items,
        other => {
            assert(crate::json::json_kind(other@) != 4);
            return false;
        },
    };
    let ghost iv = items_view(items@);
    if items.len() == 0 || items.len() > 4 {
        return false;
    }
    let mut paths: Vec<String> = Vec::new();
    let mut i: usize = 0;
    while i < items.len()
        invariant
            i <= items@.len(),
            iv == items_view(items@),
            files@ == JsonView::Array(iv),
            paths@.len() == i,
            forall|j: int| 0 <= j < i ==> file_ok(#[trigger] iv[j]),
            forall|j: int| 0 <= j < i ==> (#[trigger] paths@[j])@ == str_field(iv[j], "path"@),
            forall|j: int, k: int| 0 <= j < k < i ==> str_field(#[trigger] iv[j], "path"@) != str_field(#[trigger] iv[k], "path"@),
        decreases items@.len() - i,
    {
        if !file_acceptable(&items[i]) {
            assert(!file_ok(iv[i as int]));
            return false;
        }
        let path = get_str(&items[i], "path");
        let mut k: usize = 0;
        while k < i
            invariant
                k <= i,
                i < items@.len(),
                paths@.len() == i,
                iv == items_view(items@),
                forall|j: int| 0 <= j < i ==> (#[trigger] paths@[j])@ == str_field(iv[j], "path"@),
                path@ == str_field(iv[i as int], "path"@),
                files@ == JsonView::Array(iv),
                forall|j: int| 0 <= j < k ==> str_field(#[trigger] iv[j], "path"@) != path@,
            decreases i - k,
        {
            if str_equal(paths[k].as_str(), path.as_str()) {
                assert(str_field(iv[k as int], "path"@) == str_field(iv[i as int], "path"@));
                return false;
            }
            k = k + 1;
        }
        paths.push(path);
        i = i + 1;
    }
    true
}

// ---------------------------------------------------------------- the token digest

/// The digest under which the service stores a token: lower-case hex SHA-256
/// of its UTF-8 bytes.
pub fn token_hash(value: &str) -> (r: String)
    ensures
        r@ == content_hash_spec(encode_utf8(value@)),
{
    content_hash(value.as_bytes())
}

/// Whether a login's password matches the stored digest of the user's
/// password; a user without a stored password never logs in.
pub fn password_matches(stored: Option<&str>, password: &str) -> (r: bool)
    ensures
        r == (stored matches Some(s) && s@ == content_hash_spec(encode_utf8(password@))),
{
    match stored {
        Some(s) => str_equal(s, token_hash(password).as_str()),
        None => false,
    }
}

/// The token of an `Authorization` header value: what follows `Bearer `.
pub fn bearer_token(header: &str) -> (r: Option<String>)
    ensures
        match r {
            Some(t) => header@.len() >= 7 && header@.take(7) == "Bearer "@ && t@ == header@.skip(7),
            None => !(header@.len() >= 7 && header@.take(7) == "Bearer "@),
        },
{
    proof { reveal_strlit("Bearer "); }
    match crate::protocol::strip_text_prefix(header, "Bearer ") {
        Some(rest) => Some(rest.to_owned()),
        None => None,
    }
}

// ---------------------------------------------------------------- the snapshot

/// One stored change of the log, as the service reads it back: its version,
/// its file list as stored text, and whether it replaced everything before it.
#[derive(Debug, Clone)]
pub struct LogRow {
    pub version: u64,
    pub files: String,
    pub replace: bool,
}

/// The mathematical value of a [`LogRow`].
pub struct LogRowView {
    pub version: u64,
    pub files: Seq<char>,
    pub replace: bool,
}

impl LogRow {
    pub open spec fn view(&self) -> LogRowView {
        LogRowView { version: self.version, files: self.files@, replace: self.replace }
    }
}

pub open spec fn rows_view(rows: Seq<LogRow>) -> Seq<LogRowView> {
    rows.map_values(|r: LogRow| r@)
}

/// The path a stored file is kept under: its `path` string.
pub open spec fn item_path(item: JsonView) -> Option<Seq<char>> {
    match item {
        JsonView::Object(e) => match obj_get(e, "path"@) {
            Some(JsonView::Str(p)) => Some(p),
            _ => None,
        },
        _ => None,
    }
}

/// `entries` (files by path) with each of `items` stored under its path,
/// later ones replacing earlier; `None` where an item has no path.
pub open spec fn store_items(entries: Seq<(Seq<char>, JsonView)>, items: Seq<JsonView>) -> Option<Seq<(Seq<char>, JsonView)>>
    decreases items.len(),
{
    if items.len() == 0 {
        Some(entries)
    } else {
        match store_items(entries, items.drop_last()) {
            None => None,
            Some(e) => match item_path(items.last()) {
                None => None,
                Some(p) => Some(obj_insert(e, p, items.last())),
            },
        }
    }
}

/// The snapshot that the log folds into: the version of the last change, and
/// the latest file of each path, in path order, counting only from the last
/// change that replaced everything. `None` where a stored file list is not a
/// JSON array of files with paths.
pub open spec fn fold_log_spec(rows: Seq<LogRowView>) -> Option<(u64, Seq<(Seq<char>, JsonView)>)>
    decreases rows.len(),
{
    if rows.len() == 0 {
        Some((0, Seq::empty()))
    } else {
        match fold_log_spec(rows.drop_last()) {
            None => None,
            Some((_, entries)) => {
                let row = rows.last();
                let base = if row.replace { Seq::empty() } else { entries };
                match json_parse_spec(encode_utf8(row.files)) {
                    Some(JsonView::Array(items)) => match store_items(base, items) {
                        None => None,
                        Some(e) => Some((row.version, e)),
                    },
                    _ => None,
                }
            },
        }
    }
}

proof fn lemma_store_none(e: Seq<(Seq<char>, JsonView)>, items: Seq<JsonView>, k: int)
    requires
        0 <= k <= items.len(),
        store_items(e, items.take(k)) is None,
    ensures
        store_items(e, items) is None,
    decreases items.len() - k,
{
    if k < items.len() {
        assert(items.take(k + 1).drop_last() =~= items.take(k));
        lemma_store_none(e, items, k + 1);
    } else {
        assert(items.take(k) =~= items);
    }
}

proof fn lemma_fold_none(rows: Seq<LogRowView>, n: int)
    requires
        0 <= n <= rows.len(),
        fold_log_spec(rows.take(n)) is None,
    ensures
        fold_log_spec(rows) is None,
    decreases rows.len() - n,
{
    if n < rows.len() {
        assert(rows.take(n + 1).drop_last() =~= rows.take(n));
        lemma_fold_none(rows, n + 1);
    } else {
        assert(rows.take(n) =~= rows);
    }
}

/// Law: a replacing change discards everything before it: the snapshot after
/// it is the one the change alone makes, at the change's version.
pub proof fn law_replace_discards_history(rows: Seq<LogRowView>, row: LogRowView)
    requires
        row.replace,
        fold_log_spec(rows) is Some,
    ensures
        fold_log_spec(rows.push(row)) == fold_log_spec(seq![row]),
        fold_log_spec(rows.push(row)) matches Some((v, _)) ==> v == row.version,
{
    assert(rows.push(row).drop_last() =~= rows);
    assert(rows.push(row).last() == row);
    assert(seq![row].drop_last() =~= Seq::<LogRowView>::empty());
    assert(seq![row].last() == row);
    assert(fold_log_spec(Seq::<LogRowView>::empty()) == Some((0u64, Seq::<(Seq<char>, JsonView)>::empty())));
}

/// The last of `items` stored under path `p`, if any.
pub open spec fn latest_with_path(items: Seq<JsonView>, p: Seq<char>) -> Option<JsonView>
    decreases items.len(),
{
    if items.len() == 0 {
        None
    } else if item_path(items.last()) == Some(p) {
        Some(items.last())
    } else {
        latest_with_path(items.drop_last(), p)
    }
}

proof fn lemma_store_items(e: Seq<(Seq<char>, JsonView)>, items: Seq<JsonView>, p: Seq<char>)
    requires
        keys_sorted(entry_keys(e)),
        store_items(e, items) is Some,
    ensures
        keys_sorted(entry_keys(store_items(e, items)->0)),
        obj_get(store_items(e, items)->0, p) == match latest_with_path(items, p) {
            Some(x) => Some(x),
            None => obj_get(e, p),
        },
    decreases items.len(),
{
    if items.len() > 0 {
        lemma_store_items(e, items.drop_last(), p);
        let prev = store_items(e, items.drop_last())->0;
        let k = item_path(items.last())->0;
        lemma_obj_insert(prev, k, items.last(), p);
    }
}

/// What the log folds into keeps its paths in order.
proof fn lemma_fold_sorted(rows: Seq<LogRowView>)
    requires
        fold_log_spec(rows) is Some,
    ensures
        keys_sorted(entry_keys(fold_log_spec(rows).unwrap().1)),
    decreases rows.len(),
{
    if rows.len() > 0 {
        lemma_fold_sorted(rows.drop_last());
        let entries = fold_log_spec(rows.drop_last()).unwrap().1;
        let row = rows.last();
        let base = if row.replace { Seq::<(Seq<char>, JsonView)>::empty() } else { entries };
        assert(entry_keys(Seq::<(Seq<char>, JsonView)>::empty()) =~= Seq::<Seq<char>>::empty());
        let items = json_parse_spec(encode_utf8(row.files))->0->Array_0;
        lemma_store_items(base, items, Seq::empty());
    } else {
        assert(entry_keys(Seq::<(Seq<char>, JsonView)>::empty()) =~= Seq::<Seq<char>>::empty());
    }
}

/// Law: after a change is appended to the log, the snapshot is at the
/// change's version; each path that the change holds a file for shows the
/// change's last file for it; every other path shows what it showed before,
/// or nothing where the change replaced everything.
pub proof fn law_commit_shows_latest_files(rows: Seq<LogRowView>, row: LogRowView, items: Seq<JsonView>, p: Seq<char>)
    requires
        fold_log_spec(rows) is Some,
        json_parse_spec(encode_utf8(row.files)) == Some(JsonView::Array(items)),
        fold_log_spec(rows.push(row)) is Some,
    ensures
        fold_log_spec(rows.push(row)).unwrap().0 == row.version,
        obj_get(fold_log_spec(rows.push(row)).unwrap().1, p) == match latest_with_path(items, p) {
            Some(x) => Some(x),
            None => if row.replace { None } else { obj_get(fold_log_spec(rows).unwrap().1, p) },
        },
{
    let all = rows.push(row);
    assert(all.drop_last() =~= rows);
    assert(all.last() == row);
    lemma_fold_sorted(rows);
    let entries = fold_log_spec(rows).unwrap().1;
    let base = if row.replace { Seq::<(Seq<char>, JsonView)>::empty() } else { entries };
    assert(entry_keys(Seq::<(Seq<char>, JsonView)>::empty()) =~= Seq::<Seq<char>>::empty());
    lemma_store_items(base, items, p);
}

/// The entries that a device's four sealed files are stored as, in slot
/// order.
pub open spec fn stored_entries(files: Seq<SyncFileView>) -> Seq<(Seq<char>, JsonView)> {
    Seq::new(4, |i: int| (slot_name(slot_at(i)), file_json_spec(files[i])))
}

proof fn lemma_sealed_item(f: SyncFileView, slot: FileSlot, c: Option<Seq<u8>>, version: u64, secret: Seq<char>)
    requires
        sealed_file(f, slot, c, version, secret),
    ensures
        item_path(file_json_spec(f)) == Some(slot_name(slot)),
        stored_digest(file_json_spec(f)) == wire_digest(c),
{
    reveal_strlit("contentHash");
    reveal_strlit("deleted");
    reveal_strlit("encryptedContent");
    reveal_strlit("path");
    reveal_strlit("version");
    let e = file_json_spec(f)->Object_0;
    assert("contentHash"@.len() == 11 && "deleted"@.len() == 7 && "encryptedContent"@.len() == 16);
    assert("path"@.len() == 4);
    assert(e.drop_first()[0] == e[1]);
    assert(e.drop_first().drop_first()[0] == e[2]);
    assert(e.drop_first().drop_first().drop_first()[0] == e[3]);
    assert(obj_get(e.drop_first().drop_first().drop_first(), "path"@) == Some(JsonView::Str(f.path)));
    assert(obj_get(e.drop_first().drop_first(), "path"@) == Some(JsonView::Str(f.path)));
    assert(obj_get(e.drop_first(), "path"@) == Some(JsonView::Str(f.path)));
    assert(obj_get(e, "path"@) == Some(JsonView::Str(f.path)));
    assert(obj_get(e.drop_first(), "deleted"@) == Some(JsonView::Bool(f.deleted)));
    assert(obj_get(e, "deleted"@) == Some(JsonView::Bool(false)));
    assert(obj_get(e, "contentHash"@) == Some(JsonView::Str(f.content_hash)));
}

proof fn lemma_store_sealed(files: Seq<SyncFileView>, k: int)
    requires
        files.len() == 4,
        0 <= k <= 4,
        forall|i: int| 0 <= i < 4 ==> item_path(file_json_spec(#[trigger] files[i])) == Some(slot_name(slot_at(i))),
    ensures
        store_items(Seq::empty(), files.map_values(|f: SyncFileView| file_json_spec(f)).take(k))
            == Some(stored_entries(files).take(k)),
    decreases k,
{
    let items = files.map_values(|f: SyncFileView| file_json_spec(f));
    if k == 0 {
        assert(items.take(0) =~= Seq::<JsonView>::empty());
        assert(stored_entries(files).take(0) =~= Seq::<(Seq<char>, JsonView)>::empty());
    } else {
        lemma_store_sealed(files, k - 1);
        let prev = stored_entries(files).take(k - 1);
        let name = slot_name(slot_at(k - 1));
        assert(items.take(k).drop_last() =~= items.take(k - 1));
        assert(items.take(k).last() == file_json_spec(files[k - 1]));
        lemma_slot_names_ordered();
        lemma_insert_pos(prev, name);
        if insert_pos(prev, name) < prev.len() {
            let p = insert_pos(prev, name);
            assert(prev[p].0 == slot_name(slot_at(p)));
            assert(key_lt(prev[p].0, name));
        }
        assert(insert_pos(prev, name) == prev.len());
        assert(obj_insert(prev, name, file_json_spec(files[k - 1])) =~= stored_entries(files).take(k));
    }
}

/// Law: where a device's replacing upload of its sealed files is the last
/// change of the log, its acknowledgement of that version with the digests
/// of the files it uploaded (the empty text for a missing file) holds.
pub proof fn law_own_upload_acknowledged(
    rows: Seq<LogRowView>,
    row: LogRowView,
    files: Seq<SyncFileView>,
    c: Seq<Option<Seq<u8>>>,
    version: u64,
    secret: Seq<char>,
)
    requires
        fold_log_spec(rows) is Some,
        row.replace,
        row.version > 0,
        files.len() == 4,
        c.len() == 4,
        forall|i: int| 0 <= i < 4 ==> sealed_file(#[trigger] files[i], slot_at(i), c[i], version, secret),
        json_parse_spec(encode_utf8(row.files)) == Some(JsonView::Array(files.map_values(|f: SyncFileView| file_json_spec(f)))),
    ensures
        fold_log_spec(rows.push(row)) == Some((row.version, stored_entries(files))),
        acknowledgement_ok_spec(row.version, stored_entries(files), row.version, wire_hashes_spec(c)),
{
    assert forall|i: int| 0 <= i < 4 implies item_path(file_json_spec(#[trigger] files[i])) == Some(slot_name(slot_at(i))) by {
        lemma_sealed_item(files[i], slot_at(i), c[i], version, secret);
    }
    lemma_store_sealed(files, 4);
    let items = files.map_values(|f: SyncFileView| file_json_spec(f));
    assert(items.take(4) =~= items);
    assert(stored_entries(files).take(4) =~= stored_entries(files));
    let all = rows.push(row);
    assert(all.drop_last() =~= rows);
    assert(all.last() == row);
    assert forall|i: int| 0 <= i < 4 implies #[trigger] snapshot_digests(stored_entries(files))[i] == wire_hashes_spec(c)[i] by {
        lemma_sealed_item(files[i], slot_at(i), c[i], version, secret);
    }
    assert(snapshot_digests(stored_entries(files)) =~= wire_hashes_spec(c));
}

/// The service's current snapshot: its version and its files by path.
pub struct ServerSnapshot {
    pub version: u64,
    pub entries: Vec<(String, JsonValue)>,
}

fn path_of(item: &JsonValue) -> (r: Option<String>)
    ensures
        opt_string_view(r) == item_path(item@),
{
    proof {
        lemma_view_containers(*item);
        reveal_strlit("path");
    }
    match item {
        JsonValue::Object(e) => match object_get(e, "path") {
            Some(JsonValue::Str(p)) => Some(p.clone()),
            Some(other) => {
                proof { lemma_view_containers(*other); }
                assert(crate::json::json_kind(other@) != 3);
                None
            },
            None => None,
        },
        other => {
            assert(crate::json::json_kind(other@) != 5);
            None
        },
    }
}

/// Folds the log into the current snapshot; see [`fold_log_spec`].
#[verifier::spinoff_prover]
#[verifier::rlimit(40)]
pub fn fold_log(rows: &Vec<LogRow>) -> (r: Option<ServerSnapshot>)
    ensures
        match r {
            Some(s) => fold_log_spec(rows_view(rows@)) == Some((s.version, entries_view(s.entries@))),
            None => fold_log_spec(rows_view(rows@)) is None,
        },
{
    let ghost rv = rows_view(rows@);
    let mut version: u64 = 0;
    let mut entries: Vec<(String, JsonValue)> = Vec::new();
    let mut i: usize = 0;
    assert(rv.take(0) =~= Seq::<LogRowView>::empty());
    assert(entries_view(entries@) =~= Seq::<(Seq<char>, JsonView)>::empty());
    while i < rows.len()
        invariant
            i <= rows@.len(),
            rv == rows_view(rows@),
            fold_log_spec(rv.take(i as int)) == Some((version, entries_view(entries@))),
        decreases rows@.len() - i,
    {
        let row = &rows[i];
        proof {
            assert(rv.take(i + 1).drop_last() =~= rv.take(i as int));
            assert(rv.take(i + 1).last() == row@);
        }
        if row.replace {
            entries = Vec::new();
            assert(entries_view(entries@) =~= Seq::<(Seq<char>, JsonView)>::empty());
        }
        let parsed = match json_parse(row.files.as_str().as_bytes()) {
            Some(v) => v,
            None => {
                proof { lemma_fold_none(rv, i + 1); }
                return None;
            },
        };
        proof { lemma_view_containers(parsed); }
        let items = match &parsed {
            JsonValue::Array(items) => items,
            other => {
                assert(crate::json::json_kind(other@) != 4);
                proof { lemma_fold_none(rv, i + 1); }
                return None;
            },
        };
        let ghost iv = items_view(items@);
        let ghost base = entries_view(entries@);
        let mut k: usize = 0;
        assert(iv.take(0) =~= Seq::<JsonView>::empty());
        assert(fold_log_spec(rv.take(i + 1)) == match store_items(base, iv) {
            None => None,
            Some(e) => Some((row.version, e)),
        });
        while k < items.len()
            invariant
                k <= items@.len(),
                i < rows@.len(),
                rv == rows_view(rows@),
                fold_log_spec(rv.take(i + 1)) == match store_items(base, iv) {
                    None => None,
                    Some(e) => Some((row.version, e)),
                },
                iv == items_view(items@),
                store_items(base, iv.take(k as int)) == Some(entries_view(entries@)),
            decreases items@.len() - k,
        {
            proof {
                assert(iv.take(k + 1).drop_last() =~= iv.take(k as int));
                assert(iv.take(k + 1).last() == items@[k as int]@);
            }
            let p = match path_of(&items[k]) {
                Some(p) => p,
                None => {
                    proof {
                        lemma_store_none(base, iv, k + 1);
                        lemma_fold_none(rv, i + 1);
                    }
                    return None;
                },
            };
            insert_entry(&mut entries, p, items[k].deep_clone());
            k = k + 1;
        }
        assert(iv.take(items@.len() as int) =~= iv);
        version = row.version;
        i = i + 1;
    }
    assert(rv.take(rows@.len() as int) =~= rv);
    Some(ServerSnapshot { version, entries })
}

// ---------------------------------------------------------------- acknowledgements

/// The digest the service lists for a stored file: none for a deletion
/// marker, else its `contentHash` string, if it has one.
pub open spec fn stored_digest(item: JsonView) -> Option<Seq<char>> {
    match item {
        JsonView::Object(e) => if obj_get(e, "deleted"@) == Some(JsonView::Bool(true)) {
            None
        } else {
            match obj_get(e, "contentHash"@) {
                Some(JsonView::Str(h)) => Some(h),
                _ => None,
            }
        },
        _ => None,
    }
}

/// The digests of the snapshot's files, by path.
pub open spec fn snapshot_digests(entries: Seq<(Seq<char>, JsonView)>) -> Seq<(Seq<char>, Option<Seq<char>>)> {
    entries.map_values(|e: (Seq<char>, JsonView)| (e.0, stored_digest(e.1)))
}

/// A device's acknowledgement holds where the service has a version, the
/// device names it, and the device's digests are the snapshot's.
pub open spec fn acknowledgement_ok_spec(
    version: u64,
    entries: Seq<(Seq<char>, JsonView)>,
    claimed_version: u64,
    claimed: Seq<(Seq<char>, Option<Seq<char>>)>,
) -> bool {
    version != 0 && version == claimed_version && snapshot_digests(entries) == claimed
}

/// Law: an acknowledgement holds only for the version the service is at,
/// never for an empty service, and only with the snapshot's digests: a
/// device that names any other version, however its digests look, is
/// refused.
pub proof fn law_acknowledgement_names_current_version(
    version: u64,
    entries: Seq<(Seq<char>, JsonView)>,
    claimed_version: u64,
    claimed: Seq<(Seq<char>, Option<Seq<char>>)>,
)
    ensures
        claimed_version != version ==> !acknowledgement_ok_spec(version, entries, claimed_version, claimed),
        version == 0 ==> !acknowledgement_ok_spec(version, entries, claimed_version, claimed),
        acknowledgement_ok_spec(version, entries, claimed_version, claimed) ==> claimed.len() == entries.len()
            && forall|i: int| 0 <= i < entries.len() ==> #[trigger] claimed[i] == (entries[i].0, stored_digest(entries[i].1)),
{
}

fn digest_of_stored(item: &JsonValue) -> (r: Option<String>)
    ensures
        opt_string_view(r) == stored_digest(item@),
{
    proof {
        lemma_view_containers(*item);
        reveal_strlit("deleted");
        reveal_strlit("contentHash");
    }
    match item {
        JsonValue::Object(e) => {
            let deleted = match object_get(e, "deleted") {
                Some(JsonValue::Bool(b)) => *b,
                Some(other) => {
                    proof { lemma_view_containers(*other); }
                    assert(crate::json::json_kind(other@) != 1);
                    false
                },
                None => false,
            };
            if deleted {
                return None;
            }
            match object_get(e, "contentHash") {
                Some(JsonValue::Str(h)) => Some(h.clone()),
                Some(other) => {
                    proof { lemma_view_containers(*other); }
                    assert(crate::json::json_kind(other@) != 3);
                    None
                },
                None => None,
            }
        },
        other => {
            assert(crate::json::json_kind(other@) != 5);
            None
        },
    }
}

/// Whether a device's acknowledgement of `claimed_version` with the digests
/// `claimed` holds for the snapshot.
pub fn acknowledgement_ok(snapshot: &ServerSnapshot, claimed_version: u64, claimed: &Hashes) -> (r: bool)
    ensures
        r == acknowledgement_ok_spec(snapshot.version, entries_view(snapshot.entries@), claimed_version, hashes_view(claimed@)),
{
    if snapshot.version == 0 || snapshot.version != claimed_version {
        return false;
    }
    let mut digests: Hashes = Vec::new();
    let mut i: usize = 0;
    let ghost ev = entries_view(snapshot.entries@);
    while i < snapshot.entries.len()
        invariant
            i <= snapshot.entries@.len(),
            ev == entries_view(snapshot.entries@),
            hashes_view(digests@) == snapshot_digests(ev.take(i as int)),
        decreases snapshot.entries@.len() - i,
    {
        let d = digest_of_stored(&snapshot.entries[i].1);
        let ghost before = hashes_view(digests@);
        digests.push((snapshot.entries[i].0.clone(), d));
        proof {
            assert(hashes_view(digests@) =~= before.push((ev[i as int].0, stored_digest(ev[i as int].1))));
            assert(snapshot_digests(ev.take(i + 1)) =~= snapshot_digests(ev.take(i as int)).push((ev[i as int].0, stored_digest(ev[i as int].1))));
        }
        i = i + 1;
    }
    assert(ev.take(snapshot.entries@.len() as int) =~= ev);
    crate::contents::hashes_equal(&digests, claimed)
}

// ---------------------------------------------------------------- commits

/// A change as the service stored it.
pub struct StoredChange {
    pub username: String,
    pub device_id: String,
    pub files: JsonValue,
}

/// A resubmitted change (same change id) is answered with the stored one
/// only where it comes from the same user and device, with the same files,
/// and the same kind of commit.
pub open spec fn replay_matches_spec(
    stored: StoredChange,
    stored_replace: bool,
    user: Seq<char>,
    device_id: Seq<char>,
    files: JsonView,
    replace: bool,
) -> bool {
    stored.username@ == user && stored.device_id@ == device_id && json_same(stored.files@, files)
        && stored_replace == replace
}

/// Whether a resubmitted change matches the stored one.
pub fn replay_matches(stored: &StoredChange, stored_replace: bool, user: &str, device_id: &str, files: &JsonValue, replace: bool) -> (r: bool)
    ensures
        r == replay_matches_spec(*stored, stored_replace, user@, device_id@, files@, replace),
{
    str_equal(stored.username.as_str(), user) && str_equal(stored.device_id.as_str(), device_id)
        && json_equal(&stored.files, files) && stored_replace == replace
}

/// A normal commit must be based on the user's latest version; a replacing
/// commit may be based on anything.
pub fn base_is_current(replace: bool, base_version: u64, latest: u64) -> (r: bool)
    ensures
        r == (replace || base_version == latest),
{
    replace || base_version == latest
}

/// A change id the service accepts: 1 to 128 bytes.
pub fn valid_change_id(id: &str) -> (r: bool)
    ensures
        r == (encode_utf8(id@).len() > 0 && encode_utf8(id@).len() <= 128),
{
    let n = id.as_bytes().len();
    n > 0 && n <= 128
}

/// How the service answers a submitted change, once the request is
/// authenticated: what it decides from the change itself and from what it
/// read in its log.
#[derive(Debug, Clone, Copy, PartialEq, Eq, Structural)]
pub enum CommitOutcome {
    /// The change id or the file list is malformed.
    BadRequest,
    /// The token is not bound to the named device, or the device is revoked.
    Forbidden,
    /// The change id was used before for a different change.
    Conflict,
    /// The change id was used before for this very change: the stored one is
    /// answered again.
    Replayed,
    /// A normal commit that is not based on the latest version.
    Stale,
    /// The change is appended to the log.
    Accepted,
}

/// What the service answers; `device_ok` is whether the token is bound to
/// the change's device, `existing` the change stored under the same id (with
/// whether it was a replacing commit), `latest` the user's latest version.
pub open spec fn commit_outcome_spec(
    id: Seq<char>,
    files: JsonView,
    device_ok: bool,
    existing: Option<(StoredChange, bool)>,
    user: Seq<char>,
    device_id: Seq<char>,
    base_version: u64,
    replace: bool,
    latest: u64,
) -> CommitOutcome {
    if !(encode_utf8(id).len() > 0 && encode_utf8(id).len() <= 128) || !valid_files_spec(files) {
        CommitOutcome::BadRequest
    } else if !device_ok {
        CommitOutcome::Forbidden
    } else {
        match existing {
            Some((stored, stored_replace)) => if replay_matches_spec(stored, stored_replace, user, device_id, files, replace) {
                CommitOutcome::Replayed
            } else {
                CommitOutcome::Conflict
            },
            None => if replace || base_version == latest {
                CommitOutcome::Accepted
            } else {
                CommitOutcome::Stale
            },
        }
    }
}

/// Decides how the service answers a submitted change; see
/// [`commit_outcome_spec`].
pub fn commit_decision(
    id: &str,
    files: &JsonValue,
    device_ok: bool,
    existing: Option<(&StoredChange, bool)>,
    user: &str,
    device_id: &str,
    base_version: u64,
    replace: bool,
    latest: u64,
) -> (r: CommitOutcome)
    ensures
        r == commit_outcome_spec(
            id@, files@, device_ok,
            match existing { Some((s, b)) => Some((*s, b)), None => None },
            user@, device_id@, base_version, replace, latest,
        ),
{
    if !valid_change_id(id) || !valid_files(files) {
        return CommitOutcome::BadRequest;
    }
    if !device_ok {
        return CommitOutcome::Forbidden;
    }
    match existing {
        Some((stored, stored_replace)) => if replay_matches(stored, stored_replace, user, device_id, files, replace) {
            CommitOutcome::Replayed
        } else {
            CommitOutcome::Conflict
        },
        None => if base_is_current(replace, base_version, latest) {
            CommitOutcome::Accepted
        } else {
            CommitOutcome::Stale
        },
    }
}

/// The characters with the Unicode White_Space property: tab, line feed,
/// vertical tab, form feed, carriage return, space, next line, no-break
/// space, ogham space mark, the spaces from en quad to hair space, line and
/// paragraph separators, narrow no-break space, medium mathematical space and
/// ideographic space.
pub open spec fn whitespace_spec(c: char) -> bool {
    let n = c as u32;
    ||| 0x09 <= n <= 0x0d
    ||| n == 0x20
    ||| n == 0x85
    ||| n == 0xa0
    ||| n == 0x1680
    ||| 0x2000 <= n <= 0x200a
    ||| n == 0x2028
    ||| n == 0x2029
    ||| n == 0x202f
    ||| n == 0x205f
    ||| n == 0x3000
}

/// Whether a character has the White_Space property, as `char::is_whitespace`.
fn is_whitespace(c: char) -> (r: bool)
    ensures
        r == whitespace_spec(c),
{
    let n = c as u32;
    (0x09 <= n && n <= 0x0d) || n == 0x20 || n == 0x85 || n == 0xa0 || n == 0x1680
        || (0x2000 <= n && n <= 0x200a) || n == 0x2028 || n == 0x2029 || n == 0x202f || n == 0x205f
        || n == 0x3000
}

/// A device name the service accepts: not only whitespace, and at most 96
/// bytes.
pub open spec fn valid_device_name_spec(name: Seq<char>) -> bool {
    (exists|i: int| 0 <= i < name.len() && !whitespace_spec(#[trigger] name[i])) && encode_utf8(name).len() <= 96
}

/// Whether a change committed by `event_user` is pushed over a connection
/// that `user` opened: each user hears only of their own changes.
pub fn notifies(event_user: &str, user: &str) -> (r: bool)
    ensures
        r == (event_user@ == user@),
{
    str_equal(event_user, user)
}

/// What a notification socket hears.
pub enum SocketEvent {
    /// The heartbeat is due; `authorized` says whether the connection's
    /// token still signs in.
    Heartbeat { authorized: bool },
    /// The device sent a ping.
    PeerPing,
    /// The device closed the socket, or it failed.
    PeerClosed,
    /// A change was committed by `event_user`; `authorized` says whether the
    /// connection's token still signs in.
    Broadcast { event_user: String, authorized: bool },
    /// The socket fell behind the stream of changes.
    Lagged,
    /// The stream of changes ended.
    BroadcastClosed,
    /// Anything else the device sent.
    Other,
}

/// What a notification socket does next.
#[derive(Debug, Clone, Copy, PartialEq, Eq, Structural)]
pub enum SocketAction {
    /// Send a ping to the device.
    Ping,
    /// Answer the device's ping.
    Pong,
    /// Send the change to the device.
    Send,
    /// Do nothing.
    Ignore,
    /// Close the connection.
    Stop,
}

/// One step of a notification socket of `user`: the heartbeat pings while
/// the token still signs in, a ping is answered, a change of this user is
/// sent while the token still signs in, other users' changes are ignored,
/// and the socket closes on a close, a lag, an ended stream, or a token that
/// no longer signs in.
pub fn socket_step(user: &str, event: &SocketEvent) -> (a: SocketAction)
    ensures
        match event {
            SocketEvent::Heartbeat { authorized } => a == (if *authorized { SocketAction::Ping } else { SocketAction::Stop }),
            SocketEvent::PeerPing => a == SocketAction::Pong,
            SocketEvent::PeerClosed | SocketEvent::Lagged | SocketEvent::BroadcastClosed => a == SocketAction::Stop,
            SocketEvent::Broadcast { event_user, authorized } => a == (if event_user@ != user@ {
                SocketAction::Ignore
            } else if *authorized {
                SocketAction::Send
            } else {
                SocketAction::Stop
            }),
            SocketEvent::Other => a == SocketAction::Ignore,
        },
{
    match event {
        SocketEvent::Heartbeat { authorized } => if *authorized { SocketAction::Ping } else { SocketAction::Stop },
        SocketEvent::PeerPing => SocketAction::Pong,
        SocketEvent::PeerClosed | SocketEvent::Lagged | SocketEvent::BroadcastClosed => SocketAction::Stop,
        SocketEvent::Broadcast { event_user, authorized } => if !notifies(event_user.as_str(), user) {
            SocketAction::Ignore
        } else if *authorized {
            SocketAction::Send
        } else {
            SocketAction::Stop
        },
        SocketEvent::Other => SocketAction::Ignore,
    }
}

/// Whether a device name is acceptable.
pub fn valid_device_name(name: &str) -> (r: bool)
    ensures
        r == valid_device_name_spec(name@),
{
    let mut blank = true;
    if name.as_bytes().len() > 96 {
        return false;
    }
    for c in iter: name.chars()
        invariant
            iter.seq() == name@,
            blank == (forall|j: int| 0 <= j < iter.index() ==> whitespace_spec(#[trigger] name@[j])),
    {
        if !is_whitespace(c) {
            blank = false;
        }
    }
    !blank
}

} // verus!
