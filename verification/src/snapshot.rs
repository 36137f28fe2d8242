//! Sealing a file set into the encrypted files the server stores, and
//! opening and checking a complete snapshot before anything is written.

use vstd::prelude::*;
use crate::contents::{Contents, opt_bytes_view};
use crate::crypto::{
    base64_decode, base64_decode_spec, base64_encode, base64_encode_spec, content_hash, content_hash_spec,
    aes_gcm_max_plaintext, decrypt_content, decrypt_spec, encrypt_content, sealed_with,
};
use crate::error::SyncError;
use crate::files::{FileSlot, lemma_slot_names_distinct, slot_at, slot_index, slot_name, slot_of_name};
use crate::json::{
    JsonValue, JsonView, entries_view, json_no_numbers, json_parse, json_parse_spec, json_to_vec,
    json_compact_spec, json_wf, lemma_view_containers, obj_get, object_get,
};
use crate::projection::{validate_content, validate_content_spec};
use crate::protocol::{SyncFile, SyncSnapshot};
use crate::text::str_equal;

verus! {

/// The mathematical value of a [`SyncFile`].
pub struct SyncFileView {
    pub path: Seq<char>,
    pub content_hash: Seq<char>,
    pub version: u64,
    pub encrypted_content: Seq<char>,
    pub deleted: bool,
}

impl SyncFile {
    pub open spec fn view(&self) -> SyncFileView {
        SyncFileView {
            path: self.path@,
            content_hash: self.content_hash@,
            version: self.version,
            encrypted_content: self.encrypted_content@,
            deleted: self.deleted,
        }
    }
}

pub open spec fn files_view(files: Seq<SyncFile>) -> Seq<SyncFileView> {
    files.map_values(|f: SyncFile| f@)
}

// ---------------------------------------------------------------- envelopes

/// The plaintext that is encrypted for one file: an object that names the
/// file and carries its Base64 content, `null` for a missing file.
pub open spec fn envelope_value(path: Seq<char>, content: Option<Seq<char>>) -> JsonView {
    JsonView::Object(seq![
        ("content"@, match content { Some(c) => JsonView::Str(c), None => JsonView::Null }),
        ("path"@, JsonView::Str(path)),
    ])
}

/// An optional string field: absent or `null` is `None`, a string is kept,
/// anything else is refused.
pub open spec fn opt_string_field(v: Option<JsonView>) -> Option<Option<Seq<char>>> {
    match v {
        None => Some(None),
        Some(JsonView::Null) => Some(None),
        Some(JsonView::Str(c)) => Some(Some(c)),
        _ => None,
    }
}

/// What a decrypted envelope says: its path and its optional Base64 content.
/// As for a derived `Deserialize` of `{ path: String, content: Option<String> }`:
/// an object with a string `path` and a string, `null` or absent `content`
/// (other keys ignored), or an array of exactly those two values.
pub open spec fn envelope_of(v: JsonView) -> Option<(Seq<char>, Option<Seq<char>>)> {
    match v {
        JsonView::Object(e) => match obj_get(e, "path"@) {
            Some(JsonView::Str(p)) => match opt_string_field(obj_get(e, "content"@)) {
                Some(c) => Some((p, c)),
                None => None,
            },
            _ => None,
        },
        JsonView::Array(items) => if items.len() == 2 {
            match items[0] {
                JsonView::Str(p) => match opt_string_field(Some(items[1])) {
                    Some(c) => Some((p, c)),
                    None => None,
                },
                _ => None,
            }
        } else {
            None
        },
        _ => None,
    }
}

// ---------------------------------------------------------------- opening

/// The hash a file is listed with: the content hash, the empty text where
/// the file is missing.
pub open spec fn listed_hash(content: Option<Seq<u8>>) -> Seq<char> {
    match content {
        Some(b) => content_hash_spec(b),
        None => Seq::empty(),
    }
}

/// The last checks of an opened file: hash, no deletion marker, format.
pub open spec fn check_opened(slot: FileSlot, f: SyncFileView, content: Option<Seq<u8>>) -> Result<Option<Seq<u8>>, SyncError> {
    if listed_hash(content) != f.content_hash {
        Err(SyncError::HashMismatch)
    } else if f.deleted {
        Err(SyncError::DeletionMarker)
    } else {
        match content {
            Some(raw) => match validate_content_spec(slot, raw) {
                Err(e) => Err(e),
                Ok(_) => Ok(content),
            },
            None => Ok(content),
        }
    }
}

/// Opens one file of a snapshot: decrypt, read the envelope, check that it
/// names the file, decode the content and check it.
pub open spec fn open_file_spec(slot: FileSlot, f: SyncFileView, secret: Seq<char>) -> Result<Option<Seq<u8>>, SyncError> {
    match decrypt_spec(secret, f.encrypted_content) {
        Err(_) => Err(SyncError::UndecryptableFile(slot)),
        Ok(bytes) => match json_parse_spec(bytes) {
            None => Err(SyncError::InvalidEnvelope),
            Some(v) => match envelope_of(v) {
                None => Err(SyncError::InvalidEnvelope),
                Some((p, c)) => if p != f.path {
                    Err(SyncError::PathMismatch)
                } else {
                    match c {
                        Some(text) => match base64_decode_spec(text) {
                            None => Err(SyncError::InvalidEnvelopeContent),
                            Some(raw) => check_opened(slot, f, Some(raw)),
                        },
                        None => check_opened(slot, f, None),
                    }
                },
            },
        },
    }
}

/// Opens the files of a snapshot in order, each into its slot of `acc`; a
/// name that is not a synchronized file, or a slot seen before, stops it.
pub open spec fn open_files_spec(
    files: Seq<SyncFileView>,
    secret: Seq<char>,
    acc: Seq<Option<Seq<u8>>>,
    seen: Set<FileSlot>,
) -> Result<Seq<Option<Seq<u8>>>, SyncError>
    decreases files.len(),
{
    if files.len() == 0 {
        Ok(acc)
    } else {
        match slot_of_name(files[0].path) {
            None => Err(SyncError::IllegalPath),
            Some(slot) => if seen.contains(slot) {
                Err(SyncError::DuplicateFile)
            } else {
                match open_file_spec(slot, files[0], secret) {
                    Err(e) => Err(e),
                    Ok(c) => open_files_spec(
                        files.drop_first(),
                        secret,
                        acc.update(slot_index(slot), c),
                        seen.insert(slot),
                    ),
                }
            },
        }
    }
}

/// The file set that a snapshot holds, once all of it is checked: the server
/// must have a version, exactly four files, each of which opens, and the
/// manager settings among them.
pub open spec fn decrypt_snapshot_spec(version: u64, files: Seq<SyncFileView>, secret: Seq<char>) -> Result<Seq<Option<Seq<u8>>>, SyncError> {
    if version == 0 {
        Err(SyncError::ServerEmpty)
    } else if files.len() != 4 {
        Err(SyncError::IncompleteSnapshot)
    } else {
        match open_files_spec(files, secret, seq![None, None, None, None], Set::empty()) {
            Err(e) => Err(e),
            Ok(c) => if c[3] is None { Err(SyncError::MissingSettings) } else { Ok(c) },
        }
    }
}

fn string_field(v: Option<&JsonValue>) -> (r: Option<Option<String>>)
    ensures
        r == None::<Option<String>> <==> opt_string_field(opt_json_view(v)) is None,
        r matches Some(c) ==> opt_string_field(opt_json_view(v)) == Some(crate::contents::opt_string_view(c)),
{
    match v {
        None => Some(None),
        Some(JsonValue::Null) => Some(None),
        Some(JsonValue::Str(c)) => Some(Some(c.clone())),
        Some(other) => {
            proof { lemma_view_containers(*other); }
            assert(crate::json::json_kind(other@) != 0 && crate::json::json_kind(other@) != 3);
            None
        },
    }
}

pub open spec fn opt_json_view(v: Option<&JsonValue>) -> Option<JsonView> {
    match v {
        Some(x) => Some(x@),
        None => None,
    }
}

/// Reads a decrypted envelope.
fn read_envelope(v: &JsonValue) -> (r: Option<(String, Option<String>)>)
    ensures
        match r {
            Some((p, c)) => envelope_of(v@) == Some((p@, crate::contents::opt_string_view(c))),
            None => envelope_of(v@) is None,
        },
{
    proof {
        lemma_view_containers(*v);
        reveal_strlit("path");
        reveal_strlit("content");
    }
    match v {
        JsonValue::Object(e) => {
            let p = match object_get(e, "path") {
                Some(JsonValue::Str(p)) => p.clone(),
                Some(other) => {
                    proof { lemma_view_containers(*other); }
                    assert(crate::json::json_kind(other@) != 3);
                    return None;
                },
                None => return None,
            };
            match string_field(object_get(e, "content")) {
                Some(c) => Some((p, c)),
                None => None,
            }
        },
        JsonValue::Array(items) => {
            if items.len() != 2 {
                return None;
            }
            let p = match &items[0] {
                JsonValue::Str(p) => p.clone(),
                other => {
                    proof { lemma_view_containers(*other); }
                    assert(crate::json::json_kind(other@) != 3);
                    return None;
                },
            };
            match string_field(Some(&items[1])) {
                Some(c) => Some((p, c)),
                None => None,
            }
        },
        _ => None,
    }
}

fn listed_hash_of(content: &Option<Vec<u8>>) -> (r: String)
    ensures
        r@ == listed_hash(opt_bytes_view(*content)),
{
    match content {
        Some(b) => content_hash(b.as_slice()),
        None => String::new(),
    }
}

fn check_opened_exec(slot: FileSlot, f: &SyncFile, content: Option<Vec<u8>>) -> (r: Result<Option<Vec<u8>>, SyncError>)
    ensures
        match r {
            Ok(c) => check_opened(slot, f@, opt_bytes_view(content)) == Ok::<Option<Seq<u8>>, SyncError>(opt_bytes_view(c)),
            Err(e) => check_opened(slot, f@, opt_bytes_view(content)) == Err::<Option<Seq<u8>>, SyncError>(e),
        },
{
    let h = listed_hash_of(&content);
    if !str_equal(h.as_str(), f.content_hash.as_str()) {
        return Err(SyncError::HashMismatch);
    }
    if f.deleted {
        return Err(SyncError::DeletionMarker);
    }
    if let Some(raw) = &content {
        validate_content(slot, raw.as_slice())?;
    }
    Ok(content)
}

/// Opens one file of a snapshot.
fn open_file(slot: FileSlot, f: &SyncFile, secret: &str) -> (r: Result<Option<Vec<u8>>, SyncError>)
    ensures
        match r {
            Ok(c) => open_file_spec(slot, f@, secret@) == Ok::<Option<Seq<u8>>, SyncError>(opt_bytes_view(c)),
            Err(e) => open_file_spec(slot, f@, secret@) == Err::<Option<Seq<u8>>, SyncError>(e),
        },
{
    let bytes = match decrypt_content(secret, f.encrypted_content.as_str()) {
        Err(_) => return Err(SyncError::UndecryptableFile(slot)),
        Ok(b) => b,
    };
    let v = match json_parse(bytes.as_slice()) {
        None => return Err(SyncError::InvalidEnvelope),
        Some(v) => v,
    };
    let (p, c) = match read_envelope(&v) {
        None => return Err(SyncError::InvalidEnvelope),
        Some(pc) => pc,
    };
    if !str_equal(p.as_str(), f.path.as_str()) {
        return Err(SyncError::PathMismatch);
    }
    match c {
        Some(text) => match base64_decode(text.as_str()) {
            None => Err(SyncError::InvalidEnvelopeContent),
            Some(raw) => check_opened_exec(slot, f, Some(raw)),
        },
        None => check_opened_exec(slot, f, None),
    }
}

/// The slots marked in a list of four flags.
pub open spec fn seen_set(seen: Seq<bool>) -> Set<FileSlot> {
    Set::new(|s: FileSlot| seen[slot_index(s)])
}

/// Opens and checks a complete snapshot; see [`decrypt_snapshot_spec`].
pub fn decrypt_snapshot(snapshot: &SyncSnapshot, secret: &str) -> (r: Result<Contents, SyncError>)
    ensures
        match r {
            Ok(c) => decrypt_snapshot_spec(snapshot.version, files_view(snapshot.files@), secret@)
                == Ok::<Seq<Option<Seq<u8>>>, SyncError>(c@),
            Err(e) => decrypt_snapshot_spec(snapshot.version, files_view(snapshot.files@), secret@)
                == Err::<Seq<Option<Seq<u8>>>, SyncError>(e),
        },
{
    if snapshot.version == 0 {
        return Err(SyncError::ServerEmpty);
    }
    if snapshot.files.len() != 4 {
        assert(files_view(snapshot.files@).len() != 4);
        return Err(SyncError::IncompleteSnapshot);
    }
    let ghost fv = files_view(snapshot.files@);
    let ghost init: Seq<Option<Seq<u8>>> = seq![None, None, None, None];
    let mut contents = Contents::empty();
    let mut seen: Vec<bool> = vec![false, false, false, false];
    let mut i: usize = 0;
    proof {
        lemma_slot_names_distinct();
        assert(fv.skip(0) =~= fv);
        assert(seen_set(seen@) =~= Set::<FileSlot>::empty());
    }
    while i < 4
        invariant
            i <= 4,
            snapshot.version != 0,
            snapshot.files@.len() == 4,
            init == seq![None::<Seq<u8>>, None, None, None],
            fv == files_view(snapshot.files@),
            seen@.len() == 4,
            open_files_spec(fv, secret@, init, Set::empty())
                == open_files_spec(fv.skip(i as int), secret@, contents@, seen_set(seen@)),
        decreases 4 - i,
    {
        let f = &snapshot.files[i];
        proof {
            assert(fv.skip(i as int)[0] == f@);
            assert(fv.skip(i as int).drop_first() =~= fv.skip(i + 1));
        }
        let slot = match FileSlot::from_name(f.path.as_str()) {
            None => return Err(SyncError::IllegalPath),
            Some(s) => s,
        };
        if seen[slot.index()] {
            return Err(SyncError::DuplicateFile);
        }
        let c = open_file(slot, f, secret)?;
        let ghost cv = opt_bytes_view(c);
        let ghost seen_before = seen@;
        contents.set(slot, c);
        seen.set(slot.index(), true);
        proof {
            assert(seen_set(seen@) =~= seen_set(seen_before).insert(slot)) by {
                lemma_slot_names_distinct();
            }
        }
        i = i + 1;
    }
    proof {
        assert(fv.skip(4) =~= Seq::<SyncFileView>::empty());
    }
    if contents.settings.is_none() {
        return Err(SyncError::MissingSettings);
    }
    Ok(contents)
}

// ---------------------------------------------------------------- sealing

/// The Base64 text carried for a file's content.
pub open spec fn content_text(content: Option<Seq<u8>>) -> Option<Seq<char>> {
    match content {
        Some(b) => Some(base64_encode_spec(b)),
        None => None,
    }
}

/// The plaintext sealed for a file.
pub open spec fn envelope_bytes(slot: FileSlot, content: Option<Seq<u8>>) -> Seq<u8> {
    json_compact_spec(envelope_value(slot_name(slot), content_text(content)))
}

/// `f` is the sealed form of `content` in `slot`, at `version`: its path and
/// listed hash, and a ciphertext of the file's envelope under `secret`,
/// which decrypts, reads and decodes back to the content.
pub open spec fn sealed_file(f: SyncFileView, slot: FileSlot, content: Option<Seq<u8>>, version: u64, secret: Seq<char>) -> bool {
    &&& f.path == slot_name(slot)
    &&& f.version == version
    &&& !f.deleted
    &&& f.content_hash == listed_hash(content)
    &&& sealed_with(secret, envelope_bytes(slot, content), f.encrypted_content)
    &&& decrypt_spec(secret, f.encrypted_content) == Ok::<Seq<u8>, SyncError>(envelope_bytes(slot, content))
    &&& json_parse_spec(envelope_bytes(slot, content)) == Some(envelope_value(slot_name(slot), content_text(content)))
    &&& (content matches Some(b) ==> base64_decode_spec(base64_encode_spec(b)) == Some(b))
}

/// Each present file passes its format check, and the manager settings are
/// present: what a complete snapshot must hold.
pub open spec fn contents_complete(c: Seq<Option<Seq<u8>>>) -> bool {
    &&& c.len() == 4
    &&& c[3] is Some
    &&& forall|i: int| 0 <= i < 4 ==> (#[trigger] c[i] matches Some(raw) ==> validate_content_spec(slot_at(i), raw) is Ok)
}

proof fn lemma_envelope_wf(path: Seq<char>, text: Option<Seq<char>>)
    ensures
        json_wf(envelope_value(path, text)),
        json_no_numbers(envelope_value(path, text)),
        crate::json::json_depth_within(envelope_value(path, text), 127),
        crate::json::json_numbers_ok(envelope_value(path, text)),
{
    reveal_strlit("content");
    reveal_strlit("path");
    let c = "content"@;
    let p = "path"@;
    vstd::utf8::is_ascii_chars_encode_utf8(c);
    vstd::utf8::is_ascii_chars_encode_utf8(p);
    assert(vstd::utf8::encode_utf8(c)[0] == 99u8);
    assert(vstd::utf8::encode_utf8(p)[0] == 112u8);
    assert(crate::text::key_lt(c, p));
    let e = seq![
        (c, match text { Some(t) => JsonView::Str(t), None => JsonView::Null }),
        (p, JsonView::Str(path)),
    ];
    assert(crate::json::entry_keys(e) =~= seq![c, p]);
    assert(e.drop_first().drop_first() =~= Seq::<(Seq<char>, JsonView)>::empty());
    assert(crate::json::entries_wf(e.drop_first().drop_first()));
    assert(e.drop_first()[0] == e[1]);
    assert(crate::json::json_wf(e[1].1));
    assert(crate::json::json_wf(e[0].1));
    assert(crate::json::json_no_numbers(e[1].1));
    assert(crate::json::json_no_numbers(e[0].1));
    assert(crate::json::entries_wf(e.drop_first()));
    assert(crate::json::entries_wf(e));
    assert(crate::json::entries_no_numbers(e.drop_first().drop_first()));
    assert(crate::json::entries_no_numbers(e.drop_first()));
    assert(crate::json::entries_no_numbers(e));
    assert(crate::json::json_depth_within(e[1].1, 126));
    assert(crate::json::json_depth_within(e[0].1, 126));
    assert(crate::json::entries_depth_within(e.drop_first().drop_first(), 126));
    assert(crate::json::entries_depth_within(e.drop_first(), 126));
    assert(crate::json::entries_depth_within(e, 126));
    assert(crate::json::keys_sorted(crate::json::entry_keys(e)));
    assert(envelope_value(path, text) == JsonView::Object(e));
    assert forall|i: int| 0 <= i < e.len() implies crate::json::json_numbers_ok(#[trigger] e[i].1) by {
        if i == 0 {
            assert(crate::json::json_numbers_ok(e[0].1));
        } else {
            assert(crate::json::json_numbers_ok(e[1].1));
        }
    }
}

/// Every file's envelope is small enough for AES-GCM to seal.
pub open spec fn sealable(c: Seq<Option<Seq<u8>>>) -> bool {
    forall|i: int| 0 <= i < 4 ==> (#[trigger] envelope_bytes(slot_at(i), c[i])).len() <= aes_gcm_max_plaintext()
}

/// Seals a file set for the server: one encrypted file per slot, in slot
/// order, each listed with its content hash and `version`. Sealing fails
/// only where an envelope is too long for AES-GCM.
pub fn encrypt_files(contents: &Contents, version: u64, secret: &str) -> (r: Result<Vec<SyncFile>, SyncError>)
    ensures
        r is Ok <==> sealable(contents@),
        r matches Err(e) ==> e == SyncError::EncryptionFailed,
        r matches Ok(files) ==> files@.len() == 4 && forall|i: int| 0 <= i < 4 ==>
            sealed_file(#[trigger] files_view(files@)[i], slot_at(i), contents@[i], version, secret@),
{
    let mut files: Vec<SyncFile> = Vec::new();
    let mut i: usize = 0;
    while i < 4
        invariant
            i <= 4,
            files@.len() == i,
            forall|j: int| 0 <= j < i ==>
                sealed_file(#[trigger] files_view(files@)[j], slot_at(j), contents@[j], version, secret@),
            forall|j: int| 0 <= j < i ==>
                (#[trigger] envelope_bytes(slot_at(j), contents@[j])).len() <= aes_gcm_max_plaintext(),
        decreases 4 - i,
    {
        let slot = FileSlot::at(i);
        let content = contents.get(slot);
        let text: Option<String> = match content {
            Some(b) => Some(base64_encode(b.as_slice())),
            None => None,
        };
        let field = match &text {
            Some(t) => JsonValue::Str(t.clone()),
            None => JsonValue::Null,
        };
        let ghost field_view = field@;
        proof {
            reveal_strlit("content");
            reveal_strlit("path");
        }
        let mut entries: Vec<(String, JsonValue)> = Vec::new();
        entries.push(("content".to_owned(), field));
        entries.push(("path".to_owned(), JsonValue::Str(slot.name().to_owned())));
        let envelope = JsonValue::Object(entries);
        proof {
            lemma_view_containers(envelope);
            assert(envelope@ == JsonView::Object(entries_view(entries@)));
            let ghost tv = content_text(opt_bytes_view(*content));
            let ghost fieldv = match tv { Some(t) => JsonView::Str(t), None => JsonView::Null };
            assert(field_view == fieldv);
            assert(entries_view(entries@)[0] == ("content"@, fieldv));
            assert(entries_view(entries@)[1] == ("path"@, JsonView::Str(slot_name(slot))));
            assert(entries_view(entries@) =~= seq![("content"@, fieldv), ("path"@, JsonView::Str(slot_name(slot)))]);
            assert(envelope_value(slot_name(slot), tv)->Object_0 =~= seq![("content"@, fieldv), ("path"@, JsonView::Str(slot_name(slot)))]);
            assert(envelope@ == envelope_value(slot_name(slot), content_text(opt_bytes_view(*content))));
            lemma_envelope_wf(slot_name(slot), content_text(opt_bytes_view(*content)));
        }
        let plaintext = json_to_vec(&envelope);
        assert(plaintext@ == envelope_bytes(slot_at(i as int), contents@[i as int]));
        let encrypted = match encrypt_content(secret, plaintext.as_slice()) {
            Ok(e) => e,
            Err(_) => {
                assert(!sealable(contents@));
                return Err(SyncError::EncryptionFailed);
            },
        };
        let hash = listed_hash_of(content);
        let ghost before = files_view(files@);
        files.push(SyncFile {
            path: slot.name().to_owned(),
            content_hash: hash,
            version,
            encrypted_content: encrypted,
            deleted: false,
        });
        proof {
            assert(files_view(files@) =~= before.push(files@[i as int]@));
            assert(sealed_file(files_view(files@)[i as int], slot_at(i as int), contents@[i as int], version, secret@));
        }
        i = i + 1;
    }
    Ok(files)
}

proof fn lemma_open_sealed(f: SyncFileView, slot: FileSlot, content: Option<Seq<u8>>, version: u64, secret: Seq<char>)
    requires
        sealed_file(f, slot, content, version, secret),
        content matches Some(raw) ==> validate_content_spec(slot, raw) is Ok,
    ensures
        open_file_spec(slot, f, secret) == Ok::<Option<Seq<u8>>, SyncError>(content),
{
    reveal_strlit("content");
    reveal_strlit("path");
    assert("content"@ != "path"@) by {
        assert("content"@[0] != "path"@[0]);
    }
    let text = content_text(content);
    let e = seq![
        ("content"@, match text { Some(t) => JsonView::Str(t), None => JsonView::Null }),
        ("path"@, JsonView::Str(f.path)),
    ];
    assert(envelope_value(slot_name(slot), text) == JsonView::Object(e));
    assert(obj_get(e.drop_first(), "path"@) == Some(JsonView::Str(f.path)));
    assert(obj_get(e, "path"@) == Some(JsonView::Str(f.path)));
    assert(obj_get(e, "content"@) == Some(e[0].1));
    assert(envelope_of(JsonView::Object(e)) == Some((f.path, text)));
}

/// Law: the files that [`encrypt_files`] seals from a complete file set open,
/// under the same secret and at any server version, to that file set.
pub proof fn law_sealed_snapshot_opens(files: Seq<SyncFileView>, c: Seq<Option<Seq<u8>>>, version: u64, secret: Seq<char>, server_version: u64)
    requires
        files.len() == 4,
        forall|i: int| 0 <= i < 4 ==> sealed_file(#[trigger] files[i], slot_at(i), c[i], version, secret),
        contents_complete(c),
        server_version > 0,
    ensures
        decrypt_snapshot_spec(server_version, files, secret) == Ok::<Seq<Option<Seq<u8>>>, SyncError>(c),
{
    lemma_slot_names_distinct();
    let init: Seq<Option<Seq<u8>>> = seq![None, None, None, None];
    assert(acc_upto(c, 4) =~= c);
    assert(files.skip(4) =~= Seq::<SyncFileView>::empty());
    assert(open_files_spec(files.skip(4), secret, acc_upto(c, 4), seen_upto(4)) == Ok::<Seq<Option<Seq<u8>>>, SyncError>(c));
    lemma_open_from(files, c, version, secret, 3);
    lemma_open_from(files, c, version, secret, 2);
    lemma_open_from(files, c, version, secret, 1);
    lemma_open_from(files, c, version, secret, 0);
    assert(acc_upto(c, 0) =~= init);
    assert(seen_upto(0) =~= Set::<FileSlot>::empty());
    assert(files.skip(0) =~= files);
}

/// The files of the first `i` slots of `c`, the others missing.
pub open spec fn acc_upto(c: Seq<Option<Seq<u8>>>, i: int) -> Seq<Option<Seq<u8>>> {
    Seq::new(4, |j: int| if j < i { c[j] } else { None })
}

/// The slots before position `i`.
pub open spec fn seen_upto(i: int) -> Set<FileSlot> {
    Set::new(|s: FileSlot| slot_index(s) < i)
}

proof fn lemma_open_from(files: Seq<SyncFileView>, c: Seq<Option<Seq<u8>>>, version: u64, secret: Seq<char>, i: int)
    requires
        0 <= i < 4,
        files.len() == 4,
        forall|j: int| 0 <= j < 4 ==> sealed_file(#[trigger] files[j], slot_at(j), c[j], version, secret),
        contents_complete(c),
        open_files_spec(files.skip(i + 1), secret, acc_upto(c, i + 1), seen_upto(i + 1)) == Ok::<Seq<Option<Seq<u8>>>, SyncError>(c),
    ensures
        open_files_spec(files.skip(i), secret, acc_upto(c, i), seen_upto(i)) == Ok::<Seq<Option<Seq<u8>>>, SyncError>(c),
{
    lemma_slot_names_distinct();
    let slot = slot_at(i);
    assert(slot_index(slot) == i);
    assert(files.skip(i)[0] == files[i]);
    assert(files.skip(i).drop_first() =~= files.skip(i + 1));
    assert(slot_of_name(files[i].path) == Some(slot));
    assert(!seen_upto(i).contains(slot));
    assert(c[i] matches Some(raw) ==> validate_content_spec(slot, raw) is Ok);
    lemma_open_sealed(files[i], slot, c[i], version, secret);
    assert(acc_upto(c, i).update(i, c[i]) =~= acc_upto(c, i + 1));
    assert(seen_upto(i).insert(slot) =~= seen_upto(i + 1));
}

} // verus!
