//! A read-only view of Codex's live `config.toml`: its text, digest, whether
//! it parses, and which top-level keys and tables it has.

use vstd::prelude::*;
use crate::crypto::{content_hash, content_hash_spec};
use crate::merge::strings_view;
use crate::projection::{toml_edit_inspect, toml_edit_inspect_spec};
use vstd::utf8::{decode_utf8, valid_utf8};
use crate::text::{key_lt, lemma_key_le_chain, lemma_key_order, str_less, string_from_utf8_lossy, utf8_lossy};

verus! {

broadcast use vstd::seq_lib::group_seq_properties;

/// The top-level keys of a document: plain keys and tables, each sorted.
#[derive(Debug, Clone)]
pub struct LiveConfigSummary {
    pub root_keys: Vec<String>,
    pub tables: Vec<String>,
}

/// What was read of the live configuration file.
#[derive(Debug, Clone)]
pub struct LiveConfigSnapshot {
    pub path: String,
    pub exists: bool,
    pub text: String,
    pub sha256: String,
    pub parse_status: String,
    pub summary: LiveConfigSummary,
}

/// What an edited configuration text would be.
#[derive(Debug, Clone)]
pub struct LiveConfigPreview {
    pub parse_status: String,
    pub error: Option<String>,
    pub summary: LiveConfigSummary,
}

impl LiveConfigSummary {
    /// The summary of a document that did not parse: nothing.
    pub fn empty() -> (r: LiveConfigSummary)
        ensures
            r.root_keys@.len() == 0,
            r.tables@.len() == 0,
    {
        LiveConfigSummary { root_keys: Vec::new(), tables: Vec::new() }
    }
}

/// In non-decreasing key order.
pub open spec fn sorted_keys(s: Seq<Seq<char>>) -> bool {
    forall|i: int, j: int| 0 <= i < j < s.len() ==> !key_lt(#[trigger] s[j], #[trigger] s[i])
}

/// The keys of the entries whose table flag is `tables`, in document order.
pub open spec fn keys_of_kind(entries: Seq<(Seq<char>, bool)>, tables: bool) -> Seq<Seq<char>>
    decreases entries.len(),
{
    if entries.len() == 0 {
        Seq::empty()
    } else if entries.last().1 == tables {
        keys_of_kind(entries.drop_last(), tables).push(entries.last().0)
    } else {
        keys_of_kind(entries.drop_last(), tables)
    }
}

/// No key is in both lists.
pub open spec fn keys_disjoint(a: Seq<Seq<char>>, b: Seq<Seq<char>>) -> bool {
    forall|i: int, j: int| 0 <= i < a.len() && 0 <= j < b.len() ==> #[trigger] a[i] != #[trigger] b[j]
}

/// No two entries have the same key.
pub open spec fn distinct_entry_keys(entries: Seq<(Seq<char>, bool)>) -> bool {
    forall|i: int, j: int| 0 <= i < j < entries.len() ==> #[trigger] entries[i].0 != #[trigger] entries[j].0
}

proof fn lemma_kind_member(entries: Seq<(Seq<char>, bool)>, tables: bool, k: Seq<char>) -> (i: int)
    requires
        keys_of_kind(entries, tables).contains(k),
    ensures
        0 <= i < entries.len(),
        entries[i].0 == k,
        entries[i].1 == tables,
    decreases entries.len(),
{
    let rest = keys_of_kind(entries.drop_last(), tables);
    if entries.last().1 == tables && entries.last().0 == k {
        entries.len() - 1
    } else {
        if entries.last().1 == tables {
            let n = choose|n: int| 0 <= n < rest.push(entries.last().0).len() && rest.push(entries.last().0)[n] == k;
            assert(n < rest.len());
            assert(rest[n] == k);
        }
        assert(rest.contains(k));
        let i = lemma_kind_member(entries.drop_last(), tables, k);
        assert(entries[i] == entries.drop_last()[i]);
        i
    }
}

/// A summary of entries with distinct keys never lists a key as both.
proof fn lemma_summary_disjoint(entries: Seq<(Seq<char>, bool)>, root_keys: Seq<Seq<char>>, tables: Seq<Seq<char>>)
    requires
        distinct_entry_keys(entries),
        summarizes(entries, root_keys, tables),
    ensures
        keys_disjoint(root_keys, tables),
{
    root_keys.to_multiset_ensures();
    tables.to_multiset_ensures();
    keys_of_kind(entries, false).to_multiset_ensures();
    keys_of_kind(entries, true).to_multiset_ensures();
    assert forall|i: int, j: int| 0 <= i < root_keys.len() && 0 <= j < tables.len() implies #[trigger] root_keys[i] != #[trigger] tables[j] by {
        if root_keys[i] == tables[j] {
            let k = root_keys[i];
            assert(root_keys.contains(k));
            assert(tables.contains(k));
            assert(keys_of_kind(entries, false).to_multiset().count(k) > 0);
            assert(keys_of_kind(entries, true).to_multiset().count(k) > 0);
            let x = lemma_kind_member(entries, false, k);
            let y = lemma_kind_member(entries, true, k);
            if x < y {
                assert(entries[x].0 != entries[y].0);
            } else {
                assert(entries[y].0 != entries[x].0);
            }
        }
    }
}

/// `summary` lists the document's plain keys and its tables, each sorted.
pub open spec fn summarizes(entries: Seq<(Seq<char>, bool)>, root_keys: Seq<Seq<char>>, tables: Seq<Seq<char>>) -> bool {
    &&& sorted_keys(root_keys)
    &&& sorted_keys(tables)
    &&& root_keys.to_multiset() == keys_of_kind(entries, false).to_multiset()
    &&& tables.to_multiset() == keys_of_kind(entries, true).to_multiset()
}

/// Inserts `key` into sorted `keys`, after every key that comes before it.
fn insert_sorted(keys: &mut Vec<String>, key: String)
    requires
        sorted_keys(strings_view(old(keys)@)),
    ensures
        sorted_keys(strings_view(final(keys)@)),
        strings_view(final(keys)@).to_multiset() == strings_view(old(keys)@).to_multiset().insert(key@),
{
    let ghost s = strings_view(keys@);
    let mut p: usize = 0;
    while p < keys.len() && str_less(keys[p].as_str(), key.as_str())
        invariant
            p <= keys@.len(),
            s == strings_view(keys@),
            forall|i: int| 0 <= i < p ==> key_lt(#[trigger] s[i], key@),
        decreases keys@.len() - p,
    {
        p = p + 1;
    }
    let ghost kv = key@;
    keys.insert(p, key);
    proof {
        lemma_key_order();
        let t = strings_view(keys@);
        assert(t =~= s.insert(p as int, kv));
        assert(p < s.len() ==> !key_lt(s[p as int], kv));
        assert forall|i: int, j: int| 0 <= i < j < t.len() implies !key_lt(#[trigger] t[j], #[trigger] t[i]) by {
            if j < p {
                assert(t[i] == s[i] && t[j] == s[j]);
            } else if j == p {
                assert(t[i] == s[i]);
                assert(key_lt(s[i], kv));
                lemma_key_le_chain(s[i], kv, kv);
            } else if i < p {
                assert(t[i] == s[i]);
                assert(t[j] == s[j - 1]);
                assert(key_lt(s[i], kv));
                assert(!key_lt(s[p as int], kv));
                if j - 1 > p {
                    assert(!key_lt(s[j - 1], s[p as int]));
                    lemma_key_le_chain(kv, s[p as int], s[j - 1]);
                }
                lemma_key_le_chain(s[i], kv, s[j - 1]);
                lemma_key_le_chain(s[i], s[j - 1], s[j - 1]);
            } else if i == p {
                assert(t[i] == kv);
                assert(t[j] == s[j - 1]);
                assert(!key_lt(s[p as int], kv));
                if j - 1 > p {
                    assert(!key_lt(s[j - 1], s[p as int]));
                    lemma_key_le_chain(kv, s[p as int], s[j - 1]);
                }
            } else {
                assert(t[i] == s[i - 1] && t[j] == s[j - 1]);
            }
        }
        assert(t.remove(p as int) =~= s);
        assert(t[p as int] == kv);
        s.to_multiset_ensures();
        t.to_multiset_ensures();
        assert(t.to_multiset().remove(kv) =~= s.to_multiset());
        assert(t.to_multiset().count(kv) > 0);
        assert(t.to_multiset() =~= s.to_multiset().insert(kv));
    }
}

/// Splits top-level entries into sorted plain keys and sorted tables.
pub fn summarize(entries: &Vec<(String, bool)>) -> (r: LiveConfigSummary)
    ensures
        summarizes(
            entries@.map_values(|e: (String, bool)| (e.0@, e.1)),
            strings_view(r.root_keys@),
            strings_view(r.tables@),
        ),
{
    let ghost ev = entries@.map_values(|e: (String, bool)| (e.0@, e.1));
    let mut root_keys: Vec<String> = Vec::new();
    let mut tables: Vec<String> = Vec::new();
    let mut i: usize = 0;
    proof {
        assert(ev.take(0) =~= Seq::<(Seq<char>, bool)>::empty());
        assert(strings_view(root_keys@) =~= Seq::<Seq<char>>::empty());
        assert(strings_view(tables@) =~= Seq::<Seq<char>>::empty());
        Seq::<Seq<char>>::empty().to_multiset_ensures();
    }
    while i < entries.len()
        invariant
            i <= entries@.len(),
            ev == entries@.map_values(|e: (String, bool)| (e.0@, e.1)),
            sorted_keys(strings_view(root_keys@)),
            sorted_keys(strings_view(tables@)),
            strings_view(root_keys@).to_multiset() == keys_of_kind(ev.take(i as int), false).to_multiset(),
            strings_view(tables@).to_multiset() == keys_of_kind(ev.take(i as int), true).to_multiset(),
        decreases entries@.len() - i,
    {
        proof {
            assert(ev.take(i + 1).drop_last() =~= ev.take(i as int));
            assert(ev.take(i + 1).last() == ev[i as int]);
            keys_of_kind(ev.take(i as int), false).to_multiset_ensures();
            keys_of_kind(ev.take(i as int), true).to_multiset_ensures();
        }
        let key = entries[i].0.clone();
        if entries[i].1 {
            insert_sorted(&mut tables, key);
        } else {
            insert_sorted(&mut root_keys, key);
        }
        i = i + 1;
    }
    assert(ev.take(entries@.len() as int) =~= ev);
    LiveConfigSummary { root_keys, tables }
}

/// The status and summary of a text: `"valid"` with the summary of its
/// top-level entries where toml_edit reads it, else `"invalid"` and nothing.
pub open spec fn status_of(text: Seq<char>, status: Seq<char>, summary: LiveConfigSummary) -> bool {
    match toml_edit_inspect_spec(text) {
        Ok(entries) => status == "valid"@
            && summarizes(entries, strings_view(summary.root_keys@), strings_view(summary.tables@))
            && keys_disjoint(strings_view(summary.root_keys@), strings_view(summary.tables@)),
        Err(_) => status == "invalid"@ && summary.root_keys@.len() == 0 && summary.tables@.len() == 0,
    }
}

/// What previewing `text` gives: its status and summary, and the parser's
/// message where it does not parse.
pub open spec fn preview_of(text: Seq<char>, r: LiveConfigPreview) -> bool {
    &&& status_of(text, r.parse_status@, r.summary)
    &&& match toml_edit_inspect_spec(text) {
        Ok(_) => r.error is None,
        Err(message) => crate::contents::opt_string_view(r.error) == Some(message),
    }
}

/// What reading the live configuration at `path` gives, from the bytes read
/// there (`None` where the file does not exist).
pub open spec fn snapshot_of(path: Seq<char>, bytes: Option<Seq<u8>>, r: LiveConfigSnapshot) -> bool {
    &&& r.path@ == path
    &&& r.sha256@.len() == 64
    &&& match bytes {
        Some(b) => {
            &&& r.exists
            &&& r.text@ == utf8_lossy(b)
            &&& (valid_utf8(b) ==> r.text@ == decode_utf8(b))
            &&& r.sha256@ == content_hash_spec(b)
            &&& status_of(r.text@, r.parse_status@, r.summary)
        },
        None => {
            &&& !r.exists
            &&& r.text@.len() == 0
            &&& r.sha256@ == content_hash_spec(Seq::empty())
            &&& r.parse_status@ == "missing"@
            &&& r.summary.root_keys@.len() == 0
            &&& r.summary.tables@.len() == 0
        },
    }
}

/// Previews a configuration text without writing it: `"valid"` with its
/// summary, or `"invalid"` with the parser's message and no summary.
pub fn preview_live_config(text: &str) -> (r: LiveConfigPreview)
    ensures
        preview_of(text@, r),
{
    match toml_edit_inspect(text) {
        Ok(entries) => {
            let summary = summarize(&entries);
            proof {
                let ev = entries@.map_values(|e: (String, bool)| (e.0@, e.1));
                assert forall|i: int, j: int| 0 <= i < j < ev.len() implies #[trigger] ev[i].0 != #[trigger] ev[j].0 by {
                    assert(ev[i].0 == entries@[i].0@ && ev[j].0 == entries@[j].0@);
                }
                lemma_summary_disjoint(ev, strings_view(summary.root_keys@), strings_view(summary.tables@));
            }
            LiveConfigPreview { parse_status: "valid".to_owned(), error: None, summary }
        },
        Err(message) => LiveConfigPreview {
            parse_status: "invalid".to_owned(),
            error: Some(message),
            summary: LiveConfigSummary::empty(),
        },
    }
}

/// The snapshot of the live configuration at `path`, from the bytes read
/// there (`None` where the file does not exist): the text (invalid UTF-8
/// replaced), the SHA-256 of the bytes, and whether the text parses.
pub fn live_config_snapshot(path: String, bytes: Option<Vec<u8>>) -> (r: LiveConfigSnapshot)
    ensures
        snapshot_of(path@, match bytes { Some(b) => Some(b@), None => None }, r),
{
    match bytes {
        Some(b) => {
            let text = string_from_utf8_lossy(b.as_slice());
            let sha256 = content_hash(b.as_slice());
            let (parse_status, summary) = match toml_edit_inspect(text.as_str()) {
                Ok(entries) => {
                    let summary = summarize(&entries);
                    proof {
                        let ev = entries@.map_values(|e: (String, bool)| (e.0@, e.1));
                        assert forall|i: int, j: int| 0 <= i < j < ev.len() implies #[trigger] ev[i].0 != #[trigger] ev[j].0 by {
                            assert(ev[i].0 == entries@[i].0@ && ev[j].0 == entries@[j].0@);
                        }
                        lemma_summary_disjoint(ev, strings_view(summary.root_keys@), strings_view(summary.tables@));
                    }
                    ("valid".to_owned(), summary)
                },
                Err(_) => ("invalid".to_owned(), LiveConfigSummary::empty()),
            };
            LiveConfigSnapshot { path, exists: true, text, sha256, parse_status, summary }
        },
        None => {
            let empty: Vec<u8> = Vec::new();
            assert(empty@ =~= Seq::<u8>::empty());
            LiveConfigSnapshot {
                path,
                exists: false,
                text: String::new(),
                sha256: content_hash(empty.as_slice()),
                parse_status: "missing".to_owned(),
                summary: LiveConfigSummary::empty(),
            }
        },
    }
}

/// Two sorted sequences that hold the same keys are the same sequence.
proof fn lemma_sorted_unique(s: Seq<Seq<char>>, t: Seq<Seq<char>>)
    requires
        sorted_keys(s),
        sorted_keys(t),
        s.to_multiset() == t.to_multiset(),
    ensures
        s == t,
    decreases s.len(),
{
    s.to_multiset_ensures();
    t.to_multiset_ensures();
    if s.len() == 0 {
        assert(t.len() == 0);
        assert(s =~= t);
    } else {
        assert(t.len() > 0);
        lemma_key_order();
        assert(s.to_multiset().count(t[0]) > 0);
        assert(s.contains(t[0]));
        let k = choose|k: int| 0 <= k < s.len() && s[k] == t[0];
        if k > 0 {
            assert(!key_lt(s[k], s[0]));
        }
        assert(t.to_multiset().count(s[0]) > 0);
        assert(t.contains(s[0]));
        let m = choose|m: int| 0 <= m < t.len() && t[m] == s[0];
        if m > 0 {
            assert(!key_lt(t[m], t[0]));
        }
        assert(s[0] == t[0]);
        let s1 = s.drop_first();
        let t1 = t.drop_first();
        assert(s =~= seq![s[0]] + s1);
        assert(t =~= seq![t[0]] + t1);
        vstd::seq_lib::lemma_multiset_commutative(seq![s[0]], s1);
        vstd::seq_lib::lemma_multiset_commutative(seq![t[0]], t1);
        seq![s[0]].to_multiset_ensures();
        assert(seq![s[0]] =~= Seq::<Seq<char>>::empty().push(s[0]));
        Seq::<Seq<char>>::empty().to_multiset_ensures();
        let one = seq![s[0]];
        assert(one.to_multiset() == vstd::multiset::Multiset::<Seq<char>>::empty().insert(s[0]));
        assert(seq![t[0]] == one);
        assert forall|x: Seq<char>| s1.to_multiset().count(x) == t1.to_multiset().count(x) by {
            assert(s.to_multiset().count(x) == one.to_multiset().count(x) + s1.to_multiset().count(x));
            assert(t.to_multiset().count(x) == one.to_multiset().count(x) + t1.to_multiset().count(x));
        }
        assert(s1.to_multiset() =~= t1.to_multiset());
        assert(sorted_keys(s1)) by {
            assert forall|i: int, j: int| 0 <= i < j < s1.len() implies !key_lt(#[trigger] s1[j], #[trigger] s1[i]) by {
                assert(s1[i] == s[i + 1] && s1[j] == s[j + 1]);
            }
        }
        assert(sorted_keys(t1)) by {
            assert forall|i: int, j: int| 0 <= i < j < t1.len() implies !key_lt(#[trigger] t1[j], #[trigger] t1[i]) by {
                assert(t1[i] == t[i + 1] && t1[j] == t[j + 1]);
            }
        }
        lemma_sorted_unique(s1, t1);
    }
}

/// Two results that both meet [`status_of`] for one text agree.
proof fn lemma_status_unique(text: Seq<char>, s1: Seq<char>, m1: LiveConfigSummary, s2: Seq<char>, m2: LiveConfigSummary)
    requires
        status_of(text, s1, m1),
        status_of(text, s2, m2),
    ensures
        s1 == s2,
        strings_view(m1.root_keys@) == strings_view(m2.root_keys@),
        strings_view(m1.tables@) == strings_view(m2.tables@),
{
    match toml_edit_inspect_spec(text) {
        Ok(entries) => {
            lemma_sorted_unique(strings_view(m1.root_keys@), strings_view(m2.root_keys@));
            lemma_sorted_unique(strings_view(m1.tables@), strings_view(m2.tables@));
        },
        Err(_) => {
            assert(strings_view(m1.root_keys@) =~= strings_view(m2.root_keys@));
            assert(strings_view(m1.tables@) =~= strings_view(m2.tables@));
        },
    }
}

/// Reading a configuration file whose bytes are well-formed UTF-8 gives the
/// same parse status and the same summary as previewing its text.
pub proof fn law_snapshot_matches_preview(
    path: Seq<char>,
    bytes: Seq<u8>,
    snapshot: LiveConfigSnapshot,
    preview: LiveConfigPreview,
)
    requires
        valid_utf8(bytes),
        snapshot_of(path, Some(bytes), snapshot),
        preview_of(decode_utf8(bytes), preview),
    ensures
        snapshot.parse_status@ == preview.parse_status@,
        strings_view(snapshot.summary.root_keys@) == strings_view(preview.summary.root_keys@),
        strings_view(snapshot.summary.tables@) == strings_view(preview.summary.tables@),
{
    lemma_status_unique(
        decode_utf8(bytes),
        snapshot.parse_status@,
        snapshot.summary,
        preview.parse_status@,
        preview.summary,
    );
}

} // verus!
