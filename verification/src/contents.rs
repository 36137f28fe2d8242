//! The contents of the four synchronized files and their digests.

use vstd::prelude::*;
use crate::crypto::{content_hash, content_hash_spec};
use crate::files::{FileSlot, slot_name, slot_at, slot_index};

verus! {

/// The bytes of each synchronized file; `None` where the file is missing.
#[derive(Debug, Clone)]
pub struct Contents {
    pub auth: Option<Vec<u8>>,
    pub config: Option<Vec<u8>>,
    pub models: Option<Vec<u8>>,
    pub settings: Option<Vec<u8>>,
}

pub open spec fn opt_bytes_view(o: Option<Vec<u8>>) -> Option<Seq<u8>> {
    match o {
        Some(v) => Some(v@),
        None => None,
    }
}

pub open spec fn opt_string_view(o: Option<String>) -> Option<Seq<char>> {
    match o {
        Some(v) => Some(v@),
        None => None,
    }
}

impl Contents {
    /// The files in slot order (`auth.json`, `config.toml`, `models.json`,
    /// `settings.json`).
    pub open spec fn view(&self) -> Seq<Option<Seq<u8>>> {
        seq![
            opt_bytes_view(self.auth),
            opt_bytes_view(self.config),
            opt_bytes_view(self.models),
            opt_bytes_view(self.settings),
        ]
    }

    /// A file set with every file missing.
    pub fn empty() -> (r: Contents)
        ensures
            r@ == seq![None::<Seq<u8>>, None, None, None],
    {
        Contents { auth: None, config: None, models: None, settings: None }
    }

    /// The file of a slot.
    pub fn get(&self, slot: FileSlot) -> (r: &Option<Vec<u8>>)
        ensures
            opt_bytes_view(*r) == self@[slot_index(slot)],
    {
        match slot {
            FileSlot::Auth => &self.auth,
            FileSlot::Config => &self.config,
            FileSlot::Models => &self.models,
            FileSlot::Settings => &self.settings,
        }
    }

    /// A copy of the file set.
    pub fn copy(&self) -> (r: Contents)
        ensures
            r@ == self@,
    {
        let r = Contents {
            auth: copy_bytes(&self.auth),
            config: copy_bytes(&self.config),
            models: copy_bytes(&self.models),
            settings: copy_bytes(&self.settings),
        };
        assert(r@ =~= self@);
        r
    }

    /// Replaces the file of a slot.
    pub fn set(&mut self, slot: FileSlot, value: Option<Vec<u8>>)
        ensures
            final(self)@ == old(self)@.update(slot_index(slot), opt_bytes_view(value)),
    {
        match slot {
            FileSlot::Auth => self.auth = value,
            FileSlot::Config => self.config = value,
            FileSlot::Models => self.models = value,
            FileSlot::Settings => self.settings = value,
        }
        proof {
            assert(self@ =~= old(self)@.update(slot_index(slot), opt_bytes_view(value)));
        }
    }
}

fn copy_bytes(b: &Option<Vec<u8>>) -> (r: Option<Vec<u8>>)
    ensures
        opt_bytes_view(r) == opt_bytes_view(*b),
{
    match b {
        Some(v) => Some(v.clone()),
        None => None,
    }
}

fn opt_bytes_equal(a: &Option<Vec<u8>>, b: &Option<Vec<u8>>) -> (r: bool)
    ensures
        r == (opt_bytes_view(*a) == opt_bytes_view(*b)),
{
    match (a, b) {
        (None, None) => true,
        (Some(x), Some(y)) => crate::text::bytes_equal(x.as_slice(), y.as_slice()),
        _ => false,
    }
}

/// Whether two file sets hold the same files.
pub fn contents_equal(a: &Contents, b: &Contents) -> (r: bool)
    ensures
        r == (a@ == b@),
{
    let r = opt_bytes_equal(&a.auth, &b.auth) && opt_bytes_equal(&a.config, &b.config)
        && opt_bytes_equal(&a.models, &b.models) && opt_bytes_equal(&a.settings, &b.settings);
    proof {
        if !r {
            assert(a@[0] != b@[0] || a@[1] != b@[1] || a@[2] != b@[2] || a@[3] != b@[3]);
        } else {
            assert(a@ =~= b@);
        }
    }
    r
}

/// A digest list: one entry per file name, in name order, as a
/// `BTreeMap<String, Option<String>>` iterates.
pub type Hashes = Vec<(String, Option<String>)>;

pub open spec fn hashes_view(h: Seq<(String, Option<String>)>) -> Seq<(Seq<char>, Option<Seq<char>>)> {
    h.map_values(|e: (String, Option<String>)| (e.0@, opt_string_view(e.1)))
}

/// The digest of one file: its content hash, `None` where it is missing.
pub open spec fn file_digest(c: Option<Seq<u8>>) -> Option<Seq<char>> {
    match c {
        Some(b) => Some(content_hash_spec(b)),
        None => None,
    }
}

/// The digest of one file as the service is told it: the content hash, the
/// empty text where the file is missing.
pub open spec fn wire_digest(c: Option<Seq<u8>>) -> Option<Seq<char>> {
    match c {
        Some(b) => Some(content_hash_spec(b)),
        None => Some(Seq::empty()),
    }
}

/// The digests of a file set.
pub open spec fn hashes_spec(c: Seq<Option<Seq<u8>>>) -> Seq<(Seq<char>, Option<Seq<char>>)> {
    Seq::new(4, |i: int| (slot_name(slot_at(i)), file_digest(c[i])))
}

/// The digests of a file set as the service is told them.
pub open spec fn wire_hashes_spec(c: Seq<Option<Seq<u8>>>) -> Seq<(Seq<char>, Option<Seq<char>>)> {
    Seq::new(4, |i: int| (slot_name(slot_at(i)), wire_digest(c[i])))
}

fn digest_of(c: &Option<Vec<u8>>, wire: bool) -> (r: Option<String>)
    ensures
        opt_string_view(r) == if wire { wire_digest(opt_bytes_view(*c)) } else { file_digest(opt_bytes_view(*c)) },
{
    match c {
        Some(b) => Some(content_hash(b.as_slice())),
        None => if wire { Some(String::new()) } else { None },
    }
}

fn digests(contents: &Contents, wire: bool) -> (r: Hashes)
    ensures
        hashes_view(r@) == if wire { wire_hashes_spec(contents@) } else { hashes_spec(contents@) },
{
    let mut out: Hashes = Vec::new();
    let mut i: usize = 0;
    let ghost target = if wire { wire_hashes_spec(contents@) } else { hashes_spec(contents@) };
    while i < 4
        invariant
            i <= 4,
            out@.len() == i,
            target == (if wire { wire_hashes_spec(contents@) } else { hashes_spec(contents@) }),
            forall|j: int| 0 <= j < i ==> (#[trigger] hashes_view(out@)[j]) == target[j],
        decreases 4 - i,
    {
        let slot = FileSlot::at(i);
        let d = digest_of(contents.get(slot), wire);
        let ghost old_out = out@;
        out.push((slot.name().to_owned(), d));
        proof {
            assert(out@ == old_out.push(out@[i as int]));
            assert forall|j: int| 0 <= j < i implies hashes_view(out@)[j] == hashes_view(old_out)[j] by {
                assert(out@[j] == old_out[j]);
            }
            assert(hashes_view(out@)[i as int] == (slot_name(slot), opt_string_view(d)));
            assert(target[i as int] == (slot_name(slot_at(i as int)), opt_string_view(d)));
            assert(hashes_view(out@)[i as int] == target[i as int]);
            assert forall|j: int| 0 <= j < i + 1 implies #[trigger] hashes_view(out@)[j] == target[j] by {
                if j < i {
                    assert(hashes_view(old_out)[j] == target[j]);
                }
            }
        }
        i = i + 1;
    }
    proof {
        assert(hashes_view(out@) =~= target);
    }
    out
}

/// The content hash of each file, `None` for a missing file.
pub fn hashes(contents: &Contents) -> (r: Hashes)
    ensures
        hashes_view(r@) == hashes_spec(contents@),
{
    digests(contents, false)
}

/// The content hash of each file, the empty text for a missing file: what
/// the service compares, since it only sees the digests that clients claim.
pub fn wire_hashes(contents: &Contents) -> (r: Hashes)
    ensures
        hashes_view(r@) == wire_hashes_spec(contents@),
{
    digests(contents, true)
}

fn opt_string_equal(a: &Option<String>, b: &Option<String>) -> (r: bool)
    ensures
        r == (opt_string_view(*a) == opt_string_view(*b)),
{
    match (a, b) {
        (None, None) => true,
        (Some(x), Some(y)) => crate::text::str_equal(x.as_str(), y.as_str()),
        _ => false,
    }
}

/// Whether two digest lists are equal, entry by entry.
pub fn hashes_equal(a: &Hashes, b: &Hashes) -> (r: bool)
    ensures
        r == (hashes_view(a@) == hashes_view(b@)),
{
    if a.len() != b.len() {
        assert(hashes_view(a@).len() != hashes_view(b@).len());
        return false;
    }
    let mut i: usize = 0;
    while i < a.len()
        invariant
            a@.len() == b@.len(),
            i <= a@.len(),
            forall|j: int| 0 <= j < i ==> hashes_view(a@)[j] == hashes_view(b@)[j],
        decreases a@.len() - i,
    {
        if !crate::text::str_equal(a[i].0.as_str(), b[i].0.as_str()) || !opt_string_equal(&a[i].1, &b[i].1) {
            assert(hashes_view(a@)[i as int] != hashes_view(b@)[i as int]);
            return false;
        }
        i = i + 1;
    }
    assert(hashes_view(a@) =~= hashes_view(b@));
    true
}

} // verus!
