//! The four configuration files that take part in synchronization.

use vstd::prelude::*;
use vstd::utf8::encode_utf8;
use crate::text::{key_lt, str_equal};

verus! {

/// One synchronized file. The variants are listed in the order of their names
/// (`auth.json` < `config.toml` < `models.json` < `settings.json`), which is
/// the order in which every file set of the protocol is kept.
#[derive(Debug, Clone, Copy, PartialEq, Eq, Structural)]
pub enum FileSlot {
    Auth,
    Config,
    Models,
    Settings,
}

/// The file name that stands for a slot.
pub open spec fn slot_name(slot: FileSlot) -> Seq<char> {
    match slot {
        FileSlot::Auth => seq!['a', 'u', 't', 'h', '.', 'j', 's', 'o', 'n'],
        FileSlot::Config => seq!['c', 'o', 'n', 'f', 'i', 'g', '.', 't', 'o', 'm', 'l'],
        FileSlot::Models => seq!['m', 'o', 'd', 'e', 'l', 's', '.', 'j', 's', 'o', 'n'],
        FileSlot::Settings => seq!['s', 'e', 't', 't', 'i', 'n', 'g', 's', '.', 'j', 's', 'o', 'n'],
    }
}

/// Position of a slot in a file set.
pub open spec fn slot_index(slot: FileSlot) -> int {
    match slot {
        FileSlot::Auth => 0,
        FileSlot::Config => 1,
        FileSlot::Models => 2,
        FileSlot::Settings => 3,
    }
}

/// The slot at a position of a file set.
pub open spec fn slot_at(i: int) -> FileSlot {
    if i == 0 {
        FileSlot::Auth
    } else if i == 1 {
        FileSlot::Config
    } else if i == 2 {
        FileSlot::Models
    } else {
        FileSlot::Settings
    }
}

/// The slot whose file name is `name`, if any.
pub open spec fn slot_of_name(name: Seq<char>) -> Option<FileSlot> {
    if name == slot_name(FileSlot::Auth) {
        Some(FileSlot::Auth)
    } else if name == slot_name(FileSlot::Config) {
        Some(FileSlot::Config)
    } else if name == slot_name(FileSlot::Models) {
        Some(FileSlot::Models)
    } else if name == slot_name(FileSlot::Settings) {
        Some(FileSlot::Settings)
    } else {
        None
    }
}

impl FileSlot {
    /// The file name of the slot.
    pub fn name(self) -> (r: &'static str)
        ensures
            r@ == slot_name(self),
    {
        match self {
            FileSlot::Auth => {
                proof { reveal_strlit("auth.json"); }
                "auth.json"
            },
            FileSlot::Config => {
                proof { reveal_strlit("config.toml"); }
                "config.toml"
            },
            FileSlot::Models => {
                proof { reveal_strlit("models.json"); }
                "models.json"
            },
            FileSlot::Settings => {
                proof { reveal_strlit("settings.json"); }
                "settings.json"
            },
        }
    }

    /// The slot that a file name stands for; `None` for any other name.
    pub fn from_name(name: &str) -> (r: Option<FileSlot>)
        ensures
            r == slot_of_name(name@),
    {
        if str_equal(name, FileSlot::Auth.name()) {
            Some(FileSlot::Auth)
        } else if str_equal(name, FileSlot::Config.name()) {
            Some(FileSlot::Config)
        } else if str_equal(name, FileSlot::Models.name()) {
            Some(FileSlot::Models)
        } else if str_equal(name, FileSlot::Settings.name()) {
            Some(FileSlot::Settings)
        } else {
            None
        }
    }

    /// Position of the slot in a file set.
    pub fn index(self) -> (r: usize)
        ensures
            r == slot_index(self),
    {
        match self {
            FileSlot::Auth => 0,
            FileSlot::Config => 1,
            FileSlot::Models => 2,
            FileSlot::Settings => 3,
        }
    }

    /// The slot at a position of a file set.
    pub fn at(i: usize) -> (r: FileSlot)
        requires
            i < 4,
        ensures
            r == slot_at(i as int),
            slot_index(r) == i,
    {
        if i == 0 {
            FileSlot::Auth
        } else if i == 1 {
            FileSlot::Config
        } else if i == 2 {
            FileSlot::Models
        } else {
            FileSlot::Settings
        }
    }
}

/// Distinct slots have distinct names.
pub proof fn lemma_slot_names_distinct()
    ensures
        forall|s: FileSlot, t: FileSlot| slot_name(s) == slot_name(t) ==> s == t,
        forall|s: FileSlot| #[trigger] slot_of_name(slot_name(s)) == Some(s),
        forall|s: FileSlot| slot_at(#[trigger] slot_index(s)) == s,
{
    assert(slot_name(FileSlot::Auth)[0] != slot_name(FileSlot::Config)[0]);
    assert(slot_name(FileSlot::Auth)[0] != slot_name(FileSlot::Models)[0]);
    assert(slot_name(FileSlot::Auth)[0] != slot_name(FileSlot::Settings)[0]);
    assert(slot_name(FileSlot::Config)[0] != slot_name(FileSlot::Models)[0]);
    assert(slot_name(FileSlot::Config)[0] != slot_name(FileSlot::Settings)[0]);
    assert(slot_name(FileSlot::Models)[0] != slot_name(FileSlot::Settings)[0]);
}

/// The file names sort in slot order.
pub proof fn lemma_slot_names_ordered()
    ensures
        forall|i: int, j: int| 0 <= i < j < 4 ==> key_lt(#[trigger] slot_name(slot_at(i)), #[trigger] slot_name(slot_at(j))),
{
    let a = slot_name(FileSlot::Auth);
    let c = slot_name(FileSlot::Config);
    let m = slot_name(FileSlot::Models);
    let s = slot_name(FileSlot::Settings);
    vstd::utf8::is_ascii_chars_encode_utf8(a);
    vstd::utf8::is_ascii_chars_encode_utf8(c);
    vstd::utf8::is_ascii_chars_encode_utf8(m);
    vstd::utf8::is_ascii_chars_encode_utf8(s);
    assert(encode_utf8(a)[0] == 97u8);
    assert(encode_utf8(c)[0] == 99u8);
    assert(encode_utf8(m)[0] == 109u8);
    assert(encode_utf8(s)[0] == 115u8);
    assert(key_lt(a, c));
    assert(key_lt(a, m));
    assert(key_lt(a, s));
    assert(key_lt(c, m));
    assert(key_lt(c, s));
    assert(key_lt(m, s));
}

} // verus!
