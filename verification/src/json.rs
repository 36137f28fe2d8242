//! A JSON document as plain values: the model that the merge, the settings
//! projection and the service's checks read and build.

use vstd::prelude::*;
use crate::text::{key_lt, str_equal, str_less};

verus! {

/// A JSON value. Numbers keep the text that serde_json prints for them;
/// object entries are kept in the order of their keys.
pub enum JsonValue {
    Null,
    Bool(bool),
    Number(String),
    Str(String),
    Array(Vec<JsonValue>),
    Object(Vec<(String, JsonValue)>),
}

/// The mathematical value of a [`JsonValue`].
pub enum JsonView {
    Null,
    Bool(bool),
    Number(Seq<char>),
    Str(Seq<char>),
    Array(Seq<JsonView>),
    Object(Seq<(Seq<char>, JsonView)>),
}

impl JsonValue {
    pub open spec fn view(self) -> JsonView
        decreases self,
    {
        match self {
            JsonValue::Null => JsonView::Null,
            JsonValue::Bool(b) => JsonView::Bool(b),
            JsonValue::Number(n) => JsonView::Number(n@),
            JsonValue::Str(s) => JsonView::Str(s@),
            JsonValue::Array(items) => JsonView::Array(
                Seq::new(items@.len(), |i: int|
                    if 0 <= i < items@.len() { items@[i].view() } else { JsonView::Null }),
            ),
            JsonValue::Object(entries) => JsonView::Object(
                Seq::new(entries@.len(), |i: int|
                    if 0 <= i < entries@.len() {
                        (entries@[i].0@, entries@[i].1.view())
                    } else {
                        (Seq::empty(), JsonView::Null)
                    }),
            ),
        }
    }
}

/// Number of non-null nodes of a value: the measure by which the merge recurses.
pub open spec fn jsize(v: JsonView) -> nat
    decreases v, 1nat,
{
    match v {
        JsonView::Null => 0,
        JsonView::Array(items) => 1 + jsize_items(items),
        JsonView::Object(entries) => 1 + jsize_entries(entries),
        _ => 1,
    }
}

/// Total size of the values of a sequence.
pub open spec fn jsize_items(items: Seq<JsonView>) -> nat
    decreases items, 0nat,
{
    if items.len() == 0 {
        0
    } else {
        jsize(items[0]) + jsize_items(items.drop_first())
    }
}

/// Total size of the values of object entries.
pub open spec fn jsize_entries(entries: Seq<(Seq<char>, JsonView)>) -> nat
    decreases entries, 0nat,
{
    if entries.len() == 0 {
        0
    } else {
        jsize(entries[0].1) + jsize_entries(entries.drop_first())
    }
}

/// The value of the first entry with key `k`.
pub open spec fn obj_get(entries: Seq<(Seq<char>, JsonView)>, k: Seq<char>) -> Option<JsonView>
    decreases entries.len(),
{
    if entries.len() == 0 {
        None
    } else if entries[0].0 == k {
        Some(entries[0].1)
    } else {
        obj_get(entries.drop_first(), k)
    }
}

/// The value of key `k`, `Null` where there is none.
pub open spec fn obj_get_or_null(entries: Seq<(Seq<char>, JsonView)>, k: Seq<char>) -> JsonView {
    match obj_get(entries, k) {
        Some(v) => v,
        None => JsonView::Null,
    }
}

/// A looked-up value is smaller than the object it comes from.
pub proof fn lemma_get_smaller(entries: Seq<(Seq<char>, JsonView)>, k: Seq<char>)
    ensures
        jsize(obj_get_or_null(entries, k)) <= jsize_entries(entries),
    decreases entries.len(),
{
    if entries.len() > 0 && entries[0].0 != k {
        lemma_get_smaller(entries.drop_first(), k);
    }
}

/// The keys of object entries, in order.
pub open spec fn entry_keys(entries: Seq<(Seq<char>, JsonView)>) -> Seq<Seq<char>> {
    entries.map_values(|e: (Seq<char>, JsonView)| e.0)
}

/// Keys in strictly increasing order (so also without repetition).
pub open spec fn keys_sorted(keys: Seq<Seq<char>>) -> bool {
    forall|i: int, j: int| 0 <= i < j < keys.len() ==> key_lt(#[trigger] keys[i], #[trigger] keys[j])
}

/// Well-formed: every object, at any depth, keeps its keys strictly
/// increasing, as a `serde_json::Map` does.
pub open spec fn json_wf(v: JsonView) -> bool
    decreases v, 1nat,
{
    match v {
        JsonView::Array(items) => items_wf(items),
        JsonView::Object(entries) => keys_sorted(entry_keys(entries)) && entries_wf(entries),
        _ => true,
    }
}

/// Every value of the sequence is well-formed.
pub open spec fn items_wf(items: Seq<JsonView>) -> bool
    decreases items, 0nat,
{
    if items.len() == 0 {
        true
    } else {
        json_wf(items[0]) && items_wf(items.drop_first())
    }
}

/// Every value of the entries is well-formed.
pub open spec fn entries_wf(entries: Seq<(Seq<char>, JsonView)>) -> bool
    decreases entries, 0nat,
{
    if entries.len() == 0 {
        true
    } else {
        json_wf(entries[0].1) && entries_wf(entries.drop_first())
    }
}

/// No number anywhere in the value.
pub open spec fn json_no_numbers(v: JsonView) -> bool
    decreases v, 1nat,
{
    match v {
        JsonView::Number(_) => false,
        JsonView::Array(items) => items_no_numbers(items),
        JsonView::Object(entries) => entries_no_numbers(entries),
        _ => true,
    }
}

pub open spec fn items_no_numbers(items: Seq<JsonView>) -> bool
    decreases items, 0nat,
{
    if items.len() == 0 {
        true
    } else {
        json_no_numbers(items[0]) && items_no_numbers(items.drop_first())
    }
}

pub open spec fn entries_no_numbers(entries: Seq<(Seq<char>, JsonView)>) -> bool
    decreases entries, 0nat,
{
    if entries.len() == 0 {
        true
    } else {
        json_no_numbers(entries[0].1) && entries_no_numbers(entries.drop_first())
    }
}

/// Whether `serde_json` reads `text` as a number (`text.parse::<Number>()`).
pub uninterp spec fn number_text_spec(text: Seq<char>) -> bool;

/// Every number of the value is text that `serde_json` reads as a number,
/// as every number of a parsed document is.
pub open spec fn json_numbers_ok(v: JsonView) -> bool
    decreases v,
{
    match v {
        JsonView::Number(t) => number_text_spec(t),
        JsonView::Array(items) => forall|i: int| 0 <= i < items.len() ==> json_numbers_ok(#[trigger] items[i]),
        JsonView::Object(entries) => forall|i: int| 0 <= i < entries.len() ==> json_numbers_ok(#[trigger] entries[i].1),
        _ => true,
    }
}

/// Arrays and objects nested at most `d` deep: `serde_json` reads at most
/// 127 nested levels back.
pub open spec fn json_depth_within(v: JsonView, d: nat) -> bool
    decreases v, 1nat,
{
    match v {
        JsonView::Array(items) => d > 0 && items_depth_within(items, (d - 1) as nat),
        JsonView::Object(entries) => d > 0 && entries_depth_within(entries, (d - 1) as nat),
        _ => true,
    }
}

pub open spec fn items_depth_within(items: Seq<JsonView>, d: nat) -> bool
    decreases items, 0nat,
{
    if items.len() == 0 {
        true
    } else {
        json_depth_within(items[0], d) && items_depth_within(items.drop_first(), d)
    }
}

pub open spec fn entries_depth_within(entries: Seq<(Seq<char>, JsonView)>, d: nat) -> bool
    decreases entries, 0nat,
{
    if entries.len() == 0 {
        true
    } else {
        json_depth_within(entries[0].1, d) && entries_depth_within(entries.drop_first(), d)
    }
}

/// The mathematical entries of an object.
pub open spec fn entries_view(entries: Seq<(String, JsonValue)>) -> Seq<(Seq<char>, JsonView)> {
    Seq::new(entries.len(), |i: int| (entries[i].0@, entries[i].1@))
}

/// The mathematical items of an array.
pub open spec fn items_view(items: Seq<JsonValue>) -> Seq<JsonView> {
    Seq::new(items.len(), |i: int| items[i]@)
}

pub proof fn lemma_view_containers(v: JsonValue)
    ensures
        v matches JsonValue::Array(items) ==> v@ == JsonView::Array(items_view(items@)),
        v matches JsonValue::Object(entries) ==> v@ == JsonView::Object(entries_view(entries@)),
        (v@ is Object) <==> (v is Object),
        (v@ is Array) <==> (v is Array),
{
    match v {
        JsonValue::Array(items) => {
            assert(v@->Array_0 =~= items_view(items@));
        },
        JsonValue::Object(entries) => {
            assert(v@->Object_0 =~= entries_view(entries@));
        },
        _ => {},
    }
}

pub proof fn lemma_entries_wf_index(entries: Seq<(Seq<char>, JsonView)>, i: int)
    requires
        entries_wf(entries),
        0 <= i < entries.len(),
    ensures
        json_wf(entries[i].1),
    decreases i,
{
    if i > 0 {
        lemma_entries_wf_index(entries.drop_first(), i - 1);
    }
}

pub proof fn lemma_items_wf_index(items: Seq<JsonView>, i: int)
    requires
        items_wf(items),
        0 <= i < items.len(),
    ensures
        json_wf(items[i]),
    decreases i,
{
    if i > 0 {
        lemma_items_wf_index(items.drop_first(), i - 1);
    }
}

/// A found value of a well-formed object is well-formed.
pub proof fn lemma_get_wf(entries: Seq<(Seq<char>, JsonView)>, k: Seq<char>)
    requires
        entries_wf(entries),
    ensures
        json_wf(obj_get_or_null(entries, k)),
    decreases entries.len(),
{
    if entries.len() > 0 && entries[0].0 != k {
        lemma_get_wf(entries.drop_first(), k);
    }
}

/// Where the keys are distinct, looking up the key of entry `i` finds entry `i`.
pub proof fn lemma_get_index(entries: Seq<(Seq<char>, JsonView)>, i: int)
    requires
        keys_sorted(entry_keys(entries)),
        0 <= i < entries.len(),
    ensures
        obj_get(entries, entries[i].0) == Some(entries[i].1),
    decreases i,
{
    crate::text::lemma_key_order();
    if i > 0 {
        assert(key_lt(entry_keys(entries)[0], entry_keys(entries)[i]));
        assert(entries[0].0 != entries[i].0);
        assert(entry_keys(entries.drop_first()) =~= entry_keys(entries).drop_first());
        lemma_get_index(entries.drop_first(), i - 1);
    }
}

/// Where the key is none of the entries' keys, the lookup finds nothing.
pub proof fn lemma_get_absent(entries: Seq<(Seq<char>, JsonView)>, k: Seq<char>)
    requires
        !entry_keys(entries).contains(k),
    ensures
        obj_get(entries, k) is None,
    decreases entries.len(),
{
    if entries.len() > 0 {
        assert(entry_keys(entries)[0] == entries[0].0);
        assert(entry_keys(entries.drop_first()) =~= entry_keys(entries).drop_first());
        if entry_keys(entries.drop_first()).contains(k) {
            let j = choose|j: int| 0 <= j < entry_keys(entries.drop_first()).len()
                && entry_keys(entries.drop_first())[j] == k;
            assert(entry_keys(entries)[j + 1] == k);
        }
        lemma_get_absent(entries.drop_first(), k);
    }
}

impl JsonValue {
    /// A copy of the value.
    #[verifier::loop_isolation(false)]
    pub fn deep_clone(&self) -> (r: JsonValue)
        ensures
            r@ == self@,
        decreases self,
    {
        match self {
            JsonValue::Null => JsonValue::Null,
            JsonValue::Bool(b) => JsonValue::Bool(*b),
            JsonValue::Number(n) => JsonValue::Number(n.clone()),
            JsonValue::Str(t) => JsonValue::Str(t.clone()),
            JsonValue::Array(items) => {
                let mut out: Vec<JsonValue> = Vec::new();
                let mut i: usize = 0;
                while i < items.len()
                    invariant
                        i <= items@.len(),
                        out@.len() == i,
                        forall|j: int| 0 <= j < i ==> (#[trigger] out@[j])@ == items@[j]@,
                    decreases items@.len() - i,
                {
                    assert(decreases_to!(*self => *items));
                    assert(decreases_to!(*items => items@));
                    assert(decreases_to!(items@ => items@[i as int]));
                    let c = items[i].deep_clone();
                    out.push(c);
                    i = i + 1;
                }
                let r = JsonValue::Array(out);
                proof {
                    lemma_view_containers(r);
                    lemma_view_containers(*self);
                    assert(items_view(out@) =~= items_view(items@));
                }
                r
            },
            JsonValue::Object(entries) => {
                let mut out: Vec<(String, JsonValue)> = Vec::new();
                let mut i: usize = 0;
                while i < entries.len()
                    invariant
                        i <= entries@.len(),
                        out@.len() == i,
                        forall|j: int| 0 <= j < i ==> (#[trigger] out@[j]).0@ == entries@[j].0@
                            && out@[j].1@ == entries@[j].1@,
                    decreases entries@.len() - i,
                {
                    assert(decreases_to!(*self => *entries));
                    assert(decreases_to!(*entries => entries@));
                    assert(decreases_to!(entries@ => entries@[i as int]));
                    assert(decreases_to!(entries@[i as int] => entries@[i as int].1));
                    let k = entries[i].0.clone();
                    let c = entries[i].1.deep_clone();
                    out.push((k, c));
                    i = i + 1;
                }
                let r = JsonValue::Object(out);
                proof {
                    lemma_view_containers(r);
                    lemma_view_containers(*self);
                    assert(entries_view(out@) =~= entries_view(entries@));
                }
                r
            },
        }
    }
}

/// Which of the six kinds of value `v` is.
pub open spec fn json_kind(v: JsonView) -> int {
    match v {
        JsonView::Null => 0,
        JsonView::Bool(_) => 1,
        JsonView::Number(_) => 2,
        JsonView::Str(_) => 3,
        JsonView::Array(_) => 4,
        JsonView::Object(_) => 5,
    }
}

/// Two number texts stand for equal `serde_json` numbers: the same text, or
/// zero and negative zero, which are equal floats.
pub open spec fn number_same(x: Seq<char>, y: Seq<char>) -> bool {
    x == y || (x == "0.0"@ && y == "-0.0"@) || (x == "-0.0"@ && y == "0.0"@)
}

/// Equality of two JSON values as `==` on `serde_json::Value` decides it:
/// the same kind, equal numbers, the same text, arrays item by item, and
/// objects with the same keys in the same order and equal values.
pub open spec fn json_same(a: JsonView, b: JsonView) -> bool
    decreases a,
{
    match a {
        JsonView::Number(x) => b is Number && number_same(x, b->Number_0),
        JsonView::Array(xs) => b is Array && xs.len() == b->Array_0.len()
            && forall|i: int| #![trigger xs[i]] 0 <= i < xs.len() ==> json_same(xs[i], b->Array_0[i]),
        JsonView::Object(xs) => b is Object && xs.len() == b->Object_0.len()
            && forall|i: int| #![trigger xs[i]] 0 <= i < xs.len() ==> xs[i].0 == b->Object_0[i].0 && json_same(xs[i].1, b->Object_0[i].1),
        _ => a == b,
    }
}

/// Whether two number texts stand for equal numbers.
fn number_equal(x: &str, y: &str) -> (r: bool)
    ensures
        r == number_same(x@, y@),
{
    str_equal(x, y) || (str_equal(x, "0.0") && str_equal(y, "-0.0")) || (str_equal(x, "-0.0") && str_equal(y, "0.0"))
}

/// Equality of two JSON values, as `==` on `serde_json::Value`.
#[verifier::loop_isolation(false)]
pub fn json_equal(a: &JsonValue, b: &JsonValue) -> (r: bool)
    ensures
        r == json_same(a@, b@),
    decreases a,
{
    proof {
        lemma_view_containers(*a);
        lemma_view_containers(*b);
    }
    match (a, b) {
        (JsonValue::Null, JsonValue::Null) => true,
        (JsonValue::Bool(x), JsonValue::Bool(y)) => {
            let r = *x == *y;
            assert(r == (a@ == b@));
            r
        },
        (JsonValue::Number(x), JsonValue::Number(y)) => number_equal(x.as_str(), y.as_str()),
        (JsonValue::Str(x), JsonValue::Str(y)) => {
            let r = str_equal(x.as_str(), y.as_str());
            assert(r == (a@ == b@));
            r
        },
        (JsonValue::Array(xs), JsonValue::Array(ys)) => {
            let ghost xv = items_view(xs@);
            let ghost yv = items_view(ys@);
            if xs.len() != ys.len() {
                return false;
            }
            let mut i: usize = 0;
            while i < xs.len()
                invariant
                    xs@.len() == ys@.len(),
                    i <= xs@.len(),
                    xv == items_view(xs@),
                    yv == items_view(ys@),
                    forall|j: int| #![trigger xv[j]] 0 <= j < i ==> json_same(xv[j], yv[j]),
                decreases xs@.len() - i,
            {
                assert(decreases_to!(*a => *xs));
                assert(decreases_to!(*xs => xs@));
                assert(decreases_to!(xs@ => xs@[i as int]));
                if !json_equal(&xs[i], &ys[i]) {
                    assert(!json_same(xv[i as int], yv[i as int]));
                    return false;
                }
                assert(json_same(xv[i as int], yv[i as int]));
                i = i + 1;
            }
            true
        },
        (JsonValue::Object(xs), JsonValue::Object(ys)) => {
            let ghost xv = entries_view(xs@);
            let ghost yv = entries_view(ys@);
            if xs.len() != ys.len() {
                return false;
            }
            let mut i: usize = 0;
            while i < xs.len()
                invariant
                    xs@.len() == ys@.len(),
                    i <= xs@.len(),
                    xv == entries_view(xs@),
                    yv == entries_view(ys@),
                    forall|j: int| #![trigger xv[j]] 0 <= j < i ==> xv[j].0 == yv[j].0 && json_same(xv[j].1, yv[j].1),
                decreases xs@.len() - i,
            {
                assert(decreases_to!(*a => *xs));
                assert(decreases_to!(*xs => xs@));
                assert(decreases_to!(xs@ => xs@[i as int]));
                assert(decreases_to!(xs@[i as int] => xs@[i as int].1));
                if !str_equal(xs[i].0.as_str(), ys[i].0.as_str()) {
                    assert(xv[i as int].0 != yv[i as int].0);
                    return false;
                }
                if !json_equal(&xs[i].1, &ys[i].1) {
                    assert(!json_same(xv[i as int].1, yv[i as int].1));
                    return false;
                }
                assert(json_same(xv[i as int].1, yv[i as int].1));
                i = i + 1;
            }
            true
        },
        _ => {
            assert(json_kind(a@) != json_kind(b@));
            false
        },
    }
}

/// Equality of values is reflexive.
pub proof fn lemma_same_refl(a: JsonView)
    ensures
        json_same(a, a),
    decreases a,
{
    match a {
        JsonView::Array(xs) => {
            assert forall|i: int| #![trigger xs[i]] 0 <= i < xs.len() implies json_same(xs[i], xs[i]) by {
                lemma_same_refl(xs[i]);
            }
        },
        JsonView::Object(xs) => {
            assert forall|i: int| #![trigger xs[i]] 0 <= i < xs.len() implies json_same(xs[i].1, xs[i].1) by {
                lemma_same_refl(xs[i].1);
            }
        },
        _ => {},
    }
}

/// Equality of values is symmetric.
pub proof fn lemma_same_sym(a: JsonView, b: JsonView)
    requires
        json_same(a, b),
    ensures
        json_same(b, a),
    decreases a,
{
    match (a, b) {
        (JsonView::Array(xs), JsonView::Array(ys)) => {
            assert forall|i: int| #![trigger ys[i]] 0 <= i < ys.len() implies json_same(ys[i], xs[i]) by {
                assert(json_same(xs[i], ys[i]));
                lemma_same_sym(xs[i], ys[i]);
            }
        },
        (JsonView::Object(xs), JsonView::Object(ys)) => {
            assert forall|i: int| #![trigger ys[i]] 0 <= i < ys.len() implies ys[i].0 == xs[i].0 && json_same(ys[i].1, xs[i].1) by {
                assert(json_same(xs[i].1, ys[i].1));
                lemma_same_sym(xs[i].1, ys[i].1);
            }
        },
        _ => {},
    }
}

/// Equality of values is transitive.
pub proof fn lemma_same_trans(a: JsonView, b: JsonView, c: JsonView)
    requires
        json_same(a, b),
        json_same(b, c),
    ensures
        json_same(a, c),
    decreases a,
{
    match (a, b, c) {
        (JsonView::Array(xs), JsonView::Array(ys), JsonView::Array(zs)) => {
            assert forall|i: int| #![trigger xs[i]] 0 <= i < xs.len() implies json_same(xs[i], zs[i]) by {
                assert(json_same(xs[i], ys[i]));
                assert(json_same(ys[i], zs[i]));
                lemma_same_trans(xs[i], ys[i], zs[i]);
            }
        },
        (JsonView::Object(xs), JsonView::Object(ys), JsonView::Object(zs)) => {
            assert forall|i: int| #![trigger xs[i]] 0 <= i < xs.len() implies xs[i].0 == zs[i].0 && json_same(xs[i].1, zs[i].1) by {
                assert(json_same(xs[i].1, ys[i].1));
                assert(json_same(ys[i].1, zs[i].1));
                lemma_same_trans(xs[i].1, ys[i].1, zs[i].1);
            }
        },
        _ => {},
    }
}

/// The value of key `key` in object entries, as `Map::get` finds it.
pub fn object_get<'a>(entries: &'a Vec<(String, JsonValue)>, key: &str) -> (r: Option<&'a JsonValue>)
    ensures
        match r {
            Some(v) => obj_get(entries_view(entries@), key@) == Some(v@),
            None => obj_get(entries_view(entries@), key@) is None,
        },
{
    let ghost ev = entries_view(entries@);
    let mut i: usize = 0;
    assert(ev.skip(0) =~= ev);
    while i < entries.len()
        invariant
            i <= entries@.len(),
            ev == entries_view(entries@),
            obj_get(ev, key@) == obj_get(ev.skip(i as int), key@),
        decreases entries@.len() - i,
    {
        proof {
            assert(ev.skip(i as int).drop_first() =~= ev.skip(i + 1));
        }
        if str_equal(entries[i].0.as_str(), key) {
            return Some(&entries[i].1);
        }
        i = i + 1;
    }
    None
}

/// Index of the first entry whose key does not come before `k`.
pub open spec fn insert_pos(e: Seq<(Seq<char>, JsonView)>, k: Seq<char>) -> int
    decreases e.len(),
{
    if e.len() == 0 {
        0
    } else if key_lt(e[0].0, k) {
        1 + insert_pos(e.drop_first(), k)
    } else {
        0
    }
}

/// `map[k] = v` on a key-ordered object: the entry of `k` is replaced, or a
/// new entry goes where the key order puts it.
pub open spec fn obj_insert(e: Seq<(Seq<char>, JsonView)>, k: Seq<char>, v: JsonView) -> Seq<(Seq<char>, JsonView)> {
    let p = insert_pos(e, k);
    if p < e.len() && e[p].0 == k {
        e.update(p, (k, v))
    } else {
        e.insert(p, (k, v))
    }
}

/// A lookup on entries with one more entry at the end.
pub proof fn lemma_get_push(s: Seq<(Seq<char>, JsonView)>, x: (Seq<char>, JsonView), k: Seq<char>)
    ensures
        obj_get(s.push(x), k) == match obj_get(s, k) {
            Some(v) => Some(v),
            None => if x.0 == k { Some(x.1) } else { None },
        },
    decreases s.len(),
{
    if s.len() > 0 {
        assert(s.push(x)[0] == s[0]);
        assert(s.push(x).drop_first() =~= s.drop_first().push(x));
        lemma_get_push(s.drop_first(), x, k);
    } else {
        assert(s.push(x)[0] == x);
        assert(s.push(x).drop_first() =~= Seq::<(Seq<char>, JsonView)>::empty());
        assert(obj_get(Seq::<(Seq<char>, JsonView)>::empty(), k) is None);
    }
}

/// The first entry with key `k` is entry `i`.
pub proof fn lemma_get_first(s: Seq<(Seq<char>, JsonView)>, k: Seq<char>, i: int)
    requires
        0 <= i < s.len(),
        s[i].0 == k,
        forall|j: int| 0 <= j < i ==> s[j].0 != k,
    ensures
        obj_get(s, k) == Some(s[i].1),
    decreases i,
{
    if i > 0 {
        lemma_get_first(s.drop_first(), k, i - 1);
    }
}

/// Lookups of `k` agree on entries with the same keys and the same values
/// under `k`.
pub proof fn lemma_get_agree(s: Seq<(Seq<char>, JsonView)>, t: Seq<(Seq<char>, JsonView)>, k: Seq<char>)
    requires
        s.len() == t.len(),
        forall|j: int| 0 <= j < s.len() ==> s[j].0 == t[j].0 && (s[j].0 == k ==> s[j].1 == t[j].1),
    ensures
        obj_get(s, k) == obj_get(t, k),
    decreases s.len(),
{
    if s.len() > 0 {
        lemma_get_agree(s.drop_first(), t.drop_first(), k);
    }
}

/// An entry with another key does not change a lookup.
pub proof fn lemma_get_skip_other(a: Seq<(Seq<char>, JsonView)>, x: (Seq<char>, JsonView), b: Seq<(Seq<char>, JsonView)>, k: Seq<char>)
    requires
        x.0 != k,
    ensures
        obj_get(a + seq![x] + b, k) == obj_get(a + b, k),
    decreases a.len(),
{
    if a.len() > 0 {
        assert((a + seq![x] + b).drop_first() =~= a.drop_first() + seq![x] + b);
        assert((a + b).drop_first() =~= a.drop_first() + b);
        lemma_get_skip_other(a.drop_first(), x, b, k);
    } else {
        assert(a + seq![x] + b =~= seq![x] + b);
        assert((seq![x] + b).drop_first() =~= b);
        assert(a + b =~= b);
    }
}

pub proof fn lemma_insert_pos(e: Seq<(Seq<char>, JsonView)>, k: Seq<char>)
    ensures
        0 <= insert_pos(e, k) <= e.len(),
        forall|i: int| 0 <= i < insert_pos(e, k) ==> key_lt(#[trigger] e[i].0, k),
        insert_pos(e, k) < e.len() ==> !key_lt(e[insert_pos(e, k)].0, k),
    decreases e.len(),
{
    if e.len() > 0 && key_lt(e[0].0, k) {
        lemma_insert_pos(e.drop_first(), k);
        assert forall|i: int| 0 <= i < insert_pos(e, k) implies key_lt(#[trigger] e[i].0, k) by {
            if i > 0 {
                assert(e[i] == e.drop_first()[i - 1]);
            }
        }
    }
}

/// Setting a key on ordered entries keeps them ordered, and afterwards the
/// key holds the new value while every other key keeps its value.
pub proof fn lemma_obj_insert(e: Seq<(Seq<char>, JsonView)>, k: Seq<char>, v: JsonView, k2: Seq<char>)
    requires
        keys_sorted(entry_keys(e)),
    ensures
        keys_sorted(entry_keys(obj_insert(e, k, v))),
        obj_get(obj_insert(e, k, v), k) == Some(v),
        k2 != k ==> obj_get(obj_insert(e, k, v), k2) == obj_get(e, k2),
{
    crate::text::lemma_key_order();
    lemma_insert_pos(e, k);
    let p = insert_pos(e, k);
    let r = obj_insert(e, k, v);
    if p < e.len() && e[p].0 == k {
        assert(entry_keys(r) =~= entry_keys(e));
        lemma_get_first(r, k, p);
        if k2 != k {
            lemma_get_agree(e, r, k2);
        }
    } else {
        assert(p < e.len() ==> key_lt(k, e[p].0));
        assert(r == e.insert(p, (k, v)));
        assert forall|i: int, j: int| 0 <= i < j < entry_keys(r).len() implies key_lt(
            #[trigger] entry_keys(r)[i],
            #[trigger] entry_keys(r)[j],
        ) by {
            assert(entry_keys(r)[i] == r[i].0 && entry_keys(r)[j] == r[j].0);
            if j < p {
                assert(entry_keys(e)[i] == e[i].0 && entry_keys(e)[j] == e[j].0);
            } else if j == p {
            } else if i < p {
                assert(r[j] == e[j - 1]);
                assert(key_lt(e[i].0, k));
                if j - 1 > p {
                    assert(entry_keys(e)[p] == e[p].0 && entry_keys(e)[j - 1] == e[j - 1].0);
                    assert(key_lt(e[p].0, e[j - 1].0));
                }
                assert(key_lt(k, e[j - 1].0));
            } else if i == p {
                assert(r[j] == e[j - 1]);
                if j - 1 > p {
                    assert(entry_keys(e)[p] == e[p].0 && entry_keys(e)[j - 1] == e[j - 1].0);
                    assert(key_lt(e[p].0, e[j - 1].0));
                }
            } else {
                assert(r[i] == e[i - 1] && r[j] == e[j - 1]);
                assert(entry_keys(e)[i - 1] == e[i - 1].0 && entry_keys(e)[j - 1] == e[j - 1].0);
            }
        }
        lemma_get_first(r, k, p);
        if k2 != k {
            assert(r =~= e.take(p) + seq![(k, v)] + e.skip(p));
            assert(e.take(p) + e.skip(p) =~= e);
            lemma_get_skip_other(e.take(p), (k, v), e.skip(p), k2);
        }
    }
}

/// `map.insert(key, value)` on key-ordered object entries.
pub fn insert_entry(entries: &mut Vec<(String, JsonValue)>, key: String, value: JsonValue)
    ensures
        entries_view(final(entries)@) == obj_insert(entries_view(old(entries)@), key@, value@),
{
    let ghost ev = entries_view(entries@);
    let mut i: usize = 0;
    assert(ev.skip(0) =~= ev);
    while i < entries.len() && str_less(entries[i].0.as_str(), key.as_str())
        invariant
            i <= entries@.len(),
            ev == entries_view(entries@),
            insert_pos(ev, key@) == i + insert_pos(ev.skip(i as int), key@),
        decreases entries@.len() - i,
    {
        proof {
            assert(ev.skip(i as int).drop_first() =~= ev.skip(i + 1));
        }
        i = i + 1;
    }
    proof {
        assert(insert_pos(ev, key@) == i);
    }
    if i < entries.len() && str_equal(entries[i].0.as_str(), key.as_str()) {
        entries.set(i, (key, value));
        proof {
            assert(entries_view(entries@) =~= ev.update(i as int, (key@, value@)));
        }
    } else {
        entries.insert(i, (key, value));
        proof {
            assert(entries_view(entries@) =~= ev.insert(i as int, (key@, value@)));
        }
    }
}

// ---------------------------------------------------------------- serde_json

#[verifier::external_type_specification]
#[verifier::external_body]
pub struct ExJsonValue(serde_json::Value);

/// `serde_json::Value` as the model: one variant for one, numbers by the text
/// that serde_json prints, object entries in the map's (key) order.
#[verifier::external_body]
fn from_serde(v: serde_json::Value) -> JsonValue {
    match v {
        serde_json::Value::Null => JsonValue::Null,
        serde_json::Value::Bool(b) => JsonValue::Bool(b),
        serde_json::Value::Number(n) => JsonValue::Number(n.to_string()),
        serde_json::Value::String(t) => JsonValue::Str(t),
        serde_json::Value::Array(a) => JsonValue::Array(a.into_iter().map(from_serde).collect()),
        serde_json::Value::Object(m) => JsonValue::Object(m.into_iter().map(|(k, v)| (k, from_serde(v))).collect()),
    }
}

/// The model as a `serde_json::Value`, one variant for one; every number's
/// text is one that serde_json reads as a number.
#[verifier::external_body]
fn to_serde(v: &JsonValue) -> serde_json::Value
    requires
        json_numbers_ok(v@),
{
    match v {
        JsonValue::Null => serde_json::Value::Null,
        JsonValue::Bool(b) => serde_json::Value::Bool(*b),
        JsonValue::Number(n) => serde_json::Value::Number(n.parse().expect("a serde_json number")),
        JsonValue::Str(t) => serde_json::Value::String(t.clone()),
        JsonValue::Array(a) => serde_json::Value::Array(a.iter().map(to_serde).collect()),
        JsonValue::Object(m) => serde_json::Value::Object(m.iter().map(|(k, v)| (k.clone(), to_serde(v))).collect()),
    }
}

/// The document that `serde_json::from_slice::<Value>` reads from `raw`, or
/// `None` where it reports an error.
pub uninterp spec fn json_parse_spec(raw: Seq<u8>) -> Option<JsonView>;

/// The compact text that `serde_json::to_vec` writes for a value.
pub uninterp spec fn json_compact_spec(v: JsonView) -> Seq<u8>;

/// The indented text that `serde_json::to_vec_pretty` writes for a value.
pub uninterp spec fn json_pretty_spec(v: JsonView) -> Seq<u8>;

/// `serde_json::from_slice::<serde_json::Value>`: the named document, which,
/// read into a map ordered by key, is well-formed, and whose numbers are
/// serde_json numbers, each written as serde_json prints it.
#[verifier::external_body]
pub(crate) fn json_parse(raw: &[u8]) -> (r: Option<JsonValue>)
    ensures
        match r {
            Some(v) => json_parse_spec(raw@) == Some(v@) && json_wf(v@) && json_numbers_ok(v@),
            None => json_parse_spec(raw@) is None,
        },
        r matches Some(JsonValue::Number(t)) ==> number_text_spec(t@),
{
    serde_json::from_slice::<serde_json::Value>(raw).ok().map(from_serde)
}

/// `serde_json::to_vec` of the value; serializing a `Value` cannot fail.
/// A well-formed value without numbers (strings, booleans, nulls, arrays and
/// objects only) and nested at most 127 levels deep reads back as itself.
#[verifier::external_body]
pub(crate) fn json_to_vec(v: &JsonValue) -> (r: Vec<u8>)
    requires
        json_numbers_ok(v@),
    ensures
        r@ == json_compact_spec(v@),
        json_wf(v@) && json_no_numbers(v@) && json_depth_within(v@, 127) ==> json_parse_spec(r@) == Some(v@),
{
    serde_json::to_vec(&to_serde(v)).unwrap_or_default()
}

/// `serde_json::to_vec_pretty` of the value; serializing a `Value` cannot fail.
#[verifier::external_body]
pub(crate) fn json_to_vec_pretty(v: &JsonValue) -> (r: Vec<u8>)
    requires
        json_numbers_ok(v@),
    ensures
        r@ == json_pretty_spec(v@),
{
    serde_json::to_vec_pretty(&to_serde(v)).unwrap_or_default()
}

} // verus!
