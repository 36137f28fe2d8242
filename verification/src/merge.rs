//! Three-way merge of JSON documents, field by field, with the conflicts it
//! could not settle.

use vstd::prelude::*;
use vstd::string::StringExecFns;
use crate::json::{
    JsonValue, JsonView, entries_view, entry_keys, jsize, json_equal, json_same, json_wf, lemma_same_refl, lemma_same_sym, lemma_same_trans, lemma_entries_wf_index,
    lemma_get_index, lemma_get_smaller, lemma_view_containers, obj_get_or_null, object_get,
};
use crate::text::{key_lt, lemma_key_order, str_equal, str_less};

verus! {

/// A field that both sides changed in different ways.
pub struct SyncConflict {
    pub path: String,
    pub field: String,
    pub local: JsonValue,
    pub remote: JsonValue,
    pub ancestor: JsonValue,
}

/// The mathematical value of a [`SyncConflict`].
pub struct ConflictView {
    pub path: Seq<char>,
    pub field: Seq<char>,
    pub local: JsonView,
    pub remote: JsonView,
    pub ancestor: JsonView,
}

impl SyncConflict {
    pub open spec fn view(self) -> ConflictView {
        ConflictView {
            path: self.path@,
            field: self.field@,
            local: self.local@,
            remote: self.remote@,
            ancestor: self.ancestor@,
        }
    }
}

/// The first key of a sequence, if any.
pub open spec fn head(keys: Seq<Seq<char>>) -> Option<Seq<char>> {
    if keys.len() == 0 { None } else { Some(keys[0]) }
}

/// The smaller of two optional keys.
pub open spec fn min_key(x: Option<Seq<char>>, y: Option<Seq<char>>) -> Option<Seq<char>> {
    match (x, y) {
        (Some(a), Some(b)) => if key_lt(b, a) { Some(b) } else { Some(a) },
        (Some(a), None) => Some(a),
        (None, _) => y,
    }
}

/// `keys` without its first key where that key is `k`.
pub open spec fn drop_head(keys: Seq<Seq<char>>, k: Seq<char>) -> Seq<Seq<char>> {
    if keys.len() > 0 && keys[0] == k { keys.drop_first() } else { keys }
}

/// The ordered union of three ordered key sequences: smallest head first.
pub open spec fn union_keys(a: Seq<Seq<char>>, b: Seq<Seq<char>>, c: Seq<Seq<char>>) -> Seq<Seq<char>>
    decreases a.len() + b.len() + c.len(),
{
    match min_key(min_key(head(a), head(b)), head(c)) {
        None => Seq::empty(),
        Some(m) => seq![m] + union_keys(drop_head(a, m), drop_head(b, m), drop_head(c, m)),
    }
}

/// The dotted path of a field below `path`.
pub open spec fn field_path(path: Seq<char>, key: Seq<char>) -> Seq<char> {
    if path.len() == 0 { key } else { path + seq!['.'] + key }
}

/// The conflict recorded where a field cannot be merged.
pub open spec fn conflict_at(a: JsonView, l: JsonView, r: JsonView, path: Seq<char>) -> ConflictView {
    ConflictView { path: path, field: path, local: l, remote: r, ancestor: a }
}

/// The merge of the field `k` of three objects.
pub open spec fn merge_field(
    ae: Seq<(Seq<char>, JsonView)>,
    le: Seq<(Seq<char>, JsonView)>,
    re: Seq<(Seq<char>, JsonView)>,
    path: Seq<char>,
    k: Seq<char>,
) -> (JsonView, Seq<ConflictView>)
    decreases jsize(JsonView::Object(ae)) + jsize(JsonView::Object(le)) + jsize(JsonView::Object(re)), 0nat,
{
    proof {
        lemma_get_smaller(ae, k);
        lemma_get_smaller(le, k);
        lemma_get_smaller(re, k);
    }
    merge_spec(obj_get_or_null(ae, k), obj_get_or_null(le, k), obj_get_or_null(re, k), field_path(path, k))
}

/// Every key of any of three objects, in key order.
pub open spec fn object_keys_union(
    ae: Seq<(Seq<char>, JsonView)>,
    le: Seq<(Seq<char>, JsonView)>,
    re: Seq<(Seq<char>, JsonView)>,
) -> Seq<Seq<char>> {
    union_keys(entry_keys(ae), entry_keys(le), entry_keys(re))
}

/// The entries of the merge of three objects.
pub open spec fn merge_entries(
    ae: Seq<(Seq<char>, JsonView)>,
    le: Seq<(Seq<char>, JsonView)>,
    re: Seq<(Seq<char>, JsonView)>,
    path: Seq<char>,
) -> Seq<(Seq<char>, JsonView)>
    decreases jsize(JsonView::Object(ae)) + jsize(JsonView::Object(le)) + jsize(JsonView::Object(re)), 1nat,
{
    let keys = object_keys_union(ae, le, re);
    Seq::new(keys.len(), |i: int| (keys[i], merge_field(ae, le, re, path, keys[i]).0))
}

/// The conflicts of each field of the merge of three objects, in key order.
pub open spec fn merge_conflict_lists(
    ae: Seq<(Seq<char>, JsonView)>,
    le: Seq<(Seq<char>, JsonView)>,
    re: Seq<(Seq<char>, JsonView)>,
    path: Seq<char>,
) -> Seq<Seq<ConflictView>>
    decreases jsize(JsonView::Object(ae)) + jsize(JsonView::Object(le)) + jsize(JsonView::Object(re)), 1nat,
{
    let keys = object_keys_union(ae, le, re);
    Seq::new(keys.len(), |i: int| merge_field(ae, le, re, path, keys[i]).1)
}

/// Three-way merge of `local` and `remote` against their common `ancestor`.
/// Where all three are objects, every key of any of them is merged on its own
/// (a missing key counts as `null`) and the conflicts of the keys are listed
/// in key order. Otherwise, with values compared as `serde_json` compares
/// them: an unchanged local side takes the remote value; an unchanged remote
/// side, or two equal sides, keep the local value; two different changes keep
/// the local value and record one conflict.
pub open spec fn merge_spec(a: JsonView, l: JsonView, r: JsonView, path: Seq<char>) -> (JsonView, Seq<ConflictView>)
    decreases jsize(a) + jsize(l) + jsize(r), 2nat,
{
    match (a, l, r) {
        (JsonView::Object(ae), JsonView::Object(le), JsonView::Object(re)) => (
            JsonView::Object(merge_entries(ae, le, re, path)),
            merge_conflict_lists(ae, le, re, path).flatten(),
        ),
        _ => {
            if json_same(l, a) {
                (r, Seq::empty())
            } else if json_same(r, a) || json_same(l, r) {
                (l, Seq::empty())
            } else {
                (l, seq![conflict_at(a, l, r, path)])
            }
        },
    }
}

/// The mathematical values of a list of strings.
pub open spec fn strings_view(v: Seq<String>) -> Seq<Seq<char>> {
    v.map_values(|s: String| s@)
}

/// The mathematical values of a list of conflicts.
pub open spec fn conflicts_view(v: Seq<SyncConflict>) -> Seq<ConflictView> {
    v.map_values(|c: SyncConflict| c@)
}

/// The smaller of two optional keys.
fn min_key_exec<'a>(x: Option<&'a String>, y: Option<&'a String>) -> (r: Option<&'a String>)
    ensures
        (match r { Some(s) => Some(s@), None => None::<Seq<char>> }) == min_key(
            match x { Some(s) => Some(s@), None => None::<Seq<char>> },
            match y { Some(s) => Some(s@), None => None::<Seq<char>> },
        ),
{
    match (x, y) {
        (Some(a), Some(b)) => if str_less(b.as_str(), a.as_str()) { Some(b) } else { Some(a) },
        (Some(a), None) => Some(a),
        (None, _) => y,
    }
}

/// The key of entry `i`, if there is one.
fn head_at<'a>(entries: &'a Vec<(String, JsonValue)>, i: usize) -> (r: Option<&'a String>)
    requires
        i <= entries@.len(),
    ensures
        (match r { Some(s) => Some(s@), None => None::<Seq<char>> }) == head(
            entry_keys(entries_view(entries@)).skip(i as int),
        ),
{
    if i < entries.len() {
        Some(&entries[i].0)
    } else {
        None
    }
}

/// Whether entry `i` exists and has key `k`.
fn head_is(entries: &Vec<(String, JsonValue)>, i: usize, k: &String) -> (r: bool)
    requires
        i <= entries@.len(),
    ensures
        r == (i < entries@.len() && entry_keys(entries_view(entries@))[i as int] == k@),
{
    i < entries.len() && str_equal(entries[i].0.as_str(), k.as_str())
}

proof fn lemma_drop_head_skip(keys: Seq<Seq<char>>, i: int, k: Seq<char>, advance: bool)
    requires
        0 <= i <= keys.len(),
        advance == (i < keys.len() && keys[i] == k),
    ensures
        drop_head(keys.skip(i), k) == keys.skip(if advance { i + 1 } else { i }),
{
    if advance {
        assert(keys.skip(i).drop_first() =~= keys.skip(i + 1));
    }
}

/// The ordered union of the keys of three objects.
fn union_keys_exec(
    a: &Vec<(String, JsonValue)>,
    l: &Vec<(String, JsonValue)>,
    r: &Vec<(String, JsonValue)>,
) -> (keys: Vec<String>)
    ensures
        strings_view(keys@) == union_keys(
            entry_keys(entries_view(a@)),
            entry_keys(entries_view(l@)),
            entry_keys(entries_view(r@)),
        ),
{
    let ghost ka = entry_keys(entries_view(a@));
    let ghost kl = entry_keys(entries_view(l@));
    let ghost kr = entry_keys(entries_view(r@));
    let mut out: Vec<String> = Vec::new();
    let mut ia: usize = 0;
    let mut il: usize = 0;
    let mut ir: usize = 0;
    let na = a.len();
    let nl = l.len();
    let nr = r.len();
    assert(ka.skip(0) =~= ka);
    assert(kl.skip(0) =~= kl);
    assert(kr.skip(0) =~= kr);
    assert(strings_view(out@) =~= Seq::<Seq<char>>::empty());
    loop
        invariant
            ia <= a@.len(),
            il <= l@.len(),
            ir <= r@.len(),
            na == a@.len(),
            nl == l@.len(),
            nr == r@.len(),
            ka == entry_keys(entries_view(a@)),
            kl == entry_keys(entries_view(l@)),
            kr == entry_keys(entries_view(r@)),
            ka.len() == a@.len(),
            kl.len() == l@.len(),
            kr.len() == r@.len(),
            strings_view(out@) + union_keys(ka.skip(ia as int), kl.skip(il as int), kr.skip(ir as int))
                == union_keys(ka, kl, kr),
        decreases (a@.len() - ia) + (l@.len() - il) + (r@.len() - ir),
    {
        let m = min_key_exec(min_key_exec(head_at(a, ia), head_at(l, il)), head_at(r, ir));
        match m {
            None => {
                assert(union_keys(ka.skip(ia as int), kl.skip(il as int), kr.skip(ir as int)) =~= Seq::<Seq<char>>::empty());
                assert(strings_view(out@) =~= union_keys(ka, kl, kr));
                return out;
            },
            Some(k) => {
                let ghost rest = union_keys(ka.skip(ia as int), kl.skip(il as int), kr.skip(ir as int));
                let adv_a = head_is(a, ia, k);
                let adv_l = head_is(l, il, k);
                let adv_r = head_is(r, ir, k);
                proof {
                    lemma_drop_head_skip(ka, ia as int, k@, adv_a);
                    lemma_drop_head_skip(kl, il as int, k@, adv_l);
                    lemma_drop_head_skip(kr, ir as int, k@, adv_r);
                }
                let ghost old_view = strings_view(out@);
                let kc = k.clone();
                out.push(kc);
                if adv_a {
                    assert(ia < a@.len());
                    ia = ia + 1;
                }
                if adv_l {
                    assert(il < l@.len());
                    il = il + 1;
                }
                if adv_r {
                    assert(ir < r@.len());
                    ir = ir + 1;
                }
                proof {
                    let new_rest = union_keys(ka.skip(ia as int), kl.skip(il as int), kr.skip(ir as int));
                    assert(rest == seq![k@] + new_rest);
                    assert(strings_view(out@) =~= old_view.push(k@));
                    assert(old_view.push(k@) + new_rest =~= old_view + rest);
                }
            },
        }
    }
}

/// The dotted path of field `key` below `path`.
fn join_field_path(path: &str, key: &String) -> (r: String)
    ensures
        r@ == field_path(path@, key@),
{
    if path.is_empty() {
        key.clone()
    } else {
        let mut s = path.to_owned();
        proof { reveal_strlit("."); }
        s.append(".");
        s.append(key.as_str());
        proof { assert(s@ =~= path@ + seq!['.'] + key@); }
        s
    }
}

/// Three-way merge of JSON documents: see [`merge_spec`]. Returns the merged
/// document and the conflicts, in key order.
pub fn merge_json_objects(
    ancestor: &JsonValue,
    local: &JsonValue,
    remote: &JsonValue,
    path: &str,
) -> (res: (JsonValue, Vec<SyncConflict>))
    ensures
        (res.0@, conflicts_view(res.1@)) == merge_spec(ancestor@, local@, remote@, path@),
    decreases jsize(ancestor@) + jsize(local@) + jsize(remote@),
{
    proof {
        lemma_view_containers(*ancestor);
        lemma_view_containers(*local);
        lemma_view_containers(*remote);
    }
    match (ancestor, local, remote) {
        (JsonValue::Object(a), JsonValue::Object(l), JsonValue::Object(r)) => {
            let ghost ae = entries_view(a@);
            let ghost le = entries_view(l@);
            let ghost re = entries_view(r@);
            let keys = union_keys_exec(a, l, r);
            let ghost kv = strings_view(keys@);
            let ghost parts = Seq::new(kv.len(), |i: int| merge_field(ae, le, re, path@, kv[i]));
            let null = JsonValue::Null;
            let mut merged: Vec<(String, JsonValue)> = Vec::new();
            let mut conflicts: Vec<SyncConflict> = Vec::new();
            let mut i: usize = 0;
            assert(conflicts_view(conflicts@) =~= Seq::new(0, |j: int| parts[j].1).flatten());
            while i < keys.len()
                invariant
                    ancestor@ == JsonView::Object(ae),
                    local@ == JsonView::Object(le),
                    remote@ == JsonView::Object(re),
                    ae == entries_view(a@),
                    le == entries_view(l@),
                    re == entries_view(r@),
                    kv == strings_view(keys@),
                    kv == union_keys(entry_keys(ae), entry_keys(le), entry_keys(re)),
                    parts.len() == kv.len(),
                    forall|j: int| 0 <= j < kv.len() ==> #[trigger] parts[j] == merge_field(ae, le, re, path@, kv[j]),
                    null@ == JsonView::Null,
                    i <= keys@.len(),
                    entries_view(merged@) == Seq::new(i as nat, |j: int| (kv[j], parts[j].0)),
                    conflicts_view(conflicts@) == Seq::new(i as nat, |j: int| parts[j].1).flatten(),
                decreases keys@.len() - i,
            {
                let k = &keys[i];
                let av = match object_get(a, k.as_str()) { Some(v) => v, None => &null };
                let lv = match object_get(l, k.as_str()) { Some(v) => v, None => &null };
                let rv = match object_get(r, k.as_str()) { Some(v) => v, None => &null };
                proof {
                    assert(kv[i as int] == k@);
                    assert(parts[i as int] == merge_field(ae, le, re, path@, k@));
                    lemma_get_smaller(ae, k@);
                    lemma_get_smaller(le, k@);
                    lemma_get_smaller(re, k@);
                }
                let fp = join_field_path(path, k);
                let (v, mut c) = merge_json_objects(av, lv, rv, fp.as_str());
                let ghost old_merged = entries_view(merged@);
                let ghost old_conflicts = conflicts_view(conflicts@);
                let ghost c_view = conflicts_view(c@);
                merged.push((k.clone(), v));
                conflicts.append(&mut c);
                proof {
                    assert(parts[i as int] == (v@, c_view));
                    assert(entries_view(merged@) =~= old_merged.push((kv[i as int], parts[i as int].0)));
                    assert(Seq::new((i + 1) as nat, |j: int| (kv[j], parts[j].0))
                        =~= Seq::new(i as nat, |j: int| (kv[j], parts[j].0)).push((kv[i as int], parts[i as int].0)));
                    assert(conflicts_view(conflicts@) =~= old_conflicts + c_view);
                    let prev = Seq::new(i as nat, |j: int| parts[j].1);
                    assert(Seq::new((i + 1) as nat, |j: int| parts[j].1) =~= prev.push(parts[i as int].1));
                    prev.lemma_flatten_push(parts[i as int].1);
                }
                i = i + 1;
            }
            let res = JsonValue::Object(merged);
            proof {
                lemma_view_containers(res);
                assert(merge_entries(ae, le, re, path@) =~= Seq::new(kv.len(), |j: int| (kv[j], parts[j].0)));
                assert(merge_conflict_lists(ae, le, re, path@) =~= Seq::new(kv.len(), |j: int| parts[j].1));
            }
            (res, conflicts)
        },
        _ => {
            if json_equal(local, ancestor) {
                (remote.deep_clone(), Vec::new())
            } else if json_equal(remote, ancestor) || json_equal(local, remote) {
                let v = local.deep_clone();
                let empty: Vec<SyncConflict> = Vec::new();
                assert(conflicts_view(empty@) =~= Seq::<ConflictView>::empty());
                (v, empty)
            } else {
                let conflict = SyncConflict {
                    path: path.to_owned(),
                    field: path.to_owned(),
                    local: local.deep_clone(),
                    remote: remote.deep_clone(),
                    ancestor: ancestor.deep_clone(),
                };
                let mut list: Vec<SyncConflict> = Vec::new();
                list.push(conflict);
                assert(conflicts_view(list@) =~= seq![conflict_at(ancestor@, local@, remote@, path@)]);
                (local.deep_clone(), list)
            }
        },
    }
}

// ---------------------------------------------------------------- laws

proof fn lemma_flatten_empties<A>(s: Seq<Seq<A>>)
    requires
        forall|i: int| 0 <= i < s.len() ==> (#[trigger] s[i]).len() == 0,
    ensures
        s.flatten().len() == 0,
    decreases s.len(),
{
    if s.len() > 0 {
        lemma_flatten_empties(s.drop_first());
    }
}

/// Which of the three sides are the same.
pub open spec fn sides_agree(a: JsonView, l: JsonView, r: JsonView, which: int) -> bool {
    if which == 0 { l == a } else if which == 1 { r == a } else { l == r }
}

proof fn lemma_no_conflict(a: JsonView, l: JsonView, r: JsonView, path: Seq<char>, which: int)
    requires
        sides_agree(a, l, r, which),
    ensures
        merge_spec(a, l, r, path).1.len() == 0,
    decreases jsize(a) + jsize(l) + jsize(r),
{
    match (a, l, r) {
        (JsonView::Object(ae), JsonView::Object(le), JsonView::Object(re)) => {
            let lists = merge_conflict_lists(ae, le, re, path);
            let keys = object_keys_union(ae, le, re);
            assert forall|i: int| 0 <= i < lists.len() implies (#[trigger] lists[i]).len() == 0 by {
                let k = keys[i];
                lemma_get_smaller(ae, k);
                lemma_get_smaller(le, k);
                lemma_get_smaller(re, k);
                lemma_no_conflict(
                    obj_get_or_null(ae, k),
                    obj_get_or_null(le, k),
                    obj_get_or_null(re, k),
                    field_path(path, k),
                    which,
                );
            }
            lemma_flatten_empties(lists);
        },
        _ => {
            lemma_same_refl(l);
            lemma_same_refl(r);
        },
    }
}

/// Law: where the local side did not change, merging reports no conflict.
pub proof fn law_merge_local_unchanged_no_conflict(a: JsonView, r: JsonView, path: Seq<char>)
    ensures
        merge_spec(a, a, r, path).1.len() == 0,
{
    lemma_no_conflict(a, a, r, path, 0);
}

/// Law: where the remote side did not change, merging reports no conflict.
pub proof fn law_merge_remote_unchanged_no_conflict(a: JsonView, l: JsonView, path: Seq<char>)
    ensures
        merge_spec(a, l, a, path).1.len() == 0,
{
    lemma_no_conflict(a, l, a, path, 1);
}

/// Law: where both sides made the same change, merging reports no conflict.
pub proof fn law_merge_same_change_no_conflict(a: JsonView, l: JsonView, path: Seq<char>)
    ensures
        merge_spec(a, l, l, path).1.len() == 0,
{
    lemma_no_conflict(a, l, l, path, 2);
}

proof fn lemma_union_same(k: Seq<Seq<char>>)
    ensures
        union_keys(k, k, k) == k,
    decreases k.len(),
{
    if k.len() > 0 {
        lemma_union_same(k.drop_first());
        assert(k =~= seq![k[0]] + k.drop_first());
    } else {
        assert(union_keys(k, k, k) =~= k);
    }
}

/// Law: merging a well-formed document with itself on both sides gives it
/// back, with no conflict.
pub proof fn law_merge_idempotent(x: JsonView, path: Seq<char>)
    requires
        json_wf(x),
    ensures
        merge_spec(x, x, x, path) == (x, Seq::<ConflictView>::empty()),
    decreases jsize(x),
{
    lemma_no_conflict(x, x, x, path, 0);
    match x {
        JsonView::Object(e) => {
            let keys = object_keys_union(e, e, e);
            lemma_union_same(entry_keys(e));
            assert(keys == entry_keys(e));
            let m = merge_entries(e, e, e, path);
            assert forall|i: int| 0 <= i < e.len() implies #[trigger] m[i] == e[i] by {
                lemma_get_index(e, i);
                lemma_entries_wf_index(e, i);
                lemma_get_smaller(e, e[i].0);
                law_merge_idempotent(e[i].1, field_path(path, e[i].0));
            }
            assert(m =~= e);
            assert(merge_spec(x, x, x, path).1 =~= Seq::<ConflictView>::empty());
        },
        _ => {
            lemma_same_refl(x);
            assert(merge_spec(x, x, x, path).1 =~= Seq::<ConflictView>::empty());
        },
    }
}

/// The conflict with its local and remote sides exchanged.
pub open spec fn swap_sides(c: ConflictView) -> ConflictView {
    ConflictView { path: c.path, field: c.field, local: c.remote, remote: c.local, ancestor: c.ancestor }
}

/// Each conflict of a list with its sides exchanged.
pub open spec fn swap_all(cs: Seq<ConflictView>) -> Seq<ConflictView> {
    cs.map_values(|c: ConflictView| swap_sides(c))
}

proof fn lemma_flatten_swap(s: Seq<Seq<ConflictView>>, t: Seq<Seq<ConflictView>>)
    requires
        s.len() == t.len(),
        forall|i: int| 0 <= i < s.len() ==> #[trigger] t[i] == swap_all(s[i]),
    ensures
        t.flatten() == swap_all(s.flatten()),
    decreases s.len(),
{
    if s.len() == 0 {
        assert(t.flatten() =~= swap_all(s.flatten()));
    } else {
        let s1 = s.drop_first();
        let t1 = t.drop_first();
        assert forall|i: int| 0 <= i < s1.len() implies #[trigger] t1[i] == swap_all(s1[i]) by {
            assert(t1[i] == t[i + 1] && s1[i] == s[i + 1]);
        }
        lemma_flatten_swap(s1, t1);
        assert(t[0] == swap_all(s[0]));
        assert(swap_all(s[0] + s1.flatten()) =~= swap_all(s[0]) + swap_all(s1.flatten()));
    }
}

proof fn lemma_flatten_empty_part<A>(s: Seq<Seq<A>>, i: int)
    requires
        s.flatten().len() == 0,
        0 <= i < s.len(),
    ensures
        s[i].len() == 0,
    decreases s.len(),
{
    if i > 0 {
        assert(s.drop_first()[i - 1] == s[i]);
        lemma_flatten_empty_part(s.drop_first(), i - 1);
    }
}

proof fn lemma_min_key_swap(x: Option<Seq<char>>, y: Option<Seq<char>>, z: Option<Seq<char>>)
    ensures
        min_key(min_key(x, y), z) == min_key(min_key(x, z), y),
{
    lemma_key_order();
}

proof fn lemma_union_swap(a: Seq<Seq<char>>, b: Seq<Seq<char>>, c: Seq<Seq<char>>)
    ensures
        union_keys(a, b, c) == union_keys(a, c, b),
    decreases a.len() + b.len() + c.len(),
{
    lemma_min_key_swap(head(a), head(b), head(c));
    match min_key(min_key(head(a), head(b)), head(c)) {
        None => {},
        Some(m) => {
            lemma_union_swap(drop_head(a, m), drop_head(b, m), drop_head(c, m));
        },
    }
}

/// Whether `v1` and `v2`, the values of field `k` in two merges of three
/// objects, agree as [`sides_kept`] says.
pub open spec fn field_sides_kept(
    ae: Seq<(Seq<char>, JsonView)>,
    le: Seq<(Seq<char>, JsonView)>,
    re: Seq<(Seq<char>, JsonView)>,
    k: Seq<char>,
    v1: JsonView,
    v2: JsonView,
) -> bool
    decreases jsize(JsonView::Object(ae)) + jsize(JsonView::Object(le)) + jsize(JsonView::Object(re)), 0nat,
{
    proof {
        lemma_get_smaller(ae, k);
        lemma_get_smaller(le, k);
        lemma_get_smaller(re, k);
    }
    sides_kept(obj_get_or_null(ae, k), obj_get_or_null(le, k), obj_get_or_null(re, k), v1, v2)
}

/// `m1` and `m2` are equal documents except where `l` and `r` are two
/// different changes of `a`: there `m1` holds `l` and `m2` holds `r`. Where
/// all three are objects this holds field by field, both documents having
/// the same keys in the same order.
pub open spec fn sides_kept(a: JsonView, l: JsonView, r: JsonView, m1: JsonView, m2: JsonView) -> bool
    decreases jsize(a) + jsize(l) + jsize(r), 1nat,
{
    match (a, l, r) {
        (JsonView::Object(ae), JsonView::Object(le), JsonView::Object(re)) => {
            &&& m1 is Object
            &&& m2 is Object
            &&& m1->Object_0.len() == m2->Object_0.len()
            &&& forall|i: int| #![trigger m1->Object_0[i]] 0 <= i < m1->Object_0.len() ==> {
                &&& m1->Object_0[i].0 == m2->Object_0[i].0
                &&& field_sides_kept(ae, le, re, m1->Object_0[i].0, m1->Object_0[i].1, m2->Object_0[i].1)
            }
        },
        _ => if json_same(l, a) || json_same(r, a) || json_same(l, r) {
            json_same(m1, m2)
        } else {
            m1 == l && m2 == r
        },
    }
}

/// Whether `f` is the field of one of the conflicts.
pub open spec fn is_conflict_field(cs: Seq<ConflictView>, f: Seq<char>) -> bool {
    exists|j: int| 0 <= j < cs.len() && cs[j].field == f
}

/// `m1` and `m2`, two documents at `path`, agree at every path from there
/// down that is not the field of one of the conflicts `cs`: at such a field
/// they may differ; above them, two objects have the same keys in the same
/// order and agree field by field; anywhere else the values are equal.
pub open spec fn agree_outside(m1: JsonView, m2: JsonView, cs: Seq<ConflictView>, path: Seq<char>) -> bool
    decreases m1,
{
    if is_conflict_field(cs, path) {
        true
    } else {
        match m1 {
            JsonView::Object(e1) => m2 is Object && e1.len() == m2->Object_0.len()
                && forall|i: int| #![trigger e1[i]] 0 <= i < e1.len() ==> e1[i].0 == m2->Object_0[i].0
                    && agree_outside(e1[i].1, m2->Object_0[i].1, cs, field_path(path, e1[i].0)),
            _ => json_same(m1, m2),
        }
    }
}

proof fn lemma_same_agree(m1: JsonView, m2: JsonView, cs: Seq<ConflictView>, path: Seq<char>)
    requires
        json_same(m1, m2),
    ensures
        agree_outside(m1, m2, cs, path),
    decreases m1,
{
    if let JsonView::Object(e1) = m1 {
        let e2 = m2->Object_0;
        assert forall|i: int| #![trigger e1[i]] 0 <= i < e1.len() implies e1[i].0 == e2[i].0
            && agree_outside(e1[i].1, e2[i].1, cs, field_path(path, e1[i].0)) by {
            lemma_same_agree(e1[i].1, e2[i].1, cs, field_path(path, e1[i].0));
        }
    }
}

proof fn lemma_flatten_index<A>(s: Seq<Seq<A>>, i: int, j: int) -> (k: int)
    requires
        0 <= i < s.len(),
        0 <= j < s[i].len(),
    ensures
        0 <= k < s.flatten().len(),
        s.flatten()[k] == s[i][j],
    decreases s.len(),
{
    if i == 0 {
        j
    } else {
        assert(s.drop_first()[i - 1] == s[i]);
        let k1 = lemma_flatten_index(s.drop_first(), i - 1, j);
        s[0].len() + k1
    }
}

proof fn lemma_merge_agree(a: JsonView, l: JsonView, r: JsonView, path: Seq<char>, cs: Seq<ConflictView>)
    requires
        forall|j: int| 0 <= j < merge_spec(a, l, r, path).1.len()
            ==> is_conflict_field(cs, #[trigger] merge_spec(a, l, r, path).1[j].field),
    ensures
        agree_outside(merge_spec(a, l, r, path).0, merge_spec(a, r, l, path).0, cs, path),
    decreases jsize(a) + jsize(l) + jsize(r),
{
    if !is_conflict_field(cs, path) {
        match (a, l, r) {
            (JsonView::Object(ae), JsonView::Object(le), JsonView::Object(re)) => {
                let k1 = object_keys_union(ae, le, re);
                lemma_union_swap(entry_keys(ae), entry_keys(le), entry_keys(re));
                assert(object_keys_union(ae, re, le) == k1);
                let lists1 = merge_conflict_lists(ae, le, re, path);
                let m1 = merge_entries(ae, le, re, path);
                let m2 = merge_entries(ae, re, le, path);
                assert forall|i: int| #![trigger m1[i]] 0 <= i < m1.len() implies m1[i].0 == m2[i].0
                    && agree_outside(m1[i].1, m2[i].1, cs, field_path(path, m1[i].0)) by {
                    let k = k1[i];
                    lemma_get_smaller(ae, k);
                    lemma_get_smaller(le, k);
                    lemma_get_smaller(re, k);
                    let sub = merge_spec(obj_get_or_null(ae, k), obj_get_or_null(le, k), obj_get_or_null(re, k), field_path(path, k));
                    assert(sub.1 == lists1[i]);
                    assert forall|j: int| 0 <= j < sub.1.len() implies is_conflict_field(cs, #[trigger] sub.1[j].field) by {
                        let n = lemma_flatten_index(lists1, i, j);
                        assert(merge_spec(a, l, r, path).1[n] == sub.1[j]);
                    }
                    lemma_merge_agree(obj_get_or_null(ae, k), obj_get_or_null(le, k), obj_get_or_null(re, k), field_path(path, k), cs);
                }
            },
            _ => {
                if !json_same(l, a) && !json_same(r, a) && !json_same(l, r) {
                    assert(merge_spec(a, l, r, path).1[0].field == path);
                } else {
                    lemma_same_refl(l);
                    lemma_same_refl(r);
                    if json_same(l, a) {
                        lemma_same_sym(l, a);
                    }
                    if json_same(r, a) {
                        lemma_same_sym(r, a);
                    }
                    if json_same(l, r) {
                        lemma_same_sym(l, r);
                    }
                    if json_same(l, a) && json_same(r, a) {
                        lemma_same_trans(r, a, l);
                    }
                    lemma_same_agree(merge_spec(a, l, r, path).0, merge_spec(a, r, l, path).0, cs, path);
                }
            },
        }
    }
}

/// Law: merging with the local and remote sides exchanged finds the same
/// conflicts, in the same order, each with its two sides exchanged; the two
/// merged documents agree at every path that is not a conflict field; at a
/// conflict each keeps its own local side; and where there is no conflict
/// they are equal.
pub proof fn law_merge_symmetric(a: JsonView, l: JsonView, r: JsonView, path: Seq<char>)
    ensures
        merge_spec(a, r, l, path).1 == swap_all(merge_spec(a, l, r, path).1),
        agree_outside(merge_spec(a, l, r, path).0, merge_spec(a, r, l, path).0, merge_spec(a, l, r, path).1, path),
        sides_kept(a, l, r, merge_spec(a, l, r, path).0, merge_spec(a, r, l, path).0),
        merge_spec(a, l, r, path).1.len() == 0 ==> json_same(merge_spec(a, l, r, path).0, merge_spec(a, r, l, path).0),
    decreases jsize(a) + jsize(l) + jsize(r),
{
    lemma_merge_agree(a, l, r, path, merge_spec(a, l, r, path).1);
    match (a, l, r) {
        (JsonView::Object(ae), JsonView::Object(le), JsonView::Object(re)) => {
            let k1 = object_keys_union(ae, le, re);
            lemma_union_swap(entry_keys(ae), entry_keys(le), entry_keys(re));
            assert(object_keys_union(ae, re, le) == k1);
            let lists1 = merge_conflict_lists(ae, le, re, path);
            let lists2 = merge_conflict_lists(ae, re, le, path);
            let m1 = merge_entries(ae, le, re, path);
            let m2 = merge_entries(ae, re, le, path);
            assert forall|i: int| 0 <= i < lists1.len() implies #[trigger] lists2[i] == swap_all(lists1[i])
                && m1[i].0 == m2[i].0 && field_sides_kept(ae, le, re, m1[i].0, m1[i].1, m2[i].1)
                && (lists1[i].len() == 0 ==> json_same(m1[i].1, m2[i].1)) by {
                let k = k1[i];
                lemma_get_smaller(ae, k);
                lemma_get_smaller(le, k);
                lemma_get_smaller(re, k);
                law_merge_symmetric(obj_get_or_null(ae, k), obj_get_or_null(le, k), obj_get_or_null(re, k), field_path(path, k));
            }
            lemma_flatten_swap(lists1, lists2);
            assert forall|i: int| #![trigger m1[i]] 0 <= i < m1.len() implies m1[i].0 == m2[i].0
                && field_sides_kept(ae, le, re, m1[i].0, m1[i].1, m2[i].1) by {
                assert(lists2[i] == swap_all(lists1[i]));
            }
            if lists1.flatten().len() == 0 {
                assert forall|i: int| #![trigger m1[i]] 0 <= i < m1.len() implies m1[i].0 == m2[i].0 && json_same(m1[i].1, m2[i].1) by {
                    lemma_flatten_empty_part(lists1, i);
                    assert(lists2[i] == swap_all(lists1[i]));
                }
            }
        },
        _ => {
            lemma_same_refl(l);
            lemma_same_refl(r);
            if json_same(l, a) {
                lemma_same_sym(l, a);
            }
            if json_same(r, a) {
                lemma_same_sym(r, a);
            }
            if json_same(l, r) {
                lemma_same_sym(l, r);
            }
            if json_same(r, l) {
                lemma_same_sym(r, l);
            }
            if json_same(l, a) && json_same(r, a) {
                lemma_same_sym(l, a);
                lemma_same_trans(r, a, l);
            }
            assert(swap_all(Seq::<ConflictView>::empty()) =~= Seq::<ConflictView>::empty());
            assert(swap_all(seq![conflict_at(a, l, r, path)]) =~= seq![conflict_at(a, r, l, path)]);
        },
    }
}

} // verus!
