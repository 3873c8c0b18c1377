//! The meaning of a patch: what replaying its operations does to a tree.
//!
//! `apply_entry` and `apply_entries` define, at the model level, the effect
//! of a single operation and of an operation list.  The differ's contract
//! and all the patch laws are stated in terms of these two functions.

use vstd::prelude::*;
use crate::json::{
    Json, JsonValue, json_clone, keys_sorted, lex_lt, obj_get, obj_remove, obj_set, obj_upsert,
    lemma_obj_set_get, lemma_obj_set_set, lemma_obj_set_self, str_lt, view_elems, view_pairs,
};
use crate::patch_entry::{
    Entry, PTok, PatchEntry, PatchOp, PathToken, entry_root_ok, roots_replace, view_entries,
    view_opt, view_path,
};

verus! {

/// The tree that one operation leaves behind, or `None` when the operation
/// does not apply (a missing key, an index out of range, a wrong token).
pub open spec fn apply_entry(doc: Json, op: PatchOp, path: Seq<PTok>, value: Option<Json>) -> Option<
    Json,
>
    decreases path.len(),
{
    if path.len() == 0 {
        match op {
            PatchOp::Remove => None,
            _ => value,
        }
    } else {
        match doc {
            Json::Obj(pairs) => match path[0] {
                PTok::Key(k) => {
                    if path.len() == 1 && op == PatchOp::Remove {
                        if obj_get(pairs, k) is Some {
                            Some(Json::Obj(obj_remove(pairs, k)))
                        } else {
                            None
                        }
                    } else if path.len() == 1 && op == PatchOp::Add {
                        match value {
                            Some(v) => Some(Json::Obj(obj_upsert(pairs, k, v))),
                            None => None,
                        }
                    } else {
                        match obj_get(pairs, k) {
                            Some(c) => match apply_entry(c, op, path.drop_first(), value) {
                                Some(c2) => Some(Json::Obj(obj_set(pairs, k, c2))),
                                None => None,
                            },
                            None => None,
                        }
                    }
                },
                _ => None,
            },
            Json::Arr(items) => match path[0] {
                PTok::Idx(i) => {
                    if path.len() == 1 && op == PatchOp::Remove {
                        if 0 <= i < items.len() {
                            Some(Json::Arr(items.remove(i)))
                        } else {
                            None
                        }
                    } else if path.len() == 1 && op == PatchOp::Add {
                        match value {
                            Some(v) => if 0 <= i <= items.len() {
                                Some(Json::Arr(items.insert(i, v)))
                            } else {
                                None
                            },
                            None => None,
                        }
                    } else {
                        if 0 <= i < items.len() {
                            match apply_entry(items[i], op, path.drop_first(), value) {
                                Some(c2) => Some(Json::Arr(items.update(i, c2))),
                                None => None,
                            }
                        } else {
                            None
                        }
                    }
                },
                _ => None,
            },
            _ => None,
        }
    }
}

/// The tree that replaying a list of operations leaves behind, or `None`
/// as soon as one of them does not apply.
pub open spec fn apply_entries(doc: Json, entries: Seq<Entry>) -> Option<Json>
    decreases entries.len(),
{
    if entries.len() == 0 {
        Some(doc)
    } else {
        match apply_entry(doc, entries[0].op, entries[0].path, entries[0].value) {
            Some(d2) => apply_entries(d2, entries.drop_first()),
            None => None,
        }
    }
}

/// Replaying a concatenation is replaying both halves in turn.
pub proof fn lemma_apply_entries_append(doc: Json, es1: Seq<Entry>, es2: Seq<Entry>)
    ensures
        apply_entries(doc, es1 + es2) == match apply_entries(doc, es1) {
            Some(m) => apply_entries(m, es2),
            None => None,
        },
    decreases es1.len(),
{
    if es1.len() == 0 {
        assert(es1 + es2 =~= es2);
    } else {
        assert((es1 + es2)[0] == es1[0]);
        assert((es1 + es2).drop_first() =~= es1.drop_first() + es2);
        match apply_entry(doc, es1[0].op, es1[0].path, es1[0].value) {
            Some(d2) => {
                lemma_apply_entries_append(d2, es1.drop_first(), es2);
            },
            None => {},
        }
    }
}

/// Replaying one more operation after a list.
pub proof fn lemma_apply_entries_push(doc: Json, es: Seq<Entry>, e: Entry)
    ensures
        apply_entries(doc, es.push(e)) == match apply_entries(doc, es) {
            Some(m) => apply_entry(m, e.op, e.path, e.value),
            None => None,
        },
{
    assert(es.push(e) =~= es + seq![e]);
    lemma_apply_entries_append(doc, es, seq![e]);
    match apply_entries(doc, es) {
        Some(m) => {
            assert(seq![e][0] == e);
            assert(seq![e].drop_first() =~= Seq::<Entry>::empty());
            match apply_entry(m, e.op, e.path, e.value) {
                Some(d2) => {
                    assert(apply_entries(m, seq![e]) == apply_entries(d2, seq![e].drop_first()));
                },
                None => {
                    assert(apply_entries(m, seq![e]) is None);
                },
            }
        },
        None => {},
    }
}

/// Every entry of `es`, with `t` put in front of its path.
pub open spec fn prefix_entries(t: PTok, es: Seq<Entry>) -> Seq<Entry> {
    Seq::new(
        es.len(),
        |i: int| Entry { op: es[i].op, path: seq![t] + es[i].path, value: es[i].value },
    )
}

/// One prefixed operation acts on the value stored under the key it was
/// prefixed with.
proof fn lemma_prefix_key_entry(pairs: Seq<(Seq<char>, Json)>, k: Seq<char>, c: Json, e: Entry)
    requires
        obj_get(pairs, k) == Some(c),
        entry_root_ok(e),
    ensures
        apply_entry(Json::Obj(pairs), e.op, seq![PTok::Key(k)] + e.path, e.value)
            == match apply_entry(c, e.op, e.path, e.value) {
            Some(c2) => Some(Json::Obj(obj_set(pairs, k, c2))),
            None => None,
        },
{
    let p = seq![PTok::Key(k)] + e.path;
    assert(p[0] == PTok::Key(k));
    assert(p.drop_first() =~= e.path);
    assert(p.len() == 1 + e.path.len());
    if e.path.len() == 0 {
        assert(e.op == PatchOp::Replace && e.value is Some);
    }
}

/// A list of prefixed operations acts on the value stored under the key
/// they were prefixed with.
pub proof fn lemma_prefix_key_entries(
    pairs: Seq<(Seq<char>, Json)>,
    k: Seq<char>,
    c: Json,
    es: Seq<Entry>,
)
    requires
        obj_get(pairs, k) == Some(c),
        roots_replace(es),
    ensures
        apply_entries(Json::Obj(pairs), prefix_entries(PTok::Key(k), es)) == match apply_entries(
            c,
            es,
        ) {
            Some(c2) => Some(Json::Obj(obj_set(pairs, k, c2))),
            None => None,
        },
    decreases es.len(),
{
    let t = PTok::Key(k);
    if es.len() == 0 {
        assert(prefix_entries(t, es) =~= Seq::<Entry>::empty());
        lemma_obj_set_self(pairs, k, c);
    } else {
        let e0 = es[0];
        assert(prefix_entries(t, es)[0] == Entry {
            op: e0.op,
            path: seq![t] + e0.path,
            value: e0.value,
        });
        lemma_prefix_key_entry(pairs, k, c, e0);
        assert(prefix_entries(t, es).drop_first() =~= prefix_entries(t, es.drop_first()));
        match apply_entry(c, e0.op, e0.path, e0.value) {
            Some(c1) => {
                let pairs1 = obj_set(pairs, k, c1);
                lemma_obj_set_get(pairs, k, c1, k);
                assert(obj_get(pairs1, k) == Some(c1));
                assert(forall|i: int|
                    0 <= i < es.drop_first().len() ==> #[trigger] es.drop_first()[i] == es[i + 1]);
                lemma_prefix_key_entries(pairs1, k, c1, es.drop_first());
                match apply_entries(c1, es.drop_first()) {
                    Some(c2) => {
                        lemma_obj_set_set(pairs, k, c1, c2);
                    },
                    None => {},
                }
            },
            None => {},
        }
    }
}

/// One prefixed operation acts on the array element at the index it was
/// prefixed with.
proof fn lemma_prefix_idx_entry(items: Seq<Json>, i: int, e: Entry)
    requires
        0 <= i < items.len(),
        entry_root_ok(e),
    ensures
        apply_entry(Json::Arr(items), e.op, seq![PTok::Idx(i)] + e.path, e.value)
            == match apply_entry(items[i], e.op, e.path, e.value) {
            Some(c2) => Some(Json::Arr(items.update(i, c2))),
            None => None,
        },
{
    let p = seq![PTok::Idx(i)] + e.path;
    assert(p[0] == PTok::Idx(i));
    assert(p.drop_first() =~= e.path);
    assert(p.len() == 1 + e.path.len());
    if e.path.len() == 0 {
        assert(e.op == PatchOp::Replace && e.value is Some);
    }
}

/// A list of prefixed operations acts on the array element at the index
/// they were prefixed with.
pub proof fn lemma_prefix_idx_entries(items: Seq<Json>, i: int, es: Seq<Entry>)
    requires
        0 <= i < items.len(),
        roots_replace(es),
    ensures
        apply_entries(Json::Arr(items), prefix_entries(PTok::Idx(i), es)) == match apply_entries(
            items[i],
            es,
        ) {
            Some(c2) => Some(Json::Arr(items.update(i, c2))),
            None => None,
        },
    decreases es.len(),
{
    let t = PTok::Idx(i);
    if es.len() == 0 {
        assert(prefix_entries(t, es) =~= Seq::<Entry>::empty());
        assert(items.update(i, items[i]) =~= items);
    } else {
        let e0 = es[0];
        assert(prefix_entries(t, es)[0] == Entry {
            op: e0.op,
            path: seq![t] + e0.path,
            value: e0.value,
        });
        lemma_prefix_idx_entry(items, i, e0);
        assert(prefix_entries(t, es).drop_first() =~= prefix_entries(t, es.drop_first()));
        match apply_entry(items[i], e0.op, e0.path, e0.value) {
            Some(c1) => {
                let items1 = items.update(i, c1);
                assert(items1[i] == c1);
                assert(forall|j: int|
                    0 <= j < es.drop_first().len() ==> #[trigger] es.drop_first()[j] == es[j + 1]);
                lemma_prefix_idx_entries(items1, i, es.drop_first());
                match apply_entries(c1, es.drop_first()) {
                    Some(c2) => {
                        assert(items1.update(i, c2) =~= items.update(i, c2));
                    },
                    None => {},
                }
            },
            None => {},
        }
    }
}

/// A copy of `pairs` with the value at `m` replaced by `v`.
fn pairs_replacing(pairs: &Vec<(String, JsonValue)>, m: usize, v: JsonValue) -> (r: Vec<
    (String, JsonValue),
>)
    requires
        m < pairs@.len(),
    ensures
        view_pairs(r@) == view_pairs(pairs@).update(m as int, (pairs@[m as int].0@, v@)),
{
    let n = pairs.len();
    let mut r: Vec<(String, JsonValue)> = Vec::new();
    let mut p: usize = 0;
    let mut slot = Some(v);
    while p < n
        invariant
            0 <= p <= n,
            n == pairs@.len(),
            m < n,
            r@.len() == p,
            p <= m ==> (slot matches Some(w) && w@ == v@),
            p > m ==> slot is None,
            forall|q: int| 0 <= q < p && q != m ==> r@[q].0@ == pairs@[q].0@
                && r@[q].1@ == pairs@[q].1@,
            p > m ==> r@[m as int].0@ == pairs@[m as int].0@ && r@[m as int].1@ == v@,
        decreases n - p,
    {
        if p == m {
            let w = slot.unwrap();
            slot = None;
            r.push((pairs[p].0.clone(), w));
        } else {
            r.push((pairs[p].0.clone(), json_clone(&pairs[p].1)));
        }
        p = p + 1;
    }
    proof {
        assert(view_pairs(r@) =~= view_pairs(pairs@).update(m as int, (pairs@[m as int].0@, v@)));
    }
    r
}

/// A copy of `pairs` without the pair at `m`.
fn pairs_removing(pairs: &Vec<(String, JsonValue)>, m: usize) -> (r: Vec<(String, JsonValue)>)
    requires
        m < pairs@.len(),
    ensures
        view_pairs(r@) == view_pairs(pairs@).remove(m as int),
{
    let n = pairs.len();
    let mut r: Vec<(String, JsonValue)> = Vec::new();
    let mut p: usize = 0;
    while p < n
        invariant
            0 <= p <= n,
            n == pairs@.len(),
            m < n,
            r@.len() == if p <= m { p as int } else { p - 1 },
            forall|q: int| 0 <= q < p && q < m ==> r@[q].0@ == pairs@[q].0@
                && r@[q].1@ == pairs@[q].1@,
            forall|q: int| m < q < p ==> r@[q - 1].0@ == pairs@[q].0@
                && r@[q - 1].1@ == pairs@[q].1@,
        decreases n - p,
    {
        if p != m {
            r.push((pairs[p].0.clone(), json_clone(&pairs[p].1)));
        }
        p = p + 1;
    }
    proof {
        assert(view_pairs(r@) =~= view_pairs(pairs@).remove(m as int));
    }
    r
}

/// A copy of `pairs` with `(k, v)` inserted at `m`.
fn pairs_inserting(pairs: &Vec<(String, JsonValue)>, m: usize, k: String, v: JsonValue) -> (r:
    Vec<(String, JsonValue)>)
    requires
        m <= pairs@.len(),
    ensures
        view_pairs(r@) == view_pairs(pairs@).insert(m as int, (k@, v@)),
{
    let n = pairs.len();
    let mut r: Vec<(String, JsonValue)> = Vec::new();
    let mut p: usize = 0;
    let mut slot = Some((k, v));
    let ghost kv = (k@, v@);
    while p < n
        invariant
            0 <= p <= n,
            n == pairs@.len(),
            m <= n,
            r@.len() == if p <= m { p as int } else { p + 1 },
            p <= m ==> (slot matches Some(w) && w.0@ == kv.0 && w.1@ == kv.1),
            p > m ==> slot is None,
            forall|q: int| 0 <= q < p && q < m ==> r@[q].0@ == pairs@[q].0@
                && r@[q].1@ == pairs@[q].1@,
            p > m ==> r@[m as int].0@ == kv.0 && r@[m as int].1@ == kv.1,
            forall|q: int| m <= q < p ==> r@[q + 1].0@ == pairs@[q].0@
                && r@[q + 1].1@ == pairs@[q].1@,
        decreases n - p,
    {
        if p == m {
            let w = slot.unwrap();
            slot = None;
            r.push(w);
        }
        r.push((pairs[p].0.clone(), json_clone(&pairs[p].1)));
        p = p + 1;
    }
    if m == n {
        let w = slot.unwrap();
        r.push(w);
    }
    proof {
        assert(view_pairs(r@) =~= view_pairs(pairs@).insert(m as int, kv));
    }
    r
}

/// A copy of `items` with the element at `m` replaced by `v`.
fn elems_replacing(items: &Vec<JsonValue>, m: usize, v: JsonValue) -> (r: Vec<JsonValue>)
    requires
        m < items@.len(),
    ensures
        view_elems(r@) == view_elems(items@).update(m as int, v@),
{
    let n = items.len();
    let mut r: Vec<JsonValue> = Vec::new();
    let mut p: usize = 0;
    let mut slot = Some(v);
    while p < n
        invariant
            0 <= p <= n,
            n == items@.len(),
            m < n,
            r@.len() == p,
            p <= m ==> (slot matches Some(w) && w@ == v@),
            p > m ==> slot is None,
            forall|q: int| 0 <= q < p && q != m ==> r@[q]@ == items@[q]@,
            p > m ==> r@[m as int]@ == v@,
        decreases n - p,
    {
        if p == m {
            let w = slot.unwrap();
            slot = None;
            r.push(w);
        } else {
            r.push(json_clone(&items[p]));
        }
        p = p + 1;
    }
    proof {
        assert(view_elems(r@) =~= view_elems(items@).update(m as int, v@));
    }
    r
}

/// A copy of `items` without the element at `m`.
fn elems_removing(items: &Vec<JsonValue>, m: usize) -> (r: Vec<JsonValue>)
    requires
        m < items@.len(),
    ensures
        view_elems(r@) == view_elems(items@).remove(m as int),
{
    let n = items.len();
    let mut r: Vec<JsonValue> = Vec::new();
    let mut p: usize = 0;
    while p < n
        invariant
            0 <= p <= n,
            n == items@.len(),
            m < n,
            r@.len() == if p <= m { p as int } else { p - 1 },
            forall|q: int| 0 <= q < p && q < m ==> r@[q]@ == items@[q]@,
            forall|q: int| m < q < p ==> r@[q - 1]@ == items@[q]@,
        decreases n - p,
    {
        if p != m {
            r.push(json_clone(&items[p]));
        }
        p = p + 1;
    }
    proof {
        assert(view_elems(r@) =~= view_elems(items@).remove(m as int));
    }
    r
}

/// A copy of `items` with `v` inserted at `m`.
fn elems_inserting(items: &Vec<JsonValue>, m: usize, v: JsonValue) -> (r: Vec<JsonValue>)
    requires
        m <= items@.len(),
    ensures
        view_elems(r@) == view_elems(items@).insert(m as int, v@),
{
    let n = items.len();
    let mut r: Vec<JsonValue> = Vec::new();
    let mut p: usize = 0;
    let mut slot = Some(v);
    let ghost vv = v@;
    while p < n
        invariant
            0 <= p <= n,
            n == items@.len(),
            m <= n,
            r@.len() == if p <= m { p as int } else { p + 1 },
            p <= m ==> (slot matches Some(w) && w@ == vv),
            p > m ==> slot is None,
            forall|q: int| 0 <= q < p && q < m ==> r@[q]@ == items@[q]@,
            p > m ==> r@[m as int]@ == vv,
            forall|q: int| m <= q < p ==> r@[q + 1]@ == items@[q]@,
        decreases n - p,
    {
        if p == m {
            let w = slot.unwrap();
            slot = None;
            r.push(w);
        }
        r.push(json_clone(&items[p]));
        p = p + 1;
    }
    if m == n {
        let w = slot.unwrap();
        r.push(w);
    }
    proof {
        assert(view_elems(r@) =~= view_elems(items@).insert(m as int, vv));
    }
    r
}

/// A copy of `pairs` with `k -> v` set: inserted at its sorted position,
/// or replacing the value of an existing pair with that key.
pub fn obj_insert_sorted(pairs: &Vec<(String, JsonValue)>, k: &str, v: JsonValue) -> (r: Vec<
    (String, JsonValue),
>)
    ensures
        view_pairs(r@) == obj_upsert(view_pairs(pairs@), k@, v@),
{
    let n = pairs.len();
    let ghost pseq = view_pairs(pairs@);
    let mut w: usize = 0;
    while w < n && crate::json::str_lt(pairs[w].0.as_str(), k)
        invariant
            0 <= w <= n,
            n == pairs@.len(),
            pseq == view_pairs(pairs@),
            forall|p: int| 0 <= p < w ==> lex_lt((#[trigger] pseq[p]).0, k@),
        decreases n - w,
    {
        proof {
            assert(pseq[w as int].0 == pairs@[w as int].0@);
        }
        w = w + 1;
    }
    proof {
        if w < n {
            assert(pseq[w as int].0 == pairs@[w as int].0@);
        }
    }
    if w < n && crate::json::str_eq(pairs[w].0.as_str(), k) {
        proof {
            crate::json::lemma_obj_upsert_found(pseq, k@, v@, w as int);
            assert((pairs@[w as int].0@, v@) == (k@, v@));
        }
        pairs_replacing(pairs, w, v)
    } else {
        proof {
            crate::json::lemma_obj_upsert_at(pseq, k@, v@, w as int);
        }
        pairs_inserting(pairs, w, k.to_owned(), v)
    }
}

/// The value under key `k` of an object, or `None` for a missing key or a
/// non-object.
pub fn get_key<'a>(doc: &'a JsonValue, k: &str) -> (r: Option<&'a JsonValue>)
    ensures
        match r {
            Some(v) => doc@ matches Json::Obj(ps) && obj_get(ps, k@) == Some(v@),
            None => match doc@ {
                Json::Obj(ps) => obj_get(ps, k@) is None,
                _ => true,
            },
        },
{
    match doc {
        JsonValue::Object(pairs) => {
            let n = pairs.len();
            let ghost pseq = view_pairs(pairs@);
            proof {
                assert(doc@ == Json::Obj(pseq));
            }
            let mut m: usize = 0;
            while m < n && !crate::json::str_eq(pairs[m].0.as_str(), k)
                invariant
                    0 <= m <= n,
                    n == pairs@.len(),
                    pseq == view_pairs(pairs@),
                    forall|p: int| 0 <= p < m ==> (#[trigger] pseq[p]).0 != k@,
                decreases n - m,
            {
                proof {
                    assert(pseq[m as int].0 == pairs@[m as int].0@);
                }
                m = m + 1;
            }
            if m < n {
                proof {
                    assert(pseq[m as int].0 == pairs@[m as int].0@);
                    crate::json::lemma_obj_get_at(pseq, k@, m as int);
                }
                Some(&pairs[m].1)
            } else {
                proof {
                    crate::json::lemma_obj_get_absent(pseq, k@);
                }
                None
            }
        },
        _ => None,
    }
}

/// The text of a string value, or `None` for any other kind of value.
pub fn as_text<'a>(v: &'a JsonValue) -> (r: Option<&'a String>)
    ensures
        match r {
            Some(s) => v@ == Json::Str(s@),
            None => !(v@ is Str),
        },
{
    match v {
        JsonValue::Str(s) => Some(s),
        _ => {
            proof {
                assert(!(v@ is Str));
            }
            None
        },
    }
}

/// Applies the tail of `e`'s path, from step `pos` on, to `doc`.
fn apply_at(doc: &JsonValue, e: &PatchEntry, pos: usize) -> (r: Option<JsonValue>)
    requires
        pos <= e@.path.len(),
    ensures
        view_opt(r) == apply_entry(doc@, e@.op, e@.path.skip(pos as int), e@.value),
    decreases e@.path.len() - pos,
{
    let plen = e.path.len();
    let ghost tail = e@.path.skip(pos as int);
    proof {
        assert(view_path(e.path@).len() == e.path@.len());
        assert(tail.len() == plen - pos);
    }
    if pos >= plen {
        proof {
            assert(tail.len() == 0);
        }
        match e.op {
            PatchOp::Remove => None,
            _ => match &e.value {
                Some(v) => Some(json_clone(v)),
                None => None,
            },
        }
    } else {
        let last = pos + 1 == plen;
        proof {
            assert(tail[0] == view_path(e.path@)[pos as int]);
            assert(tail[0] == e.path@[pos as int]@);
            assert(tail.drop_first() =~= e@.path.skip(pos as int + 1));
        }
        match doc {
            JsonValue::Object(pairs) => match &e.path[pos] {
                PathToken::Key(k) => {
                    let n = pairs.len();
                    let ghost pseq = view_pairs(pairs@);
                    proof {
                        assert(doc@ == Json::Obj(pseq));
                        assert(pseq.len() == n);
                    }
                    // find the first pair with this key
                    let mut m: usize = 0;
                    while m < n && !(pairs[m].0 == *k)
                        invariant
                            0 <= m <= n,
                            n == pairs@.len(),
                            pseq == view_pairs(pairs@),
                            forall|p: int| 0 <= p < m ==> (#[trigger] pseq[p]).0 != k@,
                        decreases n - m,
                    {
                        proof {
                            assert(pseq[m as int].0 == pairs@[m as int].0@);
                        }
                        m = m + 1;
                    }
                    let found = m < n;
                    proof {
                        if found {
                            assert(pseq[m as int].0 == k@);
                            crate::json::lemma_obj_get_at(pseq, k@, m as int);
                        } else {
                            crate::json::lemma_obj_get_absent(pseq, k@);
                        }
                    }
                    if last && matches!(e.op, PatchOp::Remove) {
                        if found {
                            proof {
                                crate::json::lemma_obj_remove_at(pseq, k@, m as int);
                            }
                            Some(JsonValue::Object(pairs_removing(pairs, m)))
                        } else {
                            None
                        }
                    } else if last && matches!(e.op, PatchOp::Add) {
                        match &e.value {
                            Some(v) => {
                                // find the first pair whose key does not sort
                                // before the new key
                                let mut w: usize = 0;
                                while w < n && str_lt(pairs[w].0.as_str(), k.as_str())
                                    invariant
                                        0 <= w <= n,
                                        n == pairs@.len(),
                                        pseq == view_pairs(pairs@),
                                        forall|p: int|
                                            0 <= p < w ==> lex_lt((#[trigger] pseq[p]).0, k@),
                                    decreases n - w,
                                {
                                    proof {
                                        assert(pseq[w as int].0 == pairs@[w as int].0@);
                                    }
                                    w = w + 1;
                                }
                                proof {
                                    if w < n {
                                        assert(pseq[w as int].0 == pairs@[w as int].0@);
                                    }
                                }
                                if w < n && pairs[w].0 == *k {
                                    proof {
                                        crate::json::lemma_obj_upsert_found(pseq, k@, v@, w as int);
                                    }
                                    Some(JsonValue::Object(pairs_replacing(
                                        pairs,
                                        w,
                                        json_clone(v),
                                    )))
                                } else {
                                    proof {
                                        crate::json::lemma_obj_upsert_at(pseq, k@, v@, w as int);
                                    }
                                    Some(JsonValue::Object(pairs_inserting(
                                        pairs,
                                        w,
                                        k.clone(),
                                        json_clone(v),
                                    )))
                                }
                            },
                            None => None,
                        }
                    } else {
                        if found {
                            match apply_at(&pairs[m].1, e, pos + 1) {
                                Some(c2) => {
                                    proof {
                                        crate::json::lemma_obj_set_at(pseq, k@, c2@, m as int);
                                        assert(pseq.update(m as int, (k@, c2@)) =~= pseq.update(
                                            m as int,
                                            (pseq[m as int].0, c2@),
                                        ));
                                    }
                                    Some(JsonValue::Object(pairs_replacing(pairs, m, c2)))
                                },
                                None => None,
                            }
                        } else {
                            None
                        }
                    }
                },
                _ => None,
            },
            JsonValue::Array(items) => match &e.path[pos] {
                PathToken::Idx(ix) => {
                    let n = items.len();
                    let ix = *ix;
                    let ghost iseq = view_elems(items@);
                    proof {
                        assert(doc@ == Json::Arr(iseq));
                        assert(iseq.len() == n);
                    }
                    if last && matches!(e.op, PatchOp::Remove) {
                        if ix < n {
                            Some(JsonValue::Array(elems_removing(items, ix)))
                        } else {
                            None
                        }
                    } else if last && matches!(e.op, PatchOp::Add) {
                        match &e.value {
                            Some(v) => {
                                if ix <= n {
                                    Some(JsonValue::Array(elems_inserting(
                                        items,
                                        ix,
                                        json_clone(v),
                                    )))
                                } else {
                                    None
                                }
                            },
                            None => None,
                        }
                    } else {
                        if ix < n {
                            proof {
                                assert(iseq[ix as int] == items@[ix as int]@);
                            }
                            match apply_at(&items[ix], e, pos + 1) {
                                Some(c2) => Some(JsonValue::Array(elems_replacing(
                                    items,
                                    ix,
                                    c2,
                                ))),
                                None => None,
                            }
                        } else {
                            None
                        }
                    }
                },
                _ => None,
            },
            _ => None,
        }
    }
}

/// Applies one operation to a tree, returning the new tree, or `None` when
/// the operation does not apply.  The input tree is left untouched.
pub fn apply_entry_value(doc: &JsonValue, e: &PatchEntry) -> (r: Option<JsonValue>)
    ensures
        view_opt(r) == apply_entry(doc@, e@.op, e@.path, e@.value),
{
    proof {
        assert(e@.path.skip(0) =~= e@.path);
    }
    apply_at(doc, e, 0)
}

/// Replays a whole patch over a tree, returning the transformed tree, or
/// `None` as soon as one operation does not apply.
pub fn apply_patch_value(doc: &JsonValue, entries: &Vec<PatchEntry>) -> (r: Option<JsonValue>)
    ensures
        view_opt(r) == apply_entries(doc@, view_entries(entries@)),
{
    let n = entries.len();
    let mut cur = json_clone(doc);
    let mut i: usize = 0;
    while i < n
        invariant
            0 <= i <= n,
            n == entries@.len(),
            apply_entries(doc@, view_entries(entries@).take(i as int)) == Some(cur@),
        decreases n - i,
    {
        let ghost done = view_entries(entries@).take(i as int);
        let ghost e = view_entries(entries@)[i as int];
        let next = apply_entry_value(&cur, &entries[i]);
        proof {
            lemma_apply_entries_push(doc@, done, e);
            assert(done.push(e) =~= view_entries(entries@).take(i as int + 1));
            assert(e == entries@[i as int]@);
        }
        match next {
            Some(d2) => {
                cur = d2;
            },
            None => {
                proof {
                    assert(apply_entries(doc@, view_entries(entries@).take(i as int + 1))
                        is None);
                    lemma_apply_entries_prefix_none(
                        doc@,
                        view_entries(entries@),
                        i as int + 1,
                    );
                }
                return None;
            },
        }
        i = i + 1;
    }
    proof {
        assert(view_entries(entries@).take(n as int) =~= view_entries(entries@));
    }
    Some(cur)
}

/// Once a prefix of the operation list fails, the whole list fails.
proof fn lemma_apply_entries_prefix_none(doc: Json, es: Seq<Entry>, i: int)
    requires
        0 <= i <= es.len(),
        apply_entries(doc, es.take(i)) is None,
    ensures
        apply_entries(doc, es) is None,
{
    assert(es =~= es.take(i) + es.skip(i));
    lemma_apply_entries_append(doc, es.take(i), es.skip(i));
}

} // verus!
