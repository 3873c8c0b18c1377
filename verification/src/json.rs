//! A JSON-like tree model.
//!
//! `JsonValue` is the executable tree type that the differ, the patch
//! applier and the domain serializers work on.  Its mathematical model is
//! `Json`, where strings become `Seq<char>`, arrays become `Seq<Json>` and
//! objects become sequences of key/value pairs.  Numbers are carried as
//! their literal text: the engine only ever compares them for equality.
//!
//! An object is well formed when its keys are strictly sorted in the
//! lexicographic order `lex_lt`; the serializers only build such objects,
//! and the differ relies on it.

use vstd::prelude::*;

verus! {

/// Mathematical model of a JSON-like tree.
pub enum Json {
    Null,
    Bool(bool),
    Num(Seq<char>),
    Str(Seq<char>),
    Arr(Seq<Json>),
    Obj(Seq<(Seq<char>, Json)>),
}

/// Strict lexicographic order on character sequences, by code point.
pub open spec fn lex_lt(a: Seq<char>, b: Seq<char>) -> bool
    decreases a.len(),
{
    if b.len() == 0 {
        false
    } else if a.len() == 0 {
        true
    } else if a[0] == b[0] {
        lex_lt(a.drop_first(), b.drop_first())
    } else {
        (a[0] as u32) < (b[0] as u32)
    }
}

/// The value stored under key `k`, or `None`; the first match wins.
pub open spec fn obj_get(pairs: Seq<(Seq<char>, Json)>, k: Seq<char>) -> Option<Json>
    decreases pairs.len(),
{
    if pairs.len() == 0 {
        None
    } else if pairs[0].0 == k {
        Some(pairs[0].1)
    } else {
        obj_get(pairs.drop_first(), k)
    }
}

/// Replaces the value of the first pair with key `k`; unchanged when absent.
pub open spec fn obj_set(pairs: Seq<(Seq<char>, Json)>, k: Seq<char>, v: Json) -> Seq<
    (Seq<char>, Json),
>
    decreases pairs.len(),
{
    if pairs.len() == 0 {
        pairs
    } else if pairs[0].0 == k {
        pairs.update(0, (k, v))
    } else {
        seq![pairs[0]] + obj_set(pairs.drop_first(), k, v)
    }
}

/// Removes the first pair with key `k`; unchanged when absent.
pub open spec fn obj_remove(pairs: Seq<(Seq<char>, Json)>, k: Seq<char>) -> Seq<
    (Seq<char>, Json),
>
    decreases pairs.len(),
{
    if pairs.len() == 0 {
        pairs
    } else if pairs[0].0 == k {
        pairs.drop_first()
    } else {
        seq![pairs[0]] + obj_remove(pairs.drop_first(), k)
    }
}

/// Inserts `k -> v` at its sorted position, or replaces the value of an
/// existing pair with key `k`.
pub open spec fn obj_upsert(pairs: Seq<(Seq<char>, Json)>, k: Seq<char>, v: Json) -> Seq<
    (Seq<char>, Json),
>
    decreases pairs.len(),
{
    if pairs.len() == 0 {
        seq![(k, v)]
    } else if pairs[0].0 == k {
        pairs.update(0, (k, v))
    } else if lex_lt(k, pairs[0].0) {
        seq![(k, v)] + pairs
    } else {
        seq![pairs[0]] + obj_upsert(pairs.drop_first(), k, v)
    }
}

/// Keys strictly ascending in `lex_lt`; this also makes them unique.
pub open spec fn keys_sorted(pairs: Seq<(Seq<char>, Json)>) -> bool {
    forall|i: int, j: int|
        0 <= i < j < pairs.len() ==> #[trigger] lex_lt(pairs[i].0, pairs[j].0)
}

impl Json {
    /// Every object in the tree has strictly sorted keys.
    pub open spec fn wf(self) -> bool
        decreases self,
    {
        match self {
            Json::Arr(items) => all_wf(items),
            Json::Obj(pairs) => keys_sorted(pairs) && pairs_wf(pairs),
            _ => true,
        }
    }
}

/// Every element of the sequence is well formed.
pub open spec fn all_wf(items: Seq<Json>) -> bool
    decreases items,
{
    items.len() == 0 || (items[0].wf() && all_wf(items.drop_first()))
}

/// Every value of the pair sequence is well formed.
pub open spec fn pairs_wf(pairs: Seq<(Seq<char>, Json)>) -> bool
    decreases pairs,
{
    pairs.len() == 0 || (pairs[0].1.wf() && pairs_wf(pairs.drop_first()))
}

/// An element of a well-formed sequence is well formed.
pub proof fn lemma_all_wf_index(items: Seq<Json>, i: int)
    requires
        all_wf(items),
        0 <= i < items.len(),
    ensures
        items[i].wf(),
    decreases i,
{
    if i > 0 {
        lemma_all_wf_index(items.drop_first(), i - 1);
        assert(items.drop_first()[i - 1] == items[i]);
    }
}

/// A sequence of well-formed elements is well formed.
pub proof fn lemma_all_wf_from_forall(items: Seq<Json>)
    requires
        forall|i: int| 0 <= i < items.len() ==> (#[trigger] items[i]).wf(),
    ensures
        all_wf(items),
    decreases items.len(),
{
    if items.len() > 0 {
        assert(forall|i: int|
            0 <= i < items.drop_first().len() ==> #[trigger] items.drop_first()[i] == items[i
                + 1]);
        lemma_all_wf_from_forall(items.drop_first());
    }
}

/// The value under an index of a well-formed pair sequence is well formed.
pub proof fn lemma_pairs_wf_index(pairs: Seq<(Seq<char>, Json)>, i: int)
    requires
        pairs_wf(pairs),
        0 <= i < pairs.len(),
    ensures
        pairs[i].1.wf(),
    decreases i,
{
    if i > 0 {
        lemma_pairs_wf_index(pairs.drop_first(), i - 1);
        assert(pairs.drop_first()[i - 1] == pairs[i]);
    }
}

/// A pair sequence whose values are all well formed is well formed.
pub proof fn lemma_pairs_wf_from_forall(pairs: Seq<(Seq<char>, Json)>)
    requires
        forall|i: int| 0 <= i < pairs.len() ==> (#[trigger] pairs[i]).1.wf(),
    ensures
        pairs_wf(pairs),
    decreases pairs.len(),
{
    if pairs.len() > 0 {
        assert(forall|i: int|
            0 <= i < pairs.drop_first().len() ==> #[trigger] pairs.drop_first()[i] == pairs[i
                + 1]);
        lemma_pairs_wf_from_forall(pairs.drop_first());
    }
}

/// Looking a key up skips over pairs whose keys all differ from it.
pub proof fn lemma_obj_get_concat(
    a: Seq<(Seq<char>, Json)>,
    b: Seq<(Seq<char>, Json)>,
    k: Seq<char>,
)
    requires
        forall|i: int| 0 <= i < a.len() ==> (#[trigger] a[i]).0 != k,
    ensures
        obj_get(a + b, k) == obj_get(b, k),
    decreases a.len(),
{
    if a.len() == 0 {
        assert(a + b =~= b);
    } else {
        assert((a + b)[0] == a[0]);
        assert((a + b).drop_first() =~= a.drop_first() + b);
        lemma_obj_get_concat(a.drop_first(), b, k);
    }
}

/// Replacing under a key passes over pairs whose keys all differ from it.
pub proof fn lemma_obj_set_concat(
    a: Seq<(Seq<char>, Json)>,
    b: Seq<(Seq<char>, Json)>,
    k: Seq<char>,
    v: Json,
)
    requires
        forall|i: int| 0 <= i < a.len() ==> (#[trigger] a[i]).0 != k,
    ensures
        obj_set(a + b, k, v) == a + obj_set(b, k, v),
    decreases a.len(),
{
    if a.len() == 0 {
        assert(a + b =~= b);
        assert(a + obj_set(b, k, v) =~= obj_set(b, k, v));
    } else {
        assert((a + b)[0] == a[0]);
        assert((a + b).drop_first() =~= a.drop_first() + b);
        lemma_obj_set_concat(a.drop_first(), b, k, v);
        assert(seq![a[0]] + (a.drop_first() + obj_set(b, k, v)) =~= a + obj_set(b, k, v));
    }
}

/// Removing a key passes over pairs whose keys all differ from it.
pub proof fn lemma_obj_remove_concat(
    a: Seq<(Seq<char>, Json)>,
    b: Seq<(Seq<char>, Json)>,
    k: Seq<char>,
)
    requires
        forall|i: int| 0 <= i < a.len() ==> (#[trigger] a[i]).0 != k,
    ensures
        obj_remove(a + b, k) == a + obj_remove(b, k),
    decreases a.len(),
{
    if a.len() == 0 {
        assert(a + b =~= b);
        assert(a + obj_remove(b, k) =~= obj_remove(b, k));
    } else {
        assert((a + b)[0] == a[0]);
        assert((a + b).drop_first() =~= a.drop_first() + b);
        lemma_obj_remove_concat(a.drop_first(), b, k);
        assert(seq![a[0]] + (a.drop_first() + obj_remove(b, k)) =~= a + obj_remove(b, k));
    }
}

/// Sorted insertion passes over pairs whose keys all precede the new key.
pub proof fn lemma_obj_upsert_concat(
    a: Seq<(Seq<char>, Json)>,
    b: Seq<(Seq<char>, Json)>,
    k: Seq<char>,
    v: Json,
)
    requires
        forall|i: int| lex_lt((#[trigger] a[i]).0, k) || !(0 <= i < a.len()),
    ensures
        obj_upsert(a + b, k, v) == a + obj_upsert(b, k, v),
    decreases a.len(),
{
    if a.len() == 0 {
        assert(a + b =~= b);
        assert(a + obj_upsert(b, k, v) =~= obj_upsert(b, k, v));
    } else {
        assert((a + b)[0] == a[0]);
        assert(lex_lt(a[0].0, k));
        lemma_lex_lt_asym(a[0].0, k);
        assert((a + b).drop_first() =~= a.drop_first() + b);
        lemma_obj_upsert_concat(a.drop_first(), b, k, v);
        assert(seq![a[0]] + (a.drop_first() + obj_upsert(b, k, v)) =~= a + obj_upsert(b, k, v));
    }
}

/// A successful lookup means some pair carries the key.
pub proof fn lemma_obj_get_some_index(pairs: Seq<(Seq<char>, Json)>, k: Seq<char>)
    requires
        obj_get(pairs, k) is Some,
    ensures
        exists|m: int| 0 <= m < pairs.len() && (#[trigger] pairs[m]).0 == k,
    decreases pairs.len(),
{
    if pairs.len() > 0 {
        if pairs[0].0 == k {
            assert(pairs[0].0 == k);
        } else {
            lemma_obj_get_some_index(pairs.drop_first(), k);
            let m = choose|m: int|
                0 <= m < pairs.drop_first().len() && (#[trigger] pairs.drop_first()[m]).0 == k;
            assert(pairs.drop_first()[m] == pairs[m + 1]);
            assert(pairs[m + 1].0 == k);
        }
    }
}

/// A key that some pair carries is found.
pub proof fn lemma_obj_get_contains(pairs: Seq<(Seq<char>, Json)>, j: int)
    requires
        0 <= j < pairs.len(),
    ensures
        obj_get(pairs, pairs[j].0) is Some,
    decreases j,
{
    if pairs[0].0 == pairs[j].0 {
    } else {
        assert(j > 0);
        assert(pairs.drop_first()[j - 1] == pairs[j]);
        lemma_obj_get_contains(pairs.drop_first(), j - 1);
    }
}

/// What a lookup sees after `obj_set`.
pub proof fn lemma_obj_set_get(
    pairs: Seq<(Seq<char>, Json)>,
    k: Seq<char>,
    v: Json,
    k2: Seq<char>,
)
    ensures
        obj_get(obj_set(pairs, k, v), k2) == if k2 == k && obj_get(pairs, k) is Some {
            Some(v)
        } else {
            obj_get(pairs, k2)
        },
    decreases pairs.len(),
{
    if pairs.len() > 0 {
        if pairs[0].0 == k {
            let u = pairs.update(0, (k, v));
            assert(u[0] == (k, v));
            assert(u.drop_first() =~= pairs.drop_first());
        } else {
            let rest = obj_set(pairs.drop_first(), k, v);
            assert((seq![pairs[0]] + rest)[0] == pairs[0]);
            assert((seq![pairs[0]] + rest).drop_first() =~= rest);
            lemma_obj_set_get(pairs.drop_first(), k, v, k2);
        }
    }
}

/// Setting the same key twice keeps only the second value.
pub proof fn lemma_obj_set_set(
    pairs: Seq<(Seq<char>, Json)>,
    k: Seq<char>,
    v1: Json,
    v2: Json,
)
    ensures
        obj_set(obj_set(pairs, k, v1), k, v2) == obj_set(pairs, k, v2),
    decreases pairs.len(),
{
    if pairs.len() > 0 {
        if pairs[0].0 == k {
            let u = pairs.update(0, (k, v1));
            assert(u[0] == (k, v1));
            assert(u.update(0, (k, v2)) =~= pairs.update(0, (k, v2)));
        } else {
            let rest = obj_set(pairs.drop_first(), k, v1);
            assert((seq![pairs[0]] + rest)[0] == pairs[0]);
            assert((seq![pairs[0]] + rest).drop_first() =~= rest);
            lemma_obj_set_set(pairs.drop_first(), k, v1, v2);
            assert(obj_set(seq![pairs[0]] + rest, k, v2) =~= seq![pairs[0]] + obj_set(
                pairs.drop_first(),
                k,
                v2,
            ));
        }
    }
}

/// Writing back the value a key already has changes nothing.
pub proof fn lemma_obj_set_self(pairs: Seq<(Seq<char>, Json)>, k: Seq<char>, c: Json)
    requires
        obj_get(pairs, k) == Some(c),
    ensures
        obj_set(pairs, k, c) == pairs,
    decreases pairs.len(),
{
    if pairs.len() > 0 {
        if pairs[0].0 == k {
            assert(pairs.update(0, (k, c)) =~= pairs);
        } else {
            lemma_obj_set_self(pairs.drop_first(), k, c);
            assert(seq![pairs[0]] + pairs.drop_first() =~= pairs);
        }
    }
}

/// Where the first pair with key `k` sits, the lookup finds its value.
pub proof fn lemma_obj_get_at(pairs: Seq<(Seq<char>, Json)>, k: Seq<char>, m: int)
    requires
        0 <= m < pairs.len(),
        pairs[m].0 == k,
        forall|p: int| 0 <= p < m ==> (#[trigger] pairs[p]).0 != k,
    ensures
        obj_get(pairs, k) == Some(pairs[m].1),
    decreases m,
{
    if m > 0 {
        lemma_obj_get_at(pairs.drop_first(), k, m - 1);
        assert(pairs.drop_first()[m - 1] == pairs[m]);
        assert(forall|p: int|
            0 <= p < m - 1 ==> #[trigger] pairs.drop_first()[p] == pairs[p + 1]);
    }
}

/// When no pair has key `k`, the lookup finds nothing.
pub proof fn lemma_obj_get_absent(pairs: Seq<(Seq<char>, Json)>, k: Seq<char>)
    requires
        forall|p: int| 0 <= p < pairs.len() ==> (#[trigger] pairs[p]).0 != k,
    ensures
        obj_get(pairs, k) is None,
    decreases pairs.len(),
{
    if pairs.len() > 0 {
        assert(forall|p: int|
            0 <= p < pairs.drop_first().len() ==> #[trigger] pairs.drop_first()[p] == pairs[p
                + 1]);
        lemma_obj_get_absent(pairs.drop_first(), k);
    }
}

/// `obj_set` replaces the pair at the first position holding key `k`.
pub proof fn lemma_obj_set_at(pairs: Seq<(Seq<char>, Json)>, k: Seq<char>, v: Json, m: int)
    requires
        0 <= m < pairs.len(),
        pairs[m].0 == k,
        forall|p: int| 0 <= p < m ==> (#[trigger] pairs[p]).0 != k,
    ensures
        obj_set(pairs, k, v) == pairs.update(m, (k, v)),
    decreases m,
{
    if m == 0 {
    } else {
        lemma_obj_set_at(pairs.drop_first(), k, v, m - 1);
        assert(pairs.drop_first()[m - 1] == pairs[m]);
        assert(forall|p: int|
            0 <= p < m - 1 ==> #[trigger] pairs.drop_first()[p] == pairs[p + 1]);
        assert(seq![pairs[0]] + pairs.drop_first().update(m - 1, (k, v)) =~= pairs.update(
            m,
            (k, v),
        ));
    }
}

/// `obj_remove` drops the pair at the first position holding key `k`.
pub proof fn lemma_obj_remove_at(pairs: Seq<(Seq<char>, Json)>, k: Seq<char>, m: int)
    requires
        0 <= m < pairs.len(),
        pairs[m].0 == k,
        forall|p: int| 0 <= p < m ==> (#[trigger] pairs[p]).0 != k,
    ensures
        obj_remove(pairs, k) == pairs.remove(m),
    decreases m,
{
    if m == 0 {
        assert(pairs.drop_first() =~= pairs.remove(0));
    } else {
        lemma_obj_remove_at(pairs.drop_first(), k, m - 1);
        assert(pairs.drop_first()[m - 1] == pairs[m]);
        assert(forall|p: int|
            0 <= p < m - 1 ==> #[trigger] pairs.drop_first()[p] == pairs[p + 1]);
        assert(seq![pairs[0]] + pairs.drop_first().remove(m - 1) =~= pairs.remove(m));
    }
}

/// `obj_upsert` of an absent key inserts the new pair at the first position
/// whose key does not precede it.
pub proof fn lemma_obj_upsert_at(pairs: Seq<(Seq<char>, Json)>, k: Seq<char>, v: Json, m: int)
    requires
        0 <= m <= pairs.len(),
        forall|p: int| 0 <= p < m ==> lex_lt((#[trigger] pairs[p]).0, k),
        m < pairs.len() ==> !lex_lt(pairs[m].0, k) && pairs[m].0 != k,
    ensures
        obj_upsert(pairs, k, v) == pairs.insert(m, (k, v)),
    decreases m,
{
    if m == 0 {
        if pairs.len() == 0 {
            assert(seq![(k, v)] =~= pairs.insert(0, (k, v)));
        } else {
            lemma_lex_lt_total(k, pairs[0].0);
            assert(lex_lt(k, pairs[0].0));
            assert(seq![(k, v)] + pairs =~= pairs.insert(0, (k, v)));
        }
    } else {
        assert(lex_lt(pairs[0].0, k));
        lemma_lex_lt_asym(pairs[0].0, k);
        lemma_obj_upsert_at(pairs.drop_first(), k, v, m - 1);
        assert(forall|p: int|
            0 <= p < pairs.drop_first().len() ==> #[trigger] pairs.drop_first()[p] == pairs[p
                + 1]);
        assert(seq![pairs[0]] + pairs.drop_first().insert(m - 1, (k, v)) =~= pairs.insert(
            m,
            (k, v),
        ));
    }
}

/// `obj_upsert` of a key already present replaces its value in place.
pub proof fn lemma_obj_upsert_found(pairs: Seq<(Seq<char>, Json)>, k: Seq<char>, v: Json, m: int)
    requires
        0 <= m < pairs.len(),
        pairs[m].0 == k,
        forall|p: int| 0 <= p < m ==> lex_lt((#[trigger] pairs[p]).0, k),
    ensures
        obj_upsert(pairs, k, v) == pairs.update(m, (k, v)),
    decreases m,
{
    if m == 0 {
    } else {
        assert(lex_lt(pairs[0].0, k));
        lemma_lex_lt_asym(pairs[0].0, k);
        lemma_obj_upsert_found(pairs.drop_first(), k, v, m - 1);
        assert(forall|p: int|
            0 <= p < pairs.drop_first().len() ==> #[trigger] pairs.drop_first()[p] == pairs[p
                + 1]);
        assert(seq![pairs[0]] + pairs.drop_first().update(m - 1, (k, v)) =~= pairs.update(
            m,
            (k, v),
        ));
    }
}

/// What a lookup sees after `obj_upsert`.
pub proof fn lemma_obj_get_upsert(
    pairs: Seq<(Seq<char>, Json)>,
    k: Seq<char>,
    v: Json,
    k2: Seq<char>,
)
    ensures
        obj_get(obj_upsert(pairs, k, v), k2) == if k2 == k {
            Some(v)
        } else {
            obj_get(pairs, k2)
        },
    decreases pairs.len(),
{
    if pairs.len() == 0 {
        let u = seq![(k, v)];
        assert(u[0] == (k, v));
        assert(u.drop_first() =~= pairs);
    } else if pairs[0].0 == k {
        let u = pairs.update(0, (k, v));
        assert(u[0] == (k, v));
        assert(u.drop_first() =~= pairs.drop_first());
        if k2 != k {
            assert(obj_get(u, k2) == obj_get(pairs.drop_first(), k2));
        }
    } else if lex_lt(k, pairs[0].0) {
        let u = seq![(k, v)] + pairs;
        assert(u[0] == (k, v));
        assert(u.drop_first() =~= pairs);
    } else {
        let rest = obj_upsert(pairs.drop_first(), k, v);
        let u = seq![pairs[0]] + rest;
        assert(u[0] == pairs[0]);
        assert(u.drop_first() =~= rest);
        lemma_lex_lt_total(k, pairs[0].0);
        assert(lex_lt(pairs[0].0, k));
        lemma_obj_get_upsert(pairs.drop_first(), k, v, k2);
        if k2 == k {
            lemma_lex_lt_asym(pairs[0].0, k);
        }
    }
}

/// `obj_upsert` keeps the keys strictly sorted.
pub proof fn lemma_obj_upsert_sorted(pairs: Seq<(Seq<char>, Json)>, k: Seq<char>, v: Json)
    requires
        keys_sorted(pairs),
    ensures
        keys_sorted(obj_upsert(pairs, k, v)),
    decreases pairs.len(),
{
    if pairs.len() == 0 {
    } else if pairs[0].0 == k {
        let u = pairs.update(0, (k, v));
        assert forall|i: int, j: int| 0 <= i < j < u.len() implies lex_lt(u[i].0, u[j].0) by {
            assert(lex_lt(pairs[i].0, pairs[j].0));
        }
    } else if lex_lt(k, pairs[0].0) {
        let u = seq![(k, v)] + pairs;
        assert forall|i: int, j: int| 0 <= i < j < u.len() implies lex_lt(u[i].0, u[j].0) by {
            if i == 0 {
                if j == 1 {
                    assert(u[j] == pairs[0]);
                } else {
                    assert(u[j] == pairs[j - 1]);
                    assert(lex_lt(pairs[0].0, pairs[j - 1].0));
                    lemma_lex_lt_trans(k, pairs[0].0, pairs[j - 1].0);
                }
            } else {
                assert(u[i] == pairs[i - 1]);
                assert(u[j] == pairs[j - 1]);
                assert(lex_lt(pairs[i - 1].0, pairs[j - 1].0));
            }
        }
    } else {
        assert(forall|i: int, j: int|
            0 <= i < j < pairs.drop_first().len() ==> lex_lt(
                (#[trigger] pairs.drop_first()[i]).0,
                (#[trigger] pairs.drop_first()[j]).0,
            )) by {
            assert(forall|i: int|
                0 <= i < pairs.drop_first().len() ==> #[trigger] pairs.drop_first()[i] == pairs[i
                    + 1]);
        }
        lemma_obj_upsert_sorted(pairs.drop_first(), k, v);
        lemma_lex_lt_total(k, pairs[0].0);
        assert(lex_lt(pairs[0].0, k));
        let rest = obj_upsert(pairs.drop_first(), k, v);
        let u = seq![pairs[0]] + rest;
        // every key of the rest is above the head key
        assert forall|j: int| 0 <= j < rest.len() implies lex_lt(pairs[0].0, rest[j].0) by {
            lemma_obj_upsert_keys(pairs.drop_first(), k, v, j);
            if rest[j].0 == k {
            } else {
                let m = choose|m: int|
                    0 <= m < pairs.drop_first().len() && (#[trigger] pairs.drop_first()[m]).0
                        == rest[j].0;
                assert(pairs.drop_first()[m] == pairs[m + 1]);
                assert(lex_lt(pairs[0].0, pairs[m + 1].0));
            }
        }
        assert forall|i: int, j: int| 0 <= i < j < u.len() implies lex_lt(u[i].0, u[j].0) by {
            if i == 0 {
                assert(u[j] == rest[j - 1]);
            } else {
                assert(u[i] == rest[i - 1]);
                assert(u[j] == rest[j - 1]);
            }
        }
    }
}

/// Every key after an upsert is the new key or one of the old keys.
pub proof fn lemma_obj_upsert_keys(pairs: Seq<(Seq<char>, Json)>, k: Seq<char>, v: Json, j: int)
    requires
        0 <= j < obj_upsert(pairs, k, v).len(),
    ensures
        obj_upsert(pairs, k, v)[j].0 == k || exists|m: int|
            0 <= m < pairs.len() && (#[trigger] pairs[m]).0 == obj_upsert(pairs, k, v)[j].0,
    decreases pairs.len(),
{
    if pairs.len() == 0 {
    } else if pairs[0].0 == k {
        let u = pairs.update(0, (k, v));
        if j != 0 {
            assert(u[j] == pairs[j]);
        }
    } else if lex_lt(k, pairs[0].0) {
        let u = seq![(k, v)] + pairs;
        if j != 0 {
            assert(u[j] == pairs[j - 1]);
        }
    } else {
        let rest = obj_upsert(pairs.drop_first(), k, v);
        let u = seq![pairs[0]] + rest;
        if j == 0 {
            assert(u[0] == pairs[0]);
        } else {
            assert(u[j] == rest[j - 1]);
            lemma_obj_upsert_keys(pairs.drop_first(), k, v, j - 1);
            if rest[j - 1].0 != k {
                let m = choose|m: int|
                    0 <= m < pairs.drop_first().len() && (#[trigger] pairs.drop_first()[m]).0
                        == rest[j - 1].0;
                assert(pairs.drop_first()[m] == pairs[m + 1]);
                assert(pairs[m + 1].0 == u[j].0);
            }
        }
    }
}

/// `obj_upsert` keeps every value well formed when the new one is.
pub proof fn lemma_obj_upsert_wf(pairs: Seq<(Seq<char>, Json)>, k: Seq<char>, v: Json)
    requires
        pairs_wf(pairs),
        v.wf(),
    ensures
        pairs_wf(obj_upsert(pairs, k, v)),
    decreases pairs.len(),
{
    if pairs.len() == 0 {
        let u = seq![(k, v)];
        assert(u[0] == (k, v));
        assert(u.drop_first() =~= pairs);
        assert(pairs_wf(u.drop_first()));
    } else if pairs[0].0 == k {
        let u = pairs.update(0, (k, v));
        assert(u[0] == (k, v));
        assert(u.drop_first() =~= pairs.drop_first());
    } else if lex_lt(k, pairs[0].0) {
        let u = seq![(k, v)] + pairs;
        assert(u[0] == (k, v));
        assert(u.drop_first() =~= pairs);
    } else {
        lemma_obj_upsert_wf(pairs.drop_first(), k, v);
        let rest = obj_upsert(pairs.drop_first(), k, v);
        let u = seq![pairs[0]] + rest;
        assert(u[0] == pairs[0]);
        assert(u.drop_first() =~= rest);
    }
}

/// Executable JSON-like tree.  Numbers are carried as their literal text.
#[derive(Debug)]
pub enum JsonValue {
    Null,
    Bool(bool),
    Num(String),
    Str(String),
    Array(Vec<JsonValue>),
    Object(Vec<(String, JsonValue)>),
}

/// The models of the elements of an array.
pub open spec fn view_elems(items: Seq<JsonValue>) -> Seq<Json>
    decreases items,
{
    Seq::new(
        items.len(),
        |i: int|
            if 0 <= i < items.len() {
                items[i]@
            } else {
                Json::Null
            },
    )
}

/// The models of the key/value pairs of an object.
pub open spec fn view_pairs(pairs: Seq<(String, JsonValue)>) -> Seq<(Seq<char>, Json)>
    decreases pairs,
{
    Seq::new(
        pairs.len(),
        |i: int|
            if 0 <= i < pairs.len() {
                (pairs[i].0@, pairs[i].1@)
            } else {
                (Seq::empty(), Json::Null)
            },
    )
}

impl View for JsonValue {
    type V = Json;

    open spec fn view(&self) -> Json
        decreases self,
    {
        match self {
            JsonValue::Null => Json::Null,
            JsonValue::Bool(b) => Json::Bool(*b),
            JsonValue::Num(s) => Json::Num(s@),
            JsonValue::Str(s) => Json::Str(s@),
            JsonValue::Array(items) => Json::Arr(view_elems(items@)),
            JsonValue::Object(pairs) => Json::Obj(view_pairs(pairs@)),
        }
    }
}

proof fn lemma_lex_lt_skip(a: Seq<char>, b: Seq<char>, i: int)
    requires
        0 <= i <= a.len(),
        i <= b.len(),
        forall|j: int| 0 <= j < i ==> a[j] == b[j],
    ensures
        lex_lt(a, b) == lex_lt(a.skip(i), b.skip(i)),
    decreases i,
{
    if i > 0 {
        lemma_lex_lt_skip(a.drop_first(), b.drop_first(), i - 1);
        assert(a.drop_first().skip(i - 1) =~= a.skip(i));
        assert(b.drop_first().skip(i - 1) =~= b.skip(i));
    } else {
        assert(a.skip(0) =~= a);
        assert(b.skip(0) =~= b);
    }
}

/// `lex_lt` is irreflexive and asymmetric.
pub proof fn lemma_lex_lt_asym(a: Seq<char>, b: Seq<char>)
    ensures
        lex_lt(a, b) ==> !lex_lt(b, a),
        lex_lt(a, b) ==> a != b,
    decreases a.len(),
{
    if a.len() > 0 && b.len() > 0 && a[0] == b[0] {
        lemma_lex_lt_asym(a.drop_first(), b.drop_first());
        if lex_lt(a, b) && a.drop_first() == b.drop_first() {
            assert forall|k: int| 0 <= k < a.len() implies a[k] == b[k] by {
                if k >= 1 {
                    assert(a[k] == a.drop_first()[k - 1]);
                    assert(b[k] == b.drop_first()[k - 1]);
                }
            }
            assert(a =~= b);
        }
    }
}

/// Any two character sequences are equal or ordered one way by `lex_lt`.
pub proof fn lemma_lex_lt_total(a: Seq<char>, b: Seq<char>)
    ensures
        a == b || lex_lt(a, b) || lex_lt(b, a),
    decreases a.len(),
{
    if a.len() == 0 && b.len() == 0 {
        assert(a =~= b);
    } else if a.len() > 0 && b.len() > 0 && a[0] != b[0] {
        if (a[0] as u32) == (b[0] as u32) {
            vstd::utf8::char_u32_cast(a[0], a[0] as u32);
            vstd::utf8::char_u32_cast(b[0], b[0] as u32);
            assert(a[0] == b[0]);
        }
    } else if a.len() > 0 && b.len() > 0 && a[0] == b[0] {
        lemma_lex_lt_total(a.drop_first(), b.drop_first());
        if a.drop_first() == b.drop_first() {
            assert(a.drop_first().len() == a.len() - 1);
            assert(b.drop_first().len() == b.len() - 1);
            assert forall|k: int| 0 <= k < a.len() implies a[k] == b[k] by {
                if k >= 1 {
                    assert(a[k] == a.drop_first()[k - 1]);
                    assert(b[k] == b.drop_first()[k - 1]);
                }
            }
            assert(a =~= b);
        }
    }
}

/// `lex_lt` is transitive.
pub proof fn lemma_lex_lt_trans(a: Seq<char>, b: Seq<char>, c: Seq<char>)
    requires
        lex_lt(a, b),
        lex_lt(b, c),
    ensures
        lex_lt(a, c),
    decreases a.len(),
{
    if a.len() > 0 && b.len() > 0 && c.len() > 0 && a[0] == b[0] && b[0] == c[0] {
        lemma_lex_lt_trans(a.drop_first(), b.drop_first(), c.drop_first());
    }
}

/// Decides `lex_lt` on two string slices.
pub fn str_lt(a: &str, b: &str) -> (r: bool)
    ensures
        r == lex_lt(a@, b@),
{
    let alen = a.unicode_len();
    let blen = b.unicode_len();
    let mut i: usize = 0;
    loop
        invariant
            0 <= i <= alen,
            i <= blen,
            alen == a@.len(),
            blen == b@.len(),
            forall|j: int| 0 <= j < i ==> a@[j] == b@[j],
        decreases alen - i,
    {
        proof {
            lemma_lex_lt_skip(a@, b@, i as int);
        }
        if i >= blen {
            return false;
        }
        if i >= alen {
            return true;
        }
        let ca = a.get_char(i);
        let cb = b.get_char(i);
        if ca as u32 != cb as u32 {
            return (ca as u32) < (cb as u32);
        }
        i = i + 1;
    }
}

/// Decides equality of two string slices at the level of their models.
pub fn str_eq(a: &str, b: &str) -> (r: bool)
    ensures
        r == (a@ == b@),
{
    let alen = a.unicode_len();
    let blen = b.unicode_len();
    if alen != blen {
        return false;
    }
    let mut i: usize = 0;
    while i < alen
        invariant
            0 <= i <= alen,
            alen == a@.len(),
            alen == b@.len(),
            forall|j: int| 0 <= j < i ==> a@[j] == b@[j],
        decreases alen - i,
    {
        if a.get_char(i) as u32 != b.get_char(i) as u32 {
            return false;
        }
        proof {
            vstd::utf8::char_u32_cast(a@[i as int], a@[i as int] as u32);
            vstd::utf8::char_u32_cast(b@[i as int], b@[i as int] as u32);
        }
        i = i + 1;
    }
    proof {
        assert(a@ =~= b@);
    }
    true
}

/// Decides structural equality of two trees, at the level of their models.
pub fn json_eq(a: &JsonValue, b: &JsonValue) -> (r: bool)
    ensures
        r == (a@ == b@),
    decreases a,
{
    match a {
        JsonValue::Null => match b {
            JsonValue::Null => {
                proof {
                    assert(a@ == Json::Null);
                    assert(b@ == Json::Null);
                    assert(a@ == b@);
                }
                true
            },
            _ => {
                proof {
                    assert(a@ is Null);
                    assert(!(b@ is Null));
                    assert(a@ != b@);
                }
                false
            },
        },
        JsonValue::Bool(x) => match b {
            JsonValue::Bool(y) => {
                let r = *x == *y;
                proof {
                    assert(a@ == Json::Bool(*x));
                    assert(b@ == Json::Bool(*y));
                    assert(r == (a@ == b@));
                }
                r
            },
            _ => {
                proof {
                    assert(a@ is Bool);
                    assert(!(b@ is Bool));
                    assert(a@ != b@);
                }
                false
            },
        },
        JsonValue::Num(x) => match b {
            JsonValue::Num(y) => {
                let r = *x == *y;
                proof {
                    assert(a@ == Json::Num(x@));
                    assert(b@ == Json::Num(y@));
                    assert(r == (a@ == b@));
                }
                r
            },
            _ => {
                proof {
                    assert(a@ is Num);
                    assert(!(b@ is Num));
                    assert(a@ != b@);
                }
                false
            },
        },
        JsonValue::Str(x) => match b {
            JsonValue::Str(y) => {
                let r = *x == *y;
                proof {
                    assert(a@ == Json::Str(x@));
                    assert(b@ == Json::Str(y@));
                    assert(r == (a@ == b@));
                }
                r
            },
            _ => {
                proof {
                    assert(a@ is Str);
                    assert(!(b@ is Str));
                    assert(a@ != b@);
                }
                false
            },
        },
        JsonValue::Array(x) => match b {
            JsonValue::Array(y) => {
                if x.len() != y.len() {
                    proof {
                        assert(a@ == Json::Arr(view_elems(x@)));
                        assert(b@ == Json::Arr(view_elems(y@)));
                        assert(view_elems(x@).len() == x@.len());
                        assert(view_elems(y@).len() == y@.len());
                    }
                    return false;
                }
                let n = x.len();
                let mut i: usize = 0;
                while i < n
                    invariant
                        0 <= i <= n,
                        n == x@.len(),
                        n == y@.len(),
                        *a == JsonValue::Array(*x),
                        *b == JsonValue::Array(*y),
                        a@ == Json::Arr(view_elems(x@)),
                        b@ == Json::Arr(view_elems(y@)),
                        forall|j: int| 0 <= j < i ==> x@[j]@ == y@[j]@,
                    decreases n - i,
                {
                    proof {
                        assert(decreases_to!(*a => *x));
                        assert(decreases_to!(x@ => x@[i as int]));
                        assert(decreases_to!(*a => x@[i as int]));
                    }
                    if !json_eq(&x[i], &y[i]) {
                        proof {
                            assert(view_elems(x@)[i as int] == x@[i as int]@);
                            assert(view_elems(y@)[i as int] == y@[i as int]@);
                        }
                        return false;
                    }
                    i = i + 1;
                }
                proof {
                    assert(view_elems(x@) =~= view_elems(y@));
                    assert(a@ == b@);
                }
                true
            },
            _ => {
                proof {
                    assert(a@ is Arr);
                    assert(!(b@ is Arr));
                    assert(a@ != b@);
                }
                false
            },
        },
        JsonValue::Object(x) => match b {
            JsonValue::Object(y) => {
                if x.len() != y.len() {
                    proof {
                        assert(a@ == Json::Obj(view_pairs(x@)));
                        assert(b@ == Json::Obj(view_pairs(y@)));
                        assert(view_pairs(x@).len() == x@.len());
                        assert(view_pairs(y@).len() == y@.len());
                    }
                    return false;
                }
                let n = x.len();
                let mut i: usize = 0;
                while i < n
                    invariant
                        0 <= i <= n,
                        n == x@.len(),
                        n == y@.len(),
                        *a == JsonValue::Object(*x),
                        *b == JsonValue::Object(*y),
                        a@ == Json::Obj(view_pairs(x@)),
                        b@ == Json::Obj(view_pairs(y@)),
                        forall|j: int| 0 <= j < i ==> x@[j].0@ == y@[j].0@ && x@[j].1@ == y@[j].1@,
                    decreases n - i,
                {
                    if x[i].0 != y[i].0 {
                        proof {
                            assert(view_pairs(x@)[i as int] == (x@[i as int].0@, x@[i as int].1@));
                            assert(view_pairs(y@)[i as int] == (y@[i as int].0@, y@[i as int].1@));
                        }
                        return false;
                    }
                    proof {
                        assert(decreases_to!(*a => *x));
                        assert(decreases_to!(x@ => x@[i as int]));
                        assert(decreases_to!(x@[i as int] => x@[i as int].1));
                        assert(decreases_to!(*a => x@[i as int].1));
                    }
                    if !json_eq(&x[i].1, &y[i].1) {
                        proof {
                            assert(view_pairs(x@)[i as int] == (x@[i as int].0@, x@[i as int].1@));
                            assert(view_pairs(y@)[i as int] == (y@[i as int].0@, y@[i as int].1@));
                        }
                        return false;
                    }
                    i = i + 1;
                }
                proof {
                    assert(view_pairs(x@) =~= view_pairs(y@));
                    assert(a@ == b@);
                }
                true
            },
            _ => {
                proof {
                    assert(a@ is Obj);
                    assert(!(b@ is Obj));
                    assert(a@ != b@);
                }
                false
            },
        },
    }
}

/// Clones a tree; unlike a derived clone, its contract keeps the model.
pub fn json_clone(v: &JsonValue) -> (r: JsonValue)
    ensures
        r@ == v@,
    decreases v,
{
    match v {
        JsonValue::Null => JsonValue::Null,
        JsonValue::Bool(b) => JsonValue::Bool(*b),
        JsonValue::Num(s) => JsonValue::Num(s.clone()),
        JsonValue::Str(s) => JsonValue::Str(s.clone()),
        JsonValue::Array(items) => {
            let n = items.len();
            let mut out: Vec<JsonValue> = Vec::new();
            let mut i: usize = 0;
            while i < n
                invariant
                    0 <= i <= n,
                    n == items@.len(),
                    *v == JsonValue::Array(*items),
                    v@ == Json::Arr(view_elems(items@)),
                    out@.len() == i,
                    forall|j: int| 0 <= j < i ==> out@[j]@ == items@[j]@,
                decreases n - i,
            {
                proof {
                    assert(*v == JsonValue::Array(*items));
                    assert(decreases_to!(*v => *items));
                    assert(decreases_to!(*items => items@));
                    assert(decreases_to!(items@ => items@[i as int]));
                    assert(decreases_to!(*v => items@[i as int]));
                }
                out.push(json_clone(&items[i]));
                i = i + 1;
            }
            let r = JsonValue::Array(out);
            proof {
                assert(view_elems(out@) =~= view_elems(items@));
            }
            r
        },
        JsonValue::Object(pairs) => {
            let n = pairs.len();
            let mut out: Vec<(String, JsonValue)> = Vec::new();
            let mut i: usize = 0;
            while i < n
                invariant
                    0 <= i <= n,
                    n == pairs@.len(),
                    *v == JsonValue::Object(*pairs),
                    v@ == Json::Obj(view_pairs(pairs@)),
                    out@.len() == i,
                    forall|j: int| 0 <= j < i ==> out@[j].0@ == pairs@[j].0@
                        && out@[j].1@ == pairs@[j].1@,
                decreases n - i,
            {
                proof {
                    assert(*v == JsonValue::Object(*pairs));
                    assert(decreases_to!(*v => *pairs));
                    assert(decreases_to!(*pairs => pairs@));
                    assert(decreases_to!(pairs@ => pairs@[i as int]));
                    assert(decreases_to!(pairs@[i as int] => pairs@[i as int].1));
                    assert(decreases_to!(*v => pairs@[i as int].1));
                }
                let entry = (pairs[i].0.clone(), json_clone(&pairs[i].1));
                out.push(entry);
                i = i + 1;
            }
            let r = JsonValue::Object(out);
            proof {
                assert(view_pairs(out@) =~= view_pairs(pairs@));
            }
            r
        },
    }
}

} // verus!
