//! A small string-keyed association list: lookups find the first match,
//! and setting a key replaces its first entry or appends a new one.

use vstd::prelude::*;
use crate::json::str_eq;

verus! {

/// The value under a key, scanning entries from the front; the first
/// match wins.
pub open spec fn assoc_get<V>(entries: Seq<(String, V)>, k: Seq<char>) -> Option<V>
    decreases entries.len(),
{
    if entries.len() == 0 {
        None
    } else if entries[0].0@ == k {
        Some(entries[0].1)
    } else {
        assoc_get(entries.drop_first(), k)
    }
}

/// Looks a key up in an entry list; the first match wins.
pub fn assoc_lookup<'a, V>(entries: &'a Vec<(String, V)>, k: &str) -> (r: Option<&'a V>)
    ensures
        match r {
            Some(v) => assoc_get(entries@, k@) == Some(*v),
            None => assoc_get(entries@, k@) is None,
        },
{
    let n = entries.len();
    let mut i: usize = 0;
    proof {
        assert(entries@.skip(0) =~= entries@);
    }
    while i < n
        invariant
            0 <= i <= n,
            n == entries@.len(),
            assoc_get(entries@, k@) == assoc_get(entries@.skip(i as int), k@),
        decreases n - i,
    {
        proof {
            assert(entries@.skip(i as int)[0] == entries@[i as int]);
            assert(entries@.skip(i as int).drop_first() =~= entries@.skip(i as int + 1));
        }
        if str_eq(entries[i].0.as_str(), k) {
            return Some(&entries[i].1);
        }
        i = i + 1;
    }
    proof {
        assert(entries@.skip(n as int) =~= Seq::<(String, V)>::empty());
    }
    None
}

/// Sets a key's value in an entry list: the first entry with that key is
/// replaced, or a new entry is appended.
pub fn assoc_set<V>(entries: &mut Vec<(String, V)>, key: String, value: V)
    ensures
        assoc_get(final(entries)@, key@) == Some(value),
        forall|k: Seq<char>|
            k != key@ ==> #[trigger] assoc_get(final(entries)@, k) == assoc_get(
                old(entries)@,
                k,
            ),
{
    let n = entries.len();
    let mut i: usize = 0;
    while i < n && !str_eq(entries[i].0.as_str(), key.as_str())
        invariant
            0 <= i <= n,
            n == entries@.len(),
            *entries == *old(entries),
            forall|p: int| 0 <= p < i ==> (#[trigger] entries@[p]).0@ != key@,
        decreases n - i,
    {
        i = i + 1;
    }
    if i < n {
        let ghost before = entries@;
        let pair = entries.remove(i);
        entries.insert(i, (key, value));
        proof {
            assert(entries@ =~= before.update(i as int, entries@[i as int]));
            assert(forall|p: int|
                0 <= p < before.len() && p != i ==> #[trigger] entries@[p] == before[p]);
            lemma_assoc_get_update(before, entries@, i as int);
        }
    } else {
        let ghost before = entries@;
        entries.push((key, value));
        proof {
            lemma_assoc_get_push(before, entries@);
        }
    }
}

/// Removes every entry carrying a key; for other keys the first entry
/// wins, as in the lookup.
pub fn assoc_remove<V>(entries: &mut Vec<(String, V)>, key: &str)
    ensures
        assoc_get(final(entries)@, key@) is None,
        forall|k: Seq<char>|
            k != key@ ==> #[trigger] assoc_get(final(entries)@, k) == assoc_get(
                old(entries)@,
                k,
            ),
{
    let ghost orig = entries@;
    let n = entries.len();
    let mut kept: Vec<(String, V)> = Vec::new();
    let mut i: usize = 0;
    proof {
        assert(entries@.skip(0) =~= entries@);
        lemma_assoc_empty::<V>(key@);
        assert(orig.take(0) =~= Seq::<(String, V)>::empty());
    }
    while entries.len() > 0
        invariant
            i + entries@.len() == n,
            n == orig.len(),
            entries@ == orig.skip(i as int),
            0 <= i <= n,
            assoc_get(kept@, key@) is None,
            forall|k: Seq<char>|
                k != key@ ==> #[trigger] assoc_get(kept@, k) == (if assoc_get(
                    orig.take(i as int),
                    k,
                ) is Some {
                    assoc_get(orig.take(i as int), k)
                } else {
                    None
                }),
        decreases entries@.len(),
    {
        let ghost before = kept@;
        proof {
            assert(orig.skip(i as int)[0] == orig[i as int]);
            assert(orig.skip(i as int).drop_first() =~= orig.skip(i as int + 1));
        }
        let pair = entries.remove(0);
        if !str_eq(pair.0.as_str(), key) {
            let keep_it = match assoc_lookup(&kept, pair.0.as_str()) {
                Some(_) => false,
                None => true,
            };
            if keep_it {
                kept.push(pair);
                proof {
                    assert forall|p: int|
                        0 <= p < before.len() implies (#[trigger] before[p]).0@
                        != kept@.last().0@ by {
                        lemma_assoc_contains(before, p);
                    }
                    lemma_assoc_get_push(before, kept@);
                }
            }
        }
        proof {
            lemma_assoc_take_step(orig, before, kept@, i as int, key@);
        }
        i = i + 1;
    }
    proof {
        assert(orig.take(n as int) =~= orig);
    }
    *entries = kept;
}

/// One filtering step keeps the lookup relation.
proof fn lemma_assoc_take_step<V>(
    orig: Seq<(String, V)>,
    before: Seq<(String, V)>,
    after: Seq<(String, V)>,
    i: int,
    key: Seq<char>,
)
    requires
        0 <= i < orig.len(),
        forall|k: Seq<char>|
            k != key ==> #[trigger] assoc_get(before, k) == (if assoc_get(
                orig.take(i),
                k,
            ) is Some {
                assoc_get(orig.take(i), k)
            } else {
                None
            }),
        assoc_get(before, key) is None,
        orig[i].0@ == key ==> after == before,
        orig[i].0@ != key && assoc_get(before, orig[i].0@) is Some ==> after == before,
        orig[i].0@ != key && assoc_get(before, orig[i].0@) is None ==> (after.len() == before.len()
            + 1 && (forall|p: int| 0 <= p < before.len() ==> #[trigger] after[p] == before[p])
            && after.last().0@ == orig[i].0@ && after.last().1 == orig[i].1),
    ensures
        assoc_get(after, key) is None,
        forall|k: Seq<char>|
            k != key ==> #[trigger] assoc_get(after, k) == (if assoc_get(
                orig.take(i + 1),
                k,
            ) is Some {
                assoc_get(orig.take(i + 1), k)
            } else {
                None
            }),
{
    lemma_assoc_get_take_step(orig, i);
    if orig[i].0@ == key || assoc_get(before, orig[i].0@) is Some {
        assert forall|k: Seq<char>|
            k != key implies #[trigger] assoc_get(after, k) == (if assoc_get(
                orig.take(i + 1),
                k,
            ) is Some {
                assoc_get(orig.take(i + 1), k)
            } else {
                None
            }) by {
            if k == orig[i].0@ && orig[i].0@ != key {
                assert(assoc_get(orig.take(i), k) is Some);
            }
        }
    } else {
        assert(forall|p: int|
            0 <= p < before.len() ==> (#[trigger] before[p]).0@ != after.last().0@) by {
            if exists|p: int| 0 <= p < before.len() && (#[trigger] before[p]).0@ == orig[i].0@ {
                let p = choose|p: int|
                    0 <= p < before.len() && (#[trigger] before[p]).0@ == orig[i].0@;
                lemma_assoc_contains(before, p);
            }
        }
        lemma_assoc_get_push(before, after);
    }
}

/// Looking a key up in the first `i + 1` entries sees entry `i` only when
/// no earlier entry carries the key.
proof fn lemma_assoc_get_take_step<V>(orig: Seq<(String, V)>, i: int)
    requires
        0 <= i < orig.len(),
    ensures
        forall|k: Seq<char>|
            #[trigger] assoc_get(orig.take(i + 1), k) == (if assoc_get(orig.take(i), k) is Some {
                assoc_get(orig.take(i), k)
            } else if k == orig[i].0@ {
                Some(orig[i].1)
            } else {
                None
            }),
{
    assert forall|k: Seq<char>|
        #[trigger] assoc_get(orig.take(i + 1), k) == (if assoc_get(orig.take(i), k) is Some {
            assoc_get(orig.take(i), k)
        } else if k == orig[i].0@ {
            Some(orig[i].1)
        } else {
            None
        }) by {
        lemma_assoc_get_concat_one(orig, i, k);
    }
}

/// The single-key version of the previous fact.
proof fn lemma_assoc_get_concat_one<V>(orig: Seq<(String, V)>, i: int, k: Seq<char>)
    requires
        0 <= i < orig.len(),
    ensures
        assoc_get(orig.take(i + 1), k) == (if assoc_get(orig.take(i), k) is Some {
            assoc_get(orig.take(i), k)
        } else if k == orig[i].0@ {
            Some(orig[i].1)
        } else {
            None
        }),
    decreases i,
{
    if i == 0 {
        assert(orig.take(0) =~= Seq::<(String, V)>::empty());
        assert(orig.take(1)[0] == orig[0]);
        assert(orig.take(1).drop_first() =~= Seq::<(String, V)>::empty());
    } else {
        assert(orig.take(i + 1)[0] == orig[0]);
        assert(orig.take(i)[0] == orig[0]);
        assert(orig.take(i + 1).drop_first() =~= orig.drop_first().take(i));
        assert(orig.take(i).drop_first() =~= orig.drop_first().take(i - 1));
        assert(orig.drop_first()[i - 1] == orig[i]);
        lemma_assoc_get_concat_one(orig.drop_first(), i - 1, k);
    }
}

/// Looking anything up in an empty list finds nothing.
proof fn lemma_assoc_empty<V>(k: Seq<char>)
    ensures
        assoc_get(Seq::<(String, V)>::empty(), k) is None,
{
}

/// A key that some entry carries is found by the lookup.
pub proof fn lemma_assoc_contains<V>(entries: Seq<(String, V)>, p: int)
    requires
        0 <= p < entries.len(),
    ensures
        assoc_get(entries, entries[p].0@) is Some,
    decreases p,
{
    if entries[0].0@ == entries[p].0@ {
    } else {
        assert(p > 0);
        assert(entries.drop_first()[p - 1] == entries[p]);
        lemma_assoc_contains(entries.drop_first(), p - 1);
    }
}

/// After replacing the first entry carrying a key, lookups see the new
/// value there and are unchanged elsewhere.
proof fn lemma_assoc_get_update<V>(before: Seq<(String, V)>, after: Seq<(String, V)>, i: int)
    requires
        0 <= i < before.len(),
        after.len() == before.len(),
        forall|p: int| 0 <= p < before.len() && p != i ==> #[trigger] after[p] == before[p],
        forall|p: int| 0 <= p < i ==> (#[trigger] before[p]).0@ != after[i].0@,
        before[i].0@ == after[i].0@,
    ensures
        assoc_get(after, after[i].0@) == Some(after[i].1),
        forall|k: Seq<char>|
            k != after[i].0@ ==> #[trigger] assoc_get(after, k) == assoc_get(before, k),
    decreases i,
{
    if i == 0 {
        assert(after[0].0@ == before[0].0@);
        assert forall|k: Seq<char>| k != after[0].0@ implies #[trigger] assoc_get(after, k)
            == assoc_get(before, k) by {
            assert(after.drop_first() =~= before.drop_first());
        }
    } else {
        assert(after[0] == before[0]);
        assert(after.drop_first()[i - 1] == after[i]);
        assert(forall|p: int|
            0 <= p < before.drop_first().len() && p != i - 1 ==> #[trigger] after.drop_first()[p]
                == before.drop_first()[p]);
        assert forall|p: int|
            0 <= p < i - 1 implies (#[trigger] before.drop_first()[p]).0@
            != after.drop_first()[i - 1].0@ by {
            assert(before.drop_first()[p] == before[p + 1]);
        }
        lemma_assoc_get_update(before.drop_first(), after.drop_first(), i - 1);
        assert(before[0].0@ != after[i].0@);
        assert(assoc_get(after, after[i].0@) == assoc_get(after.drop_first(), after[i].0@));
        assert forall|k: Seq<char>| k != after[i].0@ implies #[trigger] assoc_get(after, k)
            == assoc_get(before, k) by {
            if k == after[0].0@ {
                assert(assoc_get(after, k) == Some(after[0].1));
                assert(assoc_get(before, k) == Some(before[0].1));
            } else {
                assert(assoc_get(after, k) == assoc_get(after.drop_first(), k));
                assert(assoc_get(before, k) == assoc_get(before.drop_first(), k));
                assert(assoc_get(after.drop_first(), k) == assoc_get(before.drop_first(), k));
            }
        }
    }
}

/// After appending an entry whose key no earlier entry carries, lookups
/// see the new value under it and are unchanged elsewhere.
pub proof fn lemma_assoc_get_push<V>(before: Seq<(String, V)>, after: Seq<(String, V)>)
    requires
        after.len() == before.len() + 1,
        forall|p: int| 0 <= p < before.len() ==> #[trigger] after[p] == before[p],
        forall|p: int| 0 <= p < before.len() ==> (#[trigger] before[p]).0@ != after.last().0@,
    ensures
        assoc_get(after, after.last().0@) == Some(after.last().1),
        forall|k: Seq<char>|
            k != after.last().0@ ==> #[trigger] assoc_get(after, k) == assoc_get(before, k),
    decreases before.len(),
{
    if before.len() == 0 {
        assert(after[0] == after.last());
        assert forall|k: Seq<char>| k != after.last().0@ implies #[trigger] assoc_get(after, k)
            == assoc_get(before, k) by {
            assert(after.drop_first() =~= before);
            assert(assoc_get(after, k) == assoc_get(after.drop_first(), k));
        }
    } else {
        assert(after[0] == before[0]);
        assert(after.drop_first().last() == after.last());
        assert(forall|p: int|
            0 <= p < before.drop_first().len() ==> #[trigger] after.drop_first()[p] == before[p
                + 1]);
        assert forall|p: int|
            0 <= p < before.drop_first().len() implies (#[trigger] before.drop_first()[p]).0@
            != after.drop_first().last().0@ by {
            assert(before.drop_first()[p] == before[p + 1]);
        }
        lemma_assoc_get_push(before.drop_first(), after.drop_first());
        assert(before[0].0@ != after.last().0@);
        assert(assoc_get(after, after.last().0@) == assoc_get(
            after.drop_first(),
            after.last().0@,
        ));
        assert forall|k: Seq<char>| k != after.last().0@ implies #[trigger] assoc_get(after, k)
            == assoc_get(before, k) by {
            if k == after[0].0@ {
                assert(assoc_get(after, k) == Some(after[0].1));
                assert(assoc_get(before, k) == Some(before[0].1));
            } else {
                assert(assoc_get(after, k) == assoc_get(after.drop_first(), k));
                assert(assoc_get(before, k) == assoc_get(before.drop_first(), k));
                assert(assoc_get(after.drop_first(), k) == assoc_get(before.drop_first(), k));
            }
        }
    }
}

} // verus!
