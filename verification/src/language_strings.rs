//! The shared shape of the language-keyed sub-resources, and the core of
//! a `language -> text` map: one value per language, insertion overwrites.

use vstd::prelude::*;
use crate::error::RestApiError;
use crate::json::{
    Json, JsonValue, json_clone, keys_sorted, obj_get, obj_upsert, pairs_wf, str_eq, view_pairs,
};
use crate::apply::{as_text, get_key, obj_insert_sorted};
use crate::language_string::LanguageString;

verus! {

/// What the language-keyed sub-resources offer: insertion of one
/// language-tagged value and a membership test.
pub trait LanguageStrings {
    /// Inserts one language-tagged value.
    fn insert(&mut self, ls: LanguageString);

    /// True when the given language has an entry.
    fn has_language(&self, language: &str) -> bool;
}

/// The serialized form of a `language -> text` map: an object with the
/// entries under their sorted keys, later entries overwriting earlier
/// ones.
pub open spec fn lang_obj(entries: Seq<(String, String)>) -> Seq<(Seq<char>, Json)>
    decreases entries.len(),
{
    if entries.len() == 0 {
        Seq::empty()
    } else {
        obj_upsert(
            lang_obj(entries.drop_last()),
            entries.last().0@,
            Json::Str(entries.last().1@),
        )
    }
}

/// The text under a language key, scanning entries from the front; the
/// first match wins.
pub open spec fn lang_get(entries: Seq<(String, String)>, k: Seq<char>) -> Option<Seq<char>>
    decreases entries.len(),
{
    if entries.len() == 0 {
        None
    } else if entries[0].0@ == k {
        Some(entries[0].1@)
    } else {
        lang_get(entries.drop_first(), k)
    }
}

/// True when no two entries share a language key.
pub open spec fn lang_keys_unique(m: Seq<(String, String)>) -> bool {
    forall|i: int, j: int|
        0 <= i < j < m.len() ==> (#[trigger] m[i]).0@ != (#[trigger] m[j]).0@
}

/// Looking the last entry's key up finds its text when no earlier entry
/// shares the key.
proof fn lemma_lang_get_last(m: Seq<(String, String)>)
    requires
        m.len() > 0,
        forall|p: int| 0 <= p < m.len() - 1 ==> (#[trigger] m[p]).0@ != m.last().0@,
    ensures
        lang_get(m, m.last().0@) == Some(m.last().1@),
    decreases m.len(),
{
    if m.len() == 1 {
        assert(m[0] == m.last());
    } else if m[0].0@ == m.last().0@ {
        assert(m[0].0@ != m.last().0@);
    } else {
        assert(m.drop_first().last() == m.last());
        assert(forall|p: int|
            0 <= p < m.drop_first().len() - 1 ==> #[trigger] m.drop_first()[p] == m[p + 1]);
        lemma_lang_get_last(m.drop_first());
    }
}

/// Dropping the last entry leaves lookups of other keys unchanged.
proof fn lemma_lang_get_drop_last(m: Seq<(String, String)>, k: Seq<char>)
    requires
        m.len() > 0,
        m.last().0@ != k,
    ensures
        lang_get(m, k) == lang_get(m.drop_last(), k),
    decreases m.len(),
{
    if m.len() == 1 {
        assert(m[0] == m.last());
        assert(m.drop_last() =~= Seq::<(String, String)>::empty());
    } else {
        assert(m.drop_last()[0] == m[0]);
        if m[0].0@ == k {
        } else {
            assert(m.drop_first().last() == m.last());
            assert(m.drop_first().drop_last() =~= m.drop_last().drop_first());
            lemma_lang_get_drop_last(m.drop_first(), k);
        }
    }
}

/// Over unique keys, the serialized object answers lookups exactly as
/// the entry list does.
pub proof fn lemma_lang_obj_get(m: Seq<(String, String)>, k: Seq<char>)
    requires
        lang_keys_unique(m),
    ensures
        obj_get(lang_obj(m), k) == (match lang_get(m, k) {
            Some(t) => Some(Json::Str(t)),
            None => None,
        }),
    decreases m.len(),
{
    if m.len() == 0 {
        assert(obj_get(Seq::<(Seq<char>, Json)>::empty(), k) is None);
    } else {
        crate::json::lemma_obj_get_upsert(
            lang_obj(m.drop_last()),
            m.last().0@,
            Json::Str(m.last().1@),
            k,
        );
        assert(forall|i: int, j: int|
            0 <= i < j < m.drop_last().len() ==> (#[trigger] m.drop_last()[i]).0@ != (
            #[trigger] m.drop_last()[j]).0@);
        lemma_lang_obj_get(m.drop_last(), k);
        if k == m.last().0@ {
            assert(forall|p: int|
                0 <= p < m.len() - 1 ==> (#[trigger] m[p]).0@ != m.last().0@);
            lemma_lang_get_last(m);
        } else {
            lemma_lang_get_drop_last(m, k);
        }
    }
}

/// The round trip of a `language -> text` map with unique keys: an entry
/// list whose lookups agree with the serialized object's members agrees
/// with the starting list on every language.
pub proof fn lemma_lang_map_round_trip(m: Seq<(String, String)>, m2: Seq<(String, String)>)
    requires
        lang_keys_unique(m),
        forall|k: Seq<char>|
            #[trigger] lang_get(m2, k) == (match obj_get(lang_obj(m), k) {
                Some(Json::Str(t)) => Some(t),
                _ => None,
            }),
    ensures
        forall|k: Seq<char>| #[trigger] lang_get(m2, k) == lang_get(m, k),
{
    assert forall|k: Seq<char>| #[trigger] lang_get(m2, k) == lang_get(m, k) by {
        lemma_lang_obj_get(m, k);
    }
}

/// Looks a language up in an entry list; the first match wins.
pub fn lang_lookup<'a>(entries: &'a Vec<(String, String)>, k: &str) -> (r: Option<&'a String>)
    ensures
        match r {
            Some(v) => lang_get(entries@, k@) == Some(v@),
            None => lang_get(entries@, k@) is None,
        },
{
    let n = entries.len();
    let mut i: usize = 0;
    proof {
        assert(entries@.skip(0) =~= entries@);
    }
    while i < n
        invariant
            0 <= i <= n,
            n == entries@.len(),
            lang_get(entries@, k@) == lang_get(entries@.skip(i as int), k@),
        decreases n - i,
    {
        proof {
            assert(entries@.skip(i as int)[0] == entries@[i as int]);
            assert(entries@.skip(i as int).drop_first() =~= entries@.skip(i as int + 1));
        }
        if str_eq(entries[i].0.as_str(), k) {
            return Some(&entries[i].1);
        }
        i = i + 1;
    }
    proof {
        assert(entries@.skip(n as int) =~= Seq::<(String, String)>::empty());
    }
    None
}

/// Sets a language's text in an entry list: the first entry with that
/// key is replaced, or a new entry is appended.
pub fn lang_set(entries: &mut Vec<(String, String)>, language: String, value: String)
    ensures
        lang_get(final(entries)@, language@) == Some(value@),
        forall|k: Seq<char>|
            k != language@ ==> #[trigger] lang_get(final(entries)@, k) == lang_get(
                old(entries)@,
                k,
            ),
{
    let n = entries.len();
    let mut i: usize = 0;
    while i < n && !str_eq(entries[i].0.as_str(), language.as_str())
        invariant
            0 <= i <= n,
            n == entries@.len(),
            *entries == *old(entries),
            forall|p: int| 0 <= p < i ==> (#[trigger] entries@[p]).0@ != language@,
        decreases n - i,
    {
        i = i + 1;
    }
    if i < n {
        let ghost before = entries@;
        let pair = entries.remove(i);
        entries.insert(i, (language, value));
        proof {
            assert(entries@ =~= before.update(i as int, entries@[i as int]));
            assert(forall|p: int|
                0 <= p < before.len() && p != i ==> #[trigger] entries@[p] == before[p]);
            lemma_lang_get_update(before, entries@, i as int);
        }
    } else {
        let ghost before = entries@;
        entries.push((language, value));
        proof {
            lemma_lang_get_push(before, entries@);
        }
    }
}

/// After replacing the first entry carrying a key, lookups see the new
/// text there and are unchanged elsewhere.
proof fn lemma_lang_get_update(
    before: Seq<(String, String)>,
    after: Seq<(String, String)>,
    i: int,
)
    requires
        0 <= i < before.len(),
        after.len() == before.len(),
        forall|p: int| 0 <= p < before.len() && p != i ==> #[trigger] after[p] == before[p],
        forall|p: int| 0 <= p < i ==> (#[trigger] before[p]).0@ != after[i].0@,
        before[i].0@ == after[i].0@,
    ensures
        lang_get(after, after[i].0@) == Some(after[i].1@),
        forall|k: Seq<char>|
            k != after[i].0@ ==> #[trigger] lang_get(after, k) == lang_get(before, k),
    decreases i,
{
    if i == 0 {
        assert(after[0].0@ == before[0].0@);
        assert forall|k: Seq<char>| k != after[0].0@ implies #[trigger] lang_get(after, k)
            == lang_get(before, k) by {
            assert(after.drop_first() =~= before.drop_first());
        }
    } else {
        assert(after[0] == before[0]);
        assert(after.drop_first()[i - 1] == after[i]);
        assert(forall|p: int|
            0 <= p < before.drop_first().len() && p != i - 1 ==> #[trigger] after.drop_first()[p]
                == before.drop_first()[p]);
        assert forall|p: int|
            0 <= p < i - 1 implies (#[trigger] before.drop_first()[p]).0@
            != after.drop_first()[i - 1].0@ by {
            assert(before.drop_first()[p] == before[p + 1]);
        }
        lemma_lang_get_update(before.drop_first(), after.drop_first(), i - 1);
        assert(before[0].0@ != after[i].0@);
        assert(lang_get(after, after[i].0@) == lang_get(after.drop_first(), after[i].0@));
        assert forall|k: Seq<char>| k != after[i].0@ implies #[trigger] lang_get(after, k)
            == lang_get(before, k) by {
            if k == after[0].0@ {
                assert(lang_get(after, k) == Some(after[0].1@));
                assert(lang_get(before, k) == Some(before[0].1@));
            } else {
                assert(lang_get(after, k) == lang_get(after.drop_first(), k));
                assert(lang_get(before, k) == lang_get(before.drop_first(), k));
                assert(lang_get(after.drop_first(), k) == lang_get(before.drop_first(), k));
            }
        }
    }
}

/// After appending an entry whose key no earlier entry carries, lookups
/// see the new text under it and are unchanged elsewhere.
proof fn lemma_lang_get_push(before: Seq<(String, String)>, after: Seq<(String, String)>)
    requires
        after.len() == before.len() + 1,
        forall|p: int| 0 <= p < before.len() ==> #[trigger] after[p] == before[p],
        forall|p: int| 0 <= p < before.len() ==> (#[trigger] before[p]).0@ != after.last().0@,
    ensures
        lang_get(after, after.last().0@) == Some(after.last().1@),
        forall|k: Seq<char>|
            k != after.last().0@ ==> #[trigger] lang_get(after, k) == lang_get(before, k),
    decreases before.len(),
{
    if before.len() == 0 {
        assert(after[0] == after.last());
        assert forall|k: Seq<char>| k != after.last().0@ implies #[trigger] lang_get(after, k)
            == lang_get(before, k) by {
            assert(after.drop_first() =~= before);
            assert(lang_get(after, k) == lang_get(after.drop_first(), k));
        }
    } else {
        assert(after[0] == before[0]);
        assert(after.drop_first().last() == after.last());
        assert(forall|p: int|
            0 <= p < before.drop_first().len() ==> #[trigger] after.drop_first()[p] == before[p
                + 1]);
        assert forall|p: int|
            0 <= p < before.drop_first().len() implies (#[trigger] before.drop_first()[p]).0@
            != after.drop_first().last().0@ by {
            assert(before.drop_first()[p] == before[p + 1]);
        }
        lemma_lang_get_push(before.drop_first(), after.drop_first());
        assert(before[0].0@ != after.last().0@);
        assert(lang_get(after, after.last().0@) == lang_get(
            after.drop_first(),
            after.last().0@,
        ));
        assert forall|k: Seq<char>| k != after.last().0@ implies #[trigger] lang_get(after, k)
            == lang_get(before, k) by {
            if k == after[0].0@ {
                assert(lang_get(after, k) == Some(after[0].1@));
                assert(lang_get(before, k) == Some(before[0].1@));
            } else {
                assert(lang_get(after, k) == lang_get(after.drop_first(), k));
                assert(lang_get(before, k) == lang_get(before.drop_first(), k));
                assert(lang_get(after.drop_first(), k) == lang_get(before.drop_first(), k));
            }
        }
    }
}

/// Serializes an entry list into an object with sorted keys.
pub fn lang_to_json(entries: &Vec<(String, String)>) -> (r: JsonValue)
    ensures
        r@ == Json::Obj(lang_obj(entries@)),
        r@.wf(),
{
    let n = entries.len();
    let mut acc: Vec<(String, JsonValue)> = Vec::new();
    proof {
        assert(view_pairs(acc@) =~= Seq::<(Seq<char>, Json)>::empty());
        assert(entries@.take(0) =~= Seq::<(String, String)>::empty());
        assert(lang_obj(entries@.take(0)) =~= Seq::<(Seq<char>, Json)>::empty());
    }
    let mut i: usize = 0;
    while i < n
        invariant
            0 <= i <= n,
            n == entries@.len(),
            view_pairs(acc@) == lang_obj(entries@.take(i as int)),
            keys_sorted(view_pairs(acc@)),
            pairs_wf(view_pairs(acc@)),
        decreases n - i,
    {
        proof {
            assert(entries@.take(i as int + 1).drop_last() =~= entries@.take(i as int));
            assert(entries@.take(i as int + 1).last() == entries@[i as int]);
            crate::json::lemma_obj_upsert_sorted(
                view_pairs(acc@),
                entries@[i as int].0@,
                Json::Str(entries@[i as int].1@),
            );
            crate::json::lemma_obj_upsert_wf(
                view_pairs(acc@),
                entries@[i as int].0@,
                Json::Str(entries@[i as int].1@),
            );
        }
        let next = obj_insert_sorted(&acc, entries[i].0.as_str(), JsonValue::Str(
            entries[i].1.clone(),
        ));
        acc = next;
        i = i + 1;
    }
    proof {
        assert(entries@.take(n as int) =~= entries@);
    }
    JsonValue::Object(acc)
}

/// What the language-map parser accepts: an object whose every value is
/// a string.
pub open spec fn lang_accepted(j: Json) -> bool {
    j matches Json::Obj(ps) && forall|q: int|
        0 <= q < ps.len() ==> ((#[trigger] ps[q]).1 is Str)
}

/// Parses an object of string members into an entry list; a duplicate
/// key keeps its first value, and a non-string member is rejected.
pub fn lang_from_json(j: &JsonValue) -> (r: Result<Vec<(String, String)>, RestApiError>)
    ensures
        match r {
            Ok(entries) => j@ matches Json::Obj(ps) && (forall|k: Seq<char>|
                #[trigger] lang_get(entries@, k) == (match obj_get(ps, k) {
                    Some(Json::Str(t)) => Some(t),
                    _ => None,
                })),
            Err(_) => !(j@ is Obj) || (j@ matches Json::Obj(ps) && exists|q: int|
                0 <= q < ps.len() && !((#[trigger] ps[q]).1 is Str)),
        },
{
    let pairs = match j {
        JsonValue::Object(pairs) => pairs,
        _ => {
            return Err(
                RestApiError::WrongType {
                    field: String::from_str("language map"),
                    j: json_clone(j),
                },
            );
        },
    };
    let ghost ps = view_pairs(pairs@);
    proof {
        assert(j@ == Json::Obj(ps));
    }
    let n = pairs.len();
    let mut entries: Vec<(String, String)> = Vec::new();
    let mut i: usize = 0;
    while i < n
        invariant
            0 <= i <= n,
            n == pairs@.len(),
            ps == view_pairs(pairs@),
            j@ == Json::Obj(ps),
            forall|k: Seq<char>|
                #[trigger] lang_get(entries@, k) == (match obj_get(ps.take(i as int), k) {
                    Some(Json::Str(t)) => Some(t),
                    _ => None,
                }),
            forall|q: int| 0 <= q < i ==> (#[trigger] ps[q]).1 is Str,
        decreases n - i,
    {
        proof {
            assert(ps[i as int] == (pairs@[i as int].0@, pairs@[i as int].1@));
        }
        let value = match as_text(&pairs[i].1) {
            Some(v) => v,
            None => {
                proof {
                    assert(!(ps[i as int].1 is Str));
                }
                return Err(
                    RestApiError::MissingOrInvalidField {
                        field: pairs[i].0.clone(),
                        j: json_clone(&pairs[i].1),
                    },
                );
            },
        };
        let ghost before = entries@;
        match lang_lookup(&entries, pairs[i].0.as_str()) {
            Some(_) => {
                // a duplicate key: the first value stays
            },
            None => {
                entries.push((pairs[i].0.clone(), value.clone()));
                proof {
                    assert forall|p: int|
                        0 <= p < before.len() implies (#[trigger] before[p]).0@
                        != entries@.last().0@ by {
                        lemma_lang_get_contains(before, p);
                    }
                    lemma_lang_get_push(before, entries@);
                }
            },
        }
        proof {
            lemma_lang_from_step(ps, before, entries@, i as int);
        }
        i = i + 1;
    }
    proof {
        assert(ps.take(n as int) =~= ps);
    }
    Ok(entries)
}

/// One parsing step keeps the lookup relation: the entry list after
/// handling pair `i` reflects the first `i + 1` pairs.
proof fn lemma_lang_from_step(
    ps: Seq<(Seq<char>, Json)>,
    before: Seq<(String, String)>,
    after: Seq<(String, String)>,
    i: int,
)
    requires
        0 <= i < ps.len(),
        ps[i].1 is Str,
        forall|q: int| 0 <= q < i ==> (#[trigger] ps[q]).1 is Str,
        forall|k: Seq<char>|
            #[trigger] lang_get(before, k) == (match obj_get(ps.take(i), k) {
                Some(Json::Str(t)) => Some(t),
                _ => None,
            }),
        lang_get(before, ps[i].0) is Some ==> after == before,
        lang_get(before, ps[i].0) is None ==> (after.len() == before.len() + 1 && (forall|p: int|
            0 <= p < before.len() ==> #[trigger] after[p] == before[p]) && after.last().0@
            == ps[i].0 && Json::Str(after.last().1@) == ps[i].1),
    ensures
        forall|k: Seq<char>|
            #[trigger] lang_get(after, k) == (match obj_get(ps.take(i + 1), k) {
                Some(Json::Str(t)) => Some(t),
                _ => None,
            }),
{
    lemma_obj_get_take_snoc(ps, i);
    if lang_get(before, ps[i].0) is Some {
        assert forall|k: Seq<char>|
            #[trigger] lang_get(after, k) == (match obj_get(ps.take(i + 1), k) {
                Some(Json::Str(t)) => Some(t),
                _ => None,
            }) by {
            if k == ps[i].0 {
                assert(obj_get(ps.take(i), k) is Some);
            }
        }
    } else {
        assert(forall|p: int|
            0 <= p < before.len() ==> (#[trigger] before[p]).0@ != after.last().0@) by {
            if exists|p: int| 0 <= p < before.len() && (#[trigger] before[p]).0@ == ps[i].0 {
                let p = choose|p: int|
                    0 <= p < before.len() && (#[trigger] before[p]).0@ == ps[i].0;
                lemma_lang_get_contains(before, p);
            }
        }
        lemma_lang_get_push(before, after);
        assert forall|k: Seq<char>|
            #[trigger] lang_get(after, k) == (match obj_get(ps.take(i + 1), k) {
                Some(Json::Str(t)) => Some(t),
                _ => None,
            }) by {
            if k == ps[i].0 {
                assert(lang_get(after, k) == Some(after.last().1@));
                assert(obj_get(ps.take(i), k) is None) by {
                    if obj_get(ps.take(i), k) is Some {
                        lemma_obj_get_value_index(ps.take(i), k);
                        let m = choose|m: int|
                            0 <= m < ps.take(i).len() && (#[trigger] ps.take(i)[m]).0 == k
                                && obj_get(ps.take(i), k) == Some(ps.take(i)[m].1);
                        assert(ps.take(i)[m] == ps[m]);
                        assert(ps[m].1 is Str);
                        assert(lang_get(before, k) is Some);
                    }
                }
            }
        }
    }
}

/// A successful lookup returns the value of some pair carrying the key.
proof fn lemma_obj_get_value_index(ps: Seq<(Seq<char>, Json)>, k: Seq<char>)
    requires
        obj_get(ps, k) is Some,
    ensures
        exists|m: int|
            0 <= m < ps.len() && (#[trigger] ps[m]).0 == k && obj_get(ps, k) == Some(ps[m].1),
    decreases ps.len(),
{
    if ps.len() > 0 {
        if ps[0].0 == k {
            assert(ps[0].0 == k && obj_get(ps, k) == Some(ps[0].1));
        } else {
            lemma_obj_get_value_index(ps.drop_first(), k);
            let m = choose|m: int|
                0 <= m < ps.drop_first().len() && (#[trigger] ps.drop_first()[m]).0 == k
                    && obj_get(ps.drop_first(), k) == Some(ps.drop_first()[m].1);
            assert(ps.drop_first()[m] == ps[m + 1]);
            assert(ps[m + 1].0 == k && obj_get(ps, k) == Some(ps[m + 1].1));
        }
    }
}

/// A key that some entry carries is found by the lookup.
proof fn lemma_lang_get_contains(entries: Seq<(String, String)>, p: int)
    requires
        0 <= p < entries.len(),
    ensures
        lang_get(entries, entries[p].0@) is Some,
    decreases p,
{
    if entries[0].0@ == entries[p].0@ {
    } else {
        assert(p > 0);
        assert(entries.drop_first()[p - 1] == entries[p]);
        lemma_lang_get_contains(entries.drop_first(), p - 1);
    }
}

/// Looking a key up in the first `i + 1` pairs sees pair `i` only when no
/// earlier pair carries the key.
pub proof fn lemma_obj_get_take_snoc(ps: Seq<(Seq<char>, Json)>, i: int)
    requires
        0 <= i < ps.len(),
    ensures
        forall|k: Seq<char>|
            #[trigger] obj_get(ps.take(i + 1), k) == (if obj_get(ps.take(i), k) is Some {
                obj_get(ps.take(i), k)
            } else if k == ps[i].0 {
                Some(ps[i].1)
            } else {
                None
            }),
    decreases i,
{
    assert forall|k: Seq<char>|
        #[trigger] obj_get(ps.take(i + 1), k) == (if obj_get(ps.take(i), k) is Some {
            obj_get(ps.take(i), k)
        } else if k == ps[i].0 {
            Some(ps[i].1)
        } else {
            None
        }) by {
        lemma_obj_get_take_step(ps, i, k);
    }
}

/// The single-key version of the previous fact.
pub proof fn lemma_obj_get_take_step(ps: Seq<(Seq<char>, Json)>, i: int, k: Seq<char>)
    requires
        0 <= i < ps.len(),
    ensures
        obj_get(ps.take(i + 1), k) == (if obj_get(ps.take(i), k) is Some {
            obj_get(ps.take(i), k)
        } else if k == ps[i].0 {
            Some(ps[i].1)
        } else {
            None
        }),
{
    assert(ps.take(i + 1) =~= ps.take(i) + seq![ps[i]]);
    if obj_get(ps.take(i), k) is Some {
        crate::json::lemma_obj_get_some_index(ps.take(i), k);
        let m = choose|m: int| 0 <= m < ps.take(i).len() && (#[trigger] ps.take(i)[m]).0 == k;
        lemma_obj_get_at_concat(ps.take(i), seq![ps[i]], k, m);
        assert(obj_get(ps.take(i + 1), k) == obj_get(ps.take(i), k));
    } else {
        lemma_obj_get_none_concat(ps.take(i), seq![ps[i]], k);
        assert(seq![ps[i]][0] == ps[i]);
        assert(seq![ps[i]].drop_first() =~= Seq::<(Seq<char>, Json)>::empty());
        assert(obj_get(Seq::<(Seq<char>, Json)>::empty(), k) is None);
        if k == ps[i].0 {
            assert(obj_get(seq![ps[i]], k) == Some(ps[i].1));
        } else {
            assert(obj_get(seq![ps[i]], k) is None);
        }
    }
}

/// A key found in the first half of a concatenation is looked up there.
proof fn lemma_obj_get_at_concat(
    a: Seq<(Seq<char>, Json)>,
    b: Seq<(Seq<char>, Json)>,
    k: Seq<char>,
    m: int,
)
    requires
        0 <= m < a.len(),
        a[m].0 == k,
    ensures
        obj_get(a + b, k) == obj_get(a, k),
    decreases a.len(),
{
    assert((a + b)[0] == a[0]);
    if a[0].0 == k {
    } else {
        assert(m > 0);
        assert(a.drop_first()[m - 1] == a[m]);
        assert((a + b).drop_first() =~= a.drop_first() + b);
        lemma_obj_get_at_concat(a.drop_first(), b, k, m - 1);
    }
}

/// A key absent from the first half of a concatenation is looked up in
/// the second.
proof fn lemma_obj_get_none_concat(
    a: Seq<(Seq<char>, Json)>,
    b: Seq<(Seq<char>, Json)>,
    k: Seq<char>,
)
    requires
        obj_get(a, k) is None,
    ensures
        obj_get(a + b, k) == obj_get(b, k),
    decreases a.len(),
{
    if a.len() == 0 {
        assert(a + b =~= b);
    } else {
        assert((a + b)[0] == a[0]);
        assert(a[0].0 != k);
        assert((a + b).drop_first() =~= a.drop_first() + b);
        lemma_obj_get_none_concat(a.drop_first(), b, k);
    }
}

} // verus!
