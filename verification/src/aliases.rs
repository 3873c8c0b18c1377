//! The aliases of an entity: an ordered list of strings per language.
//! Insertion appends, but only a value the language does not already
//! carry; the per-language order is significant and is diffed by
//! position.

use vstd::prelude::*;
use crate::assoc::{assoc_get, assoc_lookup, assoc_set};
use crate::error::RestApiError;
use crate::header_info::HeaderInfo;
use crate::json::{
    Json, JsonValue, json_clone, keys_sorted, obj_upsert, pairs_wf, view_elems, view_pairs,
};
use crate::apply::{as_text, obj_insert_sorted};
use crate::language_string::LanguageString;
use crate::language_strings::LanguageStrings;
use crate::aliases_patch::AliasesPatch;

verus! {

/// The aliases of an entity, as a `language -> list of text` map.
#[derive(Debug, Clone)]
pub struct Aliases {
    pub entries: Vec<(String, Vec<String>)>,
    pub header_info: HeaderInfo,
}

/// The serialized form of one language's alias list.
pub open spec fn strings_json(vs: Seq<String>) -> Seq<Json> {
    Seq::new(vs.len(), |i: int| Json::Str(vs[i]@))
}

/// The serialized form of an alias map: an object with each language's
/// list under its sorted key.
pub open spec fn alias_obj(entries: Seq<(String, Vec<String>)>) -> Seq<(Seq<char>, Json)>
    decreases entries.len(),
{
    if entries.len() == 0 {
        Seq::empty()
    } else {
        obj_upsert(
            alias_obj(entries.drop_last()),
            entries.last().0@,
            Json::Arr(strings_json(entries.last().1@)),
        )
    }
}

/// One language's lookup agrees between an alias entry list and a
/// serialized object: the language is absent from both, or present in
/// both with the same list of texts.
pub open spec fn alias_lists_match(
    entries: Seq<(String, Vec<String>)>,
    ps: Seq<(Seq<char>, Json)>,
    k: Seq<char>,
) -> bool {
    match crate::json::obj_get(ps, k) {
        Some(v) => assoc_get(entries, k) matches Some(vs) && v == Json::Arr(strings_json(vs@)),
        None => assoc_get(entries, k) is None,
    }
}

/// True when the list already carries the text.
pub open spec fn list_has(vs: Seq<String>, t: Seq<char>) -> bool {
    exists|i: int| 0 <= i < vs.len() && (#[trigger] vs[i])@ == t
}

/// What the aliases parser accepts: an object whose every value is an
/// array of strings.
pub open spec fn aliases_accepted(j: Json) -> bool {
    j matches Json::Obj(ps) && forall|g: int|
        0 <= g < ps.len() ==> ((#[trigger] ps[g]).1 matches Json::Arr(items) && forall|q: int|
            0 <= q < items.len() ==> (#[trigger] items[q]) is Str)
}

impl Aliases {
    /// The alias list for a language, when one is present; the first
    /// entry for a language wins.
    pub fn get_lang<'a>(&'a self, language: &str) -> (r: Option<&'a Vec<String>>)
        ensures
            match r {
                Some(v) => assoc_get(self.entries@, language@) == Some(*v),
                None => assoc_get(self.entries@, language@) is None,
            },
    {
        assoc_lookup(&self.entries, language)
    }

    /// The number of languages with aliases.
    pub fn len(&self) -> (r: usize)
        ensures
            r == self.entries@.len(),
    {
        self.entries.len()
    }

    /// True when no language has aliases.
    pub fn is_empty(&self) -> (r: bool)
        ensures
            r == (self.entries@.len() == 0),
    {
        self.entries.len() == 0
    }

    /// Returns the response metadata.
    pub fn header_info(&self) -> (r: &HeaderInfo)
        ensures
            r == &self.header_info,
    {
        &self.header_info
    }

    /// Serializes the aliases.
    pub fn to_json(&self) -> (r: JsonValue)
        ensures
            r@ == Json::Obj(alias_obj(self.entries@)),
            r@.wf(),
    {
        let n = self.entries.len();
        let mut acc: Vec<(String, JsonValue)> = Vec::new();
        proof {
            assert(view_pairs(acc@) =~= Seq::<(Seq<char>, Json)>::empty());
            assert(self.entries@.take(0) =~= Seq::<(String, Vec<String>)>::empty());
            assert(alias_obj(self.entries@.take(0)) =~= Seq::<(Seq<char>, Json)>::empty());
        }
        let mut i: usize = 0;
        while i < n
            invariant
                0 <= i <= n,
                n == self.entries@.len(),
                view_pairs(acc@) == alias_obj(self.entries@.take(i as int)),
                keys_sorted(view_pairs(acc@)),
                pairs_wf(view_pairs(acc@)),
            decreases n - i,
        {
            let group = &self.entries[i].1;
            let m = group.len();
            let mut items: Vec<JsonValue> = Vec::new();
            let mut s: usize = 0;
            while s < m
                invariant
                    0 <= s <= m,
                    m == group@.len(),
                    items@.len() == s,
                    forall|q: int| 0 <= q < s ==> (#[trigger] items@[q])@ == Json::Str(
                        group@[q]@,
                    ),
                decreases m - s,
            {
                items.push(JsonValue::Str(group[s].clone()));
                s = s + 1;
            }
            let ghost iseq = items@;
            let arr = JsonValue::Array(items);
            proof {
                assert(arr@ == Json::Arr(view_elems(iseq)));
                assert(view_elems(iseq) =~= strings_json(group@));
                crate::json::lemma_all_wf_from_forall(strings_json(group@));
                assert(self.entries@.take(i as int + 1).drop_last() =~= self.entries@.take(
                    i as int,
                ));
                assert(self.entries@.take(i as int + 1).last() == self.entries@[i as int]);
                crate::json::lemma_obj_upsert_sorted(
                    view_pairs(acc@),
                    self.entries@[i as int].0@,
                    Json::Arr(strings_json(self.entries@[i as int].1@)),
                );
                crate::json::lemma_obj_upsert_wf(
                    view_pairs(acc@),
                    self.entries@[i as int].0@,
                    Json::Arr(strings_json(self.entries@[i as int].1@)),
                );
            }
            let next = obj_insert_sorted(&acc, self.entries[i].0.as_str(), arr);
            acc = next;
            i = i + 1;
        }
        proof {
            assert(self.entries@.take(n as int) =~= self.entries@);
        }
        JsonValue::Object(acc)
    }

    /// Parses aliases out of an object of string-array members; a
    /// duplicate language keeps its first list, and anything that is not
    /// an array of strings is rejected.
    pub fn from_json(j: &JsonValue) -> (r: Result<Aliases, RestApiError>)
        ensures
            r matches Ok(a) ==> (j@ matches Json::Obj(ps) && forall|k: Seq<char>|
                #[trigger] alias_lists_match(a.entries@, ps, k)),
            r is Err ==> !aliases_accepted(j@),
    {
        let pairs = match j {
            JsonValue::Object(pairs) => pairs,
            _ => {
                return Err(
                    RestApiError::MissingOrInvalidField {
                        field: String::from_str("aliases"),
                        j: json_clone(j),
                    },
                );
            },
        };
        let ghost ps = view_pairs(pairs@);
        proof {
            assert(j@ == Json::Obj(ps));
        }
        let n = pairs.len();
        let mut entries: Vec<(String, Vec<String>)> = Vec::new();
        let mut i: usize = 0;
        proof {
            assert(ps.take(0) =~= Seq::<(Seq<char>, Json)>::empty());
        }
        while i < n
            invariant
                0 <= i <= n,
                n == pairs@.len(),
                ps == view_pairs(pairs@),
                j@ == Json::Obj(ps),
                forall|k: Seq<char>| #[trigger] alias_lists_match(entries@, ps.take(i as int), k),
            decreases n - i,
        {
            proof {
                assert(ps[i as int] == (pairs@[i as int].0@, pairs@[i as int].1@));
            }
            let items = match &pairs[i].1 {
                JsonValue::Array(items) => items,
                _ => {
                    proof {
                        assert(ps.len() == n);
                        assert(!(ps[i as int].1 is Arr));
                        assert(!aliases_accepted(j@)) by {
                            if aliases_accepted(j@) {
                                match j@ {
                                    Json::Obj(ps2) => {
                                        assert(ps2 == ps);
                                        assert(ps2[i as int].1 is Arr);
                                    },
                                    _ => {},
                                }
                            }
                        }
                    }
                    return Err(
                        RestApiError::MissingOrInvalidField {
                            field: pairs[i].0.clone(),
                            j: json_clone(&pairs[i].1),
                        },
                    );
                },
            };
            let ghost vv = view_elems(items@);
            proof {
                assert(ps[i as int].1 == Json::Arr(vv));
            }
            let m = items.len();
            let mut vs: Vec<String> = Vec::new();
            let mut s: usize = 0;
            while s < m
                invariant
                    0 <= s <= m,
                    m == items@.len(),
                    0 <= i < n,
                    n == pairs@.len(),
                    ps == view_pairs(pairs@),
                    j@ == Json::Obj(ps),
                    vv == view_elems(items@),
                    ps[i as int].1 == Json::Arr(vv),
                    vs@.len() == s,
                    forall|q: int|
                        0 <= q < s ==> view_elems(items@)[q] == Json::Str(
                            (#[trigger] vs@[q])@,
                        ),
                decreases m - s,
            {
                proof {
                    assert(view_elems(items@)[s as int] == items@[s as int]@);
                }
                match as_text(&items[s]) {
                    Some(t) => {
                        vs.push(t.clone());
                    },
                    None => {
                        proof {
                            assert(ps.len() == pairs@.len());
                            assert(vv.len() == m);
                            assert(!(vv[s as int] is Str));
                            assert(!aliases_accepted(j@)) by {
                                if aliases_accepted(j@) {
                                    match j@ {
                                        Json::Obj(ps2) => {
                                            assert(ps2 == ps);
                                            match ps2[i as int].1 {
                                                Json::Arr(its) => {
                                                    assert(its == vv);
                                                    assert(its[s as int] is Str);
                                                },
                                                _ => {},
                                            }
                                        },
                                        _ => {},
                                    }
                                }
                            }
                        }
                        return Err(
                            RestApiError::MissingOrInvalidField {
                                field: pairs[i].0.clone(),
                                j: json_clone(&items[s]),
                            },
                        );
                    },
                }
                s = s + 1;
            }
            proof {
                assert(strings_json(vs@) =~= view_elems(items@));
                assert(ps[i as int].1 == Json::Arr(strings_json(vs@)));
            }
            let ghost before = entries@;
            let dup = match assoc_lookup(&entries, pairs[i].0.as_str()) {
                Some(_) => true,
                None => false,
            };
            if !dup {
                entries.push((pairs[i].0.clone(), vs));
            }
            proof {
                if !dup {
                    assert forall|p: int|
                        0 <= p < before.len() implies (#[trigger] before[p]).0@
                        != entries@.last().0@ by {
                        crate::assoc::lemma_assoc_contains(before, p);
                    }
                    crate::assoc::lemma_assoc_get_push(before, entries@);
                }
                crate::language_strings::lemma_obj_get_take_snoc(ps, i as int);
                assert forall|k: Seq<char>|
                    #[trigger] alias_lists_match(entries@, ps.take(i as int + 1), k) by {
                    assert(alias_lists_match(before, ps.take(i as int), k));
                    if k == ps[i as int].0 {
                        if dup {
                            assert(assoc_get(before, k) is Some);
                            assert(crate::json::obj_get(ps.take(i as int), k) is Some);
                        } else {
                            assert(assoc_get(before, k) is None);
                            assert(crate::json::obj_get(ps.take(i as int), k) is None);
                            assert(assoc_get(entries@, k) == Some(entries@.last().1));
                        }
                    } else {
                        if !dup {
                            assert(assoc_get(entries@, k) == assoc_get(before, k));
                        }
                    }
                }
            }
            i = i + 1;
        }
        proof {
            assert(ps.take(n as int) =~= ps);
        }
        Ok(Aliases { entries, header_info: HeaderInfo::default() })
    }

    /// Computes the patch that transforms `other` into these aliases;
    /// within one language the lists are compared position by position.
    pub fn patch(&self, other: &Aliases) -> (r: Result<AliasesPatch, RestApiError>)
        ensures
            match r {
                Ok(p) => {
                    &&& crate::apply::apply_entries(
                        Json::Obj(alias_obj(other.entries@)),
                        crate::patch_entry::view_entries(p.patch@),
                    ) == Some(Json::Obj(alias_obj(self.entries@)))
                    &&& (p.patch@.len() == 0) == (Json::Obj(alias_obj(other.entries@))
                        == Json::Obj(alias_obj(self.entries@)))
                },
                Err(_) => false,
            },
    {
        let from_doc = other.to_json();
        let to_doc = self.to_json();
        let entries = crate::differ::diff_values(&from_doc, &to_doc);
        Ok(AliasesPatch { patch: entries })
    }
}

impl Aliases {
    /// Inserts an alias: appended to its language's list, but only when
    /// that list does not already carry the value.
    pub fn insert(&mut self, ls: LanguageString)
        ensures
            match assoc_get(final(self).entries@, ls.language@) {
                Some(vs) => match assoc_get(old(self).entries@, ls.language@) {
                    Some(old_vs) => (list_has(old_vs@, ls.value@) && vs == old_vs) || (!list_has(
                        old_vs@,
                        ls.value@,
                    ) && vs@ =~= old_vs@.push(ls.value)),
                    None => vs@.len() == 1 && vs@[0]@ == ls.value@,
                },
                None => false,
            },
            forall|k: Seq<char>|
                k != ls.language@ ==> #[trigger] assoc_get(final(self).entries@, k) == assoc_get(
                    old(self).entries@,
                    k,
                ),
    {
        let ghost old_entries = self.entries@;
        let mut copy: Vec<String> = Vec::new();
        let mut present = false;
        let ghost mut oldlist: Seq<String> = Seq::empty();
        match assoc_lookup(&self.entries, ls.language.as_str()) {
            Some(list) => {
                present = true;
                proof {
                    oldlist = list@;
                }
                let m = list.len();
                let mut s: usize = 0;
                while s < m
                    invariant
                        0 <= s <= m,
                        m == list@.len(),
                        copy@.len() == s,
                        forall|q: int| 0 <= q < s ==> #[trigger] copy@[q] == list@[q],
                    decreases m - s,
                {
                    copy.push(list[s].clone());
                    s = s + 1;
                }
                proof {
                    assert(copy@ =~= list@);
                }
            },
            None => {},
        }
        if !present {
            let mut vs: Vec<String> = Vec::new();
            vs.push(ls.value.clone());
            assoc_set(&mut self.entries, ls.language, vs);
            return ;
        }
        let ghost l0 = copy@;
        proof {
            assert(assoc_get(old_entries, ls.language@) matches Some(v) && v@ == l0);
        }
        // the value stays out when the list already carries it
        let m = copy.len();
        let mut already = false;
        let mut s: usize = 0;
        while s < m
            invariant
                0 <= s <= m,
                m == copy@.len(),
                copy@ == l0,
                already ==> list_has(copy@, ls.value@),
                (!already) ==> forall|q: int| 0 <= q < s ==> (#[trigger] copy@[q])@ != ls.value@,
            decreases m - s,
        {
            if crate::json::str_eq(copy[s].as_str(), ls.value.as_str()) {
                already = true;
            }
            s = s + 1;
        }
        if already {
            return ;
        }
        let mut vs = copy;
        vs.push(ls.value.clone());
        proof {
            assert(vs@ =~= l0.push(ls.value));
        }
        assoc_set(&mut self.entries, ls.language, vs);
    }

    /// True when the language has aliases.
    pub fn has_language(&self, language: &str) -> (r: bool)
        ensures
            r == (assoc_get(self.entries@, language@) is Some),
    {
        match assoc_lookup(&self.entries, language) {
            Some(_) => true,
            None => false,
        }
    }
}

impl LanguageStrings for Aliases {
    fn insert(&mut self, ls: LanguageString) {
        Aliases::insert(self, ls);
    }

    fn has_language(&self, language: &str) -> bool {
        Aliases::has_language(self, language)
    }
}

impl Default for Aliases {
    /// The default alias map is empty.
    fn default() -> (r: Aliases)
        ensures
            r.entries@.len() == 0,
    {
        Aliases { entries: Vec::new(), header_info: HeaderInfo::default() }
    }
}

} // verus!
