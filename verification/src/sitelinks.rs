//! The sitelinks of an entity, keyed by wiki.  Only the wiki key is
//! semantically meaningful: setting a wiki replaces its entry by removing
//! it and pushing the new one at the end.

use vstd::prelude::*;
use crate::error::RestApiError;
use crate::header_info::HeaderInfo;
use crate::json::{
    Json, JsonValue, json_clone, keys_sorted, obj_upsert, pairs_wf, str_eq, view_pairs,
};
use crate::apply::obj_insert_sorted;
use crate::sitelink::{Sitelink, spec_sitelink_json};
use crate::sitelinks_patch::SitelinksPatch;

verus! {

/// The sitelinks of an entity.
#[derive(Debug, Clone)]
pub struct Sitelinks {
    pub sitelinks: Vec<Sitelink>,
    pub header_info: HeaderInfo,
}

/// The sitelink for a wiki, scanning from the front; the first match
/// wins.
pub open spec fn sl_get(links: Seq<Sitelink>, wiki: Seq<char>) -> Option<Sitelink>
    decreases links.len(),
{
    if links.len() == 0 {
        None
    } else if links[0].wiki@ == wiki {
        Some(links[0])
    } else {
        sl_get(links.drop_first(), wiki)
    }
}

/// The list with every sitelink for this wiki removed, order kept.
pub open spec fn sl_remove(links: Seq<Sitelink>, wiki: Seq<char>) -> Seq<Sitelink>
    decreases links.len(),
{
    if links.len() == 0 {
        Seq::empty()
    } else if links[0].wiki@ == wiki {
        sl_remove(links.drop_first(), wiki)
    } else {
        seq![links[0]] + sl_remove(links.drop_first(), wiki)
    }
}

/// Removing one wiki's entries splits at the last element.
proof fn lemma_sl_remove_snoc(links: Seq<Sitelink>, wiki: Seq<char>)
    requires
        links.len() > 0,
    ensures
        sl_remove(links, wiki) == (if links.last().wiki@ == wiki {
            sl_remove(links.drop_last(), wiki)
        } else {
            sl_remove(links.drop_last(), wiki).push(links.last())
        }),
    decreases links.len(),
{
    if links.len() == 1 {
        assert(links.drop_last() =~= Seq::<Sitelink>::empty());
        assert(links.drop_first() =~= Seq::<Sitelink>::empty());
        if links[0].wiki@ != wiki {
            assert(seq![links[0]] + sl_remove(links.drop_first(), wiki) =~= Seq::empty().push(
                links[0],
            ));
        }
    } else {
        lemma_sl_remove_snoc(links.drop_first(), wiki);
        assert(links.drop_first().drop_last() =~= links.drop_last().drop_first());
        assert(links.drop_first().last() == links.last());
        assert(links.drop_last()[0] == links[0]);
        if links[0].wiki@ == wiki {
        } else {
            if links.last().wiki@ == wiki {
                assert(seq![links[0]] + sl_remove(links.drop_first(), wiki) =~= sl_remove(
                    links.drop_last(),
                    wiki,
                ));
            } else {
                assert(seq![links[0]] + sl_remove(links.drop_first(), wiki) =~= sl_remove(
                    links.drop_last(),
                    wiki,
                ).push(links.last()));
            }
        }
    }
}

/// Removing one wiki's entries leaves every other wiki's lookup as it
/// was.
proof fn lemma_sl_get_remove(links: Seq<Sitelink>, wiki: Seq<char>, k: Seq<char>)
    requires
        k != wiki,
    ensures
        sl_get(sl_remove(links, wiki), k) == sl_get(links, k),
    decreases links.len(),
{
    if links.len() == 0 {
    } else {
        lemma_sl_get_remove(links.drop_first(), wiki, k);
        if links[0].wiki@ == wiki {
        } else {
            let rest = sl_remove(links.drop_first(), wiki);
            assert((seq![links[0]] + rest).len() > 0);
            assert((seq![links[0]] + rest)[0] == links[0]);
            assert((seq![links[0]] + rest).drop_first() =~= rest);
        }
    }
}

/// One wiki's lookup agrees between a sitelink list and a serialized
/// object: the wiki is absent from both, or its member parses into the
/// sitelink the list holds.
pub open spec fn sitelinks_match(
    links: Seq<Sitelink>,
    ps: Seq<(Seq<char>, Json)>,
    k: Seq<char>,
) -> bool {
    match crate::json::obj_get(ps, k) {
        Some(v) => sl_get(links, k) matches Some(s) && crate::sitelink::sitelink_parsed(
            v,
            k,
            s,
        ),
        None => sl_get(links, k) is None,
    }
}

/// Adding one sitelink to the end changes only its own wiki's lookup,
/// and only when that wiki was absent.
proof fn lemma_sl_get_push_step(links: Seq<Sitelink>, x: Sitelink, k: Seq<char>)
    ensures
        sl_get(links.push(x), k) == (if sl_get(links, k) is Some {
            sl_get(links, k)
        } else if x.wiki@ == k {
            Some(x)
        } else {
            None
        }),
    decreases links.len(),
{
    if links.len() == 0 {
        assert(links.push(x)[0] == x);
        assert(links.push(x).drop_first() =~= Seq::<Sitelink>::empty());
    } else {
        assert(links.push(x)[0] == links[0]);
        assert(links.push(x).drop_first() =~= links.drop_first().push(x));
        lemma_sl_get_push_step(links.drop_first(), x, k);
    }
}

/// The serialized form of a sitelinks collection: an object with each
/// sitelink under its sorted wiki key.
pub open spec fn sitelinks_obj(links: Seq<Sitelink>) -> Seq<(Seq<char>, Json)>
    decreases links.len(),
{
    if links.len() == 0 {
        Seq::empty()
    } else {
        obj_upsert(
            sitelinks_obj(links.drop_last()),
            links.last().wiki@,
            spec_sitelink_json(links.last()),
        )
    }
}

/// What the sitelinks parser accepts: an object whose every value is an
/// acceptable sitelink.
pub open spec fn sitelinks_accepted(j: Json) -> bool {
    j matches Json::Obj(ps) && forall|g: int|
        0 <= g < ps.len() ==> crate::sitelink::sitelink_accepted((#[trigger] ps[g]).1)
}

impl Sitelinks {
    /// Returns the sitelinks.
    pub fn sitelinks(&self) -> (r: &Vec<Sitelink>)
        ensures
            r == &self.sitelinks,
    {
        &self.sitelinks
    }

    /// Returns the response metadata.
    pub fn header_info(&self) -> (r: &HeaderInfo)
        ensures
            r == &self.header_info,
    {
        &self.header_info
    }

    /// The sitelink for a wiki, when one is present.
    pub fn get_wiki<'a>(&'a self, wiki: &str) -> (r: Option<&'a Sitelink>)
        ensures
            match r {
                Some(s) => sl_get(self.sitelinks@, wiki@) == Some(*s),
                None => sl_get(self.sitelinks@, wiki@) is None,
            },
    {
        let n = self.sitelinks.len();
        let mut i: usize = 0;
        proof {
            assert(self.sitelinks@.skip(0) =~= self.sitelinks@);
        }
        while i < n
            invariant
                0 <= i <= n,
                n == self.sitelinks@.len(),
                sl_get(self.sitelinks@, wiki@) == sl_get(
                    self.sitelinks@.skip(i as int),
                    wiki@,
                ),
            decreases n - i,
        {
            proof {
                assert(self.sitelinks@.skip(i as int)[0] == self.sitelinks@[i as int]);
                assert(self.sitelinks@.skip(i as int).drop_first() =~= self.sitelinks@.skip(
                    i as int + 1,
                ));
            }
            if str_eq(self.sitelinks[i].wiki.as_str(), wiki) {
                return Some(&self.sitelinks[i]);
            }
            i = i + 1;
        }
        proof {
            assert(self.sitelinks@.skip(n as int) =~= Seq::<Sitelink>::empty());
        }
        None
    }

    /// Removes every sitelink for a wiki: exactly that wiki's entries
    /// leave, in-order, and every other wiki's lookup is unchanged.
    pub fn remove_wiki(&mut self, wiki: &str)
        ensures
            final(self).sitelinks@ == sl_remove(old(self).sitelinks@, wiki@),
            sl_get(final(self).sitelinks@, wiki@) is None,
            forall|k: Seq<char>|
                k != wiki@ ==> sl_get(final(self).sitelinks@, k) == sl_get(
                    old(self).sitelinks@,
                    k,
                ),
            final(self).header_info == old(self).header_info,
    {
        let ghost orig = self.sitelinks@;
        let mut kept: Vec<Sitelink> = Vec::new();
        proof {
            assert(orig.take(0) =~= Seq::<Sitelink>::empty());
        }
        while self.sitelinks.len() > 0
            invariant
                self.header_info == old(self).header_info,
                self.sitelinks@.len() <= orig.len(),
                self.sitelinks@ =~= orig.skip(orig.len() - self.sitelinks@.len()),
                kept@ == sl_remove(orig.take(orig.len() - self.sitelinks@.len()), wiki@),
                forall|p: int| 0 <= p < kept@.len() ==> (#[trigger] kept@[p]).wiki@ != wiki@,
            decreases self.sitelinks@.len(),
        {
            let ghost done = orig.len() - self.sitelinks@.len();
            proof {
                assert(self.sitelinks@[0] == orig[done]);
            }
            let link = self.sitelinks.remove(0);
            proof {
                assert(orig.take(done + 1).drop_last() =~= orig.take(done));
                assert(orig.take(done + 1).last() == orig[done]);
                lemma_sl_remove_snoc(orig.take(done + 1), wiki@);
            }
            if !str_eq(link.wiki.as_str(), wiki) {
                kept.push(link);
            }
            proof {
                assert(self.sitelinks@ =~= orig.skip(orig.len() - self.sitelinks@.len()));
            }
        }
        proof {
            assert(orig.take(orig.len() as int) =~= orig);
            lemma_sl_get_absent(kept@, wiki@);
            assert forall|k: Seq<char>| k != wiki@ implies sl_get(kept@, k) == sl_get(
                orig,
                k,
            ) by {
                lemma_sl_get_remove(orig, wiki@, k);
            }
        }
        self.sitelinks = kept;
    }

    /// Sets the sitelink for a wiki: any existing entry for that wiki is
    /// removed, the new one is pushed at the end, and every other wiki's
    /// lookup is unchanged.
    pub fn set_wiki(&mut self, sitelink: Sitelink)
        ensures
            final(self).sitelinks@ == sl_remove(old(self).sitelinks@, sitelink.wiki@).push(
                sitelink,
            ),
            sl_get(final(self).sitelinks@, sitelink.wiki@) == Some(sitelink),
            forall|k: Seq<char>|
                k != sitelink.wiki@ ==> sl_get(final(self).sitelinks@, k) == sl_get(
                    old(self).sitelinks@,
                    k,
                ),
            final(self).sitelinks@.last() == sitelink,
            final(self).header_info == old(self).header_info,
    {
        let wiki = sitelink.wiki.clone();
        self.remove_wiki(wiki.as_str());
        let ghost before = self.sitelinks@;
        self.sitelinks.push(sitelink);
        proof {
            lemma_sl_get_found(before, self.sitelinks@);
            assert forall|k: Seq<char>| k != sitelink.wiki@ implies sl_get(
                self.sitelinks@,
                k,
            ) == sl_get(old(self).sitelinks@, k) by {
                lemma_sl_get_push_step(before, sitelink, k);
            }
            assert(sl_get(self.sitelinks@, sitelink.wiki@) == Some(sitelink)) by {
                lemma_sl_get_push_step(before, sitelink, sitelink.wiki@);
            }
        }
    }

    /// The number of sitelinks.
    pub fn len(&self) -> (r: usize)
        ensures
            r == self.sitelinks@.len(),
    {
        self.sitelinks.len()
    }

    /// True when there is no sitelink.
    pub fn is_empty(&self) -> (r: bool)
        ensures
            r == (self.sitelinks@.len() == 0),
    {
        self.sitelinks.len() == 0
    }

    /// Serializes the sitelinks.
    pub fn to_json(&self) -> (r: JsonValue)
        ensures
            r@ == Json::Obj(sitelinks_obj(self.sitelinks@)),
            r@.wf(),
    {
        let n = self.sitelinks.len();
        let mut acc: Vec<(String, JsonValue)> = Vec::new();
        proof {
            assert(view_pairs(acc@) =~= Seq::<(Seq<char>, Json)>::empty());
            assert(self.sitelinks@.take(0) =~= Seq::<Sitelink>::empty());
            assert(sitelinks_obj(self.sitelinks@.take(0)) =~= Seq::<(Seq<char>, Json)>::empty());
        }
        let mut i: usize = 0;
        while i < n
            invariant
                0 <= i <= n,
                n == self.sitelinks@.len(),
                view_pairs(acc@) == sitelinks_obj(self.sitelinks@.take(i as int)),
                keys_sorted(view_pairs(acc@)),
                pairs_wf(view_pairs(acc@)),
            decreases n - i,
        {
            let sj = self.sitelinks[i].to_json();
            proof {
                assert(self.sitelinks@.take(i as int + 1).drop_last() =~= self.sitelinks@.take(
                    i as int,
                ));
                assert(self.sitelinks@.take(i as int + 1).last() == self.sitelinks@[i as int]);
                crate::json::lemma_obj_upsert_sorted(
                    view_pairs(acc@),
                    self.sitelinks@[i as int].wiki@,
                    spec_sitelink_json(self.sitelinks@[i as int]),
                );
                crate::json::lemma_obj_upsert_wf(
                    view_pairs(acc@),
                    self.sitelinks@[i as int].wiki@,
                    spec_sitelink_json(self.sitelinks@[i as int]),
                );
            }
            let next = obj_insert_sorted(&acc, self.sitelinks[i].wiki.as_str(), sj);
            acc = next;
            i = i + 1;
        }
        proof {
            assert(self.sitelinks@.take(n as int) =~= self.sitelinks@);
        }
        JsonValue::Object(acc)
    }

    /// Parses sitelinks out of an object of per-wiki members.
    pub fn from_json(j: &JsonValue) -> (r: Result<Sitelinks, RestApiError>)
        ensures
            r matches Ok(s) ==> (j@ matches Json::Obj(ps) && forall|k: Seq<char>|
                #[trigger] sitelinks_match(s.sitelinks@, ps, k)),
            r is Err ==> !sitelinks_accepted(j@),
    {
        let pairs = match j {
            JsonValue::Object(pairs) => pairs,
            _ => {
                return Err(
                    RestApiError::MissingOrInvalidField {
                        field: String::from_str("sitelinks"),
                        j: json_clone(j),
                    },
                );
            },
        };
        let ghost ps = view_pairs(pairs@);
        proof {
            assert(j@ == Json::Obj(ps));
        }
        let n = pairs.len();
        let mut sitelinks: Vec<Sitelink> = Vec::new();
        let mut i: usize = 0;
        proof {
            assert(ps.take(0) =~= Seq::<(Seq<char>, Json)>::empty());
        }
        while i < n
            invariant
                0 <= i <= n,
                n == pairs@.len(),
                ps == view_pairs(pairs@),
                j@ == Json::Obj(ps),
                forall|k: Seq<char>| #[trigger] sitelinks_match(sitelinks@, ps.take(i as int), k),
            decreases n - i,
        {
            proof {
                assert(ps[i as int] == (pairs@[i as int].0@, pairs@[i as int].1@));
            }
            let ghost before = sitelinks@;
            match Sitelink::from_json(pairs[i].0.as_str(), &pairs[i].1) {
                Ok(s) => {
                    sitelinks.push(s);
                },
                Err(e) => {
                    proof {
                        assert(ps.len() == n);
                        assert(!crate::sitelink::sitelink_accepted(ps[i as int].1));
                        assert(!sitelinks_accepted(j@)) by {
                            if sitelinks_accepted(j@) {
                                match j@ {
                                    Json::Obj(ps2) => {
                                        assert(ps2 == ps);
                                        assert(crate::sitelink::sitelink_accepted(
                                            ps2[i as int].1,
                                        ));
                                    },
                                    _ => {},
                                }
                            }
                        }
                    }
                    return Err(e);
                },
            }
            proof {
                crate::language_strings::lemma_obj_get_take_snoc(ps, i as int);
                assert forall|k: Seq<char>|
                    #[trigger] sitelinks_match(sitelinks@, ps.take(i as int + 1), k) by {
                    assert(sitelinks_match(before, ps.take(i as int), k));
                    lemma_sl_get_push_step(before, sitelinks@.last(), k);
                }
            }
            i = i + 1;
        }
        proof {
            assert(ps.take(n as int) =~= ps);
        }
        Ok(Sitelinks { sitelinks, header_info: HeaderInfo::default() })
    }

    /// Computes the patch that transforms `other` into these sitelinks,
    /// wiki by wiki.
    pub fn patch(&self, other: &Sitelinks) -> (r: Result<SitelinksPatch, RestApiError>)
        ensures
            match r {
                Ok(p) => {
                    &&& crate::apply::apply_entries(
                        Json::Obj(sitelinks_obj(other.sitelinks@)),
                        crate::patch_entry::view_entries(p.patch@),
                    ) == Some(Json::Obj(sitelinks_obj(self.sitelinks@)))
                    &&& (p.patch@.len() == 0) == (Json::Obj(sitelinks_obj(other.sitelinks@))
                        == Json::Obj(sitelinks_obj(self.sitelinks@)))
                },
                Err(_) => false,
            },
    {
        let from_doc = other.to_json();
        let to_doc = self.to_json();
        let entries = crate::differ::diff_values(&from_doc, &to_doc);
        Ok(SitelinksPatch { patch: entries })
    }
}

impl Default for Sitelinks {
    /// The default sitelink collection is empty.
    fn default() -> (r: Sitelinks)
        ensures
            r.sitelinks@.len() == 0,
    {
        Sitelinks { sitelinks: Vec::new(), header_info: HeaderInfo::default() }
    }
}

/// A list whose entries all carry other wikis finds nothing for this one.
proof fn lemma_sl_get_absent(links: Seq<Sitelink>, wiki: Seq<char>)
    requires
        forall|p: int| 0 <= p < links.len() ==> (#[trigger] links[p]).wiki@ != wiki,
    ensures
        sl_get(links, wiki) is None,
    decreases links.len(),
{
    if links.len() > 0 {
        assert(forall|p: int|
            0 <= p < links.drop_first().len() ==> #[trigger] links.drop_first()[p] == links[p
                + 1]);
        lemma_sl_get_absent(links.drop_first(), wiki);
    }
}

/// After a push, the pushed sitelink's wiki is found.
proof fn lemma_sl_get_found(before: Seq<Sitelink>, after: Seq<Sitelink>)
    requires
        after.len() == before.len() + 1,
        forall|p: int| 0 <= p < before.len() ==> #[trigger] after[p] == before[p],
    ensures
        sl_get(after, after.last().wiki@) is Some,
    decreases before.len(),
{
    if before.len() == 0 {
        assert(after[0] == after.last());
    } else {
        if after[0].wiki@ == after.last().wiki@ {
        } else {
            assert(forall|p: int|
                0 <= p < before.drop_first().len() ==> #[trigger] after.drop_first()[p]
                    == before[p + 1]);
            assert(after.drop_first().last() == after.last());
            lemma_sl_get_found(before.drop_first(), after.drop_first());
        }
    }
}

} // verus!
