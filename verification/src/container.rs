//! The pure decisions of the bulk entity loader: which IDs to fetch, the
//! fallback for the concurrency bound, and how fetched entities land in
//! the shared cache.  Running the concurrent fetches is the surrounding
//! runtime's job.

use vstd::prelude::*;
use crate::assoc::{assoc_get, assoc_lookup, assoc_set};
use crate::entity_id::EntityId;
use crate::item::Item;
use crate::property::Property;

verus! {

/// The concurrency bound used when the caller asks for zero.
pub const MAX_CONCURRENT_LOAD_DEFAULT: usize = 10;

/// The concurrency bound to run with: the configured one, or the default
/// when the configuration says zero.
pub fn resolve_max_concurrent(configured: usize) -> (r: usize)
    ensures
        configured == 0 ==> r == MAX_CONCURRENT_LOAD_DEFAULT,
        configured != 0 ==> r == configured,
{
    if configured == 0 {
        MAX_CONCURRENT_LOAD_DEFAULT
    } else {
        configured
    }
}

/// Whether an ID text is listed in a fetch list.
pub open spec fn id_listed(r: Seq<String>, sid: Seq<char>) -> bool {
    exists|q: int| 0 <= q < r.len() && (#[trigger] r[q])@ == sid
}

/// Whether an item with this ID text is among the requested entities.
pub open spec fn requested_item(entity_ids: Seq<EntityId>, sid: Seq<char>) -> bool {
    exists|p: int|
        0 <= p < entity_ids.len() && ((#[trigger] entity_ids[p]) matches EntityId::Item(s)
            && s@ == sid)
}

/// Whether a property with this ID text is among the requested entities.
pub open spec fn requested_property(entity_ids: Seq<EntityId>, sid: Seq<char>) -> bool {
    exists|p: int|
        0 <= p < entity_ids.len() && ((#[trigger] entity_ids[p]) matches EntityId::Property(s)
            && s@ == sid)
}

/// Whether a batch of item fetch outcomes carries an item with this ID.
pub open spec fn batch_has_item(fetched: Seq<Option<Item>>, k: Seq<char>) -> bool {
    exists|q: int|
        0 <= q < fetched.len() && ((#[trigger] fetched[q]) matches Some(it) && it.id matches
            EntityId::Item(s) && s@ == k)
}

/// Whether a batch of property fetch outcomes carries a property with
/// this ID.
pub open spec fn batch_has_property(fetched: Seq<Option<Property>>, k: Seq<char>) -> bool {
    exists|q: int|
        0 <= q < fetched.len() && ((#[trigger] fetched[q]) matches Some(p) && p.id matches
            EntityId::Property(s) && s@ == k)
}

/// The keyed cache of loaded entities.
#[derive(Debug)]
pub struct EntityCache {
    pub items: Vec<(String, Item)>,
    pub properties: Vec<(String, Property)>,
}

impl EntityCache {
    /// An empty cache.
    pub fn new() -> (r: EntityCache)
        ensures
            r.items@.len() == 0,
            r.properties@.len() == 0,
    {
        EntityCache { items: Vec::new(), properties: Vec::new() }
    }

    /// The cached item for an ID, when loaded.
    pub fn get_item<'a>(&'a self, id: &str) -> (r: Option<&'a Item>)
        ensures
            match r {
                Some(it) => assoc_get(self.items@, id@) == Some(*it),
                None => assoc_get(self.items@, id@) is None,
            },
    {
        assoc_lookup(&self.items, id)
    }

    /// The cached property for an ID, when loaded.
    pub fn get_property<'a>(&'a self, id: &str) -> (r: Option<&'a Property>)
        ensures
            match r {
                Some(p) => assoc_get(self.properties@, id@) == Some(*p),
                None => assoc_get(self.properties@, id@) is None,
            },
    {
        assoc_lookup(&self.properties, id)
    }

    /// The item IDs among the requested entities that the cache does not
    /// hold yet: exactly those must be fetched.  Every returned ID is a
    /// requested, uncached item ID, and every requested, uncached item ID
    /// is returned.
    pub fn items_to_load(&self, entity_ids: &Vec<EntityId>) -> (r: Vec<String>)
        ensures
            forall|q: int|
                0 <= q < r@.len() ==> assoc_get(self.items@, (#[trigger] r@[q])@) is None,
            forall|q: int|
                0 <= q < r@.len() ==> requested_item(entity_ids@, (#[trigger] r@[q])@),
            forall|p: int|
                0 <= p < entity_ids@.len() && (#[trigger] entity_ids@[p]) is Item && assoc_get(
                    self.items@,
                    entity_ids@[p]->Item_0@,
                ) is None ==> id_listed(r@, entity_ids@[p]->Item_0@),
    {
        let n = entity_ids.len();
        let mut out: Vec<String> = Vec::new();
        let mut i: usize = 0;
        while i < n
            invariant
                0 <= i <= n,
                n == entity_ids@.len(),
                forall|q: int|
                    0 <= q < out@.len() ==> assoc_get(self.items@, (#[trigger] out@[q])@)
                        is None,
                forall|q: int|
                    0 <= q < out@.len() ==> requested_item(entity_ids@, (#[trigger] out@[q])@),
                forall|p: int|
                    0 <= p < i && (#[trigger] entity_ids@[p]) is Item && assoc_get(
                        self.items@,
                        entity_ids@[p]->Item_0@,
                    ) is None ==> id_listed(out@, entity_ids@[p]->Item_0@),
            decreases n - i,
        {
            let ghost before = out@;
            match &entity_ids[i] {
                EntityId::Item(id) => {
                    match assoc_lookup(&self.items, id.as_str()) {
                        Some(_) => {},
                        None => {
                            out.push(id.clone());
                            proof {
                                assert((out@[out@.len() - 1])@ == id@);
                                assert(entity_ids@[i as int] matches EntityId::Item(s) && s@
                                    == id@);
                                assert(requested_item(entity_ids@, id@));
                                assert(id_listed(out@, id@));
                                assert(forall|q: int|
                                    0 <= q < before.len() ==> out@[q] == before[q]);
                                assert(forall|sid: Seq<char>|
                                    #[trigger] id_listed(before, sid) ==> id_listed(out@, sid));
                            }
                        },
                    }
                },
                _ => {},
            }
            i = i + 1;
        }
        out
    }

    /// The property IDs among the requested entities that the cache does
    /// not hold yet: exactly those must be fetched.
    pub fn properties_to_load(&self, entity_ids: &Vec<EntityId>) -> (r: Vec<String>)
        ensures
            forall|q: int|
                0 <= q < r@.len() ==> assoc_get(self.properties@, (#[trigger] r@[q])@) is None,
            forall|q: int|
                0 <= q < r@.len() ==> requested_property(entity_ids@, (#[trigger] r@[q])@),
            forall|p: int|
                0 <= p < entity_ids@.len() && (#[trigger] entity_ids@[p]) is Property
                    && assoc_get(self.properties@, entity_ids@[p]->Property_0@) is None
                    ==> id_listed(r@, entity_ids@[p]->Property_0@),
    {
        let n = entity_ids.len();
        let mut out: Vec<String> = Vec::new();
        let mut i: usize = 0;
        while i < n
            invariant
                0 <= i <= n,
                n == entity_ids@.len(),
                forall|q: int|
                    0 <= q < out@.len() ==> assoc_get(self.properties@, (#[trigger] out@[q])@)
                        is None,
                forall|q: int|
                    0 <= q < out@.len() ==> requested_property(
                        entity_ids@,
                        (#[trigger] out@[q])@,
                    ),
                forall|p: int|
                    0 <= p < i && (#[trigger] entity_ids@[p]) is Property && assoc_get(
                        self.properties@,
                        entity_ids@[p]->Property_0@,
                    ) is None ==> id_listed(out@, entity_ids@[p]->Property_0@),
            decreases n - i,
        {
            let ghost before = out@;
            match &entity_ids[i] {
                EntityId::Property(id) => {
                    match assoc_lookup(&self.properties, id.as_str()) {
                        Some(_) => {},
                        None => {
                            out.push(id.clone());
                            proof {
                                assert((out@[out@.len() - 1])@ == id@);
                                assert(entity_ids@[i as int] matches EntityId::Property(s)
                                    && s@ == id@);
                                assert(requested_property(entity_ids@, id@));
                                assert(id_listed(out@, id@));
                                assert(forall|q: int|
                                    0 <= q < before.len() ==> out@[q] == before[q]);
                                assert(forall|sid: Seq<char>|
                                    #[trigger] id_listed(before, sid) ==> id_listed(out@, sid));
                            }
                        },
                    }
                },
                _ => {},
            }
            i = i + 1;
        }
        out
    }

    /// Stores one fetched item under its ID; an item whose ID is unset
    /// or not an item ID is passed over, and other IDs keep their cached
    /// entries.
    pub fn store_item(&mut self, item: Item)
        ensures
            item.id matches EntityId::Item(s) ==> assoc_get(final(self).items@, s@) == Some(
                item,
            ),
            forall|k: Seq<char>|
                !(item.id matches EntityId::Item(s) && s@ == k) ==> #[trigger] assoc_get(
                    final(self).items@,
                    k,
                ) == assoc_get(old(self).items@, k),
            final(self).properties == old(self).properties,
    {
        let id = match item.id() {
            EntityId::Item(s) => s.clone(),
            _ => {
                return ;
            },
        };
        assoc_set(&mut self.items, id, item);
    }

    /// Stores one fetched property under its ID; one whose ID is unset
    /// or not a property ID is passed over, and other IDs keep their
    /// cached entries.
    pub fn store_property(&mut self, property: Property)
        ensures
            property.id matches EntityId::Property(s) ==> assoc_get(
                final(self).properties@,
                s@,
            ) == Some(property),
            forall|k: Seq<char>|
                !(property.id matches EntityId::Property(s) && s@ == k) ==> #[trigger] assoc_get(
                    final(self).properties@,
                    k,
                ) == assoc_get(old(self).properties@, k),
            final(self).items == old(self).items,
    {
        let id = match property.id() {
            EntityId::Property(s) => s.clone(),
            _ => {
                return ;
            },
        };
        assoc_set(&mut self.properties, id, property);
    }

    /// Merges the outcomes of a batch of item fetches: every fetched
    /// item lands in the cache under its ID, an ID the batch does not
    /// carry keeps its cached entry, and a failed fetch — a missing
    /// outcome — is dropped without failing the batch.
    pub fn store_fetched_items(&mut self, fetched: Vec<Option<Item>>)
        ensures
            forall|q: int|
                0 <= q < fetched@.len() ==> ((#[trigger] fetched@[q]) matches Some(it)
                    ==> (it.id matches EntityId::Item(s) ==> assoc_get(
                    final(self).items@,
                    s@,
                ) is Some)),
            forall|k: Seq<char>|
                !batch_has_item(fetched@, k) ==> #[trigger] assoc_get(final(self).items@, k)
                    == assoc_get(old(self).items@, k),
            final(self).properties == old(self).properties,
    {
        let ghost all = fetched@;
        let mut rest = fetched;
        while rest.len() > 0
            invariant
                self.properties == old(self).properties,
                rest@.len() <= all.len(),
                rest@ =~= all.skip(all.len() - rest@.len()),
                forall|q: int|
                    0 <= q < all.len() - rest@.len() ==> ((#[trigger] all[q]) matches Some(it)
                        ==> (it.id matches EntityId::Item(s) ==> assoc_get(
                        self.items@,
                        s@,
                    ) is Some)),
                forall|k: Seq<char>|
                    !batch_has_item(all, k) ==> #[trigger] assoc_get(self.items@, k)
                        == assoc_get(old(self).items@, k),
            decreases rest@.len(),
        {
            let ghost done = all.len() - rest@.len();
            proof {
                assert(rest@[0] == all[done]);
            }
            match rest.remove(0) {
                Some(item) => {
                    let ghost itg = item;
                    let ghost prev = self.items@;
                    self.store_item(item);
                    proof {
                        assert(all[done] == Some(itg));
                        assert forall|k: Seq<char>| !batch_has_item(all, k) implies #[trigger]
                            assoc_get(self.items@, k) == assoc_get(old(self).items@, k) by {
                            assert(assoc_get(prev, k) == assoc_get(old(self).items@, k));
                            if assoc_get(self.items@, k) != assoc_get(prev, k) {
                                assert(itg.id matches EntityId::Item(s) && s@ == k);
                                assert(batch_has_item(all, k));
                            }
                        }
                    }
                },
                None => {
                    // a failed fetch is dropped: the batch is best-effort
                },
            }
            proof {
                assert(rest@ =~= all.skip(all.len() - rest@.len()));
            }
        }
    }

    /// Merges the outcomes of a batch of property fetches: every fetched
    /// property lands in the cache under its ID, an ID the batch does not
    /// carry keeps its cached entry, and a failed fetch is dropped.
    pub fn store_fetched_properties(&mut self, fetched: Vec<Option<Property>>)
        ensures
            forall|q: int|
                0 <= q < fetched@.len() ==> ((#[trigger] fetched@[q]) matches Some(p)
                    ==> (p.id matches EntityId::Property(s) ==> assoc_get(
                    final(self).properties@,
                    s@,
                ) is Some)),
            forall|k: Seq<char>|
                !batch_has_property(fetched@, k) ==> #[trigger] assoc_get(
                    final(self).properties@,
                    k,
                ) == assoc_get(old(self).properties@, k),
            final(self).items == old(self).items,
    {
        let ghost all = fetched@;
        let mut rest = fetched;
        while rest.len() > 0
            invariant
                self.items == old(self).items,
                rest@.len() <= all.len(),
                rest@ =~= all.skip(all.len() - rest@.len()),
                forall|q: int|
                    0 <= q < all.len() - rest@.len() ==> ((#[trigger] all[q]) matches Some(p)
                        ==> (p.id matches EntityId::Property(s) ==> assoc_get(
                        self.properties@,
                        s@,
                    ) is Some)),
                forall|k: Seq<char>|
                    !batch_has_property(all, k) ==> #[trigger] assoc_get(self.properties@, k)
                        == assoc_get(old(self).properties@, k),
            decreases rest@.len(),
        {
            let ghost done = all.len() - rest@.len();
            proof {
                assert(rest@[0] == all[done]);
            }
            match rest.remove(0) {
                Some(property) => {
                    let ghost pg = property;
                    let ghost prev = self.properties@;
                    self.store_property(property);
                    proof {
                        assert(all[done] == Some(pg));
                        assert forall|k: Seq<char>| !batch_has_property(all, k) implies
                            #[trigger] assoc_get(self.properties@, k) == assoc_get(
                            old(self).properties@,
                            k,
                        ) by {
                            assert(assoc_get(prev, k) == assoc_get(old(self).properties@, k));
                            if assoc_get(self.properties@, k) != assoc_get(prev, k) {
                                assert(pg.id matches EntityId::Property(s) && s@ == k);
                                assert(batch_has_property(all, k));
                            }
                        }
                    }
                },
                None => {
                    // a failed fetch is dropped: the batch is best-effort
                },
            }
            proof {
                assert(rest@ =~= all.skip(all.len() - rest@.len()));
            }
        }
    }
}

} // verus!
