//! An item: the aggregate of its sub-resources, with its entity ID and
//! response metadata.

use vstd::prelude::*;
use crate::aliases::{Aliases, alias_obj};
use crate::aliases_in_language::AliasesInLanguage;
use crate::descriptions::Descriptions;
use crate::entity_id::EntityId;
use crate::entity_patch::EntityPatch;
use crate::error::RestApiError;
use crate::header_info::HeaderInfo;
use crate::json::{Json, JsonValue, json_clone};
use crate::apply::{as_text, get_key};
use crate::labels::Labels;
use crate::language_strings::lang_obj;
use crate::sitelinks::{Sitelinks, sitelinks_obj};
use crate::statements::{Statements, any_nameless, obj_get_equal};

verus! {

/// True when the two items serialize alike in every sub-resource, so no
/// patch operation separates them.
pub open spec fn item_same(a: Item, b: Item) -> bool {
    &&& Json::Obj(lang_obj(a.labels.entries@)) == Json::Obj(lang_obj(b.labels.entries@))
    &&& Json::Obj(lang_obj(a.descriptions.entries@)) == Json::Obj(
        lang_obj(b.descriptions.entries@),
    )
    &&& Json::Obj(alias_obj(a.aliases.entries@)) == Json::Obj(alias_obj(b.aliases.entries@))
    &&& Json::Obj(sitelinks_obj(a.sitelinks.sitelinks@)) == Json::Obj(
        sitelinks_obj(b.sitelinks.sitelinks@),
    )
    &&& obj_get_equal(b.statements.stmt_pairs(), a.statements.stmt_pairs())
}

/// The serialized form of an item: empty sub-resources and an unset ID
/// are left out, as on the wire.
pub open spec fn spec_item_json(it: Item) -> Json {
    let p0: Seq<(Seq<char>, Json)> = Seq::empty();
    let p1 = if it.id is Unset {
        p0
    } else {
        crate::json::obj_upsert(p0, "id"@, Json::Str(spec_entity_id_text(it.id)))
    };
    let p2 = if it.labels.entries@.len() == 0 {
        p1
    } else {
        crate::json::obj_upsert(p1, "labels"@, Json::Obj(lang_obj(it.labels.entries@)))
    };
    let p3 = if it.descriptions.entries@.len() == 0 {
        p2
    } else {
        crate::json::obj_upsert(
            p2,
            "descriptions"@,
            Json::Obj(lang_obj(it.descriptions.entries@)),
        )
    };
    let p4 = if it.aliases.entries@.len() == 0 {
        p3
    } else {
        crate::json::obj_upsert(p3, "aliases"@, Json::Obj(alias_obj(it.aliases.entries@)))
    };
    let p5 = if it.sitelinks.sitelinks@.len() == 0 {
        p4
    } else {
        crate::json::obj_upsert(
            p4,
            "sitelinks"@,
            Json::Obj(sitelinks_obj(it.sitelinks.sitelinks@)),
        )
    };
    let p6 = if it.statements.statements@.len() == 0 {
        p5
    } else {
        crate::json::obj_upsert(
            p5,
            "statements"@,
            Json::Obj(crate::statements::statements_obj(it.statements.statements@)),
        )
    };
    Json::Obj(p6)
}

/// The bare text of an entity ID; empty when unset.
pub open spec fn spec_entity_id_text(id: EntityId) -> Seq<char> {
    match id {
        EntityId::Item(s) => s@,
        EntityId::Property(s) => s@,
        EntityId::Unset => Seq::empty(),
    }
}

/// What a successful parse of an item yields: its ID text, and for each
/// sub-resource member the corresponding lookup relation.
pub open spec fn item_parsed(j: Json, it: Item) -> bool {
    &&& it.id matches EntityId::Item(s) && crate::statement_value::member(j, "id"@) == Some(
        Json::Str(s@),
    )
    &&& crate::statement_value::member(j, "labels"@) matches Some(Json::Obj(lps)) && forall|
        k: Seq<char>,
    |
        #[trigger] crate::language_strings::lang_get(it.labels.entries@, k) == (
        match crate::json::obj_get(lps, k) {
            Some(Json::Str(t)) => Some(t),
            _ => None,
        })
    &&& crate::statement_value::member(j, "descriptions"@) matches Some(Json::Obj(dps))
        && forall|k: Seq<char>|
        #[trigger] crate::language_strings::lang_get(it.descriptions.entries@, k) == (
        match crate::json::obj_get(dps, k) {
            Some(Json::Str(t)) => Some(t),
            _ => None,
        })
    &&& crate::statement_value::member(j, "aliases"@) matches Some(Json::Obj(aps)) && forall|
        k: Seq<char>,
    | #[trigger] crate::aliases::alias_lists_match(it.aliases.entries@, aps, k)
    &&& crate::statement_value::member(j, "sitelinks"@) matches Some(Json::Obj(sps)) && forall|
        k: Seq<char>,
    | #[trigger] crate::sitelinks::sitelinks_match(it.sitelinks.sitelinks@, sps, k)
    &&& crate::statement_value::member(j, "statements"@) matches Some(Json::Obj(tps))
        && forall|k: Seq<char>|
        #[trigger] crate::statements::statements_groups_match(
            it.statements.statements@,
            tps,
            k,
        )
}

/// What the item parser accepts: a string ID and each sub-resource
/// member present and acceptable to its own parser.
pub open spec fn item_accepted(j: Json) -> bool {
    &&& crate::statement_value::member(j, "id"@) matches Some(Json::Str(_))
    &&& crate::statement_value::member(j, "labels"@) matches Some(lj)
        && crate::language_strings::lang_accepted(lj)
    &&& crate::statement_value::member(j, "descriptions"@) matches Some(dj)
        && crate::language_strings::lang_accepted(dj)
    &&& crate::statement_value::member(j, "aliases"@) matches Some(aj)
        && crate::aliases::aliases_accepted(aj)
    &&& crate::statement_value::member(j, "sitelinks"@) matches Some(sj)
        && crate::sitelinks::sitelinks_accepted(sj)
    &&& crate::statement_value::member(j, "statements"@) matches Some(tj)
        && crate::statements::statements_accepted(tj)
}

/// One sub-resource block of an entity patch: replaying the entries
/// turns the old serialized form into the new one, and the block is
/// empty exactly when the two forms agree.
pub open spec fn doc_block(fromd: Json, tod: Json, es: Seq<crate::patch_entry::Entry>) -> bool {
    &&& crate::apply::apply_entries(fromd, es) == Some(tod)
    &&& (es.len() == 0 <==> fromd == tod)
}

/// The statements block of an entity patch: the reconciler's output for
/// the two collections, empty exactly when they carry the same IDs with
/// the same bodies.
pub open spec fn statements_block(
    fromst: Statements,
    tost: Statements,
    es: Seq<crate::patch_entry::Entry>,
) -> bool {
    &&& crate::statements::reconciler_entries(fromst.stmt_pairs(), tost.stmt_pairs(), es)
    &&& (es.len() == 0 <==> obj_get_equal(fromst.stmt_pairs(), tost.stmt_pairs()))
}

/// An item patch is the five sub-resource patches in a fixed order:
/// labels, descriptions, aliases, sitelinks, then the statement
/// reconciliation, each block speaking only of its own sub-resource.
pub open spec fn item_patch_blocks(
    it: Item,
    other: Item,
    es: Seq<crate::patch_entry::Entry>,
) -> bool {
    exists|n1: int, n2: int, n3: int, n4: int|
        #![trigger es.take(n1), es.take(n2), es.take(n3), es.take(n4)]
        0 <= n1 <= n2 <= n3 <= n4 <= es.len() && doc_block(
            Json::Obj(lang_obj(other.labels.entries@)),
            Json::Obj(lang_obj(it.labels.entries@)),
            es.take(n1),
        ) && doc_block(
            Json::Obj(lang_obj(other.descriptions.entries@)),
            Json::Obj(lang_obj(it.descriptions.entries@)),
            es.take(n2).skip(n1),
        ) && doc_block(
            Json::Obj(alias_obj(other.aliases.entries@)),
            Json::Obj(alias_obj(it.aliases.entries@)),
            es.take(n3).skip(n2),
        ) && doc_block(
            Json::Obj(sitelinks_obj(other.sitelinks.sitelinks@)),
            Json::Obj(sitelinks_obj(it.sitelinks.sitelinks@)),
            es.take(n4).skip(n3),
        ) && statements_block(other.statements, it.statements, es.skip(n4))
}

/// An item.
#[derive(Debug, Clone)]
pub struct Item {
    pub id: EntityId,
    pub labels: Labels,
    pub descriptions: Descriptions,
    pub aliases: Aliases,
    pub sitelinks: Sitelinks,
    pub statements: Statements,
    pub header_info: HeaderInfo,
}

impl Item {
    /// Returns the entity ID.
    pub fn id(&self) -> (r: &EntityId)
        ensures
            r == &self.id,
    {
        &self.id
    }

    /// Returns the statements.
    pub fn statements(&self) -> (r: &Statements)
        ensures
            r == &self.statements,
    {
        &self.statements
    }

    /// Returns the labels.
    pub fn labels(&self) -> (r: &Labels)
        ensures
            r == &self.labels,
    {
        &self.labels
    }

    /// Returns the descriptions.
    pub fn descriptions(&self) -> (r: &Descriptions)
        ensures
            r == &self.descriptions,
    {
        &self.descriptions
    }

    /// Returns the aliases.
    pub fn aliases(&self) -> (r: &Aliases)
        ensures
            r == &self.aliases,
    {
        &self.aliases
    }

    /// The aliases of one language, as their own list.
    pub fn as_aliases(&self, lang: &str) -> (r: AliasesInLanguage)
        ensures
            r.language@ == lang@,
    {
        let values = match self.aliases.get_lang(lang) {
            Some(list) => {
                let m = list.len();
                let mut vs: Vec<String> = Vec::new();
                let mut s: usize = 0;
                while s < m
                    invariant
                        0 <= s <= m,
                        m == list@.len(),
                    decreases m - s,
                {
                    vs.push(list[s].clone());
                    s = s + 1;
                }
                vs
            },
            None => Vec::new(),
        };
        AliasesInLanguage::new(lang, values)
    }

    /// Returns the sitelinks.
    pub fn sitelinks(&self) -> (r: &Sitelinks)
        ensures
            r == &self.sitelinks,
    {
        &self.sitelinks
    }

    /// Returns the response metadata.
    pub fn header_info(&self) -> (r: &HeaderInfo)
        ensures
            r == &self.header_info,
    {
        &self.header_info
    }

    /// Computes the patch that transforms `other` into this item: the
    /// patches of the five sub-resources, concatenated.  A statement of
    /// this item without an ID is rejected.
    pub fn patch(&self, other: &Item) -> (r: Result<EntityPatch, RestApiError>)
        ensures
            match r {
                Ok(p) => {
                    &&& p.mode is Item
                    &&& !any_nameless(self.statements.statements@)
                    &&& ((p.patch@.len() == 0) <==> item_same(*self, *other))
                    &&& item_patch_blocks(
                        *self,
                        *other,
                        crate::patch_entry::view_entries(p.patch@),
                    )
                },
                Err(e) => e is MissingId && any_nameless(self.statements.statements@),
            },
    {
        let labels_patch = match self.labels.patch(&other.labels) {
            Ok(p) => p,
            Err(e) => {
                return Err(e);
            },
        };
        let descriptions_patch = match self.descriptions.patch(&other.descriptions) {
            Ok(p) => p,
            Err(e) => {
                return Err(e);
            },
        };
        let aliases_patch = match self.aliases.patch(&other.aliases) {
            Ok(p) => p,
            Err(e) => {
                return Err(e);
            },
        };
        let sitelinks_patch = match self.sitelinks.patch(&other.sitelinks) {
            Ok(p) => p,
            Err(e) => {
                return Err(e);
            },
        };
        // statements are reconciled from `other` towards this item, so
        // this item's statements are the targets and must carry IDs
        let statements_patch = match other.statements.patch(&self.statements) {
            Ok(p) => p,
            Err(e) => {
                return Err(e);
            },
        };
        let ghost e1 = crate::patch_entry::view_entries(labels_patch.patch@);
        let ghost e2 = crate::patch_entry::view_entries(descriptions_patch.patch@);
        let ghost e3 = crate::patch_entry::view_entries(aliases_patch.patch@);
        let ghost e4 = crate::patch_entry::view_entries(sitelinks_patch.patch@);
        let ghost e5 = crate::patch_entry::view_entries(statements_patch.patch@);
        let mut ret = EntityPatch::item();
        let mut lp = labels_patch;
        ret.patch.append(&mut lp.patch);
        proof {
            assert(crate::patch_entry::view_entries(ret.patch@) =~= e1);
        }
        let mut dp = descriptions_patch;
        ret.patch.append(&mut dp.patch);
        proof {
            assert(crate::patch_entry::view_entries(ret.patch@) =~= e1 + e2);
        }
        let mut ap = aliases_patch;
        ret.patch.append(&mut ap.patch);
        proof {
            assert(crate::patch_entry::view_entries(ret.patch@) =~= e1 + e2 + e3);
        }
        let mut sp = sitelinks_patch;
        ret.patch.append(&mut sp.patch);
        proof {
            assert(crate::patch_entry::view_entries(ret.patch@) =~= e1 + e2 + e3 + e4);
        }
        let mut stp = statements_patch;
        ret.patch.append(&mut stp.patch);
        proof {
            let es = crate::patch_entry::view_entries(ret.patch@);
            assert(es =~= e1 + e2 + e3 + e4 + e5);
            let n1 = e1.len() as int;
            let n2 = n1 + e2.len();
            let n3 = n2 + e3.len();
            let n4 = n3 + e4.len();
            assert(es.take(n1) =~= e1);
            assert(es.take(n2) =~= e1 + e2);
            assert(es.take(n3) =~= e1 + e2 + e3);
            assert(es.take(n4) =~= e1 + e2 + e3 + e4);
            assert(es.take(n2).skip(n1) =~= e2);
            assert(es.take(n3).skip(n2) =~= e3);
            assert(es.take(n4).skip(n3) =~= e4);
            assert(es.skip(n4) =~= e5);
            assert(doc_block(
                Json::Obj(lang_obj(other.labels.entries@)),
                Json::Obj(lang_obj(self.labels.entries@)),
                e1,
            ));
            assert(doc_block(
                Json::Obj(lang_obj(other.descriptions.entries@)),
                Json::Obj(lang_obj(self.descriptions.entries@)),
                e2,
            ));
            assert(doc_block(
                Json::Obj(alias_obj(other.aliases.entries@)),
                Json::Obj(alias_obj(self.aliases.entries@)),
                e3,
            ));
            assert(doc_block(
                Json::Obj(sitelinks_obj(other.sitelinks.sitelinks@)),
                Json::Obj(sitelinks_obj(self.sitelinks.sitelinks@)),
                e4,
            ));
            assert(statements_block(other.statements, self.statements, e5));
            assert(item_patch_blocks(*self, *other, es));
        }
        Ok(ret)
    }

    /// Serializes the item; empty sub-resources and an unset ID are left
    /// out, as on the wire.
    pub fn to_json(&self) -> (r: JsonValue)
        ensures
            r@ == spec_item_json(*self),
            r@.wf(),
    {
        let p0: Vec<(String, JsonValue)> = Vec::new();
        proof {
            assert(crate::json::view_pairs(p0@) =~= Seq::<(Seq<char>, Json)>::empty());
        }
        let mut acc = p0;
        proof {
            assert(crate::json::keys_sorted(crate::json::view_pairs(acc@)));
            assert(crate::json::pairs_wf(crate::json::view_pairs(acc@)));
        }
        if self.id.is_some() {
            let idtext = match self.id.id() {
                Ok(s) => s.clone(),
                Err(_) => String::new(),
            };
            proof {
                crate::json::lemma_obj_upsert_sorted(
                    crate::json::view_pairs(acc@),
                    "id"@,
                    Json::Str(idtext@),
                );
                crate::json::lemma_obj_upsert_wf(
                    crate::json::view_pairs(acc@),
                    "id"@,
                    Json::Str(idtext@),
                );
            }
            acc = crate::apply::obj_insert_sorted(&acc, "id", JsonValue::Str(idtext));
        }
        if !self.labels.is_empty() {
            let lj = self.labels.to_json();
            proof {
                crate::json::lemma_obj_upsert_sorted(
                    crate::json::view_pairs(acc@),
                    "labels"@,
                    lj@,
                );
                crate::json::lemma_obj_upsert_wf(crate::json::view_pairs(acc@), "labels"@, lj@);
            }
            acc = crate::apply::obj_insert_sorted(&acc, "labels", lj);
        }
        if !self.descriptions.is_empty() {
            let dj = self.descriptions.to_json();
            proof {
                crate::json::lemma_obj_upsert_sorted(
                    crate::json::view_pairs(acc@),
                    "descriptions"@,
                    dj@,
                );
                crate::json::lemma_obj_upsert_wf(
                    crate::json::view_pairs(acc@),
                    "descriptions"@,
                    dj@,
                );
            }
            acc = crate::apply::obj_insert_sorted(&acc, "descriptions", dj);
        }
        if !self.aliases.is_empty() {
            let aj = self.aliases.to_json();
            proof {
                crate::json::lemma_obj_upsert_sorted(
                    crate::json::view_pairs(acc@),
                    "aliases"@,
                    aj@,
                );
                crate::json::lemma_obj_upsert_wf(crate::json::view_pairs(acc@), "aliases"@, aj@);
            }
            acc = crate::apply::obj_insert_sorted(&acc, "aliases", aj);
        }
        if !self.sitelinks.is_empty() {
            let sj = self.sitelinks.to_json();
            proof {
                crate::json::lemma_obj_upsert_sorted(
                    crate::json::view_pairs(acc@),
                    "sitelinks"@,
                    sj@,
                );
                crate::json::lemma_obj_upsert_wf(
                    crate::json::view_pairs(acc@),
                    "sitelinks"@,
                    sj@,
                );
            }
            acc = crate::apply::obj_insert_sorted(&acc, "sitelinks", sj);
        }
        if !self.statements.is_empty() {
            let stj = self.statements.to_json();
            proof {
                crate::json::lemma_obj_upsert_sorted(
                    crate::json::view_pairs(acc@),
                    "statements"@,
                    stj@,
                );
                crate::json::lemma_obj_upsert_wf(
                    crate::json::view_pairs(acc@),
                    "statements"@,
                    stj@,
                );
            }
            acc = crate::apply::obj_insert_sorted(&acc, "statements", stj);
        }
        JsonValue::Object(acc)
    }

    /// Parses an item: its `id` and all five sub-resource members are
    /// required.
    pub fn from_json_header_info(j: &JsonValue, header_info: HeaderInfo) -> (r: Result<
        Item,
        RestApiError,
    >)
        ensures
            r matches Ok(it) ==> item_parsed(j@, it) && it.header_info == header_info,
            r is Err ==> !item_accepted(j@),
    {
        let idtext = match get_key(j, "id") {
            Some(v) => match as_text(v) {
                Some(s) => s.clone(),
                None => {
                    return Err(
                        RestApiError::MissingOrInvalidField {
                            field: String::from_str("id"),
                            j: json_clone(j),
                        },
                    );
                },
            },
            None => {
                return Err(
                    RestApiError::MissingOrInvalidField {
                        field: String::from_str("id"),
                        j: json_clone(j),
                    },
                );
            },
        };
        let labels = match get_key(j, "labels") {
            Some(v) => match Labels::from_json(v) {
                Ok(l) => l,
                Err(e) => {
                    return Err(e);
                },
            },
            None => {
                return Err(
                    RestApiError::MissingOrInvalidField {
                        field: String::from_str("labels"),
                        j: json_clone(j),
                    },
                );
            },
        };
        let descriptions = match get_key(j, "descriptions") {
            Some(v) => match Descriptions::from_json(v) {
                Ok(d) => d,
                Err(e) => {
                    return Err(e);
                },
            },
            None => {
                return Err(
                    RestApiError::MissingOrInvalidField {
                        field: String::from_str("descriptions"),
                        j: json_clone(j),
                    },
                );
            },
        };
        let aliases = match get_key(j, "aliases") {
            Some(v) => match Aliases::from_json(v) {
                Ok(a) => a,
                Err(e) => {
                    return Err(e);
                },
            },
            None => {
                return Err(
                    RestApiError::MissingOrInvalidField {
                        field: String::from_str("aliases"),
                        j: json_clone(j),
                    },
                );
            },
        };
        let sitelinks = match get_key(j, "sitelinks") {
            Some(v) => match Sitelinks::from_json(v) {
                Ok(s) => s,
                Err(e) => {
                    return Err(e);
                },
            },
            None => {
                return Err(
                    RestApiError::MissingOrInvalidField {
                        field: String::from_str("sitelinks"),
                        j: json_clone(j),
                    },
                );
            },
        };
        let statements = match get_key(j, "statements") {
            Some(v) => match Statements::from_json(v) {
                Ok(s) => s,
                Err(e) => {
                    return Err(e);
                },
            },
            None => {
                return Err(
                    RestApiError::MissingOrInvalidField {
                        field: String::from_str("statements"),
                        j: json_clone(j),
                    },
                );
            },
        };
        Ok(
            Item {
                id: EntityId::Item(idtext),
                labels,
                descriptions,
                aliases,
                sitelinks,
                statements,
                header_info,
            },
        )
    }

    /// Parses an item without response metadata.
    pub fn from_json(j: &JsonValue) -> (r: Result<Item, RestApiError>)
        ensures
            r matches Ok(it) ==> item_parsed(j@, it),
            r is Err ==> !item_accepted(j@),
    {
        Self::from_json_header_info(j, HeaderInfo::default())
    }
}

impl Default for Item {
    /// The default item: unset ID and empty sub-resources.
    fn default() -> (r: Item)
        ensures
            r.id is Unset,
            r.labels.entries@.len() == 0,
            r.descriptions.entries@.len() == 0,
            r.aliases.entries@.len() == 0,
            r.sitelinks.sitelinks@.len() == 0,
            r.statements.statements@.len() == 0,
    {
        Item {
            id: EntityId::Unset,
            labels: Labels::default(),
            descriptions: Descriptions::default(),
            aliases: Aliases::default(),
            sitelinks: Sitelinks::default(),
            statements: Statements {
                statements: Vec::new(),
                header_info: HeaderInfo::default(),
            },
            header_info: HeaderInfo::default(),
        }
    }
}

} // verus!
