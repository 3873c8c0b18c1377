//! A property entity: the aggregate of its sub-resources, with its
//! entity ID and response metadata.

use vstd::prelude::*;
use crate::aliases::{Aliases, alias_obj};
use crate::aliases_in_language::AliasesInLanguage;
use crate::descriptions::Descriptions;
use crate::entity_id::EntityId;
use crate::entity_patch::EntityPatch;
use crate::error::RestApiError;
use crate::header_info::HeaderInfo;
use crate::json::{Json, JsonValue, json_clone};
use crate::apply::{as_text, get_key};
use crate::labels::Labels;
use crate::language_strings::lang_obj;
use crate::statements::{Statements, any_nameless, obj_get_equal};

verus! {

/// True when the two properties serialize alike in every sub-resource,
/// so no patch operation separates them.
pub open spec fn property_same(a: Property, b: Property) -> bool {
    &&& Json::Obj(lang_obj(a.labels.entries@)) == Json::Obj(lang_obj(b.labels.entries@))
    &&& Json::Obj(lang_obj(a.descriptions.entries@)) == Json::Obj(
        lang_obj(b.descriptions.entries@),
    )
    &&& Json::Obj(alias_obj(a.aliases.entries@)) == Json::Obj(alias_obj(b.aliases.entries@))
    &&& obj_get_equal(b.statements.stmt_pairs(), a.statements.stmt_pairs())
}

/// The serialized form of a property entity: empty sub-resources and an
/// unset ID are left out, as on the wire.
pub open spec fn spec_property_entity_json(it: Property) -> Json {
    let p0: Seq<(Seq<char>, Json)> = Seq::empty();
    let p1 = if it.id is Unset {
        p0
    } else {
        crate::json::obj_upsert(p0, "id"@, Json::Str(crate::item::spec_entity_id_text(it.id)))
    };
    let p2 = if it.labels.entries@.len() == 0 {
        p1
    } else {
        crate::json::obj_upsert(p1, "labels"@, Json::Obj(lang_obj(it.labels.entries@)))
    };
    let p3 = if it.descriptions.entries@.len() == 0 {
        p2
    } else {
        crate::json::obj_upsert(
            p2,
            "descriptions"@,
            Json::Obj(lang_obj(it.descriptions.entries@)),
        )
    };
    let p4 = if it.aliases.entries@.len() == 0 {
        p3
    } else {
        crate::json::obj_upsert(p3, "aliases"@, Json::Obj(alias_obj(it.aliases.entries@)))
    };
    let p5 = if it.statements.statements@.len() == 0 {
        p4
    } else {
        crate::json::obj_upsert(
            p4,
            "statements"@,
            Json::Obj(crate::statements::statements_obj(it.statements.statements@)),
        )
    };
    Json::Obj(p5)
}

/// What a successful parse of a property entity yields: its ID text,
/// and for each sub-resource member the corresponding lookup relation.
pub open spec fn property_entity_parsed(j: Json, it: Property) -> bool {
    &&& it.id matches EntityId::Property(s) && crate::statement_value::member(j, "id"@) == Some(
        Json::Str(s@),
    )
    &&& crate::statement_value::member(j, "labels"@) matches Some(Json::Obj(lps)) && forall|
        k: Seq<char>,
    |
        #[trigger] crate::language_strings::lang_get(it.labels.entries@, k) == (
        match crate::json::obj_get(lps, k) {
            Some(Json::Str(t)) => Some(t),
            _ => None,
        })
    &&& crate::statement_value::member(j, "descriptions"@) matches Some(Json::Obj(dps))
        && forall|k: Seq<char>|
        #[trigger] crate::language_strings::lang_get(it.descriptions.entries@, k) == (
        match crate::json::obj_get(dps, k) {
            Some(Json::Str(t)) => Some(t),
            _ => None,
        })
    &&& crate::statement_value::member(j, "aliases"@) matches Some(Json::Obj(aps)) && forall|
        k: Seq<char>,
    | #[trigger] crate::aliases::alias_lists_match(it.aliases.entries@, aps, k)
    &&& crate::statement_value::member(j, "statements"@) matches Some(Json::Obj(tps))
        && forall|k: Seq<char>|
        #[trigger] crate::statements::statements_groups_match(
            it.statements.statements@,
            tps,
            k,
        )
}

/// What the property parser accepts: a string ID and each sub-resource
/// member present and acceptable to its own parser.
pub open spec fn property_entity_accepted(j: Json) -> bool {
    &&& crate::statement_value::member(j, "id"@) matches Some(Json::Str(_))
    &&& crate::statement_value::member(j, "labels"@) matches Some(lj)
        && crate::language_strings::lang_accepted(lj)
    &&& crate::statement_value::member(j, "descriptions"@) matches Some(dj)
        && crate::language_strings::lang_accepted(dj)
    &&& crate::statement_value::member(j, "aliases"@) matches Some(aj)
        && crate::aliases::aliases_accepted(aj)
    &&& crate::statement_value::member(j, "statements"@) matches Some(tj)
        && crate::statements::statements_accepted(tj)
}

/// A property patch is the four sub-resource patches in a fixed order:
/// labels, descriptions, aliases, then the statement reconciliation,
/// each block speaking only of its own sub-resource.
pub open spec fn property_patch_blocks(
    it: Property,
    other: Property,
    es: Seq<crate::patch_entry::Entry>,
) -> bool {
    exists|n1: int, n2: int, n3: int|
        #![trigger es.take(n1), es.take(n2), es.take(n3)]
        0 <= n1 <= n2 <= n3 <= es.len() && crate::item::doc_block(
            Json::Obj(lang_obj(other.labels.entries@)),
            Json::Obj(lang_obj(it.labels.entries@)),
            es.take(n1),
        ) && crate::item::doc_block(
            Json::Obj(lang_obj(other.descriptions.entries@)),
            Json::Obj(lang_obj(it.descriptions.entries@)),
            es.take(n2).skip(n1),
        ) && crate::item::doc_block(
            Json::Obj(alias_obj(other.aliases.entries@)),
            Json::Obj(alias_obj(it.aliases.entries@)),
            es.take(n3).skip(n2),
        ) && crate::item::statements_block(other.statements, it.statements, es.skip(n3))
}

/// A property entity.
#[derive(Debug, Clone)]
pub struct Property {
    pub id: EntityId,
    pub labels: Labels,
    pub descriptions: Descriptions,
    pub aliases: Aliases,
    pub statements: Statements,
    pub header_info: HeaderInfo,
}

impl Property {
    /// Returns the entity ID.
    pub fn id(&self) -> (r: &EntityId)
        ensures
            r == &self.id,
    {
        &self.id
    }

    /// Returns the statements.
    pub fn statements(&self) -> (r: &Statements)
        ensures
            r == &self.statements,
    {
        &self.statements
    }

    /// Returns the labels.
    pub fn labels(&self) -> (r: &Labels)
        ensures
            r == &self.labels,
    {
        &self.labels
    }

    /// Returns the descriptions.
    pub fn descriptions(&self) -> (r: &Descriptions)
        ensures
            r == &self.descriptions,
    {
        &self.descriptions
    }

    /// Returns the aliases.
    pub fn aliases(&self) -> (r: &Aliases)
        ensures
            r == &self.aliases,
    {
        &self.aliases
    }

    /// The aliases of one language, as their own list.
    pub fn as_aliases(&self, lang: &str) -> (r: AliasesInLanguage)
        ensures
            r.language@ == lang@,
    {
        let values = match self.aliases.get_lang(lang) {
            Some(list) => {
                let m = list.len();
                let mut vs: Vec<String> = Vec::new();
                let mut s: usize = 0;
                while s < m
                    invariant
                        0 <= s <= m,
                        m == list@.len(),
                    decreases m - s,
                {
                    vs.push(list[s].clone());
                    s = s + 1;
                }
                vs
            },
            None => Vec::new(),
        };
        AliasesInLanguage::new(lang, values)
    }

    /// Returns the response metadata.
    pub fn header_info(&self) -> (r: &HeaderInfo)
        ensures
            r == &self.header_info,
    {
        &self.header_info
    }

    /// Computes the patch that transforms `other` into this property:
    /// the patches of the four sub-resources, concatenated.  A statement
    /// of this property without an ID is rejected.
    pub fn patch(&self, other: &Property) -> (r: Result<EntityPatch, RestApiError>)
        ensures
            match r {
                Ok(p) => {
                    &&& p.mode is Property
                    &&& !any_nameless(self.statements.statements@)
                    &&& ((p.patch@.len() == 0) <==> property_same(*self, *other))
                    &&& property_patch_blocks(
                        *self,
                        *other,
                        crate::patch_entry::view_entries(p.patch@),
                    )
                },
                Err(e) => e is MissingId && any_nameless(self.statements.statements@),
            },
    {
        let labels_patch = match self.labels.patch(&other.labels) {
            Ok(p) => p,
            Err(e) => {
                return Err(e);
            },
        };
        let descriptions_patch = match self.descriptions.patch(&other.descriptions) {
            Ok(p) => p,
            Err(e) => {
                return Err(e);
            },
        };
        let aliases_patch = match self.aliases.patch(&other.aliases) {
            Ok(p) => p,
            Err(e) => {
                return Err(e);
            },
        };
        // statements are reconciled from `other` towards this item, so
        // this item's statements are the targets and must carry IDs
        let statements_patch = match other.statements.patch(&self.statements) {
            Ok(p) => p,
            Err(e) => {
                return Err(e);
            },
        };
        let ghost e1 = crate::patch_entry::view_entries(labels_patch.patch@);
        let ghost e2 = crate::patch_entry::view_entries(descriptions_patch.patch@);
        let ghost e3 = crate::patch_entry::view_entries(aliases_patch.patch@);
        let ghost e4 = crate::patch_entry::view_entries(statements_patch.patch@);
        let mut ret = EntityPatch::property();
        let mut lp = labels_patch;
        ret.patch.append(&mut lp.patch);
        proof {
            assert(crate::patch_entry::view_entries(ret.patch@) =~= e1);
        }
        let mut dp = descriptions_patch;
        ret.patch.append(&mut dp.patch);
        proof {
            assert(crate::patch_entry::view_entries(ret.patch@) =~= e1 + e2);
        }
        let mut ap = aliases_patch;
        ret.patch.append(&mut ap.patch);
        proof {
            assert(crate::patch_entry::view_entries(ret.patch@) =~= e1 + e2 + e3);
        }
        let mut stp = statements_patch;
        ret.patch.append(&mut stp.patch);
        proof {
            let es = crate::patch_entry::view_entries(ret.patch@);
            assert(es =~= e1 + e2 + e3 + e4);
            let n1 = e1.len() as int;
            let n2 = n1 + e2.len();
            let n3 = n2 + e3.len();
            assert(es.take(n1) =~= e1);
            assert(es.take(n2) =~= e1 + e2);
            assert(es.take(n3) =~= e1 + e2 + e3);
            assert(es.take(n2).skip(n1) =~= e2);
            assert(es.take(n3).skip(n2) =~= e3);
            assert(es.skip(n3) =~= e4);
            assert(crate::item::doc_block(
                Json::Obj(lang_obj(other.labels.entries@)),
                Json::Obj(lang_obj(self.labels.entries@)),
                e1,
            ));
            assert(crate::item::doc_block(
                Json::Obj(lang_obj(other.descriptions.entries@)),
                Json::Obj(lang_obj(self.descriptions.entries@)),
                e2,
            ));
            assert(crate::item::doc_block(
                Json::Obj(alias_obj(other.aliases.entries@)),
                Json::Obj(alias_obj(self.aliases.entries@)),
                e3,
            ));
            assert(crate::item::statements_block(other.statements, self.statements, e4));
            assert(property_patch_blocks(*self, *other, es));
        }
        Ok(ret)
    }

    /// Serializes the property entity; empty sub-resources and an unset
    /// ID are left out, as on the wire.
    pub fn to_json(&self) -> (r: JsonValue)
        ensures
            r@ == spec_property_entity_json(*self),
            r@.wf(),
    {
        let p0: Vec<(String, JsonValue)> = Vec::new();
        proof {
            assert(crate::json::view_pairs(p0@) =~= Seq::<(Seq<char>, Json)>::empty());
        }
        let mut acc = p0;
        proof {
            assert(crate::json::keys_sorted(crate::json::view_pairs(acc@)));
            assert(crate::json::pairs_wf(crate::json::view_pairs(acc@)));
        }
        if self.id.is_some() {
            let idtext = match self.id.id() {
                Ok(s) => s.clone(),
                Err(_) => String::new(),
            };
            proof {
                crate::json::lemma_obj_upsert_sorted(
                    crate::json::view_pairs(acc@),
                    "id"@,
                    Json::Str(idtext@),
                );
                crate::json::lemma_obj_upsert_wf(
                    crate::json::view_pairs(acc@),
                    "id"@,
                    Json::Str(idtext@),
                );
            }
            acc = crate::apply::obj_insert_sorted(&acc, "id", JsonValue::Str(idtext));
        }
        if !self.labels.is_empty() {
            let lj = self.labels.to_json();
            proof {
                crate::json::lemma_obj_upsert_sorted(
                    crate::json::view_pairs(acc@),
                    "labels"@,
                    lj@,
                );
                crate::json::lemma_obj_upsert_wf(crate::json::view_pairs(acc@), "labels"@, lj@);
            }
            acc = crate::apply::obj_insert_sorted(&acc, "labels", lj);
        }
        if !self.descriptions.is_empty() {
            let dj = self.descriptions.to_json();
            proof {
                crate::json::lemma_obj_upsert_sorted(
                    crate::json::view_pairs(acc@),
                    "descriptions"@,
                    dj@,
                );
                crate::json::lemma_obj_upsert_wf(
                    crate::json::view_pairs(acc@),
                    "descriptions"@,
                    dj@,
                );
            }
            acc = crate::apply::obj_insert_sorted(&acc, "descriptions", dj);
        }
        if !self.aliases.is_empty() {
            let aj = self.aliases.to_json();
            proof {
                crate::json::lemma_obj_upsert_sorted(
                    crate::json::view_pairs(acc@),
                    "aliases"@,
                    aj@,
                );
                crate::json::lemma_obj_upsert_wf(crate::json::view_pairs(acc@), "aliases"@, aj@);
            }
            acc = crate::apply::obj_insert_sorted(&acc, "aliases", aj);
        }
        if !self.statements.is_empty() {
            let stj = self.statements.to_json();
            proof {
                crate::json::lemma_obj_upsert_sorted(
                    crate::json::view_pairs(acc@),
                    "statements"@,
                    stj@,
                );
                crate::json::lemma_obj_upsert_wf(
                    crate::json::view_pairs(acc@),
                    "statements"@,
                    stj@,
                );
            }
            acc = crate::apply::obj_insert_sorted(&acc, "statements", stj);
        }
        JsonValue::Object(acc)
    }

    /// Parses a property entity: its `id` and all four sub-resource
    /// members are required.
    pub fn from_json_header_info(j: &JsonValue, header_info: HeaderInfo) -> (r: Result<
        Property,
        RestApiError,
    >)
        ensures
            r matches Ok(it) ==> property_entity_parsed(j@, it) && it.header_info == header_info,
            r is Err ==> !property_entity_accepted(j@),
    {
        let idtext = match get_key(j, "id") {
            Some(v) => match as_text(v) {
                Some(s) => s.clone(),
                None => {
                    return Err(
                        RestApiError::MissingOrInvalidField {
                            field: String::from_str("id"),
                            j: json_clone(j),
                        },
                    );
                },
            },
            None => {
                return Err(
                    RestApiError::MissingOrInvalidField {
                        field: String::from_str("id"),
                        j: json_clone(j),
                    },
                );
            },
        };
        let labels = match get_key(j, "labels") {
            Some(v) => match Labels::from_json(v) {
                Ok(l) => l,
                Err(e) => {
                    return Err(e);
                },
            },
            None => {
                return Err(
                    RestApiError::MissingOrInvalidField {
                        field: String::from_str("labels"),
                        j: json_clone(j),
                    },
                );
            },
        };
        let descriptions = match get_key(j, "descriptions") {
            Some(v) => match Descriptions::from_json(v) {
                Ok(d) => d,
                Err(e) => {
                    return Err(e);
                },
            },
            None => {
                return Err(
                    RestApiError::MissingOrInvalidField {
                        field: String::from_str("descriptions"),
                        j: json_clone(j),
                    },
                );
            },
        };
        let aliases = match get_key(j, "aliases") {
            Some(v) => match Aliases::from_json(v) {
                Ok(a) => a,
                Err(e) => {
                    return Err(e);
                },
            },
            None => {
                return Err(
                    RestApiError::MissingOrInvalidField {
                        field: String::from_str("aliases"),
                        j: json_clone(j),
                    },
                );
            },
        };
        let statements = match get_key(j, "statements") {
            Some(v) => match Statements::from_json(v) {
                Ok(s) => s,
                Err(e) => {
                    return Err(e);
                },
            },
            None => {
                return Err(
                    RestApiError::MissingOrInvalidField {
                        field: String::from_str("statements"),
                        j: json_clone(j),
                    },
                );
            },
        };
        Ok(
            Property {
                id: EntityId::Property(idtext),
                labels,
                descriptions,
                aliases,
                statements,
                header_info,
            },
        )
    }

    /// Parses a property entity without response metadata.
    pub fn from_json(j: &JsonValue) -> (r: Result<Property, RestApiError>)
        ensures
            r matches Ok(it) ==> property_entity_parsed(j@, it),
            r is Err ==> !property_entity_accepted(j@),
    {
        Self::from_json_header_info(j, HeaderInfo::default())
    }
}

impl Default for Property {
    /// The default property entity: unset ID and empty sub-resources.
    fn default() -> (r: Property)
        ensures
            r.id is Unset,
            r.labels.entries@.len() == 0,
            r.descriptions.entries@.len() == 0,
            r.aliases.entries@.len() == 0,
            r.statements.statements@.len() == 0,
    {
        Property {
            id: EntityId::Unset,
            labels: Labels::default(),
            descriptions: Descriptions::default(),
            aliases: Aliases::default(),
            statements: Statements {
                statements: Vec::new(),
                header_info: HeaderInfo::default(),
            },
            header_info: HeaderInfo::default(),
        }
    }
}

} // verus!
