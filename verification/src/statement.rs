//! Statements: a property/value assertion with rank, references and
//! qualifiers, identified by an opaque server-assigned ID once persisted.

use vstd::prelude::*;
use crate::data_type::DataType;
use crate::differ::diff_values;
use crate::entity_id::EntityId;
use crate::error::RestApiError;
use crate::header_info::HeaderInfo;
use crate::item::spec_entity_id_text;
use crate::json::{Json, JsonValue, json_clone, obj_upsert, view_elems};
use crate::apply::{apply_entries, as_text, get_key, obj_insert_sorted};
use crate::language_string::upper_ascii;
use crate::patch_entry::view_entries;
use crate::property_value::{
    PropertyType, PropertyValue, property_type_parsed, property_value_parsed,
    spec_property_type_json, spec_property_value_json,
};
use crate::reference::{Reference, reference_accepted, reference_parsed, spec_reference_json};
use crate::statement_patch::StatementPatch;
use crate::statement_rank::{StatementRank, spec_rank_str};
use crate::statement_value::{StatementValue, member, spec_value_json, value_parsed};
use crate::statement_value_content::{StatementValueContent, TimePrecision};

verus! {

/// A statement: its optional server-assigned ID, property, value, rank,
/// references and qualifiers, plus response metadata.
#[derive(Debug, Clone)]
pub struct Statement {
    pub statement_id: Option<String>,
    pub property: PropertyType,
    pub value: StatementValue,
    pub rank: StatementRank,
    pub references: Vec<Reference>,
    pub qualifiers: Vec<PropertyValue>,
    pub header_info: HeaderInfo,
}

/// The serialized references of a statement.
pub open spec fn spec_references_json(refs: Seq<Reference>) -> Seq<Json> {
    Seq::new(refs.len(), |i: int| spec_reference_json(refs[i]))
}

/// The serialized qualifiers of a statement.
pub open spec fn spec_qualifiers_json(quals: Seq<PropertyValue>) -> Seq<Json> {
    Seq::new(quals.len(), |i: int| spec_property_value_json(quals[i]))
}

/// The serialized form of a statement; the ID member appears only when an
/// ID is set.
pub open spec fn spec_statement_json(s: Statement) -> Json {
    Json::Obj(spec_statement_pairs(s))
}

/// The members of a serialized statement.
pub open spec fn spec_statement_pairs(s: Statement) -> Seq<(Seq<char>, Json)> {
    let base = if s.statement_id is Some {
        obj_upsert(Seq::empty(), "id"@, Json::Str(s.statement_id->0@))
    } else {
        Seq::empty()
    };
    obj_upsert(
        obj_upsert(
            obj_upsert(
                obj_upsert(
                    obj_upsert(base, "property"@, spec_property_type_json(s.property)),
                    "value"@,
                    spec_value_json(s.value),
                ),
                "rank"@,
                Json::Str(spec_rank_str(s.rank)),
            ),
            "references"@,
            Json::Arr(spec_references_json(s.references@)),
        ),
        "qualifiers"@,
        Json::Arr(spec_qualifiers_json(s.qualifiers@)),
    )
}

/// What a successful parse of a statement yields.  Response metadata is
/// not part of the wire form.
pub open spec fn statement_parsed(j: Json, s: Statement) -> bool {
    &&& s.statement_id matches Some(i) && member(j, "id"@) == Some(Json::Str(i@))
    &&& member(j, "rank"@) matches Some(Json::Str(t)) && crate::language_string::spec_lower_all(
        t,
    ) == spec_rank_str(s.rank)
    &&& member(j, "property"@) matches Some(pj) && property_type_parsed(pj, s.property)
    &&& member(j, "value"@) matches Some(vj) && value_parsed(vj, s.value)
    &&& member(j, "references"@) matches Some(Json::Arr(rs)) && rs.len() == s.references@.len()
        && forall|i: int|
        0 <= i < rs.len() ==> reference_parsed(#[trigger] rs[i], s.references@[i])
    &&& member(j, "qualifiers"@) matches Some(Json::Arr(qs)) && qs.len() == s.qualifiers@.len()
        && forall|i: int|
        0 <= i < qs.len() ==> property_value_parsed(#[trigger] qs[i], s.qualifiers@[i])
}

/// What the reference-list parser accepts: an array whose every element
/// is an acceptable reference.
pub open spec fn references_accepted(v: Json) -> bool {
    v matches Json::Arr(items) && forall|i: int|
        0 <= i < items.len() ==> reference_accepted(#[trigger] items[i])
}

/// What the qualifier-list parser accepts: an array whose every element
/// is an acceptable property value.
pub open spec fn qualifiers_accepted(v: Json) -> bool {
    v matches Json::Arr(items) && forall|i: int|
        0 <= i < items.len() ==> crate::property_value::property_value_accepted(
            #[trigger] items[i],
        )
}

/// What the statement parser accepts: each wire member present with the
/// right shape, and every nested part acceptable.
pub open spec fn statement_accepted(j: Json) -> bool {
    &&& member(j, "id"@) matches Some(Json::Str(_))
    &&& member(j, "rank"@) matches Some(Json::Str(t)) && (
    crate::language_string::spec_lower_all(t) == "normal"@
        || crate::language_string::spec_lower_all(t) == "preferred"@
        || crate::language_string::spec_lower_all(t) == "deprecated"@)
    &&& member(j, "property"@) matches Some(pj) && crate::property_value::property_type_parseable(
        pj,
    )
    &&& member(j, "value"@) matches Some(vj) && crate::statement_value::value_accepted(vj)
    &&& member(j, "references"@) matches Some(rj) && references_accepted(rj)
    &&& member(j, "qualifiers"@) matches Some(qj) && qualifiers_accepted(qj)
}

/// True when the statement's wire form parses back completely: it has
/// an ID, and its property, qualifiers and reference parts all carry
/// data types.
pub open spec fn statement_typed(s: Statement) -> bool {
    &&& s.statement_id is Some
    &&& crate::property_value::pv_typed(
        crate::property_value::PropertyValue { property: s.property, value: s.value },
    )
    &&& forall|i: int|
        0 <= i < s.qualifiers@.len() ==> crate::property_value::pv_typed(
            #[trigger] s.qualifiers@[i],
        )
    &&& forall|i: int|
        0 <= i < s.references@.len() ==> crate::reference::reference_typed(
            #[trigger] s.references@[i],
        )
}

/// What a lookup sees in a serialized statement, member by member.
proof fn lemma_statement_member(s: Statement, k: Seq<char>)
    ensures
        crate::json::obj_get(spec_statement_pairs(s), k) == (if k == "qualifiers"@ {
            Some(Json::Arr(spec_qualifiers_json(s.qualifiers@)))
        } else if k == "references"@ {
            Some(Json::Arr(spec_references_json(s.references@)))
        } else if k == "rank"@ {
            Some(Json::Str(spec_rank_str(s.rank)))
        } else if k == "value"@ {
            Some(spec_value_json(s.value))
        } else if k == "property"@ {
            Some(spec_property_type_json(s.property))
        } else if k == "id"@ && s.statement_id is Some {
            Some(Json::Str(s.statement_id->0@))
        } else {
            None
        }),
{
    lemma_statement_keys();
    let e: Seq<(Seq<char>, Json)> = Seq::empty();
    let base = if s.statement_id is Some {
        obj_upsert(e, "id"@, Json::Str(s.statement_id->0@))
    } else {
        e
    };
    let m1 = obj_upsert(base, "property"@, spec_property_type_json(s.property));
    let m2 = obj_upsert(m1, "value"@, spec_value_json(s.value));
    let m3 = obj_upsert(m2, "rank"@, Json::Str(spec_rank_str(s.rank)));
    let m4 = obj_upsert(m3, "references"@, Json::Arr(spec_references_json(s.references@)));
    if s.statement_id is Some {
        crate::json::lemma_obj_get_upsert(e, "id"@, Json::Str(s.statement_id->0@), k);
    }
    crate::json::lemma_obj_get_upsert(base, "property"@, spec_property_type_json(s.property), k);
    crate::json::lemma_obj_get_upsert(m1, "value"@, spec_value_json(s.value), k);
    crate::json::lemma_obj_get_upsert(m2, "rank"@, Json::Str(spec_rank_str(s.rank)), k);
    crate::json::lemma_obj_get_upsert(
        m3,
        "references"@,
        Json::Arr(spec_references_json(s.references@)),
        k,
    );
    crate::json::lemma_obj_get_upsert(
        m4,
        "qualifiers"@,
        Json::Arr(spec_qualifiers_json(s.qualifiers@)),
        k,
    );
}

/// The member names of a serialized statement are pairwise distinct.
proof fn lemma_statement_keys()
    ensures
        "id"@ != "property"@,
        "id"@ != "value"@,
        "id"@ != "rank"@,
        "id"@ != "references"@,
        "id"@ != "qualifiers"@,
        "property"@ != "value"@,
        "property"@ != "rank"@,
        "property"@ != "references"@,
        "property"@ != "qualifiers"@,
        "value"@ != "rank"@,
        "value"@ != "references"@,
        "value"@ != "qualifiers"@,
        "rank"@ != "references"@,
        "rank"@ != "qualifiers"@,
        "references"@ != "qualifiers"@,
{
    reveal_strlit("id");
    reveal_strlit("property");
    reveal_strlit("value");
    reveal_strlit("rank");
    reveal_strlit("references");
    reveal_strlit("qualifiers");
    assert("id"@.len() == 2);
    assert("property"@.len() == 8);
    assert("value"@.len() == 5);
    assert("rank"@.len() == 4);
    assert("references"@.len() == 10);
    assert("qualifiers"@.len() == 10);
    assert("references"@[0] == 'r' && "qualifiers"@[0] == 'q');
}

/// The round trip of a statement: whatever parsing its serialized form
/// yields serializes to the same wire form again.  Response metadata is
/// not part of the wire form and takes no part.
pub proof fn lemma_statement_round_trip(s: Statement, s2: Statement)
    requires
        statement_typed(s),
        statement_parsed(spec_statement_json(s), s2),
    ensures
        spec_statement_json(s2) == spec_statement_json(s),
{
    let j = spec_statement_json(s);
    assert(j == Json::Obj(spec_statement_pairs(s)));
    lemma_statement_member(s, "id"@);
    lemma_statement_member(s, "property"@);
    lemma_statement_member(s, "value"@);
    lemma_statement_member(s, "rank"@);
    lemma_statement_member(s, "references"@);
    lemma_statement_member(s, "qualifiers"@);
    lemma_statement_keys();
    assert(member(j, "id"@) == Some(Json::Str(s.statement_id->0@)));
    assert(member(j, "property"@) == Some(spec_property_type_json(s.property)));
    assert(member(j, "value"@) == Some(spec_value_json(s.value)));
    assert(member(j, "rank"@) == Some(Json::Str(spec_rank_str(s.rank))));
    assert(member(j, "references"@) == Some(Json::Arr(spec_references_json(s.references@))));
    assert(member(j, "qualifiers"@) == Some(Json::Arr(spec_qualifiers_json(s.qualifiers@))));
    // the ID comes back as written
    assert(s2.statement_id matches Some(i2) && i2@ == s.statement_id->0@);
    // the rank name is lower case already, and rank names are unique
    crate::statement_rank::lemma_rank_str_lower(s.rank);
    crate::statement_rank::lemma_rank_str_injective(s2.rank, s.rank);
    // the property and the value round-trip
    crate::property_value::lemma_property_type_round_trip(s.property, s2.property);
    crate::statement_value::lemma_value_round_trip(s.value, s2.value);
    // the references round-trip element by element
    assert forall|i: int|
        0 <= i < s.references@.len() implies #[trigger] crate::reference::spec_reference_json(
        s2.references@[i],
    ) == crate::reference::spec_reference_json(s.references@[i]) by {
        assert(spec_references_json(s.references@)[i] == crate::reference::spec_reference_json(
            s.references@[i],
        ));
        crate::reference::lemma_reference_round_trip(s.references@[i], s2.references@[i]);
    }
    assert(spec_references_json(s2.references@) =~= spec_references_json(s.references@));
    // the qualifiers round-trip element by element
    assert forall|i: int|
        0 <= i < s.qualifiers@.len() implies #[trigger] spec_property_value_json(
        s2.qualifiers@[i],
    ) == spec_property_value_json(s.qualifiers@[i]) by {
        assert(spec_qualifiers_json(s.qualifiers@)[i] == spec_property_value_json(
            s.qualifiers@[i],
        ));
        crate::property_value::lemma_property_value_round_trip(
            s.qualifiers@[i],
            s2.qualifiers@[i],
        );
    }
    assert(spec_qualifiers_json(s2.qualifiers@) =~= spec_qualifiers_json(s.qualifiers@));
}

impl Default for Statement {
    /// The default statement: no ID, default property and value, normal
    /// rank, no references or qualifiers.
    fn default() -> (r: Statement)
        ensures
            r.statement_id is None,
            r.references@.len() == 0,
            r.qualifiers@.len() == 0,
            r.rank is Normal,
    {
        Statement {
            statement_id: None,
            property: PropertyType { id: String::new(), datatype: None },
            value: StatementValue::NoValue,
            rank: StatementRank::Normal,
            references: Vec::new(),
            qualifiers: Vec::new(),
            header_info: HeaderInfo::default(),
        }
    }
}

/// Relies on `uuid::Uuid::new_v4` and its `Display` form: a fresh random
/// UUID rendered as 36 hyphenated characters.  Nothing else is assumed of
/// the randomness.
#[verifier::external_body]
fn new_uuid_string() -> (r: String)
    ensures
        r@.len() == 36,
{
    uuid::Uuid::new_v4().to_string()
}

impl Statement {
    /// A string-valued statement for a property.
    pub fn new_string(property: &str, s: &str) -> (r: Statement)
        ensures
            r.statement_id is None,
            r.property.id@ == property@,
            r.property.datatype == Some(DataType::String),
            r.value matches StatementValue::Value(StatementValueContent::String(t)) && t@
                == s@,
            r.references@.len() == 0,
            r.qualifiers@.len() == 0,
            r.rank is Normal,
    {
        Statement {
            statement_id: None,
            property: PropertyType::new(property, Some(DataType::String)),
            value: StatementValue::new_string(s),
            rank: StatementRank::Normal,
            references: Vec::new(),
            qualifiers: Vec::new(),
            header_info: HeaderInfo::default(),
        }
    }

    /// An external-identifier statement for a property.
    pub fn new_external_id(property: &str, s: &str) -> (r: Statement)
        ensures
            r.statement_id is None,
            r.property.id@ == property@,
            r.property.datatype == Some(DataType::ExternalId),
            r.value matches StatementValue::Value(StatementValueContent::String(t)) && t@
                == s@,
            r.rank is Normal,
    {
        Statement {
            statement_id: None,
            property: PropertyType::new(property, Some(DataType::ExternalId)),
            value: StatementValue::new_string(s),
            rank: StatementRank::Normal,
            references: Vec::new(),
            qualifiers: Vec::new(),
            header_info: HeaderInfo::default(),
        }
    }

    /// A URL statement for a property.
    pub fn new_url(property: &str, s: &str) -> (r: Statement)
        ensures
            r.statement_id is None,
            r.property.id@ == property@,
            r.property.datatype == Some(DataType::Url),
            r.value matches StatementValue::Value(StatementValueContent::String(t)) && t@
                == s@,
            r.rank is Normal,
    {
        Statement {
            statement_id: None,
            property: PropertyType::new(property, Some(DataType::Url)),
            value: StatementValue::new_string(s),
            rank: StatementRank::Normal,
            references: Vec::new(),
            qualifiers: Vec::new(),
            header_info: HeaderInfo::default(),
        }
    }

    /// A monolingual-text statement for a property.
    pub fn new_monolingual_text(property: &str, language: &str, s: &str) -> (r: Statement)
        ensures
            r.statement_id is None,
            r.property.id@ == property@,
            r.property.datatype == Some(DataType::Monolingualtext),
            r.value matches StatementValue::Value(StatementValueContent::MonolingualText {
                language: l,
                text: t,
            }) && l@ == language@ && t@ == s@,
            r.rank is Normal,
    {
        Statement {
            statement_id: None,
            property: PropertyType::new(property, Some(DataType::Monolingualtext)),
            value: StatementValue::Value(
                StatementValueContent::new_monolingual_text(language, s),
            ),
            rank: StatementRank::Normal,
            references: Vec::new(),
            qualifiers: Vec::new(),
            header_info: HeaderInfo::default(),
        }
    }

    /// An item-valued statement for a property; the item ID is not
    /// validated here.
    pub fn new_item(property: &str, item_id: &str) -> (r: Statement)
        ensures
            r.statement_id is None,
            r.property.id@ == property@,
            r.property.datatype == Some(DataType::Item),
            r.value matches StatementValue::Value(StatementValueContent::String(t)) && t@
                == item_id@,
            r.rank is Normal,
    {
        Statement {
            statement_id: None,
            property: PropertyType::new(property, Some(DataType::Item)),
            value: StatementValue::new_string(item_id),
            rank: StatementRank::Normal,
            references: Vec::new(),
            qualifiers: Vec::new(),
            header_info: HeaderInfo::default(),
        }
    }

    /// A time statement for a property.
    pub fn new_time(property: &str, time: &str, precision: TimePrecision, calendarmodel: &str)
        -> (r: Statement)
        ensures
            r.statement_id is None,
            r.property.id@ == property@,
            r.property.datatype == Some(DataType::Time),
            r.value matches StatementValue::Value(StatementValueContent::Time {
                time: t,
                precision: p,
                calendarmodel: c,
            }) && t@ == time@ && p == precision && c@ == calendarmodel@,
            r.rank is Normal,
    {
        Statement {
            statement_id: None,
            property: PropertyType::new(property, Some(DataType::Time)),
            value: StatementValue::Value(
                StatementValueContent::Time {
                    time: time.to_owned(),
                    precision,
                    calendarmodel: calendarmodel.to_owned(),
                },
            ),
            rank: StatementRank::Normal,
            references: Vec::new(),
            qualifiers: Vec::new(),
            header_info: HeaderInfo::default(),
        }
    }

    /// The statement with one more reference.
    pub fn with_reference(self, reference: Reference) -> (r: Statement)
        ensures
            r.references@ == self.references@.push(reference),
            r.statement_id == self.statement_id,
            r.property == self.property,
            r.value == self.value,
            r.rank == self.rank,
            r.qualifiers == self.qualifiers,
    {
        let mut s = self;
        s.references.push(reference);
        s
    }

    /// The statement with further references appended.
    pub fn with_references(self, references: Vec<Reference>) -> (r: Statement)
        ensures
            r.references@ == self.references@ + references@,
            r.statement_id == self.statement_id,
            r.property == self.property,
            r.value == self.value,
            r.rank == self.rank,
            r.qualifiers == self.qualifiers,
    {
        let mut s = self;
        let mut more = references;
        let ghost orig = s.references@;
        let ghost extra = more@;
        while more.len() > 0
            invariant
                s.references@ + more@ =~= orig + extra,
                s.statement_id == self.statement_id,
                s.property == self.property,
                s.value == self.value,
                s.rank == self.rank,
                s.qualifiers == self.qualifiers,
            decreases more@.len(),
        {
            let ghost before_refs = s.references@;
            let ghost before_more = more@;
            let rf = more.remove(0);
            s.references.push(rf);
            proof {
                assert(s.references@ + more@ =~= before_refs + before_more);
            }
        }
        proof {
            assert(more@ =~= Seq::<Reference>::empty());
            assert(s.references@ =~= s.references@ + more@);
        }
        s
    }

    /// Turns the statement into a property/value pair.
    pub fn as_property_value(self) -> (r: PropertyValue)
        ensures
            r.property == self.property,
            r.value == self.value,
    {
        PropertyValue::new(self.property, self.value)
    }

    /// Assigns a fresh client-side statement ID of the form
    /// `{entityId}$UUID`, with the UUID in upper case: the entity's ID
    /// text, a dollar sign, and 36 upper-cased characters.  Every other
    /// field is left as it was.
    pub fn new_id_for_entity(&mut self, entity_id: &EntityId) -> (r: Result<(), RestApiError>)
        ensures
            match r {
                Ok(_) => {
                    &&& !(*entity_id is Unset)
                    &&& final(self).statement_id matches Some(sid) && exists|u: Seq<char>|
                        u.len() == 36 && sid@ == spec_entity_id_text(*entity_id) + "$"@
                            + crate::language_string::spec_upper_all(u)
                },
                Err(e) => *entity_id is Unset && e is IsNone && *final(self) == *old(self),
            },
            final(self).property == old(self).property,
            final(self).value == old(self).value,
            final(self).rank == old(self).rank,
            final(self).references == old(self).references,
            final(self).qualifiers == old(self).qualifiers,
            final(self).header_info == old(self).header_info,
    {
        let base = match entity_id.id() {
            Ok(s) => s.clone(),
            Err(e) => {
                return Err(e);
            },
        };
        let raw = new_uuid_string();
        let uuid = upper_ascii(raw.as_str());
        let mut id = base;
        id.append("$");
        id.append(uuid.as_str());
        proof {
            reveal_strlit("$");
            assert(id@ == spec_entity_id_text(*entity_id) + "$"@
                + crate::language_string::spec_upper_all(raw@));
            assert(raw@.len() == 36);
        }
        self.statement_id = Some(id);
        Ok(())
    }

    /// Returns the statement ID.
    pub fn id(&self) -> (r: &Option<String>)
        ensures
            r == &self.statement_id,
    {
        &self.statement_id
    }

    /// Sets the statement ID.
    pub fn set_id(&mut self, id: Option<String>)
        ensures
            final(self).statement_id == id,
            final(self).property == old(self).property,
            final(self).value == old(self).value,
            final(self).rank == old(self).rank,
            final(self).references == old(self).references,
            final(self).qualifiers == old(self).qualifiers,
    {
        self.statement_id = id;
    }

    /// Returns the property.
    pub fn property(&self) -> (r: &PropertyType)
        ensures
            r == &self.property,
    {
        &self.property
    }

    /// Sets the property.
    pub fn set_property(&mut self, property: PropertyType)
        ensures
            final(self).property == property,
            final(self).statement_id == old(self).statement_id,
            final(self).value == old(self).value,
            final(self).rank == old(self).rank,
            final(self).references == old(self).references,
            final(self).qualifiers == old(self).qualifiers,
    {
        self.property = property;
    }

    /// Returns the value.
    pub fn value(&self) -> (r: &StatementValue)
        ensures
            r == &self.value,
    {
        &self.value
    }

    /// Sets the value.
    pub fn set_value(&mut self, value: StatementValue)
        ensures
            final(self).value == value,
            final(self).statement_id == old(self).statement_id,
            final(self).property == old(self).property,
            final(self).rank == old(self).rank,
            final(self).references == old(self).references,
            final(self).qualifiers == old(self).qualifiers,
    {
        self.value = value;
    }

    /// Returns the rank.
    pub fn rank(&self) -> (r: &StatementRank)
        ensures
            r == &self.rank,
    {
        &self.rank
    }

    /// Sets the rank.
    pub fn set_rank(&mut self, rank: StatementRank)
        ensures
            final(self).rank == rank,
            final(self).statement_id == old(self).statement_id,
            final(self).property == old(self).property,
            final(self).value == old(self).value,
            final(self).references == old(self).references,
            final(self).qualifiers == old(self).qualifiers,
    {
        self.rank = rank;
    }

    /// Returns the references.
    pub fn references(&self) -> (r: &Vec<Reference>)
        ensures
            r == &self.references,
    {
        &self.references
    }

    /// Appends one reference.
    pub fn push_reference(&mut self, reference: Reference)
        ensures
            final(self).references@ == old(self).references@.push(reference),
            final(self).statement_id == old(self).statement_id,
            final(self).property == old(self).property,
            final(self).value == old(self).value,
            final(self).rank == old(self).rank,
            final(self).qualifiers == old(self).qualifiers,
    {
        self.references.push(reference);
    }

    /// Returns the qualifiers.
    pub fn qualifiers(&self) -> (r: &Vec<PropertyValue>)
        ensures
            r == &self.qualifiers,
    {
        &self.qualifiers
    }

    /// Appends one qualifier.
    pub fn push_qualifier(&mut self, qualifier: PropertyValue)
        ensures
            final(self).qualifiers@ == old(self).qualifiers@.push(qualifier),
            final(self).statement_id == old(self).statement_id,
            final(self).property == old(self).property,
            final(self).value == old(self).value,
            final(self).rank == old(self).rank,
            final(self).references == old(self).references,
    {
        self.qualifiers.push(qualifier);
    }

    /// Returns the response metadata.
    pub fn header_info(&self) -> (r: &HeaderInfo)
        ensures
            r == &self.header_info,
    {
        &self.header_info
    }

    /// Serializes the statement.
    pub fn to_json(&self) -> (r: JsonValue)
        ensures
            r@ == spec_statement_json(*self),
            r@.wf(),
    {
        let nr = self.references.len();
        let mut ritems: Vec<JsonValue> = Vec::new();
        let mut i: usize = 0;
        while i < nr
            invariant
                0 <= i <= nr,
                nr == self.references@.len(),
                ritems@.len() == i,
                forall|q: int| 0 <= q < i ==> (#[trigger] ritems@[q])@ == spec_reference_json(
                    self.references@[q],
                ),
                forall|q: int| 0 <= q < i ==> ((#[trigger] ritems@[q])@).wf(),
            decreases nr - i,
        {
            ritems.push(self.references[i].to_json());
            i = i + 1;
        }
        let ghost rseq = ritems@;
        let refs_arr = JsonValue::Array(ritems);
        proof {
            assert(refs_arr@ == Json::Arr(view_elems(rseq)));
            assert(view_elems(rseq) =~= spec_references_json(self.references@));
            assert forall|q: int|
                0 <= q < spec_references_json(self.references@).len() implies (
            #[trigger] spec_references_json(self.references@)[q]).wf() by {
                assert(spec_references_json(self.references@)[q] == view_elems(rseq)[q]);
                assert(view_elems(rseq)[q] == rseq[q]@);
            }
            crate::json::lemma_all_wf_from_forall(spec_references_json(self.references@));
        }
        let nq = self.qualifiers.len();
        let mut qitems: Vec<JsonValue> = Vec::new();
        let mut i: usize = 0;
        while i < nq
            invariant
                0 <= i <= nq,
                nq == self.qualifiers@.len(),
                qitems@.len() == i,
                forall|q: int|
                    0 <= q < i ==> (#[trigger] qitems@[q])@ == spec_property_value_json(
                        self.qualifiers@[q],
                    ),
                forall|q: int| 0 <= q < i ==> ((#[trigger] qitems@[q])@).wf(),
            decreases nq - i,
        {
            qitems.push(self.qualifiers[i].to_json());
            i = i + 1;
        }
        let ghost qseq = qitems@;
        let quals_arr = JsonValue::Array(qitems);
        proof {
            assert(quals_arr@ == Json::Arr(view_elems(qseq)));
            assert(view_elems(qseq) =~= spec_qualifiers_json(self.qualifiers@));
            assert forall|q: int|
                0 <= q < spec_qualifiers_json(self.qualifiers@).len() implies (
            #[trigger] spec_qualifiers_json(self.qualifiers@)[q]).wf() by {
                assert(spec_qualifiers_json(self.qualifiers@)[q] == view_elems(qseq)[q]);
                assert(view_elems(qseq)[q] == qseq[q]@);
            }
            crate::json::lemma_all_wf_from_forall(spec_qualifiers_json(self.qualifiers@));
        }
        let p0: Vec<(String, JsonValue)> = Vec::new();
        proof {
            assert(crate::json::view_pairs(p0@) =~= Seq::<(Seq<char>, Json)>::empty());
        }
        let base = match &self.statement_id {
            Some(sid) => obj_insert_sorted(&p0, "id", JsonValue::Str(sid.clone())),
            None => p0,
        };
        let b1 = obj_insert_sorted(&base, "property", self.property.to_json());
        let b2 = obj_insert_sorted(&b1, "value", self.value.to_json());
        let b3 = obj_insert_sorted(&b2, "rank", JsonValue::Str(self.rank.as_str().to_owned()));
        let b4 = obj_insert_sorted(&b3, "references", refs_arr);
        let b5 = obj_insert_sorted(&b4, "qualifiers", quals_arr);
        proof {
            let ghost base_seq = if self.statement_id is Some {
                obj_upsert(Seq::empty(), "id"@, Json::Str(self.statement_id->0@))
            } else {
                Seq::<(Seq<char>, Json)>::empty()
            };
            if self.statement_id is Some {
                crate::json::lemma_obj_upsert_sorted(
                    Seq::empty(),
                    "id"@,
                    Json::Str(self.statement_id->0@),
                );
                crate::json::lemma_obj_upsert_wf(
                    Seq::empty(),
                    "id"@,
                    Json::Str(self.statement_id->0@),
                );
            }
            let s1 = obj_upsert(base_seq, "property"@, spec_property_type_json(self.property));
            crate::json::lemma_obj_upsert_sorted(
                base_seq,
                "property"@,
                spec_property_type_json(self.property),
            );
            crate::json::lemma_obj_upsert_wf(
                base_seq,
                "property"@,
                spec_property_type_json(self.property),
            );
            let s2 = obj_upsert(s1, "value"@, spec_value_json(self.value));
            crate::json::lemma_obj_upsert_sorted(s1, "value"@, spec_value_json(self.value));
            crate::json::lemma_obj_upsert_wf(s1, "value"@, spec_value_json(self.value));
            let s3 = obj_upsert(s2, "rank"@, Json::Str(spec_rank_str(self.rank)));
            crate::json::lemma_obj_upsert_sorted(s2, "rank"@, Json::Str(spec_rank_str(self.rank)));
            crate::json::lemma_obj_upsert_wf(s2, "rank"@, Json::Str(spec_rank_str(self.rank)));
            let s4 = obj_upsert(
                s3,
                "references"@,
                Json::Arr(spec_references_json(self.references@)),
            );
            crate::json::lemma_obj_upsert_sorted(
                s3,
                "references"@,
                Json::Arr(spec_references_json(self.references@)),
            );
            crate::json::lemma_obj_upsert_wf(
                s3,
                "references"@,
                Json::Arr(spec_references_json(self.references@)),
            );
            crate::json::lemma_obj_upsert_sorted(
                s4,
                "qualifiers"@,
                Json::Arr(spec_qualifiers_json(self.qualifiers@)),
            );
            crate::json::lemma_obj_upsert_wf(
                s4,
                "qualifiers"@,
                Json::Arr(spec_qualifiers_json(self.qualifiers@)),
            );
        }
        JsonValue::Object(b5)
    }

    /// Parses a statement; `id` and `rank` are required, then the
    /// property, value, references and qualifiers.
    pub fn from_json(j: &JsonValue) -> (r: Result<Statement, RestApiError>)
        ensures
            r matches Ok(s) ==> statement_parsed(j@, s),
            r is Err ==> !statement_accepted(j@),
    {
        Self::from_json_header_info(j, HeaderInfo::default())
    }

    /// Parses a statement and attaches the given response metadata.
    pub fn from_json_header_info(j: &JsonValue, header_info: HeaderInfo) -> (r: Result<
        Statement,
        RestApiError,
    >)
        ensures
            r matches Ok(s) ==> statement_parsed(j@, s) && s.header_info == header_info,
            r is Err ==> !statement_accepted(j@),
    {
        let id = match get_key(j, "id") {
            Some(v) => match as_text(v) {
                Some(s) => s.clone(),
                None => {
                    return Err(
                        RestApiError::MissingOrInvalidField {
                            field: String::from_str("id"),
                            j: json_clone(j),
                        },
                    );
                },
            },
            None => {
                return Err(
                    RestApiError::MissingOrInvalidField {
                        field: String::from_str("id"),
                        j: json_clone(j),
                    },
                );
            },
        };
        let rank = match get_key(j, "rank") {
            Some(v) => match as_text(v) {
                Some(s) => match StatementRank::new(s.as_str()) {
                    Ok(rk) => rk,
                    Err(e) => {
                        return Err(e);
                    },
                },
                None => {
                    return Err(
                        RestApiError::MissingOrInvalidField {
                            field: String::from_str("rank"),
                            j: json_clone(j),
                        },
                    );
                },
            },
            None => {
                return Err(
                    RestApiError::MissingOrInvalidField {
                        field: String::from_str("rank"),
                        j: json_clone(j),
                    },
                );
            },
        };
        let property = match get_key(j, "property") {
            Some(v) => match PropertyType::from_json(v) {
                Ok(p) => p,
                Err(e) => {
                    return Err(e);
                },
            },
            None => {
                return Err(
                    RestApiError::MissingOrInvalidField {
                        field: String::from_str("property"),
                        j: json_clone(j),
                    },
                );
            },
        };
        let value = match get_key(j, "value") {
            Some(v) => match StatementValue::from_json(v) {
                Ok(v) => v,
                Err(e) => {
                    return Err(e);
                },
            },
            None => {
                return Err(
                    RestApiError::MissingOrInvalidField {
                        field: String::from_str("value"),
                        j: json_clone(j),
                    },
                );
            },
        };
        let references = match get_key(j, "references") {
            Some(v) => match Self::references_from_json(v) {
                Ok(rs) => rs,
                Err(e) => {
                    return Err(e);
                },
            },
            None => {
                return Err(
                    RestApiError::WrongType {
                        field: String::from_str("references"),
                        j: json_clone(j),
                    },
                );
            },
        };
        let qualifiers = match get_key(j, "qualifiers") {
            Some(v) => match Self::qualifiers_from_json(v) {
                Ok(qs) => qs,
                Err(e) => {
                    return Err(e);
                },
            },
            None => {
                return Err(
                    RestApiError::WrongType {
                        field: String::from_str("qualifiers"),
                        j: json_clone(j),
                    },
                );
            },
        };
        let r = Statement {
            statement_id: Some(id),
            property,
            value,
            rank,
            references,
            qualifiers,
            header_info,
        };
        Ok(r)
    }

    /// Parses a reference list.
    pub fn references_from_json(v: &JsonValue) -> (r: Result<Vec<Reference>, RestApiError>)
        ensures
            r matches Ok(rs) ==> (v@ matches Json::Arr(items) && items.len() == rs@.len()
                && forall|i: int|
                0 <= i < items.len() ==> reference_parsed(#[trigger] items[i], rs@[i])),
            r is Err ==> !references_accepted(v@),
    {
        let items = match v {
            JsonValue::Array(items) => items,
            _ => {
                return Err(
                    RestApiError::WrongType {
                        field: String::from_str("references"),
                        j: json_clone(v),
                    },
                );
            },
        };
        let ghost vv = view_elems(items@);
        let n = items.len();
        let mut rs: Vec<Reference> = Vec::new();
        let mut i: usize = 0;
        while i < n
            invariant
                0 <= i <= n,
                n == items@.len(),
                vv == view_elems(items@),
                v@ == Json::Arr(vv),
                rs@.len() == i,
                forall|q: int|
                    0 <= q < i ==> reference_parsed(view_elems(items@)[q], #[trigger] rs@[q]),
            decreases n - i,
        {
            proof {
                assert(view_elems(items@)[i as int] == items@[i as int]@);
            }
            match Reference::from_json(&items[i]) {
                Ok(rf) => {
                    rs.push(rf);
                },
                Err(e) => {
                    proof {
                        assert(vv.len() == n);
                        assert(!reference_accepted(vv[i as int]));
                    }
                    return Err(e);
                },
            }
            i = i + 1;
        }
        Ok(rs)
    }

    /// Parses a qualifier list.
    pub fn qualifiers_from_json(v: &JsonValue) -> (r: Result<Vec<PropertyValue>, RestApiError>)
        ensures
            r matches Ok(qs) ==> (v@ matches Json::Arr(items) && items.len() == qs@.len()
                && forall|i: int|
                0 <= i < items.len() ==> property_value_parsed(#[trigger] items[i], qs@[i])),
            r is Err ==> !qualifiers_accepted(v@),
    {
        let items = match v {
            JsonValue::Array(items) => items,
            _ => {
                return Err(
                    RestApiError::WrongType {
                        field: String::from_str("qualifiers"),
                        j: json_clone(v),
                    },
                );
            },
        };
        let ghost vv = view_elems(items@);
        let n = items.len();
        let mut qs: Vec<PropertyValue> = Vec::new();
        let mut i: usize = 0;
        while i < n
            invariant
                0 <= i <= n,
                n == items@.len(),
                vv == view_elems(items@),
                v@ == Json::Arr(vv),
                qs@.len() == i,
                forall|q: int|
                    0 <= q < i ==> property_value_parsed(
                        view_elems(items@)[q],
                        #[trigger] qs@[q],
                    ),
            decreases n - i,
        {
            proof {
                assert(view_elems(items@)[i as int] == items@[i as int]@);
            }
            match PropertyValue::from_json(&items[i]) {
                Ok(pv) => {
                    qs.push(pv);
                },
                Err(e) => {
                    proof {
                        assert(vv.len() == n);
                        assert(!crate::property_value::property_value_accepted(
                            vv[i as int],
                        ));
                    }
                    return Err(e);
                },
            }
            i = i + 1;
        }
        Ok(qs)
    }

    /// Computes the patch that transforms `other` into this statement; a
    /// statement without an ID cannot be patched.
    pub fn patch(&self, other: &Statement) -> (r: Result<StatementPatch, RestApiError>)
        ensures
            match r {
                Ok(p) => {
                    &&& self.statement_id matches Some(sid) && p.statement_id@ == sid@
                    &&& apply_entries(
                        spec_statement_json(*other),
                        view_entries(p.patch@),
                    ) == Some(spec_statement_json(*self))
                    &&& (p.patch@.len() == 0) == (spec_statement_json(*other)
                        == spec_statement_json(*self))
                },
                Err(e) => e is MissingId && self.statement_id is None,
            },
    {
        let sid = match &self.statement_id {
            Some(s) => s.clone(),
            None => {
                return Err(RestApiError::MissingId);
            },
        };
        let from_doc = other.to_json();
        let to_doc = self.to_json();
        let entries = diff_values(&from_doc, &to_doc);
        Ok(StatementPatch { statement_id: sid, patch: entries })
    }
}

} // verus!
