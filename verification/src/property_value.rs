//! A property reference and a property/value pair.

use vstd::prelude::*;
use crate::data_type::{DataType, is_datatype_str, spec_datatype_str};
use crate::error::RestApiError;
use crate::json::{Json, JsonValue, obj_get, obj_upsert};
use crate::apply::{get_key, as_text, obj_insert_sorted};
use crate::statement_value::StatementValue;

verus! {

/// A property: its ID and, when known, its data type.
#[derive(Debug, Clone, PartialEq, Eq, PartialOrd, Ord, Hash, Default)]
pub struct PropertyType {
    pub id: String,
    pub datatype: Option<DataType>,
}

/// The serialized form of a property reference: its ID, and its data type
/// when known.
pub open spec fn spec_property_type_json(p: PropertyType) -> Json {
    if p.datatype is Some {
        Json::Obj(
            obj_upsert(
                obj_upsert(Seq::empty(), "id"@, Json::Str(p.id@)),
                "data_type"@,
                Json::Str(spec_datatype_str(p.datatype->0)),
            ),
        )
    } else {
        Json::Obj(obj_upsert(Seq::empty(), "id"@, Json::Str(p.id@)))
    }
}

/// What a successful parse of a property reference yields: the `id` text,
/// and the data type when its name is recognized.
pub open spec fn property_type_parsed(j: Json, p: PropertyType) -> bool {
    &&& j matches Json::Obj(ps)
    &&& match obj_get(ps, "id"@) {
        Some(v) => v matches Json::Str(s) && p.id@ == s,
        _ => false,
    }
    &&& match obj_get(ps, "data_type"@) {
        Some(v) => v matches Json::Str(t) && (match p.datatype {
            Some(d) => t == spec_datatype_str(d),
            None => !is_datatype_str(t),
        }),
        _ => false,
    }
}

/// True when the document has the shape a property reference needs: an
/// object with string `id` and `data_type` members.
pub open spec fn property_type_parseable(j: Json) -> bool {
    &&& j matches Json::Obj(ps)
    &&& obj_get(ps, "id"@) matches Some(Json::Str(_))
    &&& obj_get(ps, "data_type"@) matches Some(Json::Str(_))
}

impl PropertyType {
    /// Constructs a property reference from an ID and a data type.
    pub fn new(id: &str, datatype: Option<DataType>) -> (r: PropertyType)
        ensures
            r.id@ == id@,
            r.datatype == datatype,
    {
        PropertyType { id: id.to_owned(), datatype }
    }

    /// Constructs a property reference from an ID alone.
    pub fn property(id: &str) -> (r: PropertyType)
        ensures
            r.id@ == id@,
            r.datatype is None,
    {
        PropertyType { id: id.to_owned(), datatype: None }
    }

    /// Returns the property ID.
    pub fn id(&self) -> (r: &str)
        ensures
            r@ == self.id@,
    {
        self.id.as_str()
    }

    /// Returns the data type, when known.
    pub fn datatype(&self) -> (r: &Option<DataType>)
        ensures
            r == &self.datatype,
    {
        &self.datatype
    }

    /// Clones the property reference, keeping its value.
    pub fn clone_value(&self) -> (r: PropertyType)
        ensures
            r.id@ == self.id@,
            r.datatype == self.datatype,
    {
        PropertyType { id: self.id.clone(), datatype: self.datatype }
    }

    /// Serializes the property reference.
    pub fn to_json(&self) -> (r: JsonValue)
        ensures
            r@ == spec_property_type_json(*self),
            r@.wf(),
    {
        let p0: Vec<(String, JsonValue)> = Vec::new();
        proof {
            assert(crate::json::view_pairs(p0@) =~= Seq::<(Seq<char>, Json)>::empty());
            crate::json::lemma_obj_upsert_sorted(Seq::empty(), "id"@, Json::Str(self.id@));
            crate::json::lemma_obj_upsert_wf(Seq::empty(), "id"@, Json::Str(self.id@));
        }
        let p1 = obj_insert_sorted(&p0, "id", JsonValue::Str(self.id.clone()));
        match &self.datatype {
            Some(d) => {
                let ghost mid = obj_upsert(Seq::empty(), "id"@, Json::Str(self.id@));
                proof {
                    crate::json::lemma_obj_upsert_sorted(
                        mid,
                        "data_type"@,
                        Json::Str(spec_datatype_str(self.datatype->0)),
                    );
                    crate::json::lemma_obj_upsert_wf(
                        mid,
                        "data_type"@,
                        Json::Str(spec_datatype_str(self.datatype->0)),
                    );
                }
                let p2 = obj_insert_sorted(&p1, "data_type", JsonValue::Str(d.as_str().to_owned()));
                JsonValue::Object(p2)
            },
            None => JsonValue::Object(p1),
        }
    }

    /// Parses a property reference: `id` and `data_type` must be string
    /// members; an unrecognized data type name is kept as "unknown".
    pub fn from_json(j: &JsonValue) -> (r: Result<PropertyType, RestApiError>)
        ensures
            match r {
                Ok(p) => property_type_parsed(j@, p),
                Err(_) => !property_type_parseable(j@),
            },
    {
        let dt = match get_key(j, "data_type") {
            Some(v) => match as_text(v) {
                Some(t) => t,
                None => {
                    return Err(
                        RestApiError::MissingOrInvalidField {
                            field: String::from_str("data_type"),
                            j: crate::json::json_clone(j),
                        },
                    );
                },
            },
            None => {
                return Err(
                    RestApiError::MissingOrInvalidField {
                        field: String::from_str("data_type"),
                        j: crate::json::json_clone(j),
                    },
                );
            },
        };
        let datatype = match DataType::new(dt.as_str()) {
            Ok(d) => Some(d),
            Err(_) => None,
        };
        let id = match get_key(j, "id") {
            Some(v) => match as_text(v) {
                Some(s) => s.clone(),
                None => {
                    return Err(
                        RestApiError::MissingOrInvalidField {
                            field: String::from_str("id"),
                            j: crate::json::json_clone(j),
                        },
                    );
                },
            },
            None => {
                return Err(
                    RestApiError::MissingOrInvalidField {
                        field: String::from_str("id"),
                        j: crate::json::json_clone(j),
                    },
                );
            },
        };
        Ok(PropertyType { id, datatype })
    }
}

/// True when parsing the document as a property/value pair succeeds.
pub open spec fn property_value_accepted(j: Json) -> bool {
    &&& crate::statement_value::member(j, "property"@) matches Some(pj)
        && property_type_parseable(pj)
    &&& crate::statement_value::member(j, "value"@) matches Some(vj)
        && crate::statement_value::value_accepted(vj)
}

/// The serialized form of a property/value pair.
pub open spec fn spec_property_value_json(pv: PropertyValue) -> Json {
    Json::Obj(
        obj_upsert(
            obj_upsert(Seq::empty(), "property"@, spec_property_type_json(pv.property)),
            "value"@,
            crate::statement_value::spec_value_json(pv.value),
        ),
    )
}

/// What a successful parse of a property/value pair yields.
pub open spec fn property_value_parsed(j: Json, pv: PropertyValue) -> bool {
    &&& crate::statement_value::member(j, "property"@) matches Some(pj) && property_type_parsed(
        pj,
        pv.property,
    )
    &&& crate::statement_value::member(j, "value"@) matches Some(vj)
        && crate::statement_value::value_parsed(vj, pv.value)
}

/// The round trip of a property reference with a known data type:
/// whatever parsing its serialized form yields serializes to the same
/// wire form again.  A reference without a data type serializes without
/// the member the parser requires, so it is left out here.
pub proof fn lemma_property_type_round_trip(p: PropertyType, p2: PropertyType)
    requires
        p.datatype is Some,
        property_type_parsed(spec_property_type_json(p), p2),
    ensures
        p2.id@ == p.id@,
        p2.datatype == p.datatype,
        spec_property_type_json(p2) == spec_property_type_json(p),
{
    reveal_strlit("id");
    reveal_strlit("data_type");
    assert("id"@.len() == 2);
    assert("data_type"@.len() == 9);
    let e: Seq<(Seq<char>, Json)> = Seq::empty();
    let m1 = obj_upsert(e, "id"@, Json::Str(p.id@));
    crate::json::lemma_obj_get_upsert(e, "id"@, Json::Str(p.id@), "id"@);
    crate::json::lemma_obj_get_upsert(
        m1,
        "data_type"@,
        Json::Str(crate::data_type::spec_datatype_str(p.datatype->0)),
        "id"@,
    );
    crate::json::lemma_obj_get_upsert(
        m1,
        "data_type"@,
        Json::Str(crate::data_type::spec_datatype_str(p.datatype->0)),
        "data_type"@,
    );
    match p2.datatype {
        Some(d2) => {
            crate::data_type::lemma_datatype_str_injective(d2, p.datatype->0);
        },
        None => {
            assert(crate::data_type::is_datatype_str(
                crate::data_type::spec_datatype_str(p.datatype->0),
            ));
        },
    }
}

/// True when the property reference carries a data type, so its wire
/// form parses back completely.
pub open spec fn pv_typed(pv: PropertyValue) -> bool {
    pv.property.datatype is Some
}

/// The round trip of a property/value pair with a known data type.
pub proof fn lemma_property_value_round_trip(pv: PropertyValue, pv2: PropertyValue)
    requires
        pv_typed(pv),
        property_value_parsed(spec_property_value_json(pv), pv2),
    ensures
        spec_property_value_json(pv2) == spec_property_value_json(pv),
{
    reveal_strlit("property");
    reveal_strlit("value");
    assert("property"@.len() == 8);
    assert("value"@.len() == 5);
    let e: Seq<(Seq<char>, Json)> = Seq::empty();
    let m1 = obj_upsert(e, "property"@, spec_property_type_json(pv.property));
    crate::json::lemma_obj_get_upsert(
        e,
        "property"@,
        spec_property_type_json(pv.property),
        "property"@,
    );
    crate::json::lemma_obj_get_upsert(
        m1,
        "value"@,
        crate::statement_value::spec_value_json(pv.value),
        "property"@,
    );
    crate::json::lemma_obj_get_upsert(
        m1,
        "value"@,
        crate::statement_value::spec_value_json(pv.value),
        "value"@,
    );
    lemma_property_type_round_trip(pv.property, pv2.property);
    crate::statement_value::lemma_value_round_trip(pv.value, pv2.value);
}

/// A property together with a value.
#[derive(Debug, Clone, PartialEq)]
pub struct PropertyValue {
    pub property: PropertyType,
    pub value: StatementValue,
}

impl PropertyValue {
    /// Constructs a property/value pair.
    pub fn new(property: PropertyType, value: StatementValue) -> (r: PropertyValue)
        ensures
            r.property == property,
            r.value == value,
    {
        PropertyValue { property, value }
    }

    /// Returns the property.
    pub fn property(&self) -> (r: &PropertyType)
        ensures
            r == &self.property,
    {
        &self.property
    }

    /// Returns the value.
    pub fn value(&self) -> (r: &StatementValue)
        ensures
            r == &self.value,
    {
        &self.value
    }

    /// Clones the pair, keeping its value.
    pub fn clone_value(&self) -> (r: PropertyValue)
        ensures
            r.property.id@ == self.property.id@,
            r.property.datatype == self.property.datatype,
            crate::statement_value::spec_value_json(r.value)
                == crate::statement_value::spec_value_json(self.value),
            spec_property_value_json(r) == spec_property_value_json(*self),
    {
        let r = PropertyValue {
            property: self.property.clone_value(),
            value: self.value.clone_value(),
        };
        proof {
            assert(spec_property_type_json(r.property) == spec_property_type_json(self.property));
        }
        r
    }

    /// Serializes the pair.
    pub fn to_json(&self) -> (r: JsonValue)
        ensures
            r@ == spec_property_value_json(*self),
            r@.wf(),
    {
        let p0: Vec<(String, JsonValue)> = Vec::new();
        proof {
            assert(crate::json::view_pairs(p0@) =~= Seq::<(Seq<char>, Json)>::empty());
        }
        let ptj = self.property.to_json();
        let vj = self.value.to_json();
        let p1 = obj_insert_sorted(&p0, "property", ptj);
        let p2 = obj_insert_sorted(&p1, "value", vj);
        proof {
            let e: Seq<(Seq<char>, Json)> = Seq::empty();
            crate::json::lemma_obj_upsert_sorted(
                e,
                "property"@,
                spec_property_type_json(self.property),
            );
            crate::json::lemma_obj_upsert_wf(
                e,
                "property"@,
                spec_property_type_json(self.property),
            );
            let m = obj_upsert(e, "property"@, spec_property_type_json(self.property));
            crate::json::lemma_obj_upsert_sorted(
                m,
                "value"@,
                crate::statement_value::spec_value_json(self.value),
            );
            crate::json::lemma_obj_upsert_wf(
                m,
                "value"@,
                crate::statement_value::spec_value_json(self.value),
            );
        }
        JsonValue::Object(p2)
    }

    /// Parses a property/value pair from its two members; it succeeds
    /// exactly on the documents `property_value_accepted` describes.
    pub fn from_json(j: &JsonValue) -> (r: Result<PropertyValue, RestApiError>)
        ensures
            r matches Ok(pv) ==> property_value_parsed(j@, pv),
            r is Err ==> !property_value_accepted(j@),
    {
        let pj = match get_key(j, "property") {
            Some(v) => v,
            None => {
                return Err(
                    RestApiError::MissingOrInvalidField {
                        field: String::from_str("property"),
                        j: crate::json::json_clone(j),
                    },
                );
            },
        };
        let property = match PropertyType::from_json(pj) {
            Ok(p) => p,
            Err(e) => {
                return Err(e);
            },
        };
        let vj = match get_key(j, "value") {
            Some(v) => v,
            None => {
                return Err(
                    RestApiError::MissingOrInvalidField {
                        field: String::from_str("value"),
                        j: crate::json::json_clone(j),
                    },
                );
            },
        };
        let value = match StatementValue::from_json(vj) {
            Ok(v) => v,
            Err(e) => {
                return Err(e);
            },
        };
        Ok(PropertyValue { property, value })
    }
}

} // verus!
