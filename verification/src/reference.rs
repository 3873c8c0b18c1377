//! A reference attached to a statement: a server-computed hash and a list
//! of property/value parts.

use vstd::prelude::*;
use crate::error::RestApiError;
use crate::json::{Json, JsonValue, json_clone, obj_upsert, view_elems};
use crate::apply::{as_text, get_key, obj_insert_sorted};
use crate::property_value::{
    PropertyValue, property_value_parsed, spec_property_value_json,
};
use crate::statement_value::member;

verus! {

/// A reference: its hash and its parts.
#[derive(Debug, Clone, PartialEq, Default)]
pub struct Reference {
    pub parts: Vec<PropertyValue>,
    pub hash: String,
}

/// The serialized parts of a reference.
pub open spec fn spec_parts_json(parts: Seq<PropertyValue>) -> Seq<Json> {
    Seq::new(parts.len(), |i: int| spec_property_value_json(parts[i]))
}

/// The serialized form of a reference.
pub open spec fn spec_reference_json(r: Reference) -> Json {
    Json::Obj(
        obj_upsert(
            obj_upsert(Seq::empty(), "hash"@, Json::Str(r.hash@)),
            "parts"@,
            Json::Arr(spec_parts_json(r.parts@)),
        ),
    )
}

/// True when parsing the document as a reference succeeds: a string
/// `hash`, and a `parts` array of acceptable property/value pairs.
pub open spec fn reference_accepted(j: Json) -> bool {
    &&& member(j, "hash"@) matches Some(Json::Str(_))
    &&& member(j, "parts"@) matches Some(Json::Arr(items)) && forall|i: int|
        0 <= i < items.len() ==> crate::property_value::property_value_accepted(
            #[trigger] items[i],
        )
}

/// What a successful parse of a reference yields.
pub open spec fn reference_parsed(j: Json, r: Reference) -> bool {
    &&& member(j, "hash"@) == Some(Json::Str(r.hash@))
    &&& member(j, "parts"@) matches Some(Json::Arr(items)) && items.len() == r.parts@.len()
        && forall|i: int|
        0 <= i < items.len() ==> property_value_parsed(#[trigger] items[i], r.parts@[i])
}

/// True when every part of the reference carries a data type, so its
/// wire form parses back completely.
pub open spec fn reference_typed(r: Reference) -> bool {
    forall|i: int|
        0 <= i < r.parts@.len() ==> crate::property_value::pv_typed(#[trigger] r.parts@[i])
}

/// The round trip of a reference whose parts all carry data types.
pub proof fn lemma_reference_round_trip(r: Reference, r2: Reference)
    requires
        reference_typed(r),
        reference_parsed(spec_reference_json(r), r2),
    ensures
        spec_reference_json(r2) == spec_reference_json(r),
{
    reveal_strlit("hash");
    reveal_strlit("parts");
    assert("hash"@.len() == 4);
    assert("parts"@.len() == 5);
    let e: Seq<(Seq<char>, Json)> = Seq::empty();
    let m1 = obj_upsert(e, "hash"@, Json::Str(r.hash@));
    crate::json::lemma_obj_get_upsert(e, "hash"@, Json::Str(r.hash@), "hash"@);
    crate::json::lemma_obj_get_upsert(
        m1,
        "parts"@,
        Json::Arr(spec_parts_json(r.parts@)),
        "hash"@,
    );
    crate::json::lemma_obj_get_upsert(
        m1,
        "parts"@,
        Json::Arr(spec_parts_json(r.parts@)),
        "parts"@,
    );
    assert forall|i: int|
        0 <= i < r.parts@.len() implies #[trigger] spec_property_value_json(r2.parts@[i])
        == spec_property_value_json(r.parts@[i]) by {
        assert(spec_parts_json(r.parts@)[i] == spec_property_value_json(r.parts@[i]));
        crate::property_value::lemma_property_value_round_trip(r.parts@[i], r2.parts@[i]);
    }
    assert(spec_parts_json(r2.parts@) =~= spec_parts_json(r.parts@));
}

impl Reference {
    /// Returns the parts.
    pub fn parts(&self) -> (r: &Vec<PropertyValue>)
        ensures
            r == &self.parts,
    {
        &self.parts
    }

    /// Returns the hash.
    pub fn hash(&self) -> (r: &str)
        ensures
            r@ == self.hash@,
    {
        self.hash.as_str()
    }

    /// Appends one part.
    pub fn push_part(&mut self, part: PropertyValue)
        ensures
            final(self).parts@ == old(self).parts@.push(part),
            final(self).hash@ == old(self).hash@,
    {
        self.parts.push(part);
    }

    /// Clones the reference, keeping its serialized form.
    pub fn clone_value(&self) -> (r: Reference)
        ensures
            spec_reference_json(r) == spec_reference_json(*self),
            r.hash@ == self.hash@,
            r.parts@.len() == self.parts@.len(),
    {
        let n = self.parts.len();
        let mut parts: Vec<PropertyValue> = Vec::new();
        let mut i: usize = 0;
        while i < n
            invariant
                0 <= i <= n,
                n == self.parts@.len(),
                parts@.len() == i,
                forall|q: int|
                    0 <= q < i ==> spec_property_value_json(#[trigger] parts@[q])
                        == spec_property_value_json(self.parts@[q]),
            decreases n - i,
        {
            parts.push(self.parts[i].clone_value());
            i = i + 1;
        }
        let r = Reference { parts, hash: self.hash.clone() };
        proof {
            assert(spec_parts_json(r.parts@) =~= spec_parts_json(self.parts@));
        }
        r
    }

    /// Serializes the reference.
    pub fn to_json(&self) -> (r: JsonValue)
        ensures
            r@ == spec_reference_json(*self),
            r@.wf(),
    {
        let n = self.parts.len();
        let mut items: Vec<JsonValue> = Vec::new();
        let mut i: usize = 0;
        while i < n
            invariant
                0 <= i <= n,
                n == self.parts@.len(),
                items@.len() == i,
                forall|q: int| 0 <= q < i ==> (#[trigger] items@[q])@ == spec_property_value_json(
                    self.parts@[q],
                ),
                forall|q: int| 0 <= q < i ==> ((#[trigger] items@[q])@).wf(),
            decreases n - i,
        {
            items.push(self.parts[i].to_json());
            i = i + 1;
        }
        let ghost iseq = items@;
        let arr = JsonValue::Array(items);
        proof {
            assert(arr@ == Json::Arr(view_elems(iseq)));
            assert(view_elems(iseq) =~= spec_parts_json(self.parts@));
            assert forall|q: int|
                0 <= q < spec_parts_json(self.parts@).len() implies (#[trigger] spec_parts_json(
                self.parts@,
            )[q]).wf() by {
                assert(spec_parts_json(self.parts@)[q] == view_elems(iseq)[q]);
                assert(view_elems(iseq)[q] == iseq[q]@);
            }
            crate::json::lemma_all_wf_from_forall(spec_parts_json(self.parts@));
        }
        let p0: Vec<(String, JsonValue)> = Vec::new();
        proof {
            assert(crate::json::view_pairs(p0@) =~= Seq::<(Seq<char>, Json)>::empty());
        }
        let p1 = obj_insert_sorted(&p0, "hash", JsonValue::Str(self.hash.clone()));
        let p2 = obj_insert_sorted(&p1, "parts", arr);
        proof {
            let e: Seq<(Seq<char>, Json)> = Seq::empty();
            crate::json::lemma_obj_upsert_sorted(e, "hash"@, Json::Str(self.hash@));
            crate::json::lemma_obj_upsert_wf(e, "hash"@, Json::Str(self.hash@));
            let m = obj_upsert(e, "hash"@, Json::Str(self.hash@));
            crate::json::lemma_obj_upsert_sorted(m, "parts"@, Json::Arr(
                spec_parts_json(self.parts@),
            ));
            crate::json::lemma_obj_upsert_wf(m, "parts"@, Json::Arr(
                spec_parts_json(self.parts@),
            ));
        }
        JsonValue::Object(p2)
    }

    /// Parses a reference: `hash` must be a string, `parts` an array of
    /// property/value pairs; it succeeds exactly on the documents
    /// `reference_accepted` describes.
    pub fn from_json(j: &JsonValue) -> (r: Result<Reference, RestApiError>)
        ensures
            r matches Ok(rf) ==> reference_parsed(j@, rf),
            r is Err ==> !reference_accepted(j@),
    {
        let hash = match get_key(j, "hash") {
            Some(v) => match as_text(v) {
                Some(s) => s.clone(),
                None => {
                    return Err(
                        RestApiError::MissingOrInvalidField {
                            field: String::from_str("hash"),
                            j: json_clone(j),
                        },
                    );
                },
            },
            None => {
                return Err(
                    RestApiError::MissingOrInvalidField {
                        field: String::from_str("hash"),
                        j: json_clone(j),
                    },
                );
            },
        };
        let pj = match get_key(j, "parts") {
            Some(v) => v,
            None => {
                return Err(
                    RestApiError::MissingOrInvalidField {
                        field: String::from_str("parts"),
                        j: json_clone(j),
                    },
                );
            },
        };
        let items = match pj {
            JsonValue::Array(items) => items,
            _ => {
                return Err(
                    RestApiError::MissingOrInvalidField {
                        field: String::from_str("parts"),
                        j: json_clone(j),
                    },
                );
            },
        };
        let ghost pj_items = view_elems(items@);
        proof {
            assert(pj@ == Json::Arr(pj_items));
        }
        let n = items.len();
        let mut parts: Vec<PropertyValue> = Vec::new();
        let mut i: usize = 0;
        while i < n
            invariant
                0 <= i <= n,
                n == items@.len(),
                pj_items == view_elems(items@),
                pj@ == Json::Arr(pj_items),
                member(j@, "parts"@) == Some(Json::Arr(pj_items)),
                parts@.len() == i,
                forall|q: int|
                    0 <= q < i ==> property_value_parsed(
                        view_elems(items@)[q],
                        #[trigger] parts@[q],
                    ),
            decreases n - i,
        {
            proof {
                assert(view_elems(items@)[i as int] == items@[i as int]@);
            }
            match PropertyValue::from_json(&items[i]) {
                Ok(pv) => {
                    parts.push(pv);
                },
                Err(e) => {
                    proof {
                        assert(pj_items.len() == n);
                        assert(!crate::property_value::property_value_accepted(
                            pj_items[i as int],
                        ));
                        assert(!reference_accepted(j@)) by {
                            if reference_accepted(j@) {
                                match member(j@, "parts"@) {
                                    Some(Json::Arr(its)) => {
                                        assert(its == pj_items);
                                        assert(crate::property_value::property_value_accepted(
                                            its[i as int],
                                        ));
                                    },
                                    _ => {
                                        assert(false);
                                    },
                                }
                            }
                        }
                    }
                    return Err(e);
                },
            }
            i = i + 1;
        }
        Ok(Reference { parts, hash })
    }
}

} // verus!
