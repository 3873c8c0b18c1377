use wikibase_rest_api::apply::apply_patch_value;
use wikibase_rest_api::data_type::DataType;
use wikibase_rest_api::json::{json_eq, JsonValue};
use wikibase_rest_api::patch_entry::{PatchEntry, PatchOp, PathToken};
use wikibase_rest_api::property_value::{PropertyType, PropertyValue};
use wikibase_rest_api::reference::Reference;
use wikibase_rest_api::statement_value::StatementValue;

#[test]
fn test_property_type() {
    let j = JsonValue::Object(vec![
        ("id".to_string(), JsonValue::Str("P123".to_string())),
        ("data_type".to_string(), JsonValue::Str("string".to_string())),
    ]);
    let p = PropertyType::from_json(&j).unwrap();
    assert_eq!(p.id(), "P123");
    assert_eq!(p.datatype(), &Some(DataType::String));
}

#[test]
fn test_property_type_eq() {
    let j = JsonValue::Object(vec![
        ("id".to_string(), JsonValue::Str("P123".to_string())),
        ("data_type".to_string(), JsonValue::Str("string".to_string())),
    ]);
    let pt1 = PropertyType::from_json(&j).unwrap();
    let pt2 = PropertyType::new("P123", Some(DataType::String));
    assert_eq!(pt1, pt2);
}

#[test]
fn test_property_type_serialize_faulty_id() {
    let j = JsonValue::Object(vec![
        ("id".to_string(), JsonValue::Num("123".to_string())),
        ("data_type".to_string(), JsonValue::Str("string".to_string())),
    ]);
    assert!(PropertyType::from_json(&j).is_err());
}

#[test]
fn test_property_type_serialize_faulty_data_type() {
    let j = JsonValue::Object(vec![
        ("id".to_string(), JsonValue::Str("P123".to_string())),
        ("data_type".to_string(), JsonValue::Num("567".to_string())),
    ]);
    assert!(PropertyType::from_json(&j).is_err());
}

#[test]
fn property_type_wire_round_trip() {
    let p = PropertyType::new("P31", Some(DataType::WikibaseItem));
    let j = p.to_json();
    let back = PropertyType::from_json(&j).unwrap();
    assert_eq!(back, p);
    assert!(json_eq(&back.to_json(), &j));
}

#[test]
fn test_parts() {
    let mut reference = Reference::default();
    reference.hash = "hash".to_string();
    reference.push_part(PropertyValue::new(
        PropertyType::new("P123", None),
        StatementValue::new_string("test"),
    ));
    assert_eq!(reference.parts().len(), 1);
    assert_eq!(reference.parts()[0].property().id(), "P123");
}

#[test]
fn test_hash() {
    let mut reference = Reference::default();
    reference.hash = "hash".to_string();
    assert_eq!(reference.hash(), "hash");
}

#[test]
fn test_from_json_err() {
    let j = JsonValue::Object(vec![
        ("hash".to_string(), JsonValue::Str("hash".to_string())),
        ("parts".to_string(), JsonValue::Num("12345".to_string())),
    ]);
    assert!(Reference::from_json(&j).is_err());
}

#[test]
fn reference_wire_round_trip() {
    let mut reference = Reference::default();
    reference.hash = "abc".to_string();
    reference.push_part(PropertyValue::new(
        PropertyType::new("P123", Some(DataType::String)),
        StatementValue::new_string("test"),
    ));
    let j = reference.to_json();
    let back = Reference::from_json(&j).unwrap();
    assert!(json_eq(&back.to_json(), &j));
}

#[test]
fn apply_rejects_bad_paths() {
    // replacing a missing member does not apply
    let doc = JsonValue::Object(vec![(
        "en".to_string(),
        JsonValue::Str("x".to_string()),
    )]);
    let patch = vec![PatchEntry::new(
        PatchOp::Replace,
        vec![PathToken::Key("de".to_string())],
        Some(JsonValue::Str("y".to_string())),
    )];
    assert!(apply_patch_value(&doc, &patch).is_none());
    // removing an index out of range does not apply
    let doc = JsonValue::Array(vec![JsonValue::Null]);
    let patch = vec![PatchEntry::new(
        PatchOp::Remove,
        vec![PathToken::Idx(3)],
        None,
    )];
    assert!(apply_patch_value(&doc, &patch).is_none());
}

#[test]
fn apply_add_and_remove() {
    let doc = JsonValue::Object(vec![(
        "en".to_string(),
        JsonValue::Str("x".to_string()),
    )]);
    let patch = vec![
        PatchEntry::new(
            PatchOp::Add,
            vec![PathToken::Key("de".to_string())],
            Some(JsonValue::Str("y".to_string())),
        ),
        PatchEntry::new(PatchOp::Remove, vec![PathToken::Key("en".to_string())], None),
    ];
    let out = apply_patch_value(&doc, &patch).unwrap();
    let expected = JsonValue::Object(vec![(
        "de".to_string(),
        JsonValue::Str("y".to_string()),
    )]);
    assert!(json_eq(&out, &expected));
}
