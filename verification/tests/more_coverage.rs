use wikibase_rest_api::aliases::Aliases;
use wikibase_rest_api::aliases_in_language::AliasesInLanguage;
use wikibase_rest_api::descriptions::Descriptions;
use wikibase_rest_api::entity_patch::EntityPatch;
use wikibase_rest_api::error::RestApiErrorPayload;
use wikibase_rest_api::json::JsonValue;
use wikibase_rest_api::language_string::LanguageString;
use wikibase_rest_api::language_strings::LanguageStrings;
use wikibase_rest_api::search::{Search, SearchResult};
use wikibase_rest_api::statement::Statement;
use wikibase_rest_api::statement_patch::StatementPatch;
use wikibase_rest_api::statement_rank::StatementRank;
use wikibase_rest_api::statement_value::StatementValue;
use wikibase_rest_api::property_value::{PropertyType, PropertyValue};
use wikibase_rest_api::reference::Reference;

#[test]
fn test_language_strings_insert() {
    let mut d = Descriptions::default();
    assert!(!d.has_language("en"));
    d.insert(LanguageString::new("en", "some description"));
    assert!(d.has_language("en"));
    assert_eq!(d.get_lang("en").unwrap(), "some description");
}

#[test]
fn descriptions_test_is_empty() {
    let mut d = Descriptions::default();
    assert!(d.is_empty());
    d.insert(LanguageString::new("en", "x"));
    assert!(!d.is_empty());
}

#[test]
fn test_aliases_insert() {
    let mut a = Aliases::default();
    a.insert(LanguageString::new("en", "Foo"));
    a.insert(LanguageString::new("en", "Bar"));
    assert_eq!(a.get_lang("en").unwrap().as_slice(), ["Foo", "Bar"]);
}

#[test]
fn aliases_test_is_empty() {
    let mut a = Aliases::default();
    assert!(a.is_empty());
    a.insert(LanguageString::new("en", "Foo"));
    assert!(!a.is_empty());
}

#[test]
fn test_aliases_push() {
    let mut a = AliasesInLanguage::new("en", vec![]);
    a.push("Foo".to_string());
    a.push("Bar".to_string());
    a.push("Foo".to_string());
    assert_eq!(a.len(), 2);
    assert_eq!(a.values().as_slice(), ["Foo", "Bar"]);
}

#[test]
fn test_aliases_new() {
    let a = AliasesInLanguage::new("en", vec!["Foo".to_string()]);
    assert_eq!(a.language(), "en");
    assert!(!a.is_empty());
}

#[test]
fn test_item() {
    let patch = EntityPatch::item();
    assert!(patch.is_empty());
    assert_eq!(patch.mode.as_str(), "item");
}

#[test]
fn test_property() {
    let patch = EntityPatch::property();
    assert!(patch.is_empty());
    assert_eq!(patch.mode.as_str(), "property");
}

#[test]
fn test_replace_content() {
    let mut patch = StatementPatch::new("Q42$F078E5B3-F9A8-480E-B7AC-D97778CBBEF9");
    patch.replace_content(JsonValue::Str("Q6".to_string()));
    assert_eq!(patch.patch().len(), 1);
    assert_eq!(patch.patch()[0].op_str(), "replace");
    assert_eq!(patch.patch()[0].path(), "/value/content");
}

#[test]
fn test_set_rank() {
    let mut s = Statement::default();
    assert_eq!(s.rank(), &StatementRank::Normal);
    s.set_rank(StatementRank::Preferred);
    assert_eq!(s.rank(), &StatementRank::Preferred);
}

#[test]
fn test_references() {
    let s = Statement::default();
    assert_eq!(s.references().len(), 0);
}

#[test]
fn test_qualifiers_mut() {
    let mut s = Statement::default();
    assert_eq!(s.qualifiers().len(), 0);
    s.push_qualifier(PropertyValue::new(
        PropertyType::property("P31"),
        StatementValue::new_string("Q42"),
    ));
    assert_eq!(s.qualifiers().len(), 1);
}

#[test]
fn test_references_mut() {
    let mut s = Statement::default();
    assert_eq!(s.references().len(), 0);
    s.push_reference(Reference::default());
    assert_eq!(s.references().len(), 1);
}

#[test]
fn test_payload_code() {
    let payload = RestApiErrorPayload::new("code".to_string(), "message".to_string(), vec![]);
    assert_eq!(payload.code(), "code");
}

#[test]
fn test_payload_message() {
    let payload = RestApiErrorPayload::new("code".to_string(), "message".to_string(), vec![]);
    assert_eq!(payload.message(), "message");
}

#[test]
fn test_response_to_results() {
    fn result(id: &str) -> JsonValue {
        JsonValue::Object(vec![
            ("id".to_string(), JsonValue::Str(id.to_string())),
            (
                "match".to_string(),
                JsonValue::Object(vec![
                    ("type".to_string(), JsonValue::Str("label".to_string())),
                    ("language".to_string(), JsonValue::Str("en".to_string())),
                    ("text".to_string(), JsonValue::Str("potato".to_string())),
                ]),
            ),
        ])
    }
    let response = JsonValue::Object(vec![(
        "results".to_string(),
        JsonValue::Array(vec![result("Q123"), result("Q234")]),
    )]);
    let results = Search::response_to_results(&response).unwrap();
    assert_eq!(results.len(), 2);
    assert_eq!(results[0].id(), "Q123");
    assert_eq!(results[1].id(), "Q234");
    assert_eq!(results[0].search_match().match_type(), "label");
}

#[test]
fn search_result_requires_id() {
    let j = JsonValue::Object(vec![(
        "match".to_string(),
        JsonValue::Object(vec![]),
    )]);
    assert!(SearchResult::from_json(&j).is_err());
}

#[test]
fn test_into_language_string() {
    let l = wikibase_rest_api::label::Label::new("en", "Hello");
    let ls = l.into_language_string();
    assert_eq!(ls.language().as_str(), "en");
    assert_eq!(ls.value().as_str(), "Hello");
}

#[test]
fn test_from_language_string() {
    let ls = LanguageString::new("en", "Hello");
    let d = wikibase_rest_api::description::Description::from(ls);
    assert_eq!(d.language().as_str(), "en");
    assert_eq!(d.value().as_str(), "Hello");
}

#[test]
fn description_from_json_text() {
    let d = wikibase_rest_api::description::Description::from_json_text(
        "en",
        &JsonValue::Str("a writer".to_string()),
    )
    .unwrap();
    assert_eq!(d.language().as_str(), "en");
    assert_eq!(d.value().as_str(), "a writer");
    assert!(
        wikibase_rest_api::description::Description::from_json_text("en", &JsonValue::Null)
            .is_err()
    );
}
