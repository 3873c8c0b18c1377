use wikibase_rest_api::apply::apply_patch_value;
use wikibase_rest_api::container::{resolve_max_concurrent, EntityCache, MAX_CONCURRENT_LOAD_DEFAULT};
use wikibase_rest_api::entity_id::EntityId;
use wikibase_rest_api::header_info::HeaderInfo;
use wikibase_rest_api::item::Item;
use wikibase_rest_api::json::{json_eq, JsonValue};
use wikibase_rest_api::property_value::PropertyType;
use wikibase_rest_api::statement::Statement;
use wikibase_rest_api::statement_value::StatementValue;
use wikibase_rest_api::statements::Statements;

fn statement(id: Option<&str>, property: &str, value: &str) -> Statement {
    let mut s = Statement::new_string(property, value);
    s.set_id(id.map(|i| i.to_string()));
    s
}

fn statements_of(groups: &[(&str, &[Statement])]) -> Statements {
    let mut st = Statements {
        statements: Vec::new(),
        header_info: HeaderInfo::default(),
    };
    for (_, group) in groups {
        for s in *group {
            st.insert(s.clone());
        }
    }
    st
}

#[test]
fn test_patch() {
    // the add/remove scenario: matching IDs stay put, an ID only in the
    // from side is removed, an ID only in the to side is added
    let s_q1 = statement(Some("Q1"), "P31", "x");
    let s_q2 = statement(Some("Q2"), "P1", "y");
    let s_q3 = statement(Some("Q3"), "P1", "z");
    let from = statements_of(&[("P31", &[s_q1.clone()]), ("P1", &[s_q2.clone()])]);
    let to = statements_of(&[("P31", &[s_q1.clone()]), ("P1", &[s_q3.clone()])]);
    let patch = from.patch(&to).unwrap();
    let rendered: Vec<(String, String)> = patch
        .patch()
        .iter()
        .map(|e| (e.op_str().to_string(), e.path()))
        .collect();
    assert_eq!(rendered.len(), 2);
    // the removal precedes the addition
    assert_eq!(rendered[0], ("remove".to_string(), "/statements/Q2".to_string()));
    assert_eq!(rendered[1], ("add".to_string(), "/statements/Q3".to_string()));
}

#[test]
fn reconciliation_is_by_identity_not_position() {
    // the same statements under different property order and grouping
    // produce an empty patch
    let s_q1 = statement(Some("Q1"), "P31", "x");
    let s_q2 = statement(Some("Q2"), "P1", "y");
    let a = statements_of(&[("P31", &[s_q1.clone()]), ("P1", &[s_q2.clone()])]);
    let b = statements_of(&[("P1", &[s_q2.clone()]), ("P31", &[s_q1.clone()])]);
    let patch = a.patch(&b).unwrap();
    assert!(patch.is_empty());
    let patch = b.patch(&a).unwrap();
    assert!(patch.is_empty());
}

#[test]
fn statements_empty_diff() {
    let s_q1 = statement(Some("Q1"), "P31", "x");
    let a = statements_of(&[("P31", &[s_q1])]);
    let patch = a.patch(&a).unwrap();
    assert!(patch.is_empty());
}

#[test]
fn missing_id_is_rejected() {
    // a target statement without an ID fails the diff outright
    let s_q1 = statement(Some("Q1"), "P31", "x");
    let nameless = statement(None, "P1", "y");
    let from = statements_of(&[("P31", &[s_q1.clone()])]);
    let to = statements_of(&[("P31", &[s_q1]), ("P1", &[nameless])]);
    assert!(from.patch(&to).is_err());
}

#[test]
fn matched_statements_diff_recursively() {
    let s_before = statement(Some("Q1"), "P31", "old");
    let s_after = statement(Some("Q1"), "P31", "new");
    let from = statements_of(&[("P31", &[s_before.clone()])]);
    let to = statements_of(&[("P31", &[s_after.clone()])]);
    let patch = from.patch(&to).unwrap();
    assert!(!patch.is_empty());
    let rendered: Vec<(String, String)> = patch
        .patch()
        .iter()
        .map(|e| (e.op_str().to_string(), e.path()))
        .collect();
    assert!(rendered.contains(&("replace".to_string(), "/value/content".to_string())));
}

#[test]
fn statement_test_patch() {
    let mut s1 = Statement::default();
    s1.set_id(Some("Q42$F078E5B3-F9A8-480E-B7AC-D97778CBBEF9".to_string()));
    s1.set_property(PropertyType::property("P31"));
    s1.set_value(StatementValue::new_string("Q42"));
    let mut s2 = s1.clone();
    s2.set_property(PropertyType::property("P32"));
    s2.set_value(StatementValue::new_string("Q43"));
    let patch = s2.patch(&s1).unwrap();
    let rendered: Vec<(String, String)> = patch
        .patch()
        .iter()
        .map(|e| (e.op_str().to_string(), e.path()))
        .collect();
    assert!(rendered.contains(&("replace".to_string(), "/property/id".to_string())));
    assert!(rendered.contains(&("replace".to_string(), "/value/content".to_string())));
    // applying the patch to the old statement's wire form yields the new
    let patched = apply_patch_value(&s1.to_json(), patch.patch()).unwrap();
    assert!(json_eq(&patched, &s2.to_json()));
}

#[test]
fn test_patch_no_id() {
    let s1 = Statement::default();
    let s2 = Statement::default();
    let patch = s2.patch(&s1);
    assert!(patch.is_err());
}

#[test]
fn test_insert_and_len() {
    let mut statements = Statements {
        statements: Vec::new(),
        header_info: HeaderInfo::default(),
    };
    assert_eq!(statements.len(), 0);
    let mut statement = Statement::default();
    statement.set_property(PropertyType::property("P31"));
    statements.insert(statement.clone());
    statements.insert(statement.clone());
    statement.set_property(PropertyType::property("P1"));
    statements.insert(statement.clone());
    assert_eq!(statements.len(), 3);
}

#[test]
fn test_new_id_for_entity() {
    let entity_id = EntityId::new("Q42").unwrap();
    let mut statement = Statement::default();
    statement.new_id_for_entity(&entity_id).unwrap();
    let id = statement.id().clone().unwrap();
    assert_eq!(&id[0..4], "Q42$");
    assert_eq!(id.len(), 4 + 36);
    assert_eq!(id, id.to_uppercase());
}

#[test]
fn statement_wire_round_trip() {
    // serializing a statement and parsing it back yields the same wire
    // form again
    let mut s = Statement::new_string("P31", "Q5");
    s.set_id(Some("Q42$AAAA".to_string()));
    let j = s.to_json();
    let parsed = Statement::from_json(&j).unwrap();
    assert!(json_eq(&parsed.to_json(), &j));
    assert_eq!(parsed.id().clone().unwrap(), "Q42$AAAA");
    assert_eq!(parsed.property().id(), "P31");
}

#[test]
fn item_patch_composes_sub_patches() {
    let mut a = Item::default();
    a.labels
        .insert(wikibase_rest_api::language_string::LanguageString::new("en", "A"));
    let mut b = Item::default();
    b.labels
        .insert(wikibase_rest_api::language_string::LanguageString::new("en", "B"));
    let p = a.patch(&b).unwrap();
    assert!(!p.is_empty());
    let p = a.patch(&a).unwrap();
    assert!(p.is_empty());
}

#[test]
fn test_max_concurrent() {
    assert_eq!(resolve_max_concurrent(5), 5);
}

#[test]
fn test_max_concurrent_default() {
    assert_eq!(resolve_max_concurrent(0), MAX_CONCURRENT_LOAD_DEFAULT);
}

#[test]
fn cache_tolerates_partial_failure() {
    // two fetched items and one failed fetch: the cache ends up with
    // exactly the two, and nothing fails
    let mut q1 = Item::default();
    q1.id = EntityId::item("Q1");
    let mut q2 = Item::default();
    q2.id = EntityId::item("Q2");
    let mut cache = EntityCache::new();
    cache.store_fetched_items(vec![Some(q1), Some(q2), None]);
    assert!(cache.get_item("Q1").is_some());
    assert!(cache.get_item("Q2").is_some());
    assert!(cache.get_item("Q3").is_none());
}

#[test]
fn cache_skips_loaded_ids() {
    let mut q1 = Item::default();
    q1.id = EntityId::item("Q1");
    let mut cache = EntityCache::new();
    cache.store_item(q1);
    let to_load = cache.items_to_load(&vec![
        EntityId::item("Q1"),
        EntityId::item("Q2"),
        EntityId::property("P5"),
    ]);
    assert_eq!(to_load, vec!["Q2".to_string()]);
    let props = cache.properties_to_load(&vec![EntityId::property("P5")]);
    assert_eq!(props, vec!["P5".to_string()]);
}

#[test]
fn items_to_load_is_exactly_the_uncached_requests() {
    let mut cache = EntityCache::new();
    let mut cached = Item::default();
    cached.id = EntityId::item("Q1");
    cache.store_item(cached);
    let ids = vec![
        EntityId::item("Q1"),
        EntityId::item("Q2"),
        EntityId::property("P5"),
        EntityId::item("Q3"),
    ];
    let to_load = cache.items_to_load(&ids);
    assert_eq!(to_load, vec!["Q2".to_string(), "Q3".to_string()]);
    let props = cache.properties_to_load(&ids);
    assert_eq!(props, vec!["P5".to_string()]);
}

#[test]
fn store_fetched_keeps_unrelated_entries() {
    let mut cache = EntityCache::new();
    let mut old = Item::default();
    old.id = EntityId::item("Q9");
    cache.store_item(old);
    let mut fresh = Item::default();
    fresh.id = EntityId::item("Q2");
    cache.store_fetched_items(vec![None, Some(fresh)]);
    assert!(cache.get_item("Q9").is_some());
    assert!(cache.get_item("Q2").is_some());
    assert!(cache.get_item("Q7").is_none());
}

#[test]
fn statement_id_shape_for_entity() {
    let mut s = statement(None, "P31", "x");
    s.new_id_for_entity(&EntityId::item("Q42")).unwrap();
    let id = s.id().clone().unwrap();
    assert!(id.starts_with("Q42$"));
    let suffix = &id["Q42$".len()..];
    assert_eq!(suffix.len(), 36);
    assert!(suffix
        .chars()
        .all(|c| !c.is_ascii_lowercase()));
}

#[test]
fn statements_from_json_header_info_attaches_metadata() {
    let s_q1 = statement(Some("Q1"), "P31", "x");
    let st = statements_of(&[("P31", &[s_q1])]);
    let j = st.to_json();
    let hi = HeaderInfo::new(Some(7), None);
    let parsed = Statements::from_json_header_info(&j, hi.clone()).unwrap();
    assert_eq!(parsed.header_info(), &hi);
    assert_eq!(parsed.len(), 1);
}

#[test]
fn insert_appends_to_own_group_only() {
    let a = statement(Some("Q1"), "P1", "x");
    let b = statement(Some("Q2"), "P2", "y");
    let c = statement(Some("Q3"), "P1", "z");
    let mut st = statements_of(&[("P1", &[a]), ("P2", &[b])]);
    st.insert(c);
    assert_eq!(st.statements.len(), 2);
    assert_eq!(st.statements[0].0, "P1");
    assert_eq!(st.statements[0].1.len(), 2);
    assert_eq!(
        st.statements[0].1[1].id().clone().unwrap(),
        "Q3".to_string()
    );
    assert_eq!(st.statements[1].1.len(), 1);
}
