use wikibase_rest_api::config::Config;
use wikibase_rest_api::entity::EntityType;
use wikibase_rest_api::entity_id::EntityId;

#[test]
fn test_entity_id_item() {
    let id = EntityId::item("Q123");
    assert_eq!(id, EntityId::item("Q123"));
}

#[test]
fn test_entity_id_property() {
    let id = EntityId::property("P123");
    assert_eq!(id, EntityId::property("P123"));
}

#[test]
fn test_entity_id_none() {
    let id = EntityId::none();
    assert_eq!(id, EntityId::Unset);
}

#[test]
fn test_entity_id_item_is_some() {
    let id = EntityId::item("Q123");
    assert!(id.is_some());
}

#[test]
fn test_entity_id_property_is_some() {
    let id = EntityId::property("P123");
    assert!(id.is_some());
}

#[test]
fn test_entity_id_none_is_some() {
    let id = EntityId::none();
    assert!(!id.is_some());
}

#[test]
fn test_entity_id_item_is_none() {
    let id = EntityId::item("Q123");
    assert!(!id.is_none());
}

#[test]
fn test_entity_id_property_is_none() {
    let id = EntityId::property("P123");
    assert!(!id.is_none());
}

#[test]
fn test_entity_id_none_is_none() {
    let id = EntityId::none();
    assert!(id.is_none());
}

#[test]
fn test_entity_id_default() {
    let id = EntityId::default();
    assert_eq!(id, EntityId::Unset);
}

#[test]
fn test_entity_id_id() {
    let id = EntityId::item("Q123");
    assert_eq!(id.id().unwrap(), "Q123");
    let id = EntityId::property("P123");
    assert_eq!(id.id().unwrap(), "P123");
    let id = EntityId::none();
    assert!(id.id().is_err());
}

#[test]
fn test_entity_id_item_group() {
    let id = EntityId::item("Q123");
    assert_eq!(id.group().unwrap(), "items");
}

#[test]
fn test_entity_id_property_group() {
    let id = EntityId::property("P123");
    assert_eq!(id.group().unwrap(), "properties");
}

#[test]
fn test_entity_id_none_group() {
    let id = EntityId::none();
    assert!(id.group().is_err());
}

#[test]
fn test_entity_id_entity_item_type() {
    let id = EntityId::item("Q123");
    assert_eq!(id.entity_type().unwrap(), "item");
}

#[test]
fn test_entity_id_entity_property_type() {
    let id = EntityId::property("P123");
    assert_eq!(id.entity_type().unwrap(), "property");
}

#[test]
fn test_entity_id_entity_none_type() {
    let id = EntityId::none();
    assert!(id.entity_type().is_err());
}

#[test]
fn test_entity_id_item_new() {
    let id = EntityId::new("Q123").unwrap();
    assert_eq!(id, EntityId::item("Q123"));
}

#[test]
fn test_entity_id_property_new() {
    let id = EntityId::new("P123").unwrap();
    assert_eq!(id, EntityId::property("P123"));
}

#[test]
fn test_entity_id_none_new() {
    let id = EntityId::new("X123");
    assert!(id.is_err());
}

#[test]
fn test_entity_id_new_from_config() {
    let config = Config::new('A', 'B');
    let id_a = EntityId::new_from_config("A123", &config).unwrap();
    assert_eq!(id_a, EntityId::item("A123"));
    let id_b = EntityId::new_from_config("B123", &config).unwrap();
    assert_eq!(id_b, EntityId::property("B123"));
    let id_x = EntityId::new_from_config("X123", &config);
    assert!(id_x.is_err());
}

#[test]
fn test_config() {
    let config = Config::new('Q', 'P');
    assert_eq!(config.item_letter(), 'Q');
    assert_eq!(config.property_letter(), 'P');
}

#[test]
fn test_entity_type() {
    assert_eq!(EntityType::Item.kind_name(), "item");
    assert_eq!(EntityType::Property.kind_name(), "property");
    assert_eq!(EntityType::Item.group_name(), "items");
    assert_eq!(EntityType::Property.group_name(), "properties");
}

#[test]
fn test_mode() {
    assert_eq!(EntityType::Item.as_str(), "item");
    assert_eq!(EntityType::Property.as_str(), "property");
}

#[test]
fn unknown_letter_error_names_the_input() {
    match EntityId::new("X123") {
        Err(wikibase_rest_api::error::RestApiError::UnknownEntityLetter(t)) => {
            assert_eq!(t, "X123");
        }
        other => panic!("unexpected result: {other:?}"),
    }
}
