use wikibase_rest_api::data_type::DataType;
use wikibase_rest_api::language_string::LanguageString;
use wikibase_rest_api::language_strings_patch::Mode;
use wikibase_rest_api::property_value::PropertyType;
use wikibase_rest_api::statement_rank::StatementRank;
use wikibase_rest_api::statement_value_content::TimePrecision;

#[test]
fn data_type_test_as_str() {
    assert_eq!(DataType::WikibaseItem.as_str(), "wikibase-item");
    assert_eq!(DataType::ExternalId.as_str(), "external-id");
    assert_eq!(DataType::Url.as_str(), "url");
    assert_eq!(DataType::CommonsMedia.as_str(), "commonsMedia");
    assert_eq!(DataType::Monolingualtext.as_str(), "monolingualtext");
    assert_eq!(DataType::Quantity.as_str(), "quantity");
    assert_eq!(DataType::String.as_str(), "string");
    assert_eq!(DataType::Time.as_str(), "time");
    assert_eq!(DataType::GlobeCoordinate.as_str(), "globe-coordinate");
    assert_eq!(DataType::WikibaseProperty.as_str(), "wikibase-property");
    assert_eq!(DataType::Lexeme.as_str(), "wikibase-lexeme");
    assert_eq!(DataType::Form.as_str(), "wikibase-form");
    assert_eq!(DataType::Sense.as_str(), "wikibase-sense");
    assert_eq!(DataType::GeoShape.as_str(), "geo-shape");
    assert_eq!(DataType::TabularData.as_str(), "tabular-data");
    assert_eq!(DataType::Math.as_str(), "math");
    assert_eq!(DataType::Item.as_str(), "item");
    assert_eq!(DataType::Property.as_str(), "property");
}

#[test]
fn data_type_round_trip() {
    let names = [
        "wikibase-item",
        "external-id",
        "url",
        "commonsMedia",
        "monolingualtext",
        "quantity",
        "string",
        "time",
        "globe-coordinate",
        "wikibase-property",
        "wikibase-lexeme",
        "wikibase-form",
        "wikibase-sense",
        "geo-shape",
        "tabular-data",
        "math",
        "item",
        "property",
        "musical-notation",
        "entity-schema",
    ];
    for name in names {
        let dt = DataType::from_str(name).unwrap();
        assert_eq!(dt.as_str(), name);
    }
    assert!(DataType::from_str("not-a-data-type").is_err());
}

#[test]
fn test_language_string() {
    let s = LanguageString::new("en", "Hello");
    assert_eq!(s.language().as_str(), "en");
    assert_eq!(s.value().as_str(), "Hello");
}

#[test]
fn test_mode_as_str() {
    assert_eq!(Mode::Labels.as_str(), "labels");
    assert_eq!(Mode::Descriptions.as_str(), "descriptions");
}

#[test]
fn test_property_type_ord() {
    let pt1 = PropertyType::new("P122", Some(DataType::String));
    let pt2 = PropertyType::new("P123", Some(DataType::String));
    let pt3 = PropertyType::new("P123", Some(DataType::ExternalId));
    assert!(pt1 < pt2);
    assert!(pt2 < pt3);
}

#[test]
fn test_from_str() {
    assert_eq!(StatementRank::new("normal").unwrap(), StatementRank::Normal);
    assert_eq!(StatementRank::new("preferred").unwrap(), StatementRank::Preferred);
    assert_eq!(StatementRank::new("deprecated").unwrap(), StatementRank::Deprecated);
    assert!(StatementRank::new("unknown").is_err());
}

#[test]
fn statement_rank_test_as_str() {
    assert_eq!(StatementRank::Normal.as_str(), "normal");
    assert_eq!(StatementRank::Preferred.as_str(), "preferred");
    assert_eq!(StatementRank::Deprecated.as_str(), "deprecated");
}

#[test]
fn statement_rank_case_insensitive() {
    assert_eq!(StatementRank::new("NORMAL").unwrap(), StatementRank::Normal);
    assert_eq!(StatementRank::new("Preferred").unwrap(), StatementRank::Preferred);
}

#[test]
fn test_from_u8_conversion() {
    assert_eq!(TimePrecision::try_from(0_u8), Ok(TimePrecision::BillionYears));
    assert_eq!(TimePrecision::try_from(1_u8), Ok(TimePrecision::HundredMillionYears));
    assert_eq!(TimePrecision::try_from(2_u8), Ok(TimePrecision::TenMillionYears));
    assert_eq!(TimePrecision::try_from(3_u8), Ok(TimePrecision::MillionYears));
    assert_eq!(TimePrecision::try_from(4_u8), Ok(TimePrecision::HundredMillennia));
    assert_eq!(TimePrecision::try_from(5_u8), Ok(TimePrecision::TenMillennia));
    assert_eq!(TimePrecision::try_from(6_u8), Ok(TimePrecision::Millennia));
    assert_eq!(TimePrecision::try_from(7_u8), Ok(TimePrecision::Century));
    assert_eq!(TimePrecision::try_from(8_u8), Ok(TimePrecision::Decade));
    assert_eq!(TimePrecision::try_from(9_u8), Ok(TimePrecision::Year));
    assert_eq!(TimePrecision::try_from(10_u8), Ok(TimePrecision::Month));
    assert_eq!(TimePrecision::try_from(11_u8), Ok(TimePrecision::Day));
    assert_eq!(TimePrecision::try_from(12_u8), Ok(TimePrecision::Hour));
    assert_eq!(TimePrecision::try_from(13_u8), Ok(TimePrecision::Minute));
    assert_eq!(TimePrecision::try_from(14_u8), Ok(TimePrecision::Second));
    assert!(TimePrecision::try_from(15_u8).is_err());
}

#[test]
fn test_to_u8_conversion() {
    assert_eq!(u8::from(TimePrecision::BillionYears), 0);
    assert_eq!(u8::from(TimePrecision::HundredMillionYears), 1);
    assert_eq!(u8::from(TimePrecision::TenMillionYears), 2);
    assert_eq!(u8::from(TimePrecision::MillionYears), 3);
    assert_eq!(u8::from(TimePrecision::HundredMillennia), 4);
    assert_eq!(u8::from(TimePrecision::TenMillennia), 5);
    assert_eq!(u8::from(TimePrecision::Millennia), 6);
    assert_eq!(u8::from(TimePrecision::Century), 7);
    assert_eq!(u8::from(TimePrecision::Decade), 8);
    assert_eq!(u8::from(TimePrecision::Year), 9);
    assert_eq!(u8::from(TimePrecision::Month), 10);
    assert_eq!(u8::from(TimePrecision::Day), 11);
    assert_eq!(u8::from(TimePrecision::Hour), 12);
    assert_eq!(u8::from(TimePrecision::Minute), 13);
    assert_eq!(u8::from(TimePrecision::Second), 14);
}

#[test]
fn test_from_u64_conversion() {
    assert_eq!(TimePrecision::try_from(0_u64), Ok(TimePrecision::BillionYears));
    assert_eq!(TimePrecision::try_from(1_u64), Ok(TimePrecision::HundredMillionYears));
    assert_eq!(TimePrecision::try_from(2_u64), Ok(TimePrecision::TenMillionYears));
    assert_eq!(TimePrecision::try_from(3_u64), Ok(TimePrecision::MillionYears));
    assert_eq!(TimePrecision::try_from(4_u64), Ok(TimePrecision::HundredMillennia));
    assert_eq!(TimePrecision::try_from(5_u64), Ok(TimePrecision::TenMillennia));
    assert_eq!(TimePrecision::try_from(6_u64), Ok(TimePrecision::Millennia));
    assert_eq!(TimePrecision::try_from(7_u64), Ok(TimePrecision::Century));
    assert_eq!(TimePrecision::try_from(8_u64), Ok(TimePrecision::Decade));
    assert_eq!(TimePrecision::try_from(9_u64), Ok(TimePrecision::Year));
    assert_eq!(TimePrecision::try_from(10_u64), Ok(TimePrecision::Month));
    assert_eq!(TimePrecision::try_from(11_u64), Ok(TimePrecision::Day));
    assert_eq!(TimePrecision::try_from(12_u64), Ok(TimePrecision::Hour));
    assert_eq!(TimePrecision::try_from(13_u64), Ok(TimePrecision::Minute));
    assert_eq!(TimePrecision::try_from(14_u64), Ok(TimePrecision::Second));
    assert!(TimePrecision::try_from(15_u64).is_err());
}

#[test]
fn test_to_u64_conversion() {
    assert_eq!(u64::from(TimePrecision::BillionYears), 0);
    assert_eq!(u64::from(TimePrecision::HundredMillionYears), 1);
    assert_eq!(u64::from(TimePrecision::TenMillionYears), 2);
    assert_eq!(u64::from(TimePrecision::MillionYears), 3);
    assert_eq!(u64::from(TimePrecision::HundredMillennia), 4);
    assert_eq!(u64::from(TimePrecision::TenMillennia), 5);
    assert_eq!(u64::from(TimePrecision::Millennia), 6);
    assert_eq!(u64::from(TimePrecision::Century), 7);
    assert_eq!(u64::from(TimePrecision::Decade), 8);
    assert_eq!(u64::from(TimePrecision::Year), 9);
    assert_eq!(u64::from(TimePrecision::Month), 10);
    assert_eq!(u64::from(TimePrecision::Day), 11);
    assert_eq!(u64::from(TimePrecision::Hour), 12);
    assert_eq!(u64::from(TimePrecision::Minute), 13);
    assert_eq!(u64::from(TimePrecision::Second), 14);
}

#[test]
fn unknown_datatype_error_names_the_input() {
    match DataType::from_str("no-such-type") {
        Err(wikibase_rest_api::error::RestApiError::UnknownDataType(t)) => {
            assert_eq!(t, "no-such-type");
        }
        other => panic!("unexpected result: {other:?}"),
    }
}

#[test]
fn unknown_rank_error_names_the_lowered_input() {
    match StatementRank::new("GREAT") {
        Err(wikibase_rest_api::error::RestApiError::UnknownStatementRank(t)) => {
            assert_eq!(t, "great");
        }
        other => panic!("unexpected result: {other:?}"),
    }
}
