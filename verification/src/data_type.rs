//! Property data types and their wire names.

use vstd::prelude::*;
use crate::error::RestApiError;
use crate::json::str_eq;

verus! {

/// The data type of a property.
#[derive(Debug, Clone, Copy, PartialEq, Eq, PartialOrd, Ord, Hash, Structural, Default)]
pub enum DataType {
    #[default]
    String,
    Item,
    Property,
    Url,
    Time,
    GlobeCoordinate,
    Quantity,
    Monolingualtext,
    CommonsMedia,
    GeoShape,
    TabularData,
    Math,
    MusicalNotation,
    ExternalId,
    WikibaseItem,
    WikibaseProperty,
    Lexeme,
    Form,
    Sense,
    EntitySchema,
}

/// The wire name of a data type.
pub open spec fn spec_datatype_str(d: DataType) -> Seq<char> {
    match d {
        DataType::WikibaseItem => "wikibase-item"@,
        DataType::ExternalId => "external-id"@,
        DataType::Url => "url"@,
        DataType::CommonsMedia => "commonsMedia"@,
        DataType::Monolingualtext => "monolingualtext"@,
        DataType::Quantity => "quantity"@,
        DataType::String => "string"@,
        DataType::Time => "time"@,
        DataType::GlobeCoordinate => "globe-coordinate"@,
        DataType::WikibaseProperty => "wikibase-property"@,
        DataType::Lexeme => "wikibase-lexeme"@,
        DataType::Form => "wikibase-form"@,
        DataType::Sense => "wikibase-sense"@,
        DataType::GeoShape => "geo-shape"@,
        DataType::TabularData => "tabular-data"@,
        DataType::Math => "math"@,
        DataType::Item => "item"@,
        DataType::Property => "property"@,
        DataType::MusicalNotation => "musical-notation"@,
        DataType::EntitySchema => "entity-schema"@,
    }
}

/// True when the text is the wire name of some data type.
pub open spec fn is_datatype_str(t: Seq<char>) -> bool {
    t == "wikibase-item"@ || t == "external-id"@ || t == "url"@ || t == "commonsMedia"@ || t
        == "monolingualtext"@ || t == "quantity"@ || t == "string"@ || t == "time"@ || t
        == "globe-coordinate"@ || t == "wikibase-property"@ || t == "wikibase-lexeme"@ || t
        == "wikibase-form"@ || t == "wikibase-sense"@ || t == "geo-shape"@ || t
        == "tabular-data"@ || t == "math"@ || t == "item"@ || t == "property"@ || t
        == "musical-notation"@ || t == "entity-schema"@
}

/// Two data types with the same wire name are the same data type.
pub proof fn lemma_datatype_str_injective(a: DataType, b: DataType)
    requires
        spec_datatype_str(a) == spec_datatype_str(b),
    ensures
        a == b,
{
    reveal_strlit("wikibase-item");
    reveal_strlit("external-id");
    reveal_strlit("url");
    reveal_strlit("commonsMedia");
    reveal_strlit("monolingualtext");
    reveal_strlit("quantity");
    reveal_strlit("string");
    reveal_strlit("time");
    reveal_strlit("globe-coordinate");
    reveal_strlit("wikibase-property");
    reveal_strlit("wikibase-lexeme");
    reveal_strlit("wikibase-form");
    reveal_strlit("wikibase-sense");
    reveal_strlit("geo-shape");
    reveal_strlit("tabular-data");
    reveal_strlit("math");
    reveal_strlit("item");
    reveal_strlit("property");
    reveal_strlit("musical-notation");
    reveal_strlit("entity-schema");
    assert("wikibase-item"@.len() == 13);
    assert("external-id"@.len() == 11);
    assert("url"@.len() == 3);
    assert("commonsMedia"@.len() == 12);
    assert("monolingualtext"@.len() == 15);
    assert("quantity"@.len() == 8);
    assert("string"@.len() == 6);
    assert("time"@.len() == 4);
    assert("globe-coordinate"@.len() == 16);
    assert("wikibase-property"@.len() == 17);
    assert("wikibase-lexeme"@.len() == 15);
    assert("wikibase-form"@.len() == 13);
    assert("wikibase-sense"@.len() == 14);
    assert("geo-shape"@.len() == 9);
    assert("tabular-data"@.len() == 12);
    assert("math"@.len() == 4);
    assert("item"@.len() == 4);
    assert("property"@.len() == 8);
    assert("musical-notation"@.len() == 16);
    assert("entity-schema"@.len() == 13);
    assert("wikibase-item"@[9] == 'i' && "wikibase-form"@[9] == 'f');
    assert("wikibase-item"@[0] == 'w' && "entity-schema"@[0] == 'e');
    assert("monolingualtext"@[0] == 'm' && "wikibase-lexeme"@[0] == 'w');
    assert("commonsMedia"@[0] == 'c' && "tabular-data"@[0] == 't');
    assert("time"@[0] == 't' && "math"@[0] == 'm' && "item"@[0] == 'i');
    assert("quantity"@[0] == 'q' && "property"@[0] == 'p');
    assert("globe-coordinate"@[0] == 'g' && "musical-notation"@[0] == 'm');
}

impl DataType {
    /// Parses a wire name into a data type; an unknown name is rejected.
    pub fn from_str(s: &str) -> (r: Result<DataType, RestApiError>)
        ensures
            match r {
                Ok(d) => s@ == spec_datatype_str(d),
                Err(e) => !is_datatype_str(s@) && (e matches RestApiError::UnknownDataType(t)
                    && t@ == s@),
            },
    {
        if str_eq(s, "wikibase-item") {
            Ok(DataType::WikibaseItem)
        } else if str_eq(s, "external-id") {
            Ok(DataType::ExternalId)
        } else if str_eq(s, "url") {
            Ok(DataType::Url)
        } else if str_eq(s, "commonsMedia") {
            Ok(DataType::CommonsMedia)
        } else if str_eq(s, "monolingualtext") {
            Ok(DataType::Monolingualtext)
        } else if str_eq(s, "quantity") {
            Ok(DataType::Quantity)
        } else if str_eq(s, "string") {
            Ok(DataType::String)
        } else if str_eq(s, "time") {
            Ok(DataType::Time)
        } else if str_eq(s, "globe-coordinate") {
            Ok(DataType::GlobeCoordinate)
        } else if str_eq(s, "wikibase-property") {
            Ok(DataType::WikibaseProperty)
        } else if str_eq(s, "wikibase-lexeme") {
            Ok(DataType::Lexeme)
        } else if str_eq(s, "wikibase-form") {
            Ok(DataType::Form)
        } else if str_eq(s, "wikibase-sense") {
            Ok(DataType::Sense)
        } else if str_eq(s, "geo-shape") {
            Ok(DataType::GeoShape)
        } else if str_eq(s, "tabular-data") {
            Ok(DataType::TabularData)
        } else if str_eq(s, "math") {
            Ok(DataType::Math)
        } else if str_eq(s, "item") {
            Ok(DataType::Item)
        } else if str_eq(s, "property") {
            Ok(DataType::Property)
        } else if str_eq(s, "musical-notation") {
            Ok(DataType::MusicalNotation)
        } else if str_eq(s, "entity-schema") {
            Ok(DataType::EntitySchema)
        } else {
            Err(RestApiError::UnknownDataType(s.to_owned()))
        }
    }

    /// Parses a wire name into a data type; an unknown name is rejected.
    pub fn new(s: &str) -> (r: Result<DataType, RestApiError>)
        ensures
            match r {
                Ok(d) => s@ == spec_datatype_str(d),
                Err(e) => !is_datatype_str(s@) && (e matches RestApiError::UnknownDataType(t)
                    && t@ == s@),
            },
    {
        Self::from_str(s)
    }

    /// Returns the wire name of the data type.
    pub fn as_str(&self) -> (r: &'static str)
        ensures
            r@ == spec_datatype_str(*self),
    {
        match self {
            DataType::WikibaseItem => "wikibase-item",
            DataType::ExternalId => "external-id",
            DataType::Url => "url",
            DataType::CommonsMedia => "commonsMedia",
            DataType::Monolingualtext => "monolingualtext",
            DataType::Quantity => "quantity",
            DataType::String => "string",
            DataType::Time => "time",
            DataType::GlobeCoordinate => "globe-coordinate",
            DataType::WikibaseProperty => "wikibase-property",
            DataType::Lexeme => "wikibase-lexeme",
            DataType::Form => "wikibase-form",
            DataType::Sense => "wikibase-sense",
            DataType::GeoShape => "geo-shape",
            DataType::TabularData => "tabular-data",
            DataType::Math => "math",
            DataType::Item => "item",
            DataType::Property => "property",
            DataType::MusicalNotation => "musical-notation",
            DataType::EntitySchema => "entity-schema",
        }
    }
}

} // verus!
