//! Entity identifiers: an item ID, a property ID, or nothing yet.

use vstd::prelude::*;
use crate::config::Config;
use crate::error::RestApiError;

verus! {

/// An entity identifier.  `Unset` is the only legal state before the first
/// successful create.
#[derive(Debug, Clone, PartialEq)]
pub enum EntityId {
    Unset,
    Item(String),
    Property(String),
}

impl EntityId {
    /// Returns the bare ID, or an error when unset.
    pub fn id(&self) -> (r: Result<&String, RestApiError>)
        ensures
            match r {
                Ok(s) => (*self matches EntityId::Item(t) && s@ == t@) || (
                *self matches EntityId::Property(t) && s@ == t@),
                Err(e) => *self is Unset && e is IsNone,
            },
    {
        match self {
            EntityId::Unset => Err(RestApiError::IsNone),
            EntityId::Item(id) => Ok(id),
            EntityId::Property(id) => Ok(id),
        }
    }

    /// Returns the REST "group" segment, or an error when unset.
    pub fn group(&self) -> (r: Result<&'static str, RestApiError>)
        ensures
            match r {
                Ok(s) => (*self is Item && s@ == "items"@) || (*self is Property && s@
                    == "properties"@),
                Err(e) => *self is Unset && e is IsNone,
            },
    {
        match self {
            EntityId::Item(_) => Ok("items"),
            EntityId::Property(_) => Ok("properties"),
            EntityId::Unset => Err(RestApiError::IsNone),
        }
    }

    /// Returns the entity type name, or an error when unset.
    pub fn entity_type(&self) -> (r: Result<&'static str, RestApiError>)
        ensures
            match r {
                Ok(s) => (*self is Item && s@ == "item"@) || (*self is Property && s@
                    == "property"@),
                Err(e) => *self is Unset && e is IsNone,
            },
    {
        match self {
            EntityId::Item(_) => Ok("item"),
            EntityId::Property(_) => Ok("property"),
            EntityId::Unset => Err(RestApiError::IsNone),
        }
    }

    /// Parses an ID with the default Wikidata configuration: `Q` items
    /// and `P` properties.
    pub fn new(id: &str) -> (r: Result<EntityId, RestApiError>)
        ensures
            match r {
                Ok(e) => (id@.len() > 0 && id@[0] == 'Q' && (e matches EntityId::Item(s) && s@
                    == id@)) || (id@.len() > 0 && id@[0] == 'P'
                    && (e matches EntityId::Property(s) && s@ == id@)),
                Err(e) => (id@.len() == 0 || (id@[0] != 'Q' && id@[0] != 'P')) && (
                e matches RestApiError::UnknownEntityLetter(t) && t@ == id@),
            },
    {
        Self::new_from_config(id, &Config::wikidata())
    }

    /// Parses an ID against a bespoke configuration: an ID starting with
    /// the item letter is an item, one starting with the property letter a
    /// property, anything else is rejected.
    pub fn new_from_config(id: &str, config: &Config) -> (r: Result<EntityId, RestApiError>)
        ensures
            match r {
                Ok(e) => (id@.len() > 0 && id@[0] == config.item_letter
                    && (e matches EntityId::Item(s) && s@ == id@)) || (id@.len() > 0 && id@[0]
                    != config.item_letter && id@[0] == config.property_letter
                    && (e matches EntityId::Property(s) && s@ == id@)),
                Err(e) => (id@.len() == 0 || (id@[0] != config.item_letter && id@[0]
                    != config.property_letter)) && (e matches
                RestApiError::UnknownEntityLetter(t) && t@ == id@),
            },
    {
        let n = id.unicode_len();
        if n == 0 {
            return Err(RestApiError::UnknownEntityLetter(id.to_owned()));
        }
        let first = id.get_char(0);
        if first == config.item_letter() {
            Ok(EntityId::Item(id.to_owned()))
        } else if first == config.property_letter() {
            Ok(EntityId::Property(id.to_owned()))
        } else {
            Err(RestApiError::UnknownEntityLetter(id.to_owned()))
        }
    }

    /// Returns an unset entity ID.
    pub fn none() -> (r: EntityId)
        ensures
            r is Unset,
    {
        EntityId::Unset
    }

    /// Returns an item ID.
    pub fn item(s: &str) -> (r: EntityId)
        ensures
            r matches EntityId::Item(t) && t@ == s@,
    {
        EntityId::Item(s.to_owned())
    }

    /// Returns a property ID.
    pub fn property(s: &str) -> (r: EntityId)
        ensures
            r matches EntityId::Property(t) && t@ == s@,
    {
        EntityId::Property(s.to_owned())
    }

    /// True when the ID is an item or a property.
    pub fn is_some(&self) -> (r: bool)
        ensures
            r == !(*self is Unset),
    {
        !matches!(self, EntityId::Unset)
    }

    /// True when the ID is unset.
    pub fn is_none(&self) -> (r: bool)
        ensures
            r == (*self is Unset),
    {
        matches!(self, EntityId::Unset)
    }

    /// Clones the ID, keeping its value.
    pub fn clone_id(&self) -> (r: EntityId)
        ensures
            r is Unset == *self is Unset,
            *self matches EntityId::Item(s) ==> (r matches EntityId::Item(t) && t@ == s@),
            *self matches EntityId::Property(s) ==> (r matches EntityId::Property(t) && t@
                == s@),
    {
        match self {
            EntityId::Unset => EntityId::Unset,
            EntityId::Item(s) => EntityId::Item(s.clone()),
            EntityId::Property(s) => EntityId::Property(s.clone()),
        }
    }
}

impl Default for EntityId {
    /// The default entity ID is unset.
    fn default() -> (r: EntityId)
        ensures
            r is Unset,
    {
        EntityId::Unset
    }
}

} // verus!
