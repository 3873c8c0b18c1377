//! The two entity kinds the store addresses.

use vstd::prelude::*;

verus! {

/// An entity is an item or a property.
#[derive(Debug, Clone, Copy, PartialEq, Eq, Structural)]
pub enum EntityType {
    Item,
    Property,
}

impl EntityType {
    /// The singular name used in request bodies.
    pub fn kind_name(&self) -> (r: &'static str)
        ensures
            *self is Item ==> r@ == "item"@,
            *self is Property ==> r@ == "property"@,
    {
        match self {
            EntityType::Item => "item",
            EntityType::Property => "property",
        }
    }

    /// The plural path segment used in REST paths.
    pub fn group_name(&self) -> (r: &'static str)
        ensures
            *self is Item ==> r@ == "items"@,
            *self is Property ==> r@ == "properties"@,
    {
        match self {
            EntityType::Item => "items",
            EntityType::Property => "properties",
        }
    }

    /// The singular name, also usable as a path segment.
    pub fn as_str(&self) -> (r: &'static str)
        ensures
            *self is Item ==> r@ == "item"@,
            *self is Property ==> r@ == "property"@,
    {
        self.kind_name()
    }
}

} // verus!
