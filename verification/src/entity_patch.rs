//! A typed patch against a whole entity, combining the patches of its
//! sub-resources.

use vstd::prelude::*;
use crate::entity::EntityType;
use crate::patch_entry::PatchEntry;

verus! {

/// The patch for a whole item or property.
#[derive(Debug)]
pub struct EntityPatch {
    pub patch: Vec<PatchEntry>,
    pub mode: EntityType,
}

impl EntityPatch {
    /// An empty patch against an item.
    pub fn item() -> (r: EntityPatch)
        ensures
            r.mode is Item,
            r.patch@.len() == 0,
    {
        EntityPatch { patch: Vec::new(), mode: EntityType::Item }
    }

    /// An empty patch against a property.
    pub fn property() -> (r: EntityPatch)
        ensures
            r.mode is Property,
            r.patch@.len() == 0,
    {
        EntityPatch { patch: Vec::new(), mode: EntityType::Property }
    }

    /// Returns the patch operations.
    pub fn patch(&self) -> (r: &Vec<PatchEntry>)
        ensures
            r == &self.patch,
    {
        &self.patch
    }

    /// True when the patch holds no operation.
    pub fn is_empty(&self) -> (r: bool)
        ensures
            r == (self.patch@.len() == 0),
    {
        self.patch.len() == 0
    }
}

} // verus!
