//! A typed patch against an entity's statements collection.

use vstd::prelude::*;
use crate::json::JsonValue;
use crate::patch_entry::{PatchEntry, PatchOp, PathToken, view_path};

verus! {

/// The patch for a statements collection: removals and additions addressed
/// by statement ID, and edits of matched statements.
#[derive(Debug)]
pub struct StatementsPatch {
    pub patch: Vec<PatchEntry>,
}

impl StatementsPatch {
    /// Returns the patch operations.
    pub fn patch(&self) -> (r: &Vec<PatchEntry>)
        ensures
            r == &self.patch,
    {
        &self.patch
    }

    /// True when the patch holds no operation.
    pub fn is_empty(&self) -> (r: bool)
        ensures
            r == (self.patch@.len() == 0),
    {
        self.patch.len() == 0
    }

    /// Appends an `add` operation.
    pub fn add(&mut self, path: Vec<PathToken>, value: JsonValue)
        ensures
            final(self).patch@.len() == old(self).patch@.len() + 1,
            final(self).patch@.last()@ == (crate::patch_entry::Entry {
                op: PatchOp::Add,
                path: view_path(path@),
                value: Some(value@),
            }),
            final(self).patch@.take(old(self).patch@.len() as int) == old(self).patch@,
    {
        let e = PatchEntry::new(PatchOp::Add, path, Some(value));
        self.patch.push(e);
        proof {
            assert(final(self).patch@.take(old(self).patch@.len() as int) =~= old(self).patch@);
        }
    }

    /// Appends a `replace` operation.
    pub fn replace(&mut self, path: Vec<PathToken>, value: JsonValue)
        ensures
            final(self).patch@.len() == old(self).patch@.len() + 1,
            final(self).patch@.last()@ == (crate::patch_entry::Entry {
                op: PatchOp::Replace,
                path: view_path(path@),
                value: Some(value@),
            }),
            final(self).patch@.take(old(self).patch@.len() as int) == old(self).patch@,
    {
        let e = PatchEntry::new(PatchOp::Replace, path, Some(value));
        self.patch.push(e);
        proof {
            assert(final(self).patch@.take(old(self).patch@.len() as int) =~= old(self).patch@);
        }
    }

    /// Appends a `remove` operation.
    pub fn remove(&mut self, path: Vec<PathToken>)
        ensures
            final(self).patch@.len() == old(self).patch@.len() + 1,
            final(self).patch@.last()@ == (crate::patch_entry::Entry {
                op: PatchOp::Remove,
                path: view_path(path@),
                value: None,
            }),
            final(self).patch@.take(old(self).patch@.len() as int) == old(self).patch@,
    {
        let e = PatchEntry::new(PatchOp::Remove, path, None);
        self.patch.push(e);
        proof {
            assert(final(self).patch@.take(old(self).patch@.len() as int) =~= old(self).patch@);
        }
    }
}

impl Default for StatementsPatch {
    /// The default patch is empty.
    fn default() -> (r: StatementsPatch)
        ensures
            r.patch@.len() == 0,
    {
        StatementsPatch { patch: Vec::new() }
    }
}

} // verus!
