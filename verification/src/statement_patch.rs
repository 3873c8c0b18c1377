//! A typed patch against one statement, addressed by its ID.

use vstd::prelude::*;
use crate::json::JsonValue;
use crate::patch_entry::{PTok, PatchEntry, PatchOp, PathToken, view_path};

verus! {

/// The patch for one statement: the statement's ID and the operations to
/// replay against it.
#[derive(Debug)]
pub struct StatementPatch {
    pub statement_id: String,
    pub patch: Vec<PatchEntry>,
}

impl StatementPatch {
    /// An empty patch for the statement with the given ID.
    pub fn new(id: &str) -> (r: StatementPatch)
        ensures
            r.statement_id@ == id@,
            r.patch@.len() == 0,
    {
        StatementPatch { statement_id: id.to_owned(), patch: Vec::new() }
    }

    /// Returns the statement ID the patch addresses.
    pub fn statement_id(&self) -> (r: &str)
        ensures
            r@ == self.statement_id@,
    {
        self.statement_id.as_str()
    }

    /// Returns the patch operations.
    pub fn patch(&self) -> (r: &Vec<PatchEntry>)
        ensures
            r == &self.patch,
    {
        &self.patch
    }

    /// True when the patch holds no operation.
    pub fn is_empty(&self) -> (r: bool)
        ensures
            r == (self.patch@.len() == 0),
    {
        self.patch.len() == 0
    }

    /// Appends an `add` operation.
    pub fn add(&mut self, path: Vec<PathToken>, value: JsonValue)
        ensures
            final(self).patch@.len() == old(self).patch@.len() + 1,
            final(self).patch@.last()@ == (crate::patch_entry::Entry {
                op: PatchOp::Add,
                path: view_path(path@),
                value: Some(value@),
            }),
            final(self).patch@.take(old(self).patch@.len() as int) == old(self).patch@,
            final(self).statement_id == old(self).statement_id,
    {
        let e = PatchEntry::new(PatchOp::Add, path, Some(value));
        self.patch.push(e);
        proof {
            assert(final(self).patch@.take(old(self).patch@.len() as int) =~= old(self).patch@);
        }
    }

    /// Appends a `replace` operation.
    pub fn replace(&mut self, path: Vec<PathToken>, value: JsonValue)
        ensures
            final(self).patch@.len() == old(self).patch@.len() + 1,
            final(self).patch@.last()@ == (crate::patch_entry::Entry {
                op: PatchOp::Replace,
                path: view_path(path@),
                value: Some(value@),
            }),
            final(self).patch@.take(old(self).patch@.len() as int) == old(self).patch@,
            final(self).statement_id == old(self).statement_id,
    {
        let e = PatchEntry::new(PatchOp::Replace, path, Some(value));
        self.patch.push(e);
        proof {
            assert(final(self).patch@.take(old(self).patch@.len() as int) =~= old(self).patch@);
        }
    }

    /// Appends a `remove` operation.
    pub fn remove(&mut self, path: Vec<PathToken>)
        ensures
            final(self).patch@.len() == old(self).patch@.len() + 1,
            final(self).patch@.last()@ == (crate::patch_entry::Entry {
                op: PatchOp::Remove,
                path: view_path(path@),
                value: None,
            }),
            final(self).patch@.take(old(self).patch@.len() as int) == old(self).patch@,
            final(self).statement_id == old(self).statement_id,
    {
        let e = PatchEntry::new(PatchOp::Remove, path, None);
        self.patch.push(e);
        proof {
            assert(final(self).patch@.take(old(self).patch@.len() as int) =~= old(self).patch@);
        }
    }

    /// Appends a `replace` of the statement's value content, at the path
    /// `/value/content`.
    pub fn replace_content(&mut self, value: JsonValue)
        ensures
            final(self).patch@.len() == old(self).patch@.len() + 1,
            final(self).patch@.last()@ == (crate::patch_entry::Entry {
                op: PatchOp::Replace,
                path: seq![PTok::Key("value"@), PTok::Key("content"@)],
                value: Some(value@),
            }),
            final(self).statement_id == old(self).statement_id,
    {
        let mut path: Vec<PathToken> = Vec::new();
        path.push(PathToken::Key(String::from_str("value")));
        path.push(PathToken::Key(String::from_str("content")));
        proof {
            assert(view_path(path@) =~= seq![PTok::Key("value"@), PTok::Key("content"@)]);
        }
        self.replace(path, value);
    }
}

} // verus!
