//! A typed patch against the labels sub-resource.

use vstd::prelude::*;
use crate::json::JsonValue;
use crate::patch_entry::{PTok, PatchEntry, PatchOp, PathToken, view_path};

verus! {

/// The patch for the labels of an entity.
#[derive(Debug)]
pub struct LabelsPatch {
    pub patch: Vec<PatchEntry>,
}

impl LabelsPatch {
    /// Returns the patch operations.
    pub fn patch(&self) -> (r: &Vec<PatchEntry>)
        ensures
            r == &self.patch,
    {
        &self.patch
    }

    /// True when the patch holds no operation.
    pub fn is_empty(&self) -> (r: bool)
        ensures
            r == (self.patch@.len() == 0),
    {
        self.patch.len() == 0
    }

    /// Appends a `replace` of one language's label, at the path
    /// `/{language}`.
    pub fn replace(&mut self, language: &str, value: &str)
        ensures
            final(self).patch@.len() == old(self).patch@.len() + 1,
            final(self).patch@.last()@ == (crate::patch_entry::Entry {
                op: PatchOp::Replace,
                path: seq![PTok::Key(language@)],
                value: Some(crate::json::Json::Str(value@)),
            }),
            final(self).patch@.take(old(self).patch@.len() as int) == old(self).patch@,
    {
        let mut path: Vec<PathToken> = Vec::new();
        path.push(PathToken::Key(language.to_owned()));
        proof {
            assert(view_path(path@) =~= seq![PTok::Key(language@)]);
        }
        let e = PatchEntry::new(
            PatchOp::Replace,
            path,
            Some(JsonValue::Str(value.to_owned())),
        );
        self.patch.push(e);
        proof {
            assert(final(self).patch@.take(old(self).patch@.len() as int) =~= old(self).patch@);
        }
    }

    /// Appends a `remove` of one language's label, at the path
    /// `/{language}`.
    pub fn remove(&mut self, language: &str)
        ensures
            final(self).patch@.len() == old(self).patch@.len() + 1,
            final(self).patch@.last()@ == (crate::patch_entry::Entry {
                op: PatchOp::Remove,
                path: seq![PTok::Key(language@)],
                value: None,
            }),
            final(self).patch@.take(old(self).patch@.len() as int) == old(self).patch@,
    {
        let mut path: Vec<PathToken> = Vec::new();
        path.push(PathToken::Key(language.to_owned()));
        proof {
            assert(view_path(path@) =~= seq![PTok::Key(language@)]);
        }
        let e = PatchEntry::new(PatchOp::Remove, path, None);
        self.patch.push(e);
        proof {
            assert(final(self).patch@.take(old(self).patch@.len() as int) =~= old(self).patch@);
        }
    }
}

impl Default for LabelsPatch {
    /// The default patch is empty.
    fn default() -> (r: LabelsPatch)
        ensures
            r.patch@.len() == 0,
    {
        LabelsPatch { patch: Vec::new() }
    }
}

} // verus!
