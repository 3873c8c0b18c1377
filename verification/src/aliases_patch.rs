//! A typed patch against the aliases sub-resource, addressed by language
//! and list position.

use vstd::prelude::*;
use crate::patch_entry::{PTok, PatchEntry, PatchOp, PathToken, view_path};

verus! {

/// The patch for an aliases sub-resource.
#[derive(Debug)]
pub struct AliasesPatch {
    pub patch: Vec<PatchEntry>,
}

impl AliasesPatch {
    /// Returns the patch operations.
    pub fn patch(&self) -> (r: &Vec<PatchEntry>)
        ensures
            r == &self.patch,
    {
        &self.patch
    }

    /// True when the patch holds no operation.
    pub fn is_empty(&self) -> (r: bool)
        ensures
            r == (self.patch@.len() == 0),
    {
        self.patch.len() == 0
    }

    /// Appends an `add` of one alias, at the path `/{language}/{num}`.
    pub fn add(&mut self, language: &str, num: usize, value: &str)
        ensures
            final(self).patch@.len() == old(self).patch@.len() + 1,
            final(self).patch@.last()@ == (crate::patch_entry::Entry {
                op: PatchOp::Add,
                path: seq![PTok::Key(language@), PTok::Idx(num as int)],
                value: Some(crate::json::Json::Str(value@)),
            }),
            final(self).patch@.take(old(self).patch@.len() as int) == old(self).patch@,
    {
        let mut path: Vec<PathToken> = Vec::new();
        path.push(PathToken::Key(language.to_owned()));
        path.push(PathToken::Idx(num));
        proof {
            assert(view_path(path@) =~= seq![PTok::Key(language@), PTok::Idx(num as int)]);
        }
        let e = PatchEntry::new(
            PatchOp::Add,
            path,
            Some(crate::json::JsonValue::Str(value.to_owned())),
        );
        self.patch.push(e);
        proof {
            assert(final(self).patch@.take(old(self).patch@.len() as int) =~= old(self).patch@);
        }
    }

    /// Appends a `replace` of one alias, at the path `/{language}/{num}`.
    pub fn replace(&mut self, language: &str, num: usize, value: &str)
        ensures
            final(self).patch@.len() == old(self).patch@.len() + 1,
            final(self).patch@.last()@ == (crate::patch_entry::Entry {
                op: PatchOp::Replace,
                path: seq![PTok::Key(language@), PTok::Idx(num as int)],
                value: Some(crate::json::Json::Str(value@)),
            }),
            final(self).patch@.take(old(self).patch@.len() as int) == old(self).patch@,
    {
        let mut path: Vec<PathToken> = Vec::new();
        path.push(PathToken::Key(language.to_owned()));
        path.push(PathToken::Idx(num));
        proof {
            assert(view_path(path@) =~= seq![PTok::Key(language@), PTok::Idx(num as int)]);
        }
        let e = PatchEntry::new(
            PatchOp::Replace,
            path,
            Some(crate::json::JsonValue::Str(value.to_owned())),
        );
        self.patch.push(e);
        proof {
            assert(final(self).patch@.take(old(self).patch@.len() as int) =~= old(self).patch@);
        }
    }

    /// Appends a `remove` of one alias, at the path `/{language}/{num}`.
    pub fn remove(&mut self, language: &str, num: usize)
        ensures
            final(self).patch@.len() == old(self).patch@.len() + 1,
            final(self).patch@.last()@ == (crate::patch_entry::Entry {
                op: PatchOp::Remove,
                path: seq![PTok::Key(language@), PTok::Idx(num as int)],
                value: None,
            }),
            final(self).patch@.take(old(self).patch@.len() as int) == old(self).patch@,
    {
        let mut path: Vec<PathToken> = Vec::new();
        path.push(PathToken::Key(language.to_owned()));
        path.push(PathToken::Idx(num));
        proof {
            assert(view_path(path@) =~= seq![PTok::Key(language@), PTok::Idx(num as int)]);
        }
        let e = PatchEntry::new(PatchOp::Remove, path, None);
        self.patch.push(e);
        proof {
            assert(final(self).patch@.take(old(self).patch@.len() as int) =~= old(self).patch@);
        }
    }
}

impl Default for AliasesPatch {
    /// The default patch is empty.
    fn default() -> (r: AliasesPatch)
        ensures
            r.patch@.len() == 0,
    {
        AliasesPatch { patch: Vec::new() }
    }
}

} // verus!
