//! A typed patch against the sitelinks sub-resource, addressed by wiki.

use vstd::prelude::*;
use crate::json::JsonValue;
use crate::patch_entry::{PTok, PatchEntry, PatchOp, PathToken, view_path};

verus! {

/// The patch for a sitelinks sub-resource.
#[derive(Debug)]
pub struct SitelinksPatch {
    pub patch: Vec<PatchEntry>,
}

impl SitelinksPatch {
    /// Returns the patch operations.
    pub fn patch(&self) -> (r: &Vec<PatchEntry>)
        ensures
            r == &self.patch,
    {
        &self.patch
    }

    /// True when the patch holds no operation.
    pub fn is_empty(&self) -> (r: bool)
        ensures
            r == (self.patch@.len() == 0),
    {
        self.patch.len() == 0
    }

    /// Appends a `replace` of one wiki's page title, at the path
    /// `/{wiki}/title`.
    pub fn replace_title(&mut self, wiki: &str, value: &str)
        ensures
            final(self).patch@.len() == old(self).patch@.len() + 1,
            final(self).patch@.last()@ == (crate::patch_entry::Entry {
                op: PatchOp::Replace,
                path: seq![PTok::Key(wiki@), PTok::Key("title"@)],
                value: Some(crate::json::Json::Str(value@)),
            }),
            final(self).patch@.take(old(self).patch@.len() as int) == old(self).patch@,
    {
        let mut path: Vec<PathToken> = Vec::new();
        path.push(PathToken::Key(wiki.to_owned()));
        path.push(PathToken::Key(String::from_str("title")));
        proof {
            assert(view_path(path@) =~= seq![PTok::Key(wiki@), PTok::Key("title"@)]);
        }
        let e = PatchEntry::new(
            PatchOp::Replace,
            path,
            Some(JsonValue::Str(value.to_owned())),
        );
        self.patch.push(e);
        proof {
            assert(final(self).patch@.take(old(self).patch@.len() as int) =~= old(self).patch@);
        }
    }
}

impl Default for SitelinksPatch {
    /// The default patch is empty.
    fn default() -> (r: SitelinksPatch)
        ensures
            r.patch@.len() == 0,
    {
        SitelinksPatch { patch: Vec::new() }
    }
}

} // verus!
