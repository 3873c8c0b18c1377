//! A typed patch against a `language -> text` sub-resource, for either
//! the labels or the descriptions of an entity.

use vstd::prelude::*;
use crate::json::JsonValue;
use crate::patch_entry::{PTok, PatchEntry, PatchOp, PathToken, view_path};

verus! {

/// Which language-keyed sub-resource a patch addresses.
#[derive(Debug, Clone, Copy, PartialEq, Eq, Structural)]
pub enum Mode {
    Labels,
    Descriptions,
}

impl Mode {
    /// The REST path segment of the sub-resource.
    pub fn as_str(&self) -> (r: &'static str)
        ensures
            *self is Labels ==> r@ == "labels"@,
            *self is Descriptions ==> r@ == "descriptions"@,
    {
        match self {
            Mode::Labels => "labels",
            Mode::Descriptions => "descriptions",
        }
    }
}

/// The patch for a labels or descriptions sub-resource.
#[derive(Debug)]
pub struct LanguageStringsPatch {
    pub patch: Vec<PatchEntry>,
    pub mode: Mode,
}

impl LanguageStringsPatch {
    /// An empty patch against the labels.
    pub fn labels() -> (r: LanguageStringsPatch)
        ensures
            r.mode is Labels,
            r.patch@.len() == 0,
    {
        LanguageStringsPatch { patch: Vec::new(), mode: Mode::Labels }
    }

    /// An empty patch against the descriptions.
    pub fn descriptions() -> (r: LanguageStringsPatch)
        ensures
            r.mode is Descriptions,
            r.patch@.len() == 0,
    {
        LanguageStringsPatch { patch: Vec::new(), mode: Mode::Descriptions }
    }

    /// A labels patch carrying the given operations.
    pub fn labels_with(patch: Vec<PatchEntry>) -> (r: LanguageStringsPatch)
        ensures
            r.mode is Labels,
            r.patch == patch,
    {
        LanguageStringsPatch { patch, mode: Mode::Labels }
    }

    /// A descriptions patch carrying the given operations.
    pub fn descriptions_with(patch: Vec<PatchEntry>) -> (r: LanguageStringsPatch)
        ensures
            r.mode is Descriptions,
            r.patch == patch,
    {
        LanguageStringsPatch { patch, mode: Mode::Descriptions }
    }

    /// Returns the patch operations.
    pub fn patch(&self) -> (r: &Vec<PatchEntry>)
        ensures
            r == &self.patch,
    {
        &self.patch
    }

    /// True when the patch holds no operation.
    pub fn is_empty(&self) -> (r: bool)
        ensures
            r == (self.patch@.len() == 0),
    {
        self.patch.len() == 0
    }

    /// Appends a `replace` of one language's text, at the path
    /// `/{language}`.
    pub fn replace(&mut self, language: &str, value: &str)
        ensures
            final(self).patch@.len() == old(self).patch@.len() + 1,
            final(self).patch@.last()@ == (crate::patch_entry::Entry {
                op: PatchOp::Replace,
                path: seq![PTok::Key(language@)],
                value: Some(crate::json::Json::Str(value@)),
            }),
            final(self).patch@.take(old(self).patch@.len() as int) == old(self).patch@,
            final(self).mode == old(self).mode,
    {
        let mut path: Vec<PathToken> = Vec::new();
        path.push(PathToken::Key(language.to_owned()));
        proof {
            assert(view_path(path@) =~= seq![PTok::Key(language@)]);
        }
        let e = PatchEntry::new(
            PatchOp::Replace,
            path,
            Some(JsonValue::Str(value.to_owned())),
        );
        self.patch.push(e);
        proof {
            assert(final(self).patch@.take(old(self).patch@.len() as int) =~= old(self).patch@);
        }
    }

    /// Appends a `remove` of one language's text, at the path
    /// `/{language}`.
    pub fn remove(&mut self, language: &str)
        ensures
            final(self).patch@.len() == old(self).patch@.len() + 1,
            final(self).patch@.last()@ == (crate::patch_entry::Entry {
                op: PatchOp::Remove,
                path: seq![PTok::Key(language@)],
                value: None,
            }),
            final(self).patch@.take(old(self).patch@.len() as int) == old(self).patch@,
            final(self).mode == old(self).mode,
    {
        let mut path: Vec<PathToken> = Vec::new();
        path.push(PathToken::Key(language.to_owned()));
        proof {
            assert(view_path(path@) =~= seq![PTok::Key(language@)]);
        }
        let e = PatchEntry::new(PatchOp::Remove, path, None);
        self.patch.push(e);
        proof {
            assert(final(self).patch@.take(old(self).patch@.len() as int) =~= old(self).patch@);
        }
    }
}

} // verus!
