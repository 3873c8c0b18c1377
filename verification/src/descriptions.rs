//! The descriptions of an entity: one per language, insertion overwrites.

use vstd::prelude::*;
use crate::error::RestApiError;
use crate::header_info::HeaderInfo;
use crate::json::{Json, JsonValue};
use crate::language_string::LanguageString;
use crate::language_strings::{
    LanguageStrings, lang_from_json, lang_get, lang_lookup, lang_obj, lang_set, lang_to_json,
};
use crate::language_strings_patch::LanguageStringsPatch;

verus! {

/// The descriptions of an entity, as a `language -> text` map.
#[derive(Debug, Clone)]
pub struct Descriptions {
    pub entries: Vec<(String, String)>,
    pub header_info: HeaderInfo,
}

impl Descriptions {
    /// The description for a language, when one is set; the first entry for a
    /// language wins.
    pub fn get_lang<'a>(&'a self, language: &str) -> (r: Option<&'a String>)
        ensures
            match r {
                Some(v) => lang_get(self.entries@, language@) == Some(v@),
                None => lang_get(self.entries@, language@) is None,
            },
    {
        lang_lookup(&self.entries, language)
    }

    /// The number of languages with a description.
    pub fn len(&self) -> (r: usize)
        ensures
            r == self.entries@.len(),
    {
        self.entries.len()
    }

    /// True when no language has a description.
    pub fn is_empty(&self) -> (r: bool)
        ensures
            r == (self.entries@.len() == 0),
    {
        self.entries.len() == 0
    }

    /// Returns the entries.
    pub fn list(&self) -> (r: &Vec<(String, String)>)
        ensures
            r == &self.entries,
    {
        &self.entries
    }

    /// Returns the response metadata.
    pub fn header_info(&self) -> (r: &HeaderInfo)
        ensures
            r == &self.header_info,
    {
        &self.header_info
    }

    /// Serializes the descriptions.
    pub fn to_json(&self) -> (r: JsonValue)
        ensures
            r@ == Json::Obj(lang_obj(self.entries@)),
            r@.wf(),
    {
        lang_to_json(&self.entries)
    }

    /// Parses descriptions out of an object of string members.
    pub fn from_json(j: &JsonValue) -> (r: Result<Descriptions, RestApiError>)
        ensures
            r matches Ok(l) ==> (j@ matches Json::Obj(ps) && forall|k: Seq<char>|
                #[trigger] lang_get(l.entries@, k) == (match crate::json::obj_get(ps, k) {
                    Some(Json::Str(t)) => Some(t),
                    _ => None,
                })),
            r is Err ==> !crate::language_strings::lang_accepted(j@),
    {
        match lang_from_json(j) {
            Ok(entries) => Ok(Descriptions { entries, header_info: HeaderInfo::default() }),
            Err(e) => Err(e),
        }
    }

    /// Computes the patch that transforms `other` into these descriptions.
    pub fn patch(&self, other: &Descriptions) -> (r: Result<LanguageStringsPatch, RestApiError>)
        ensures
            match r {
                Ok(p) => {
                    &&& p.mode is Descriptions
                    &&& crate::apply::apply_entries(
                        Json::Obj(lang_obj(other.entries@)),
                        crate::patch_entry::view_entries(p.patch@),
                    ) == Some(Json::Obj(lang_obj(self.entries@)))
                    &&& (p.patch@.len() == 0) == (Json::Obj(lang_obj(other.entries@))
                        == Json::Obj(lang_obj(self.entries@)))
                },
                Err(_) => false,
            },
    {
        let from_doc = lang_to_json(&other.entries);
        let to_doc = lang_to_json(&self.entries);
        let entries = crate::differ::diff_values(&from_doc, &to_doc);
        Ok(LanguageStringsPatch::descriptions_with(entries))
    }
}

impl Descriptions {
    /// Inserts a description; an existing one for the language is overwritten.
    pub fn insert(&mut self, ls: LanguageString)
        ensures
            lang_get(final(self).entries@, ls.language@) == Some(ls.value@),
            forall|k: Seq<char>|
                k != ls.language@ ==> #[trigger] lang_get(final(self).entries@, k) == lang_get(
                    old(self).entries@,
                    k,
                ),
    {
        lang_set(&mut self.entries, ls.language, ls.value);
    }

    /// True when the language has a description.
    pub fn has_language(&self, language: &str) -> (r: bool)
        ensures
            r == (lang_get(self.entries@, language@) is Some),
    {
        match lang_lookup(&self.entries, language) {
            Some(_) => true,
            None => false,
        }
    }
}

impl LanguageStrings for Descriptions {
    fn insert(&mut self, ls: LanguageString) {
        Descriptions::insert(self, ls);
    }

    fn has_language(&self, language: &str) -> bool {
        Descriptions::has_language(self, language)
    }
}

impl Default for Descriptions {
    /// The default description map is empty.
    fn default() -> (r: Descriptions)
        ensures
            r.entries@.len() == 0,
    {
        Descriptions { entries: Vec::new(), header_info: HeaderInfo::default() }
    }
}

} // verus!
