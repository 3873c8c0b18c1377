//! One description: a language-tagged value.

use vstd::prelude::*;
use crate::error::RestApiError;
use crate::json::{Json, JsonValue, json_clone};
use crate::language_string::LanguageString;

verus! {

/// A single description in one language.
#[derive(Debug, Clone, PartialEq, Default)]
pub struct Description {
    pub value: LanguageString,
}

impl Description {
    /// Builds a description from a language code and a text.
    pub fn new(language: &str, value: &str) -> (r: Description)
        ensures
            r.value.language@ == language@,
            r.value.value@ == value@,
    {
        Description { value: LanguageString::new(language, value) }
    }

    /// Builds a description from a language string.
    pub fn from(ls: LanguageString) -> (r: Description)
        ensures
            r.value == ls,
    {
        Description { value: ls }
    }

    /// Turns the description into its language string.
    pub fn into_language_string(self) -> (r: LanguageString)
        ensures
            r == self.value,
    {
        self.value
    }

    /// Returns the language code.
    pub fn language(&self) -> (r: &String)
        ensures
            r@ == self.value.language@,
    {
        &self.value.language
    }

    /// Returns the text.
    pub fn value(&self) -> (r: &String)
        ensures
            r@ == self.value.value@,
    {
        &self.value.value
    }

    /// Parses the wire form of one description: a bare JSON string, tagged with
    /// the language it was asked for.
    pub fn from_json_text(language: &str, j: &JsonValue) -> (r: Result<Description, RestApiError>)
        ensures
            match r {
                Ok(d) => j@ matches Json::Str(t) && d.value.value@ == t && d.value.language@
                    == language@,
                Err(_) => !(j@ is Str),
            },
    {
        match j {
            JsonValue::Str(s) => Ok(Description { value: LanguageString::new(language, s.as_str()) }),
            _ => Err(
                RestApiError::MissingOrInvalidField {
                    field: language.to_owned(),
                    j: json_clone(j),
                },
            ),
        }
    }
}

} // verus!
