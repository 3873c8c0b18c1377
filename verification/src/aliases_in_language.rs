//! The aliases of one language: an ordered, duplicate-free list.

use vstd::prelude::*;
use crate::aliases::list_has;
use crate::error::RestApiError;
use crate::header_info::HeaderInfo;
use crate::json::{Json, JsonValue, json_clone, str_eq, view_elems};
use crate::apply::as_text;

verus! {

/// One language's alias list.
#[derive(Debug, Clone)]
pub struct AliasesInLanguage {
    pub language: String,
    pub values: Vec<String>,
    pub header_info: HeaderInfo,
}

impl AliasesInLanguage {
    /// Builds an alias list for a language.
    pub fn new(language: &str, values: Vec<String>) -> (r: AliasesInLanguage)
        ensures
            r.language@ == language@,
            r.values == values,
    {
        AliasesInLanguage {
            language: language.to_owned(),
            values,
            header_info: HeaderInfo::default(),
        }
    }

    /// Parses an alias list out of an array of strings.
    pub fn from_json(language: &str, j: &JsonValue) -> (r: Result<
        AliasesInLanguage,
        RestApiError,
    >)
        ensures
            match r {
                Ok(a) => a.language@ == language@ && (j@ matches Json::Arr(items)
                    && items.len() == a.values@.len() && forall|i: int|
                    0 <= i < items.len() ==> items[i] == Json::Str(#[trigger] a.values@[i]@)),
                Err(_) => !(j@ is Arr) || (j@ matches Json::Arr(items) && exists|i: int|
                    0 <= i < items.len() && !((#[trigger] items[i]) is Str)),
            },
    {
        let items = match j {
            JsonValue::Array(items) => items,
            _ => {
                return Err(
                    RestApiError::MissingOrInvalidField {
                        field: language.to_owned(),
                        j: json_clone(j),
                    },
                );
            },
        };
        let ghost iseq = view_elems(items@);
        proof {
            assert(j@ == Json::Arr(iseq));
        }
        let n = items.len();
        let mut values: Vec<String> = Vec::new();
        let mut i: usize = 0;
        while i < n
            invariant
                0 <= i <= n,
                n == items@.len(),
                iseq == view_elems(items@),
                j@ == Json::Arr(iseq),
                values@.len() == i,
                forall|q: int| 0 <= q < i ==> iseq[q] == Json::Str(#[trigger] values@[q]@),
            decreases n - i,
        {
            proof {
                assert(iseq[i as int] == items@[i as int]@);
            }
            match as_text(&items[i]) {
                Some(t) => {
                    values.push(t.clone());
                },
                None => {
                    proof {
                        assert(!(iseq[i as int] is Str));
                    }
                    return Err(
                        RestApiError::MissingOrInvalidField {
                            field: language.to_owned(),
                            j: json_clone(&items[i]),
                        },
                    );
                },
            }
            i = i + 1;
        }
        Ok(
            AliasesInLanguage {
                language: language.to_owned(),
                values,
                header_info: HeaderInfo::default(),
            },
        )
    }

    /// Appends an alias, unless the list already carries it.
    pub fn push(&mut self, alias: String)
        ensures
            list_has(old(self).values@, alias@) ==> *final(self) == *old(self),
            !list_has(old(self).values@, alias@) ==> final(self).values@ == old(
                self,
            ).values@.push(alias) && final(self).language == old(self).language,
    {
        let m = self.values.len();
        let mut already = false;
        let mut s: usize = 0;
        while s < m
            invariant
                0 <= s <= m,
                m == self.values@.len(),
                *self == *old(self),
                already ==> list_has(self.values@, alias@),
                (!already) ==> forall|q: int| 0 <= q < s ==> (#[trigger] self.values@[q])@ != alias@,
            decreases m - s,
        {
            if str_eq(self.values[s].as_str(), alias.as_str()) {
                already = true;
            }
            s = s + 1;
        }
        if !already {
            self.values.push(alias);
        }
    }

    /// Returns the values.
    pub fn values(&self) -> (r: &Vec<String>)
        ensures
            r == &self.values,
    {
        &self.values
    }

    /// The number of aliases.
    pub fn len(&self) -> (r: usize)
        ensures
            r == self.values@.len(),
    {
        self.values.len()
    }

    /// True when there is no alias.
    pub fn is_empty(&self) -> (r: bool)
        ensures
            r == (self.values@.len() == 0),
    {
        self.values.len() == 0
    }

    /// Returns the language.
    pub fn language(&self) -> (r: &str)
        ensures
            r@ == self.language@,
    {
        self.language.as_str()
    }

    /// Returns the response metadata.
    pub fn header_info(&self) -> (r: &HeaderInfo)
        ensures
            r == &self.header_info,
    {
        &self.header_info
    }
}

} // verus!
