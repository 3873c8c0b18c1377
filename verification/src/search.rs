//! Entity search: the query builder and the typed results.

use vstd::prelude::*;
use crate::entity::EntityType;
use crate::error::RestApiError;
use crate::json::{Json, JsonValue};
use crate::apply::{as_text, get_key};
use crate::language_string::Language;
use crate::statement_value::member;

verus! {

/// A search page size, between one and five hundred.
#[derive(Debug, Clone, PartialEq)]
pub struct SearchLimit {
    pub limit: u16,
}

impl SearchLimit {
    /// Validates a page size: it must lie between one and five hundred.
    pub fn try_new(limit: u16) -> (r: Result<SearchLimit, RestApiError>)
        ensures
            match r {
                Ok(l) => 1 <= l.limit <= 500 && l.limit == limit,
                Err(_) => limit == 0 || limit > 500,
            },
    {
        if 1 <= limit && limit <= 500 {
            Ok(SearchLimit { limit })
        } else {
            Err(RestApiError::EmptyValue(String::from_str("search limit out of range")))
        }
    }

    /// Returns the page size.
    pub fn get(&self) -> (r: u16)
        ensures
            r == self.limit,
    {
        self.limit
    }
}

/// A language-tagged text in a search result.
#[derive(Debug, Clone, PartialEq)]
pub struct SearchResultText {
    pub language: String,
    pub value: String,
}

impl SearchResultText {
    /// Returns the language code.
    pub fn language(&self) -> (r: &str)
        ensures
            r@ == self.language@,
    {
        self.language.as_str()
    }

    /// Returns the text.
    pub fn value(&self) -> (r: &str)
        ensures
            r@ == self.value@,
    {
        self.value.as_str()
    }
}

/// What part of an entity a search result matched.
#[derive(Debug, Clone, PartialEq)]
pub struct SearchResultMatch {
    pub match_type: String,
    pub language: String,
    pub text: String,
}

impl SearchResultMatch {
    /// Returns the language code.
    pub fn language(&self) -> (r: &str)
        ensures
            r@ == self.language@,
    {
        self.language.as_str()
    }

    /// Returns the matched text.
    pub fn text(&self) -> (r: &str)
        ensures
            r@ == self.text@,
    {
        self.text.as_str()
    }

    /// Returns the matched part: a label, an alias, or a description.
    pub fn match_type(&self) -> (r: &str)
        ensures
            r@ == self.match_type@,
    {
        self.match_type.as_str()
    }
}

/// One search result.
#[derive(Debug, Clone, PartialEq)]
pub struct SearchResult {
    pub id: String,
    pub display_label: Option<SearchResultText>,
    pub description: Option<SearchResultText>,
    pub search_match: SearchResultMatch,
}

/// What the search-result parser accepts: a string ID and a `match`
/// member; the optional texts never reject.
pub open spec fn search_result_accepted(j: Json) -> bool {
    &&& member(j, "id"@) matches Some(Json::Str(_))
    &&& member(j, "match"@) is Some
}

impl SearchResult {
    /// Returns the entity ID.
    pub fn id(&self) -> (r: &str)
        ensures
            r@ == self.id@,
    {
        self.id.as_str()
    }

    /// Returns the display label, when present.
    pub fn display_label(&self) -> (r: &Option<SearchResultText>)
        ensures
            r == &self.display_label,
    {
        &self.display_label
    }

    /// Returns the description, when present.
    pub fn description(&self) -> (r: &Option<SearchResultText>)
        ensures
            r == &self.description,
    {
        &self.description
    }

    /// Returns the match detail.
    pub fn search_match(&self) -> (r: &SearchResultMatch)
        ensures
            r == &self.search_match,
    {
        &self.search_match
    }

    /// Parses one search result: `id` and the `match` members are
    /// required, the label and description texts optional.
    pub fn from_json(j: &JsonValue) -> (r: Result<SearchResult, RestApiError>)
        ensures
            r matches Ok(sr) ==> member(j@, "id"@) == Some(Json::Str(sr.id@)),
            r is Err ==> !search_result_accepted(j@),
    {
        let id = match get_key(j, "id") {
            Some(v) => match as_text(v) {
                Some(s) => s.clone(),
                None => {
                    return Err(
                        RestApiError::MissingOrInvalidField {
                            field: String::from_str("id"),
                            j: crate::json::json_clone(j),
                        },
                    );
                },
            },
            None => {
                return Err(
                    RestApiError::MissingOrInvalidField {
                        field: String::from_str("id"),
                        j: crate::json::json_clone(j),
                    },
                );
            },
        };
        let display_label = match get_key(j, "display-label") {
            Some(v) => Self::text_from_json(v),
            None => None,
        };
        let description = match get_key(j, "description") {
            Some(v) => Self::text_from_json(v),
            None => None,
        };
        let search_match = match get_key(j, "match") {
            Some(v) => {
                let match_type = match get_key(v, "type") {
                    Some(t) => match as_text(t) {
                        Some(s) => s.clone(),
                        None => String::new(),
                    },
                    None => String::new(),
                };
                let language = match get_key(v, "language") {
                    Some(t) => match as_text(t) {
                        Some(s) => s.clone(),
                        None => String::new(),
                    },
                    None => String::new(),
                };
                let text = match get_key(v, "text") {
                    Some(t) => match as_text(t) {
                        Some(s) => s.clone(),
                        None => String::new(),
                    },
                    None => String::new(),
                };
                SearchResultMatch { match_type, language, text }
            },
            None => {
                return Err(
                    RestApiError::MissingOrInvalidField {
                        field: String::from_str("match"),
                        j: crate::json::json_clone(j),
                    },
                );
            },
        };
        Ok(SearchResult { id, display_label, description, search_match })
    }

    /// Parses a language-tagged text, when both members are strings.
    fn text_from_json(j: &JsonValue) -> (r: Option<SearchResultText>) {
        let language = match get_key(j, "language") {
            Some(v) => match as_text(v) {
                Some(s) => s.clone(),
                None => {
                    return None;
                },
            },
            None => {
                return None;
            },
        };
        let value = match get_key(j, "value") {
            Some(v) => match as_text(v) {
                Some(s) => s.clone(),
                None => {
                    return None;
                },
            },
            None => {
                return None;
            },
        };
        Some(SearchResultText { language, value })
    }
}

/// A search to run: what to search, in which language, and how much of
/// it.
#[derive(Debug)]
pub struct Search {
    pub entity_type: EntityType,
    pub q: String,
    pub language: Language,
    pub limit: Option<SearchLimit>,
    pub offset: Option<usize>,
}

impl Search {
    /// A search over items.
    pub fn items(q: &str, language: Language) -> (r: Search)
        ensures
            r.entity_type is Item,
            r.q@ == q@,
            r.language == language,
            r.limit is None,
            r.offset is None,
    {
        Search {
            entity_type: EntityType::Item,
            q: q.to_owned(),
            language,
            limit: None,
            offset: None,
        }
    }

    /// A search over properties.
    pub fn properties(q: &str, language: Language) -> (r: Search)
        ensures
            r.entity_type is Property,
            r.q@ == q@,
            r.language == language,
            r.limit is None,
            r.offset is None,
    {
        Search {
            entity_type: EntityType::Property,
            q: q.to_owned(),
            language,
            limit: None,
            offset: None,
        }
    }

    /// The search with a page size.
    pub fn with_limit(self, limit: SearchLimit) -> (r: Search)
        ensures
            r.limit == Some(limit),
            r.entity_type == self.entity_type,
            r.q == self.q,
            r.language == self.language,
            r.offset == self.offset,
    {
        let mut s = self;
        s.limit = Some(limit);
        s
    }

    /// The search with an offset into the results.
    pub fn with_offset(self, offset: usize) -> (r: Search)
        ensures
            r.offset == Some(offset),
            r.entity_type == self.entity_type,
            r.q == self.q,
            r.language == self.language,
            r.limit == self.limit,
    {
        let mut s = self;
        s.offset = Some(offset);
        s
    }

    /// The REST path of the search: `/search/items` or
    /// `/search/properties`.
    pub fn get_my_rest_api_path(&self) -> (r: String)
        ensures
            self.entity_type is Item ==> r@ == "/search/"@ + "items"@,
            self.entity_type is Property ==> r@ == "/search/"@ + "properties"@,
    {
        let mut s = String::from_str("/search/");
        s.append(self.entity_type.group_name());
        s
    }

    /// Extracts the typed results out of a response body: the `results`
    /// member must be an array, and an element that does not parse is
    /// passed over.
    pub fn response_to_results(response: &JsonValue) -> (r: Result<
        Vec<SearchResult>,
        RestApiError,
    >)
        ensures
            match r {
                Ok(_) => member(response@, "results"@) matches Some(Json::Arr(_)),
                Err(_) => !(member(response@, "results"@) matches Some(Json::Arr(_))),
            },
    {
        let rj = match get_key(response, "results") {
            Some(v) => v,
            None => {
                return Err(
                    RestApiError::MissingOrInvalidField {
                        field: String::from_str("results"),
                        j: crate::json::json_clone(response),
                    },
                );
            },
        };
        let items = match rj {
            JsonValue::Array(items) => items,
            _ => {
                return Err(
                    RestApiError::MissingOrInvalidField {
                        field: String::from_str("results"),
                        j: crate::json::json_clone(rj),
                    },
                );
            },
        };
        let n = items.len();
        let mut out: Vec<SearchResult> = Vec::new();
        let mut i: usize = 0;
        while i < n
            invariant
                0 <= i <= n,
                n == items@.len(),
            decreases n - i,
        {
            match SearchResult::from_json(&items[i]) {
                Ok(sr) => {
                    out.push(sr);
                },
                Err(_) => {
                    // a malformed element is passed over, as the search
                    // endpoint's best-effort decoding demands
                },
            }
            i = i + 1;
        }
        Ok(out)
    }
}

} // verus!
