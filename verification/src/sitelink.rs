//! One sitelink: a wiki, a page title, badges, and an optional URL.

use vstd::prelude::*;
use crate::error::RestApiError;
use crate::header_info::HeaderInfo;
use crate::json::{Json, JsonValue, json_clone, obj_upsert, view_elems};
use crate::apply::{as_text, get_key, obj_insert_sorted};
use crate::statement_value::member;

verus! {

/// A sitelink.
#[derive(Debug, Clone)]
pub struct Sitelink {
    pub wiki: String,
    pub title: String,
    pub badges: Vec<String>,
    pub url: Option<String>,
    pub header_info: HeaderInfo,
}

/// The serialized badges of a sitelink.
pub open spec fn badges_json(bs: Seq<String>) -> Seq<Json> {
    Seq::new(bs.len(), |i: int| Json::Str(bs[i]@))
}

/// The serialized form of a sitelink: its title and badges, and its URL
/// when known.  The wiki is the key under which it sits, not a member.
pub open spec fn spec_sitelink_json(s: Sitelink) -> Json {
    let base = obj_upsert(
        obj_upsert(Seq::empty(), "title"@, Json::Str(s.title@)),
        "badges"@,
        Json::Arr(badges_json(s.badges@)),
    );
    if s.url is Some {
        Json::Obj(obj_upsert(base, "url"@, Json::Str(s.url->0@)))
    } else {
        Json::Obj(base)
    }
}

/// What a successful parse of a sitelink yields; the URL member is
/// required on the wire.
pub open spec fn sitelink_parsed(j: Json, wiki: Seq<char>, s: Sitelink) -> bool {
    &&& s.wiki@ == wiki
    &&& member(j, "title"@) == Some(Json::Str(s.title@))
    &&& s.url matches Some(u) && member(j, "url"@) == Some(Json::Str(u@))
    &&& member(j, "badges"@) matches Some(Json::Arr(bs))
}

/// What the sitelink parser accepts: a string title, a string URL and a
/// badge array.
pub open spec fn sitelink_accepted(j: Json) -> bool {
    &&& member(j, "title"@) matches Some(Json::Str(_))
    &&& member(j, "url"@) matches Some(Json::Str(_))
    &&& member(j, "badges"@) matches Some(Json::Arr(_))
}

impl Sitelink {
    /// A sitelink with a wiki and a title, no badges and no URL.
    pub fn new(wiki: &str, title: &str) -> (r: Sitelink)
        ensures
            r.wiki@ == wiki@,
            r.title@ == title@,
            r.badges@.len() == 0,
            r.url is None,
    {
        Sitelink {
            wiki: wiki.to_owned(),
            title: title.to_owned(),
            badges: Vec::new(),
            url: None,
            header_info: HeaderInfo::default(),
        }
    }

    /// A sitelink with every part given.
    pub fn new_complete(wiki: String, title: String, badges: Vec<String>, url: Option<String>)
        -> (r: Sitelink)
        ensures
            r.wiki == wiki,
            r.title == title,
            r.badges == badges,
            r.url == url,
    {
        Sitelink { wiki, title, badges, url, header_info: HeaderInfo::default() }
    }

    /// Returns the wiki.
    pub fn wiki(&self) -> (r: &str)
        ensures
            r@ == self.wiki@,
    {
        self.wiki.as_str()
    }

    /// Returns the title.
    pub fn title(&self) -> (r: &str)
        ensures
            r@ == self.title@,
    {
        self.title.as_str()
    }

    /// Returns the badges.
    pub fn badges(&self) -> (r: &Vec<String>)
        ensures
            r == &self.badges,
    {
        &self.badges
    }

    /// Returns the URL, when known.
    pub fn url(&self) -> (r: &Option<String>)
        ensures
            r == &self.url,
    {
        &self.url
    }

    /// Clones the sitelink, keeping its serialized form.
    pub fn clone_value(&self) -> (r: Sitelink)
        ensures
            r.wiki@ == self.wiki@,
            spec_sitelink_json(r) == spec_sitelink_json(*self),
    {
        let n = self.badges.len();
        let mut badges: Vec<String> = Vec::new();
        let mut i: usize = 0;
        while i < n
            invariant
                0 <= i <= n,
                n == self.badges@.len(),
                badges@.len() == i,
                forall|q: int| 0 <= q < i ==> #[trigger] badges@[q] == self.badges@[q],
            decreases n - i,
        {
            badges.push(self.badges[i].clone());
            i = i + 1;
        }
        let url = match &self.url {
            Some(u) => Some(u.clone()),
            None => None,
        };
        let r = Sitelink {
            wiki: self.wiki.clone(),
            title: self.title.clone(),
            badges,
            url,
            header_info: HeaderInfo::default(),
        };
        proof {
            assert(r.badges@ =~= self.badges@);
        }
        r
    }

    /// Serializes the sitelink.
    pub fn to_json(&self) -> (r: JsonValue)
        ensures
            r@ == spec_sitelink_json(*self),
            r@.wf(),
    {
        let n = self.badges.len();
        let mut items: Vec<JsonValue> = Vec::new();
        let mut i: usize = 0;
        while i < n
            invariant
                0 <= i <= n,
                n == self.badges@.len(),
                items@.len() == i,
                forall|q: int| 0 <= q < i ==> (#[trigger] items@[q])@ == Json::Str(
                    self.badges@[q]@,
                ),
            decreases n - i,
        {
            items.push(JsonValue::Str(self.badges[i].clone()));
            i = i + 1;
        }
        let ghost iseq = items@;
        let arr = JsonValue::Array(items);
        proof {
            assert(arr@ == Json::Arr(view_elems(iseq)));
            assert(view_elems(iseq) =~= badges_json(self.badges@));
            crate::json::lemma_all_wf_from_forall(badges_json(self.badges@));
        }
        let p0: Vec<(String, JsonValue)> = Vec::new();
        proof {
            assert(crate::json::view_pairs(p0@) =~= Seq::<(Seq<char>, Json)>::empty());
            let e: Seq<(Seq<char>, Json)> = Seq::empty();
            crate::json::lemma_obj_upsert_sorted(e, "title"@, Json::Str(self.title@));
            crate::json::lemma_obj_upsert_wf(e, "title"@, Json::Str(self.title@));
            let m1 = obj_upsert(e, "title"@, Json::Str(self.title@));
            crate::json::lemma_obj_upsert_sorted(m1, "badges"@, Json::Arr(
                badges_json(self.badges@),
            ));
            crate::json::lemma_obj_upsert_wf(m1, "badges"@, Json::Arr(
                badges_json(self.badges@),
            ));
            let m2 = obj_upsert(m1, "badges"@, Json::Arr(badges_json(self.badges@)));
            if self.url is Some {
                crate::json::lemma_obj_upsert_sorted(m2, "url"@, Json::Str(self.url->0@));
                crate::json::lemma_obj_upsert_wf(m2, "url"@, Json::Str(self.url->0@));
            }
        }
        let p1 = obj_insert_sorted(&p0, "title", JsonValue::Str(self.title.clone()));
        let p2 = obj_insert_sorted(&p1, "badges", arr);
        match &self.url {
            Some(u) => {
                let p3 = obj_insert_sorted(&p2, "url", JsonValue::Str(u.clone()));
                JsonValue::Object(p3)
            },
            None => JsonValue::Object(p2),
        }
    }

    /// Parses a sitelink for a wiki: `title` and `url` must be string
    /// members, `badges` an array whose string elements are kept.
    pub fn from_json(wiki: &str, j: &JsonValue) -> (r: Result<Sitelink, RestApiError>)
        ensures
            r matches Ok(s) ==> sitelink_parsed(j@, wiki@, s),
            r is Err ==> !sitelink_accepted(j@),
    {
        let title = match get_key(j, "title") {
            Some(v) => match as_text(v) {
                Some(t) => t.clone(),
                None => {
                    return Err(
                        RestApiError::MissingOrInvalidField {
                            field: String::from_str("title"),
                            j: json_clone(j),
                        },
                    );
                },
            },
            None => {
                return Err(
                    RestApiError::MissingOrInvalidField {
                        field: String::from_str("title"),
                        j: json_clone(j),
                    },
                );
            },
        };
        let url = match get_key(j, "url") {
            Some(v) => match as_text(v) {
                Some(t) => t.clone(),
                None => {
                    return Err(
                        RestApiError::MissingOrInvalidField {
                            field: String::from_str("url"),
                            j: json_clone(j),
                        },
                    );
                },
            },
            None => {
                return Err(
                    RestApiError::MissingOrInvalidField {
                        field: String::from_str("url"),
                        j: json_clone(j),
                    },
                );
            },
        };
        let bj = match get_key(j, "badges") {
            Some(v) => v,
            None => {
                return Err(
                    RestApiError::MissingOrInvalidField {
                        field: String::from_str("badges"),
                        j: json_clone(j),
                    },
                );
            },
        };
        let bitems = match bj {
            JsonValue::Array(items) => items,
            _ => {
                return Err(
                    RestApiError::MissingOrInvalidField {
                        field: String::from_str("badges"),
                        j: json_clone(j),
                    },
                );
            },
        };
        // keep the string badges, passing over anything else
        let n = bitems.len();
        let mut badges: Vec<String> = Vec::new();
        let mut i: usize = 0;
        while i < n
            invariant
                0 <= i <= n,
                n == bitems@.len(),
            decreases n - i,
        {
            match as_text(&bitems[i]) {
                Some(t) => {
                    badges.push(t.clone());
                },
                None => {},
            }
            i = i + 1;
        }
        Ok(
            Sitelink {
                wiki: wiki.to_owned(),
                title,
                badges,
                url: Some(url),
                header_info: HeaderInfo::default(),
            },
        )
    }
}

} // verus!
