//! The error taxonomy of the library.
//!
//! Transport failures, API-level failures with their structured payload,
//! shape errors in otherwise successful responses, and precondition or
//! identity errors are kept apart so a caller can tell them apart.

use vstd::prelude::*;
use crate::json::{Json, JsonValue, json_clone, view_pairs};
use crate::apply::{as_text, get_key};

verus! {

/// The structured payload a failing remote call carries: a code, a
/// message, and a free-form context map.
#[derive(Debug)]
pub struct RestApiErrorPayload {
    pub code: String,
    pub message: String,
    pub context: Vec<(String, JsonValue)>,
}

impl RestApiErrorPayload {
    /// Builds a payload from its parts.
    pub fn new(code: String, message: String, context: Vec<(String, JsonValue)>) -> (r:
        RestApiErrorPayload)
        ensures
            r.code@ == code@,
            r.message@ == message@,
            r.context == context,
    {
        RestApiErrorPayload { code, message, context }
    }

    /// Builds an empty payload, as substituted when a failing response
    /// carries no decodable body.
    pub fn empty() -> (r: RestApiErrorPayload)
        ensures
            r.code@.len() == 0,
            r.message@.len() == 0,
            r.context@.len() == 0,
    {
        RestApiErrorPayload { code: String::new(), message: String::new(), context: Vec::new() }
    }

    /// Parses the payload out of a failing response's body: a missing or
    /// non-string code or message becomes empty text, and a missing or
    /// non-object context becomes an empty map.
    pub fn from_json(j: &JsonValue) -> (r: RestApiErrorPayload)
        ensures
            r.code@ == (match crate::statement_value::member(j@, "code"@) {
                Some(Json::Str(t)) => t,
                _ => Seq::<char>::empty(),
            }),
            r.message@ == (match crate::statement_value::member(j@, "message"@) {
                Some(Json::Str(t)) => t,
                _ => Seq::<char>::empty(),
            }),
            (match crate::statement_value::member(j@, "context"@) {
                Some(Json::Obj(ps)) => view_pairs(r.context@) == ps,
                _ => r.context@.len() == 0,
            }),
    {
        let code = match get_key(j, "code") {
            Some(v) => match as_text(v) {
                Some(t) => t.clone(),
                None => String::new(),
            },
            None => String::new(),
        };
        let message = match get_key(j, "message") {
            Some(v) => match as_text(v) {
                Some(t) => t.clone(),
                None => String::new(),
            },
            None => String::new(),
        };
        let mut context: Vec<(String, JsonValue)> = Vec::new();
        match get_key(j, "context") {
            Some(v) => match v {
                JsonValue::Object(pairs) => {
                    let ghost ps = view_pairs(pairs@);
                    let n = pairs.len();
                    let mut i: usize = 0;
                    proof {
                        assert(view_pairs(context@) =~= ps.take(0));
                    }
                    while i < n
                        invariant
                            0 <= i <= n,
                            n == pairs@.len(),
                            ps == view_pairs(pairs@),
                            v@ == Json::Obj(ps),
                            context@.len() == i,
                            view_pairs(context@) == ps.take(i as int),
                        decreases n - i,
                    {
                        proof {
                            assert(ps[i as int] == (pairs@[i as int].0@, pairs@[i as int].1@));
                        }
                        context.push((pairs[i].0.clone(), json_clone(&pairs[i].1)));
                        proof {
                            assert(view_pairs(context@) =~= ps.take(i as int + 1));
                        }
                        i = i + 1;
                    }
                    proof {
                        assert(ps.take(n as int) =~= ps);
                    }
                },
                _ => {},
            },
            None => {},
        }
        RestApiErrorPayload { code, message, context }
    }

    /// Returns the error code.
    pub fn code(&self) -> (r: &str)
        ensures
            r@ == self.code@,
    {
        self.code.as_str()
    }

    /// Returns the error message.
    pub fn message(&self) -> (r: &str)
        ensures
            r@ == self.message@,
    {
        self.message.as_str()
    }

    /// Returns the context entries.
    pub fn context(&self) -> (r: &Vec<(String, JsonValue)>)
        ensures
            r == &self.context,
    {
        &self.context
    }
}

/// Everything that can go wrong in the library or at its remote edge.
#[derive(Debug)]
pub enum RestApiError {
    /// A non-success response, with its status and structured payload.
    ApiError { status: u16, status_text: String, payload: RestApiErrorPayload },
    /// A client ID is required for this call.
    ClientIdRequired,
    /// A client secret is required for this call.
    ClientSecretRequired,
    /// A refresh token is required for this call.
    RefreshTokenRequired,
    /// An access token is required for this call.
    AccessTokenRequired,
    /// The transport failed before any response arrived.
    Transport(String),
    /// A header value could not be built from the given text.
    InvalidHeaderValue(String),
    /// The REST API does not implement this method on this path.
    NotImplementedInRestApi { method: String, path: String },
    /// A response that none of the expected shapes matched.
    UnexpectedResponse(JsonValue),
    /// An ID was required and missing.
    MissingId,
    /// An ID was already set where a fresh object was required.
    HasId,
    /// A field was missing or of the wrong shape, with the fragment seen.
    MissingOrInvalidField { field: String, j: JsonValue },
    /// A field had the wrong type, with the fragment seen.
    WrongType { field: String, j: JsonValue },
    /// The entity ID was unset.
    IsNone,
    /// An entity ID that starts with an unknown letter.
    UnknownEntityLetter(String),
    /// A value outside the recognized set.
    UnknownValue(String),
    /// A data type name outside the recognized set.
    UnknownDataType(String),
    /// A decoding failure, with the decoder's message.
    SerdeJson(String),
    /// A statement rank outside the recognized set.
    UnknownStatementRank(String),
    /// No API endpoint was configured.
    ApiNotSet,
    /// A value that must not be empty was empty.
    EmptyValue(String),
    /// A time precision outside the recognized range.
    InvalidPrecision,
    /// A method the apply protocol does not support.
    UnsupportedMethod(String),
    /// A REST API URL that could not be accepted.
    RestApiUrlInvalid(String),
}

} // verus!
