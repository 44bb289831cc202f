//! API failures: each maps to an HTTP status and a stable machine-readable
//! code.
//!
//! Deliberate ambiguity: "not a member", "series not visible to you", and
//! "no such series" all surface as 404 so the API never reveals the
//! existence of something the caller may not see.

use vstd::prelude::*;

use crate::store::DbError;

verus! {

/// An API failure with a status and a stable machine-readable code.
#[derive(Debug, Clone, Copy, PartialEq, Eq)]
pub enum ApiError {
    /// Missing or invalid session token.
    Unauthorized,
    /// Authenticated but not permitted (non-member of the guild).
    Forbidden,
    /// Resource missing — or hidden from this caller.
    NotFound,
    /// Malformed request (bad body, bad path value).
    BadRequest,
    /// Upstream (Discord/R2) or internal failure.
    Internal,
    /// A specific failure carrying its own HTTP status and machine code.
    Coded(u16, &'static str),
}

/// The HTTP status of an API error.
pub open spec fn status_of(e: ApiError) -> u16 {
    match e {
        ApiError::Unauthorized => 401,
        ApiError::Forbidden => 403,
        ApiError::NotFound => 404,
        ApiError::BadRequest => 400,
        ApiError::Internal => 500,
        ApiError::Coded(s, _) => s,
    }
}

/// The machine-readable code of an API error.
pub open spec fn code_of(e: ApiError) -> Seq<char> {
    match e {
        ApiError::Unauthorized => "unauthorized"@,
        ApiError::Forbidden => "forbidden"@,
        ApiError::NotFound => "not_found"@,
        ApiError::BadRequest => "bad_request"@,
        ApiError::Internal => "internal"@,
        ApiError::Coded(_, c) => c@,
    }
}

impl ApiError {
    /// `(status, code)` of the JSON problem response.
    pub fn parts(self) -> (r: (u16, &'static str))
        ensures
            r.0 == status_of(self),
            r.1@ == code_of(self),
    {
        match self {
            ApiError::Unauthorized => (401, "unauthorized"),
            ApiError::Forbidden => (403, "forbidden"),
            ApiError::NotFound => (404, "not_found"),
            ApiError::BadRequest => (400, "bad_request"),
            ApiError::Internal => (500, "internal"),
            ApiError::Coded(status, code) => (status, code),
        }
    }
}

/// Repository errors are internal; their detail never reaches the client.
impl From<DbError> for ApiError {
    fn from(e: DbError) -> (r: ApiError) {
        ApiError::Internal
    }
}

impl vstd::std_specs::convert::FromSpecImpl<DbError> for ApiError {
    open spec fn obeys_from_spec() -> bool {
        true
    }

    open spec fn from_spec(e: DbError) -> ApiError {
        ApiError::Internal
    }
}

} // verus!
