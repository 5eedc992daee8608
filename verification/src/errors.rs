//! The error taxonomy of the service: every fallible operation of the
//! library reports one of these variants, and the HTTP layer maps each to a
//! status code.

use vstd::prelude::*;

verus! {

/// Why a request was refused.
#[derive(Clone, Copy, Debug, PartialEq, Eq, Structural)]
pub enum ApiError {
    /// Missing or unusable authentication subject.
    Unauthorized,
    /// Malformed identifier, empty required field, or out-of-range order.
    InvalidInput,
    /// The requester is not a participant of the match.
    Forbidden,
    /// No such resource.
    NotFound,
    /// A seventh image or a fourth prompt.
    CapacityExceeded,
    /// A referenced user does not exist.
    InvalidReference,
    /// The caller has no stored preference document.
    PreferencesRequired,
    /// A uniqueness rule was violated.
    Conflict,
    /// A failure the caller cannot act on.
    Internal,
}

impl ApiError {
    /// The HTTP status code each variant maps to.
    pub open spec fn spec_http_status(self) -> u16 {
        match self {
            ApiError::Unauthorized => 401,
            ApiError::InvalidInput => 400,
            ApiError::Forbidden => 403,
            ApiError::NotFound => 404,
            ApiError::CapacityExceeded => 400,
            ApiError::InvalidReference => 400,
            ApiError::PreferencesRequired => 400,
            ApiError::Conflict => 409,
            ApiError::Internal => 500,
        }
    }

    /// Maps the variant to its HTTP status code.
    pub fn http_status(&self) -> (code: u16)
        ensures
            code == self.spec_http_status(),
    {
        match self {
            ApiError::Unauthorized => 401,
            ApiError::InvalidInput => 400,
            ApiError::Forbidden => 403,
            ApiError::NotFound => 404,
            ApiError::CapacityExceeded => 400,
            ApiError::InvalidReference => 400,
            ApiError::PreferencesRequired => 400,
            ApiError::Conflict => 409,
            ApiError::Internal => 500,
        }
    }

    /// A short label for logs and response bodies.
    pub fn describe(&self) -> (s: &'static str)
        ensures
            self == ApiError::Unauthorized ==> s@ == "unauthorized"@,
            self == ApiError::Forbidden ==> s@ == "forbidden"@,
            self == ApiError::NotFound ==> s@ == "not found"@,
            self == ApiError::CapacityExceeded ==> s@ == "capacity exceeded"@,
    {
        match self {
            ApiError::Unauthorized => "unauthorized",
            ApiError::InvalidInput => "invalid input",
            ApiError::Forbidden => "forbidden",
            ApiError::NotFound => "not found",
            ApiError::CapacityExceeded => "capacity exceeded",
            ApiError::InvalidReference => "invalid reference",
            ApiError::PreferencesRequired => "preferences required",
            ApiError::Conflict => "conflict",
            ApiError::Internal => "internal error",
        }
    }
}

} // verus!
