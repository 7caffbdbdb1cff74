//! The error taxonomy that callers see, and its HTTP status codes.
use vstd::prelude::*;

verus! {

/// Why a login or a request to the auth service failed.
#[derive(Debug, Clone, Copy, PartialEq, Eq, Structural)]
pub enum AuthError {
    /// Unknown email or wrong password; the two are never told apart.
    InvalidCredentials,
    /// The request was throttled by the rate limiter.
    RateLimited,
    /// The credential store is unavailable, the signing secret is missing, or
    /// signing failed.
    InternalServerError,
}

impl AuthError {
    pub open spec fn spec_status_code(self) -> u16 {
        match self {
            AuthError::InvalidCredentials => 401,
            AuthError::RateLimited => 429,
            AuthError::InternalServerError => 500,
        }
    }

    /// The HTTP status code that answers this error.
    pub fn status_code(&self) -> (r: u16)
        ensures
            r == self.spec_status_code(),
    {
        match self {
            AuthError::InvalidCredentials => 401,
            AuthError::RateLimited => 429,
            AuthError::InternalServerError => 500,
        }
    }

    /// The generic message put in the `{error: ...}` body.
    pub fn message(&self) -> (r: String)
        ensures
            *self == AuthError::InvalidCredentials ==> r@ == "Invalid credentials"@,
            *self == AuthError::RateLimited ==> r@ == "Too many requests"@,
            *self == AuthError::InternalServerError ==> r@ == "Internal server error"@,
    {
        match self {
            AuthError::InvalidCredentials => String::from_str("Invalid credentials"),
            AuthError::RateLimited => String::from_str("Too many requests"),
            AuthError::InternalServerError => String::from_str("Internal server error"),
        }
    }
}

} // verus!
