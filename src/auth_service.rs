//! The login flow: credential lookup result, password verification, token
//! issuance.
use vstd::prelude::*;
use crate::error::AuthError;
use crate::models::{uuid_text, LoginRequest, LoginResponse, User};
use crate::password::{argon2_accepts, verify_password};
use crate::token::{expiry, hs256_token, issue_token, opens_to};
use crate::claims::claims_text;

verus! {

/// What the credential store answered for the email of a login request.
pub enum CredentialLookup {
    Found(User),
    NotFound,
    /// The store could not be reached or failed.
    Unavailable,
}

pub struct AuthService;

impl AuthService {
    /// Authenticates `login_request` against the stored record for its email,
    /// and on success issues a token for the user's id that expires `ttl`
    /// seconds after `now`, signed with `secret`.
    ///
    /// An unknown email and a wrong password give the same
    /// `InvalidCredentials`; a store failure, a missing secret or a signing
    /// failure give `InternalServerError`.
    pub fn authenticate(
        lookup: &CredentialLookup,
        login_request: &LoginRequest,
        secret: Option<&[u8]>,
        ttl: u64,
        now: u64,
    ) -> (r: Result<LoginResponse, AuthError>)
        ensures
            secret is Some ==> (r is Ok <==> (lookup matches CredentialLookup::Found(u)
                && argon2_accepts(u.password@, login_request.password@))),
            match lookup {
                CredentialLookup::Unavailable => r matches Err(e) && e
                    == AuthError::InternalServerError,
                CredentialLookup::NotFound => r matches Err(e) && e == AuthError::InvalidCredentials,
                CredentialLookup::Found(user) => if !argon2_accepts(
                    user.password@,
                    login_request.password@,
                ) {
                    r matches Err(e) && e == AuthError::InvalidCredentials
                } else {
                    match secret {
                        None => r matches Err(e) && e == AuthError::InternalServerError,
                        Some(key) => match r {
                            Ok(resp) => resp.token@ == hs256_token(
                                claims_text(uuid_text(user.id), expiry(now, ttl)),
                                key@,
                            ) && opens_to(resp.token@, key@, uuid_text(user.id), expiry(now, ttl)),
                            Err(e) => e == AuthError::InternalServerError,
                        },
                    }
                },
            },
    {
        let user = match lookup {
            CredentialLookup::Found(user) => user,
            CredentialLookup::NotFound => return Err(AuthError::InvalidCredentials),
            CredentialLookup::Unavailable => return Err(AuthError::InternalServerError),
        };
        if !verify_password(user.password.as_str(), login_request.password.as_str()) {
            return Err(AuthError::InvalidCredentials);
        }
        let subject = user.id_text();
        match Self::generate_token(subject.as_str(), secret, ttl, now) {
            Ok(token) => Ok(LoginResponse { token }),
            Err(e) => Err(e),
        }
    }

    /// A token for `user_id` that expires `ttl` seconds after `now`. It is
    /// issued whenever a secret is given; a missing secret is an internal
    /// error.
    pub fn generate_token(user_id: &str, secret: Option<&[u8]>, ttl: u64, now: u64) -> (r: Result<
        String,
        AuthError,
    >)
        ensures
            secret is Some ==> r is Ok,
            match secret {
                None => r matches Err(e) && e == AuthError::InternalServerError,
                Some(key) => match r {
                    Ok(tok) => tok@ == hs256_token(claims_text(user_id@, expiry(now, ttl)), key@)
                        && opens_to(tok@, key@, user_id@, expiry(now, ttl)),
                    Err(e) => e == AuthError::InternalServerError,
                },
            },
    {
        let key = match secret {
            Some(key) => key,
            None => return Err(AuthError::InternalServerError),
        };
        match issue_token(user_id, ttl, now, key) {
            Ok(token) => Ok(token),
            Err(_) => Err(AuthError::InternalServerError),
        }
    }
}

} // verus!
