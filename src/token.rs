//! Signed, time-bound bearer tokens (HS256 JSON Web Tokens) carrying a subject.
//!
//! Signing and the signature check are jsonwebtoken's. The payload is the
//! library's own text (see `claims`), and the expiry is checked here against a
//! time that the caller passes in.
use vstd::prelude::*;
use crate::error::AuthError;
use crate::claims::{claims_json, claims_of, claims_text, lemma_claims_of_text, parse_claims};
use jsonwebtoken::{Algorithm, DecodingKey, EncodingKey, Header, Validation};
use serde_json::value::RawValue;

verus! {

#[verifier::external_type_specification]
#[verifier::external_body]
pub struct ExJwtError(jsonwebtoken::errors::Error);

/// The compact token that jsonwebtoken writes for a payload text under a secret.
pub uninterp spec fn hs256_token(payload: Seq<char>, secret: Seq<u8>) -> Seq<char>;

/// The payload text of a token whose HS256 signature checks under a secret.
pub uninterp spec fn hs256_payload(token: Seq<char>, secret: Seq<u8>) -> Option<Seq<char>>;

/// Relies on jsonwebtoken::encode with the default header (HS256) and
/// EncodingKey::from_secret. The payload goes in as a serde_json RawValue, so
/// it is signed as written. jsonwebtoken::decode, with the same secret and
/// HS256, checks that signature and hands the same payload back. encode
/// fails only where the claims do not serialise, and RawValue::from_string
/// refuses only text that is no JSON; a payload is always JSON (its subject
/// escapes `"`, `\` and every control character), and HMAC signing itself
/// does not fail.
#[verifier::external_body]
fn hs256_encode(payload: &str, secret: &[u8]) -> (r: Result<String, jsonwebtoken::errors::Error>)
    requires
        exists|sub: Seq<char>, exp: u64| payload@ == claims_text(sub, exp),
    ensures
        r is Ok,
        r matches Ok(tok) ==> tok@ == hs256_token(payload@, secret@) && hs256_payload(tok@, secret@)
            == Some(payload@),
{
    let raw = RawValue::from_string(payload.to_string())?;
    jsonwebtoken::encode(&Header::default(), &raw, &EncodingKey::from_secret(secret))
}

/// Relies on jsonwebtoken::decode with HS256 and DecodingKey::from_secret,
/// with its own expiry check switched off so that the result depends on the
/// token and the secret alone; the payload comes back as a RawValue's text.
#[verifier::external_body]
fn hs256_decode(token: &str, secret: &[u8]) -> (r: Result<String, jsonwebtoken::errors::Error>)
    ensures
        match r {
            Ok(p) => hs256_payload(token@, secret@) == Some(p@),
            Err(_) => hs256_payload(token@, secret@) is None,
        },
{
    let mut validation = Validation::new(Algorithm::HS256);
    validation.validate_exp = false;
    let key = DecodingKey::from_secret(secret);
    let data = jsonwebtoken::decode::<Box<RawValue>>(token, &key, &validation)?;
    Ok(data.claims.get().to_string())
}

/// Why a token was not issued or not accepted.
#[derive(Debug, Clone, Copy, PartialEq, Eq, Structural)]
pub enum TokenError {
    /// The signature does not check, or the token is not one of ours.
    InvalidSignature,
    /// The signature checks, but the expiry time has passed.
    Expired,
    /// The signing library refused to sign.
    Signing,
}

/// `now + ttl`, held at the largest time that a token can carry.
pub open spec fn expiry(now: u64, ttl: u64) -> u64 {
    if now + ttl > u64::MAX {
        u64::MAX
    } else {
        (now + ttl) as u64
    }
}

/// A token opens under `secret` to a payload for `sub` that expires at `exp`.
pub open spec fn opens_to(token: Seq<char>, secret: Seq<u8>, sub: Seq<char>, exp: u64) -> bool {
    hs256_payload(token, secret) == Some(claims_text(sub, exp))
}

/// What verifying `token` at time `now` gives: its subject, or why it is refused.
pub open spec fn token_check(token: Seq<char>, secret: Seq<u8>, now: u64) -> Result<
    Seq<char>,
    TokenError,
> {
    match hs256_payload(token, secret) {
        None => Err(TokenError::InvalidSignature),
        Some(p) => match claims_of(p) {
            None => Err(TokenError::InvalidSignature),
            Some((sub, exp)) => if now < exp {
                Ok(sub)
            } else {
                Err(TokenError::Expired)
            },
        },
    }
}

/// Mints a token for `subject` that expires `ttl` seconds after `now`; it
/// succeeds for every subject.
pub fn issue_token(subject: &str, ttl: u64, now: u64, secret: &[u8]) -> (r: Result<
    String,
    TokenError,
>)
    ensures
        r is Ok,
        match r {
            Ok(tok) => tok@ == hs256_token(claims_text(subject@, expiry(now, ttl)), secret@)
                && opens_to(tok@, secret@, subject@, expiry(now, ttl)),
            Err(e) => e == TokenError::Signing,
        },
{
    let exp = now.saturating_add(ttl);
    let payload = claims_json(subject, exp);
    match hs256_encode(payload.as_str(), secret) {
        Ok(tok) => Ok(tok),
        Err(_) => Err(TokenError::Signing),
    }
}

/// Checks a token's signature and expiry at time `now`, and gives its subject.
pub fn verify_token(token: &str, secret: &[u8], now: u64) -> (r: Result<String, TokenError>)
    ensures
        match r {
            Ok(sub) => token_check(token@, secret@, now) == Ok::<Seq<char>, TokenError>(sub@),
            Err(e) => token_check(token@, secret@, now) == Err::<Seq<char>, TokenError>(e),
        },
{
    let payload = match hs256_decode(token, secret) {
        Ok(p) => p,
        Err(_) => return Err(TokenError::InvalidSignature),
    };
    match parse_claims(payload.as_str()) {
        None => Err(TokenError::InvalidSignature),
        Some((sub, exp)) => {
            proof {
                lemma_claims_of_text(sub@, exp);
            }
            if now < exp {
                Ok(sub)
            } else {
                Err(TokenError::Expired)
            }
        },
    }
}

/// The scheme word that opens an `Authorization` header carrying a token.
pub open spec fn bearer_prefix() -> Seq<char> {
    seq!['B', 'e', 'a', 'r', 'e', 'r', ' ']
}

/// The token of an `Authorization` header value `Bearer <token>`.
pub open spec fn bearer_of(header: Seq<char>) -> Option<Seq<char>> {
    if header.len() >= 7 && header.take(7) == bearer_prefix() {
        Some(header.skip(7))
    } else {
        None
    }
}

/// Takes the token out of an `Authorization` header value.
pub fn bearer_token(header: &str) -> (r: Option<&str>)
    ensures
        match bearer_of(header@) {
            Some(t) => r matches Some(s) && s@ == t,
            None => r is None,
        },
{
    let prefix = "Bearer ";
    proof {
        reveal_strlit("Bearer ");
        assert(prefix@ =~= bearer_prefix());
    }
    let n = header.unicode_len();
    if n < 7 {
        return None;
    }
    let mut k: usize = 0;
    while k < 7
        invariant
            n == header@.len(),
            n >= 7,
            k <= 7,
            prefix@ == bearer_prefix(),
            forall|q: int| 0 <= q < k ==> header@[q] == bearer_prefix()[q],
        decreases 7 - k,
    {
        if header.get_char(k) != prefix.get_char(k) {
            assert(header@.take(7)[k as int] != bearer_prefix()[k as int]);
            return None;
        }
        k += 1;
    }
    assert(header@.take(7) =~= bearer_prefix());
    Some(header.substring_char(7, n))
}

/// Guards a request: the `Authorization` header must carry a bearer token
/// that verifies at `now`, and its subject is given back. A missing header,
/// another scheme or a refused token give `InvalidCredentials` (HTTP 401); a
/// missing secret gives `InternalServerError`.
pub fn validate_token(authorization: Option<&str>, secret: Option<&[u8]>, now: u64) -> (r: Result<
    String,
    AuthError,
>)
    ensures
        match authorization {
            None => r matches Err(e) && e == AuthError::InvalidCredentials,
            Some(h) => match bearer_of(h@) {
                None => r matches Err(e) && e == AuthError::InvalidCredentials,
                Some(t) => match secret {
                    None => r matches Err(e) && e == AuthError::InternalServerError,
                    Some(key) => match token_check(t, key@, now) {
                        Ok(sub) => r matches Ok(s) && s@ == sub,
                        Err(_) => r matches Err(e) && e == AuthError::InvalidCredentials,
                    },
                },
            },
        },
{
    let header = match authorization {
        Some(h) => h,
        None => return Err(AuthError::InvalidCredentials),
    };
    let token = match bearer_token(header) {
        Some(t) => t,
        None => return Err(AuthError::InvalidCredentials),
    };
    let key = match secret {
        Some(k) => k,
        None => return Err(AuthError::InternalServerError),
    };
    match verify_token(token, key, now) {
        Ok(sub) => Ok(sub),
        Err(_) => Err(AuthError::InvalidCredentials),
    }
}

/// A token issued for `sub` that expires at `exp` is accepted before `exp`
/// and gives `sub` back; from `exp` on it is refused as expired.
pub proof fn lemma_issued_token_verifies(
    token: Seq<char>,
    secret: Seq<u8>,
    sub: Seq<char>,
    exp: u64,
    now: u64,
)
    requires
        opens_to(token, secret, sub, exp),
    ensures
        now < exp ==> token_check(token, secret, now) == Ok::<Seq<char>, TokenError>(sub),
        now >= exp ==> token_check(token, secret, now) == Err::<Seq<char>, TokenError>(
            TokenError::Expired,
        ),
{
    lemma_claims_of_text(sub, exp);
}

/// A token issued with no time to live is refused as expired at any later
/// time, though its signature checks.
pub proof fn lemma_zero_ttl_expired(token: Seq<char>, secret: Seq<u8>, sub: Seq<char>, issued_at: u64, now: u64)
    requires
        opens_to(token, secret, sub, expiry(issued_at, 0)),
        now >= issued_at,
    ensures
        hs256_payload(token, secret) is Some,
        token_check(token, secret, now) == Err::<Seq<char>, TokenError>(TokenError::Expired),
{
    lemma_issued_token_verifies(token, secret, sub, expiry(issued_at, 0), now);
}

} // verus!
