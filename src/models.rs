//! The records that the services exchange. Identifiers are UUIDs held as
//! their 128-bit value.
use vstd::prelude::*;
use vstd::arithmetic::power::pow;
use crate::claims::{hex_char, claims_json, claims_of, claims_text, lemma_claims_of_text, parse_claims};

verus! {

/// Credentials presented at login.
pub struct LoginRequest {
    pub email: String,
    pub password: String,
}

/// The answer to a successful login.
pub struct LoginResponse {
    pub token: String,
}

pub struct RegisterRequest {
    pub username: String,
    pub email: String,
    pub password: String,
}

pub struct RegisterResponse {
    pub id: u128,
    pub username: String,
    pub email: String,
}

/// The claims carried by a token: its subject and its expiry time in seconds
/// since the Unix epoch.
pub struct Claims {
    pub sub: String,
    pub exp: u64,
}

impl Claims {
    /// The payload text that a token carries for these claims.
    pub fn to_payload(&self) -> (r: String)
        ensures
            r@ == claims_text(self.sub@, self.exp),
    {
        claims_json(self.sub.as_str(), self.exp)
    }

    /// The claims that a payload text was written for.
    pub fn from_payload(text: &str) -> (r: Option<Claims>)
        ensures
            match claims_of(text@) {
                Some((sub, exp)) => r matches Some(c) && c.sub@ == sub && c.exp == exp,
                None => r is None,
            },
    {
        match parse_claims(text) {
            Some((sub, exp)) => {
                proof {
                    lemma_claims_of_text(sub@, exp);
                }
                Some(Claims { sub, exp })
            },
            None => None,
        }
    }
}

pub struct UpdatePasswordRequest {
    pub email: String,
    pub current_password: String,
    pub new_password: String,
}

/// A token's claims in text form.
pub struct AuthToken {
    pub sub: String,
    pub exp: String,
}

/// A stored user; `password` is the PHC hash string, never the plaintext.
pub struct User {
    pub id: u128,
    pub username: String,
    pub email: String,
    pub password: String,
}

/// Hex digit `n` (0 to 31, most significant first) of a 128-bit value.
pub open spec fn uuid_nibble(id: u128, n: int) -> int {
    ((id as int) / pow(16, (31 - n) as nat)) % 16
}

/// How many hyphens precede position `p` of the hyphenated form.
pub open spec fn hyphens_before(p: int) -> int {
    if p > 23 {
        4
    } else if p > 18 {
        3
    } else if p > 13 {
        2
    } else if p > 8 {
        1
    } else {
        0
    }
}

/// The hyphenated lower-case text of the UUID with value `id`: 32 hex digits
/// grouped 8-4-4-4-12.
pub open spec fn uuid_text(id: u128) -> Seq<char> {
    Seq::new(
        36,
        |p: int|
            if p == 8 || p == 13 || p == 18 || p == 23 {
                '-'
            } else {
                hex_char(uuid_nibble(id, p - hyphens_before(p)))
            },
    )
}

/// Relies on uuid::Uuid::from_u128, which keeps the value's bytes big-endian,
/// and the Display of Uuid, which writes them in the hyphenated lower-case
/// form.
#[verifier::external_body]
fn hyphenated_uuid(id: u128) -> (r: String)
    ensures
        r@ == uuid_text(id),
        r@.len() == 36,
{
    uuid::Uuid::from_u128(id).to_string()
}

impl User {
    /// The user's id in text form: the subject of the tokens issued to them.
    pub fn id_text(&self) -> (r: String)
        ensures
            r@ == uuid_text(self.id),
            r@.len() == 36,
    {
        hyphenated_uuid(self.id)
    }
}

/// A user to register.
pub struct NewUser {
    pub username: String,
    pub email: String,
    pub password: String,
}

/// A change to a user; absent fields stay as they are.
pub struct UpdateUser {
    pub username: Option<String>,
    pub email: Option<String>,
    pub password: Option<String>,
}

} // verus!
