//! One-way password hashing with a fresh random salt, and verification
//! against a stored hash (Argon2, PHC string format).
use vstd::prelude::*;
use argon2::password_hash::{PasswordHash, PasswordHasher, PasswordVerifier, SaltString};
use rand::RngCore;
use argon2::Argon2;

verus! {

#[verifier::external_type_specification]
#[verifier::external_body]
pub struct ExRandError(rand::Error);

#[verifier::external_type_specification]
#[verifier::external_body]
pub struct ExHashError(argon2::password_hash::Error);

/// Whether Argon2 accepts `password` against the PHC hash string `phc`.
pub uninterp spec fn argon2_accepts(phc: Seq<char>, password: Seq<char>) -> bool;

/// The text with which every hash made here begins: `$argon2id$`.
pub open spec fn argon2id_prefix() -> Seq<char> {
    seq!['$', 'a', 'r', 'g', 'o', 'n', '2', 'i', 'd', '$']
}

/// Relies on rand's OsRng::try_fill_bytes: `n` bytes from the operating
/// system's entropy source, or its error. Nothing is known of the bytes.
#[verifier::external_body]
fn os_random_bytes(n: usize) -> (r: Result<Vec<u8>, rand::Error>)
    ensures
        r matches Ok(bytes) ==> bytes@.len() == n,
{
    let mut bytes = vec![0u8; n];
    rand::rngs::OsRng.try_fill_bytes(&mut bytes)?;
    Ok(bytes)
}

/// Relies on SaltString::encode_b64, which turns the salt bytes into the B64
/// salt type (up to 64 characters, so up to 48 bytes), and on
/// Argon2::default().hash_password and the PHC string that it writes
/// (`$argon2id$v=19$...`). Argon2 refuses only a salt under 8 bytes or a
/// password over 2^32 - 1 bytes (four per character at most). A salt under 4
/// B64 characters would make the salt conversion panic, hence the bound on
/// the salt. Verification
/// (below) recomputes the hash with the algorithm, version, parameters and
/// salt written in that string, so the string accepts the password that it
/// was made from.
#[verifier::external_body]
fn argon2_hash(password: &str, salt: &[u8]) -> (r: Result<String, argon2::password_hash::Error>)
    requires
        8 <= salt@.len() <= 48,
    ensures
        password@.len() <= 0x3fff_ffff ==> r is Ok,
        r matches Ok(phc) ==> argon2_accepts(phc@, password@) && phc@.len() >= 10 && phc@.take(10)
            == argon2id_prefix(),
{
    let salt = SaltString::encode_b64(salt)?;
    Argon2::default().hash_password(password.as_bytes(), &salt).map(|h| h.to_string())
}

/// Relies on PasswordHash::new, which parses the PHC string, and
/// PasswordVerifier::verify_password of Argon2::default(), which recomputes
/// the hash with the parsed salt and parameters and compares in constant time.
/// A string that does not parse accepts no password; PasswordHash::new
/// refuses at once an empty string and one that does not begin with `$`.
#[verifier::external_body]
fn argon2_verify(phc: &str, password: &str) -> (r: bool)
    ensures
        r == argon2_accepts(phc@, password@),
        phc@.len() == 0 || phc@[0] != '$' ==> !r,
{
    match PasswordHash::new(phc) {
        Ok(parsed) => Argon2::default().verify_password(password.as_bytes(), &parsed).is_ok(),
        Err(_) => false,
    }
}

/// Hashing failed: the entropy source failed, or Argon2 refused the salt or
/// the password.
#[derive(Debug, Clone, Copy, PartialEq, Eq, Structural)]
pub struct HashingError;

/// The number of random salt bytes drawn for each hash.
pub const SALT_LEN: usize = 16;

/// Hashes `password` with the given salt bytes. A salt of fewer than 8 or
/// more than 48 bytes is refused; it succeeds for a salt of 8 to 48 bytes and any password of up to 2^30 - 1 characters, and the result
/// verifies against `password`.
pub fn hash_password_with_salt(password: &str, salt: &[u8]) -> (r: Result<String, HashingError>)
    ensures
        8 <= salt@.len() <= 48 && password@.len() <= 0x3fff_ffff ==> r is Ok,
        !(8 <= salt@.len() <= 48) ==> r is Err,
        r matches Ok(phc) ==> argon2_accepts(phc@, password@) && phc@.len() >= 10 && phc@.take(10)
            == argon2id_prefix(),
{
    if salt.len() < 8 || salt.len() > 48 {
        return Err(HashingError);
    }
    match argon2_hash(password, salt) {
        Ok(phc) => Ok(phc),
        Err(_) => Err(HashingError),
    }
}

/// Hashes `password` with a fresh random salt of `SALT_LEN` bytes; the result
/// verifies against `password`. A failure of the entropy source is a
/// `HashingError`, not a panic.
pub fn hash_password(password: &str) -> (r: Result<String, HashingError>)
    ensures
        r matches Ok(phc) ==> argon2_accepts(phc@, password@) && phc@.len() >= 10 && phc@.take(10)
            == argon2id_prefix(),
{
    let salt = match os_random_bytes(SALT_LEN) {
        Ok(bytes) => bytes,
        Err(_) => return Err(HashingError),
    };
    hash_password_with_salt(password, salt.as_slice())
}

/// Whether `password` matches the stored hash `hash`; a malformed hash matches
/// nothing.
pub fn verify_password(hash: &str, password: &str) -> (r: bool)
    ensures
        r == argon2_accepts(hash@, password@),
        hash@.len() == 0 || hash@[0] != '$' ==> !r,
{
    argon2_verify(hash, password)
}

} // verus!
