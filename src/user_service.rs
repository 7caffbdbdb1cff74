//! Registration: input validation, then password hashing before the record
//! is stored.
use vstd::prelude::*;
use crate::models::NewUser;
use crate::password::{argon2_accepts, argon2id_prefix, hash_password, HashingError};
use crate::validation::{long_password, strong_password, valid_email, valid_username, ValidationErrors};

verus! {

/// Why a registration was refused.
#[derive(Debug, Clone, Copy, PartialEq, Eq, Structural)]
pub enum RegistrationError {
    /// The input broke the rules named (HTTP 400).
    Invalid(ValidationErrors),
    /// The password could not be hashed (HTTP 500).
    Hashing,
}

pub struct UserService;

impl UserService {
    /// The record to store for `new_user`: the same username and email, and
    /// the password replaced by its hash.
    pub fn create_user(new_user: NewUser) -> (r: Result<NewUser, HashingError>)
        ensures
            r matches Ok(u) ==> {
                &&& u.username@ == new_user.username@
                &&& u.email@ == new_user.email@
                &&& argon2_accepts(u.password@, new_user.password@)
                &&& u.password@.len() >= 10
                &&& u.password@.take(10) == argon2id_prefix()
                &&& (u.password@ != new_user.password@ || (new_user.password@.len() >= 10
                    && new_user.password@.take(10) == argon2id_prefix()))
            },
            r is Err ==> r == Err::<NewUser, HashingError>(HashingError),
    {
        match hash_password(new_user.password.as_str()) {
            Ok(phc) => Ok(NewUser { password: phc, ..new_user }),
            Err(e) => Err(e),
        }
    }
}

/// Validates `new_user` and, if it passes, gives the record to store.
pub fn register(new_user: NewUser) -> (r: Result<NewUser, RegistrationError>)
    ensures
        !new_user.spec_valid() ==> (r matches Err(RegistrationError::Invalid(e)) && {
            &&& e.username_length == !valid_username(new_user.username@)
            &&& e.email == !valid_email(new_user.email@)
            &&& e.password_length == !long_password(new_user.password@)
            &&& e.password_strength == !strong_password(new_user.password@)
        }),
        new_user.spec_valid() ==> match r {
            Ok(u) => {
                &&& u.username@ == new_user.username@
                &&& u.email@ == new_user.email@
                &&& argon2_accepts(u.password@, new_user.password@)
            },
            Err(e) => e == RegistrationError::Hashing,
        },
{
    match new_user.validate() {
        Err(e) => Err(RegistrationError::Invalid(e)),
        Ok(()) => match UserService::create_user(new_user) {
            Ok(u) => Ok(u),
            Err(_) => Err(RegistrationError::Hashing),
        },
    }
}

} // verus!
