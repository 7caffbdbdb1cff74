//! Server-side rules on registration input: username length, email form and
//! password strength.
use vstd::prelude::*;
use crate::claims::{char_value, digit_value};
use crate::models::{NewUser, UpdateUser};

verus! {

/// Whether `c` has Unicode's Uppercase property.
pub uninterp spec fn upper_case(c: char) -> bool;

/// Whether `c` has Unicode's Lowercase property.
pub uninterp spec fn lower_case(c: char) -> bool;

/// Whether `c` is alphabetic or numeric in Unicode's sense.
pub uninterp spec fn alphanumeric(c: char) -> bool;

/// Whether `s` is an email address as the validator crate reads one.
pub uninterp spec fn valid_email(s: Seq<char>) -> bool;

/// Relies on char::is_uppercase.
#[verifier::external_body]
fn char_is_uppercase(c: char) -> (r: bool)
    ensures
        r == upper_case(c),
{
    c.is_uppercase()
}

/// Relies on char::is_lowercase.
#[verifier::external_body]
fn char_is_lowercase(c: char) -> (r: bool)
    ensures
        r == lower_case(c),
{
    c.is_lowercase()
}

/// Relies on char::is_alphanumeric.
#[verifier::external_body]
fn char_is_alphanumeric(c: char) -> (r: bool)
    ensures
        r == alphanumeric(c),
{
    c.is_alphanumeric()
}

/// Relies on validator::validate_email (HTML5 form of an address), which
/// refuses at once a string without `@`.
#[verifier::external_body]
fn email_is_valid(s: &str) -> (r: bool)
    ensures
        r == valid_email(s@),
        (forall|i: int| 0 <= i < s@.len() ==> s@[i] != '@') ==> !r,
{
    validator::validate_email(s)
}

/// At least one uppercase letter, one lowercase letter, one decimal digit and
/// one character that is neither a letter nor a digit.
pub open spec fn strong_password(p: Seq<char>) -> bool {
    &&& exists|i: int| 0 <= i < p.len() && upper_case(#[trigger] p[i])
    &&& exists|i: int| 0 <= i < p.len() && lower_case(#[trigger] p[i])
    &&& exists|i: int| 0 <= i < p.len() && digit_value(#[trigger] p[i]) < 10
    &&& exists|i: int| 0 <= i < p.len() && !alphanumeric(#[trigger] p[i])
}

pub open spec fn valid_username(u: Seq<char>) -> bool {
    3 <= u.len() <= 50
}

pub open spec fn long_password(p: Seq<char>) -> bool {
    p.len() >= 8
}

/// Which rules an input broke.
#[derive(Debug, Clone, Copy, PartialEq, Eq, Structural)]
pub struct ValidationErrors {
    pub username_length: bool,
    pub email: bool,
    pub password_length: bool,
    pub password_strength: bool,
}

/// The password is not strong enough.
#[derive(Debug, Clone, Copy, PartialEq, Eq, Structural)]
pub struct WeakPassword;

/// Checks the character classes that a password must hold.
pub fn validate_password_strength(password: &str) -> (r: Result<(), WeakPassword>)
    ensures
        r is Ok <==> strong_password(password@),
{
    let n = password.unicode_len();
    let mut has_upper = false;
    let mut has_lower = false;
    let mut has_digit = false;
    let mut has_special = false;
    let mut i: usize = 0;
    while i < n
        invariant
            n == password@.len(),
            i <= n,
            has_upper == exists|j: int| 0 <= j < i && upper_case(#[trigger] password@[j]),
            has_lower == exists|j: int| 0 <= j < i && lower_case(#[trigger] password@[j]),
            has_digit == exists|j: int| 0 <= j < i && digit_value(#[trigger] password@[j]) < 10,
            has_special == exists|j: int| 0 <= j < i && !alphanumeric(#[trigger] password@[j]),
        decreases n - i,
    {
        let c = password.get_char(i);
        if char_is_uppercase(c) {
            has_upper = true;
        }
        if char_is_lowercase(c) {
            has_lower = true;
        }
        if char_value(c) < 10 {
            has_digit = true;
        }
        if !char_is_alphanumeric(c) {
            has_special = true;
        }
        i += 1;
    }
    if has_upper && has_lower && has_digit && has_special {
        Ok(())
    } else {
        Err(WeakPassword)
    }
}

fn check_password(password: &str) -> (r: (bool, bool))
    ensures
        r.0 == !long_password(password@),
        r.1 == !strong_password(password@),
{
    let short = password.unicode_len() < 8;
    let weak = validate_password_strength(password).is_err();
    (short, weak)
}

impl NewUser {
    /// Username of 3 to 50 characters, a well-formed email, and a password of
    /// at least 8 characters that passes the strength rule.
    pub open spec fn spec_valid(&self) -> bool {
        &&& valid_username(self.username@)
        &&& valid_email(self.email@)
        &&& long_password(self.password@)
        &&& strong_password(self.password@)
    }

    /// Checks every rule, and names each one that fails.
    pub fn validate(&self) -> (r: Result<(), ValidationErrors>)
        ensures
            r is Ok <==> self.spec_valid(),
            r matches Err(e) ==> {
                &&& e.username_length == !valid_username(self.username@)
                &&& e.email == !valid_email(self.email@)
                &&& e.password_length == !long_password(self.password@)
                &&& e.password_strength == !strong_password(self.password@)
            },
            (forall|i: int| 0 <= i < self.email@.len() ==> self.email@[i] != '@') ==> r is Err,
    {
        let ulen = self.username.as_str().unicode_len();
        let username_length = ulen < 3 || ulen > 50;
        let email = !email_is_valid(self.email.as_str());
        let (password_length, password_strength) = check_password(self.password.as_str());
        if username_length || email || password_length || password_strength {
            Err(ValidationErrors { username_length, email, password_length, password_strength })
        } else {
            Ok(())
        }
    }
}

impl UpdateUser {
    /// Each field that is present obeys the rule that registration sets for it.
    pub open spec fn spec_valid(&self) -> bool {
        &&& (self.username matches Some(u) ==> valid_username(u@))
        &&& (self.email matches Some(e) ==> valid_email(e@))
        &&& (self.password matches Some(p) ==> long_password(p@) && strong_password(p@))
    }

    /// Checks the fields that are present, and names each rule that fails.
    pub fn validate(&self) -> (r: Result<(), ValidationErrors>)
        ensures
            r is Ok <==> self.spec_valid(),
            r matches Err(e) ==> {
                &&& e.username_length == (self.username matches Some(u) && !valid_username(u@))
                &&& e.email == (self.email matches Some(m) && !valid_email(m@))
                &&& e.password_length == (self.password matches Some(p) && !long_password(p@))
                &&& e.password_strength == (self.password matches Some(p) && !strong_password(
                    p@,
                ))
            },
    {
        let username_length = match &self.username {
            Some(u) => {
                let ulen = u.as_str().unicode_len();
                ulen < 3 || ulen > 50
            },
            None => false,
        };
        let email = match &self.email {
            Some(m) => !email_is_valid(m.as_str()),
            None => false,
        };
        let (password_length, password_strength) = match &self.password {
            Some(p) => check_password(p.as_str()),
            None => (false, false),
        };
        if username_length || email || password_length || password_strength {
            Err(ValidationErrors { username_length, email, password_length, password_strength })
        } else {
            Ok(())
        }
    }
}

} // verus!
