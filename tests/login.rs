use auth_service::auth_service::{AuthService, CredentialLookup};
use auth_service::error::AuthError;
use auth_service::models::{LoginRequest, User};
use auth_service::password::{hash_password, hash_password_with_salt, verify_password, HashingError};
use auth_service::token::{verify_token, TokenError};

const SECRET: &[u8] = b"login-secret";
const USER_ID: u128 = 0x67e5_5044_10b1_426f_9247_bb68_0e5f_e0c8;

fn stored_user(password: &str) -> User {
    User {
        id: USER_ID,
        username: "testuser".to_string(),
        email: "testuser@example.com".to_string(),
        password: hash_password(password).unwrap(),
    }
}

fn request(password: &str) -> LoginRequest {
    LoginRequest { email: "testuser@example.com".to_string(), password: password.to_string() }
}

#[test]
fn hash_then_verify_round_trips() {
    let h1 = hash_password("Password123!").unwrap();
    assert!(h1.starts_with("$argon2id$"));
    assert!(verify_password(&h1, "Password123!"));
    assert!(!verify_password(&h1, "Password123?"));
    let h2 = hash_password("Password123!").unwrap();
    assert_ne!(h1, h2);
    assert!(verify_password(&h2, "Password123!"));
}

#[test]
fn malformed_hash_matches_nothing() {
    assert!(!verify_password("not-a-phc-string", "anything"));
    assert!(!verify_password("", ""));
}

#[test]
fn user_id_text_is_hyphenated_uuid() {
    let u = User { id: USER_ID, username: String::new(), email: String::new(), password: String::new() };
    assert_eq!(u.id_text(), "67e55044-10b1-426f-9247-bb680e5fe0c8");
}

#[test]
fn login_success_issues_token_for_user_id() {
    let lookup = CredentialLookup::Found(stored_user("Password123!"));
    let resp = AuthService::authenticate(&lookup, &request("Password123!"), Some(SECRET), 3600, 1_000)
        .unwrap();
    assert_eq!(
        verify_token(&resp.token, SECRET, 2_000),
        Ok("67e55044-10b1-426f-9247-bb680e5fe0c8".to_string())
    );
    assert_eq!(verify_token(&resp.token, SECRET, 4_600), Err(TokenError::Expired));
}

#[test]
fn login_wrong_password_or_unknown_email_is_invalid_credentials() {
    let lookup = CredentialLookup::Found(stored_user("Password123!"));
    let r = AuthService::authenticate(&lookup, &request("wrong"), Some(SECRET), 3600, 1_000);
    assert_eq!(r.err(), Some(AuthError::InvalidCredentials));
    let r = AuthService::authenticate(&CredentialLookup::NotFound, &request("Password123!"), Some(SECRET), 3600, 1_000);
    assert_eq!(r.err(), Some(AuthError::InvalidCredentials));
}

#[test]
fn login_internal_failures() {
    let r = AuthService::authenticate(&CredentialLookup::Unavailable, &request("x"), Some(SECRET), 3600, 1_000);
    assert_eq!(r.err(), Some(AuthError::InternalServerError));
    let lookup = CredentialLookup::Found(stored_user("Password123!"));
    let r = AuthService::authenticate(&lookup, &request("Password123!"), None, 3600, 1_000);
    assert_eq!(r.err(), Some(AuthError::InternalServerError));
}

#[test]
fn error_status_codes_and_messages() {
    assert_eq!(AuthError::InvalidCredentials.status_code(), 401);
    assert_eq!(AuthError::RateLimited.status_code(), 429);
    assert_eq!(AuthError::InternalServerError.status_code(), 500);
    assert_eq!(AuthError::InvalidCredentials.message(), "Invalid credentials");
    assert_eq!(AuthError::InternalServerError.message(), "Internal server error");
}

#[test]
fn generate_token_needs_secret() {
    assert_eq!(AuthService::generate_token("u", None, 10, 0), Err(AuthError::InternalServerError));
    let tok = AuthService::generate_token("u", Some(SECRET), 10, 0).unwrap();
    assert_eq!(verify_token(&tok, SECRET, 9), Ok("u".to_string()));
    assert_eq!(verify_token(&tok, SECRET, 10), Err(TokenError::Expired));
}

#[test]
fn hashing_with_given_salt() {
    let salt = [7u8; 16];
    let h1 = hash_password_with_salt("Password123!", &salt).unwrap();
    let h2 = hash_password_with_salt("Password123!", &salt).unwrap();
    assert_eq!(h1, h2);
    assert!(h1.starts_with("$argon2id$v=19$"));
    assert!(verify_password(&h1, "Password123!"));
    assert!(!verify_password(&h1, "password123!"));
    assert_eq!(hash_password_with_salt("Password123!", &[1u8; 7]), Err(HashingError));
    assert!(hash_password_with_salt("Password123!", &[1u8; 8]).is_ok());
}

#[test]
fn control_character_id_is_signed() {
    let tok = AuthService::generate_token("x\u{0}", Some(SECRET), 10, 0).unwrap();
    assert_eq!(verify_token(&tok, SECRET, 1), Ok("x\u{0}".to_string()));
}

#[test]
fn salt_out_of_range_is_refused() {
    assert_eq!(hash_password_with_salt("p", &[]), Err(HashingError));
    assert_eq!(hash_password_with_salt("p", &[0u8; 3]), Err(HashingError));
    assert_eq!(hash_password_with_salt("p", &[0u8; 49]), Err(HashingError));
    assert!(hash_password_with_salt("p", &[0u8; 48]).is_ok());
    assert!(!verify_password("argon2id$v=19", "p"));
}
