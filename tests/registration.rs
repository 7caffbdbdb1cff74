use auth_service::models::{NewUser, UpdateUser};
use auth_service::password::verify_password;
use auth_service::user_service::{register, RegistrationError, UserService};
use auth_service::validation::{validate_password_strength, ValidationErrors, WeakPassword};

fn new_user(username: &str, email: &str, password: &str) -> NewUser {
    NewUser { username: username.to_string(), email: email.to_string(), password: password.to_string() }
}

#[test]
fn test_create_user_with_weak_password() {
    let r = new_user("testuser", "testuser@example.com", "weakpass").validate();
    assert_eq!(
        r,
        Err(ValidationErrors { username_length: false, email: false, password_length: false, password_strength: true })
    );
    assert_eq!(validate_password_strength("weakpass"), Err(WeakPassword));
}

#[test]
fn strong_password_is_accepted() {
    assert_eq!(new_user("testuser", "testuser@example.com", "Password123!").validate(), Ok(()));
    assert_eq!(validate_password_strength("Password123!"), Ok(()));
}

#[test]
fn test_create_user_with_short_username() {
    let r = new_user("tu", "testuser@example.com", "Password123!").validate();
    assert_eq!(
        r,
        Err(ValidationErrors { username_length: true, email: false, password_length: false, password_strength: false })
    );
    let fifty = "u".repeat(50);
    assert_eq!(new_user(&fifty, "testuser@example.com", "Password123!").validate(), Ok(()));
    let fifty_one = "u".repeat(51);
    assert!(new_user(&fifty_one, "testuser@example.com", "Password123!").validate().is_err());
}

#[test]
fn test_create_user_with_invalid_email() {
    let r = new_user("testuser", "invalid_email", "Password123!").validate();
    assert_eq!(
        r,
        Err(ValidationErrors { username_length: false, email: true, password_length: false, password_strength: false })
    );
}

#[test]
fn short_password_is_rejected() {
    let r = new_user("testuser", "testuser@example.com", "Pa1!").validate();
    assert_eq!(
        r,
        Err(ValidationErrors { username_length: false, email: false, password_length: true, password_strength: false })
    );
}

#[test]
fn password_strength_needs_each_class() {
    assert_eq!(validate_password_strength("PASSWORD123!"), Err(WeakPassword));
    assert_eq!(validate_password_strength("password123!"), Err(WeakPassword));
    assert_eq!(validate_password_strength("Password!!!!"), Err(WeakPassword));
    assert_eq!(validate_password_strength("Password1234"), Err(WeakPassword));
    assert_eq!(validate_password_strength(""), Err(WeakPassword));
}

#[test]
fn update_checks_present_fields_only() {
    let none = UpdateUser { username: None, email: None, password: None };
    assert_eq!(none.validate(), Ok(()));
    let bad = UpdateUser { username: Some("ab".to_string()), email: None, password: Some("NewPassword123!".to_string()) };
    assert_eq!(
        bad.validate(),
        Err(ValidationErrors { username_length: true, email: false, password_length: false, password_strength: false })
    );
}

#[test]
fn test_create_user() {
    let u = UserService::create_user(new_user("testuser", "testuser@example.com", "Password123!")).unwrap();
    assert_eq!(u.username, "testuser");
    assert_eq!(u.email, "testuser@example.com");
    assert_ne!(u.password, "Password123!");
    assert!(verify_password(&u.password, "Password123!"));
}

#[test]
fn register_validates_before_hashing() {
    match register(new_user("tu", "invalid_email", "weakpass")) {
        Err(RegistrationError::Invalid(e)) => {
            assert!(e.username_length && e.email && e.password_strength && !e.password_length)
        }
        _ => panic!("expected a validation error"),
    }
    let u = register(new_user("testuser", "testuser@example.com", "Password123!")).unwrap();
    assert!(verify_password(&u.password, "Password123!"));
}
