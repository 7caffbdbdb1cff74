use auth_service::claims::{claims_json, parse_claims};
use auth_service::error::AuthError;
use auth_service::models::Claims;
use auth_service::token::{bearer_token, issue_token, validate_token, verify_token, TokenError};

const SECRET: &[u8] = b"test-signing-secret";

#[test]
fn claims_payload_exact_text() {
    assert_eq!(claims_json("abc", 42), "{\"sub\":\"abc\",\"exp\":42}");
    assert_eq!(claims_json("", 0), "{\"sub\":\"\",\"exp\":0}");
    assert_eq!(
        claims_json("a\"b\\c", 18446744073709551615),
        "{\"sub\":\"a\\\"b\\\\c\",\"exp\":18446744073709551615}"
    );
}

#[test]
fn claims_payload_round_trip() {
    for (sub, exp) in [("abc", 42u64), ("", 0), ("q\"\\x", 7), ("ünï", u64::MAX), ("id", 10)] {
        let text = claims_json(sub, exp);
        assert_eq!(parse_claims(&text), Some((sub.to_string(), exp)));
    }
}

#[test]
fn claims_payload_rejects_other_text() {
    assert_eq!(parse_claims(""), None);
    assert_eq!(parse_claims("{\"sub\":\"a\",\"exp\":042}"), None);
    assert_eq!(parse_claims("{\"sub\":\"a\",\"exp\":}"), None);
    assert_eq!(parse_claims("{\"sub\":\"a\",\"exp\":18446744073709551616}"), None);
    assert_eq!(parse_claims("{\"exp\":1,\"sub\":\"a\"}"), None);
    assert_eq!(parse_claims("{\"sub\":\"a\\b\",\"exp\":1}"), None);
    assert_eq!(parse_claims("{\"sub\":\"a\",\"exp\":1} "), None);
}

#[test]
fn claims_struct_payload() {
    let c = Claims { sub: "user-1".to_string(), exp: 99 };
    let text = c.to_payload();
    assert_eq!(text, "{\"sub\":\"user-1\",\"exp\":99}");
    let back = Claims::from_payload(&text).unwrap();
    assert_eq!(back.sub, "user-1");
    assert_eq!(back.exp, 99);
    assert!(Claims::from_payload("not a payload").is_none());
}

#[test]
fn issued_token_verifies_to_subject() {
    let tok = issue_token("user-7", 3600, 1_000, SECRET).unwrap();
    assert_eq!(tok.split('.').count(), 3);
    assert_eq!(verify_token(&tok, SECRET, 1_000), Ok("user-7".to_string()));
    assert_eq!(verify_token(&tok, SECRET, 4_599), Ok("user-7".to_string()));
    assert_eq!(verify_token(&tok, SECRET, 4_600), Err(TokenError::Expired));
}

#[test]
fn zero_ttl_token_is_expired() {
    let tok = issue_token("user-7", 0, 5_000, SECRET).unwrap();
    assert_eq!(verify_token(&tok, SECRET, 5_000), Err(TokenError::Expired));
    assert_eq!(verify_token(&tok, SECRET, 9_000), Err(TokenError::Expired));
}

#[test]
fn tampered_signature_is_refused() {
    let tok = issue_token("user-7", 3600, 1_000, SECRET).unwrap();
    let sig_start = tok.rfind('.').unwrap() + 1;
    let bytes = tok.as_bytes();
    for i in sig_start..bytes.len() {
        let mut changed = bytes.to_vec();
        changed[i] = if changed[i] == b'A' { b'B' } else { b'A' };
        let changed = String::from_utf8(changed).unwrap();
        assert_eq!(verify_token(&changed, SECRET, 1_000), Err(TokenError::InvalidSignature));
    }
}

#[test]
fn token_under_other_secret_is_refused() {
    let tok = issue_token("user-7", 3600, 1_000, SECRET).unwrap();
    assert_eq!(verify_token(&tok, b"another-secret", 1_000), Err(TokenError::InvalidSignature));
    assert_eq!(verify_token("not.a.token", SECRET, 1_000), Err(TokenError::InvalidSignature));
}

#[test]
fn expiry_saturates() {
    let tok = issue_token("s", u64::MAX, 10, SECRET).unwrap();
    assert_eq!(verify_token(&tok, SECRET, u64::MAX - 1), Ok("s".to_string()));
    assert_eq!(verify_token(&tok, SECRET, u64::MAX), Err(TokenError::Expired));
}

#[test]
fn bearer_header_parsing() {
    assert_eq!(bearer_token("Bearer abc.def"), Some("abc.def"));
    assert_eq!(bearer_token("Bearer "), Some(""));
    assert_eq!(bearer_token("bearer abc"), None);
    assert_eq!(bearer_token("Basic abc"), None);
    assert_eq!(bearer_token("Bear"), None);
}

#[test]
fn request_guard_outcomes() {
    let tok = issue_token("user-7", 60, 100, SECRET).unwrap();
    let header = format!("Bearer {}", tok);
    assert_eq!(validate_token(Some(header.as_str()), Some(SECRET), 100), Ok("user-7".to_string()));
    assert_eq!(validate_token(Some(header.as_str()), Some(SECRET), 160), Err(AuthError::InvalidCredentials));
    assert_eq!(validate_token(None, Some(SECRET), 100), Err(AuthError::InvalidCredentials));
    assert_eq!(validate_token(Some(tok.as_str()), Some(SECRET), 100), Err(AuthError::InvalidCredentials));
    assert_eq!(validate_token(Some(header.as_str()), None, 100), Err(AuthError::InternalServerError));
}

#[test]
fn subject_with_control_characters_is_signed() {
    assert_eq!(claims_json("a\u{1}b\n", 5), "{\"sub\":\"a\\u0001b\\u000a\",\"exp\":5}");
    assert_eq!(claims_json("\u{1f}", 5), "{\"sub\":\"\\u001f\",\"exp\":5}");
    for sub in ["a\u{1}b", "\u{0}", "x\u{1f}\t\r", "a\u{7f}b"] {
        let tok = issue_token(sub, 60, 0, SECRET).unwrap();
        assert_eq!(verify_token(&tok, SECRET, 1), Ok(sub.to_string()));
        assert_eq!(parse_claims(&claims_json(sub, 9)), Some((sub.to_string(), 9)));
    }
    assert_eq!(parse_claims("{\"sub\":\"\\u001F\",\"exp\":1}"), None);
    assert_eq!(parse_claims("{\"sub\":\"\\u0020\",\"exp\":1}"), None);
    assert_eq!(parse_claims("{\"sub\":\"\u{1}\",\"exp\":1}"), None);
}
