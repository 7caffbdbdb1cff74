//! The credential-authentication core of a pair of small web services:
//! password hashing and verification, token issuance and verification, the
//! login decision, registration input rules, and a global rate limiter.
//!
//! Storage, HTTP and configuration stay with the caller, which hands the
//! library plain values: the result of a credential lookup, the signing
//! secret, the current time.
pub mod auth_service;
pub mod claims;
pub mod error;
pub mod models;
pub mod password;
pub mod rate_limiter;
pub mod token;
pub mod user_service;
pub mod validation;
