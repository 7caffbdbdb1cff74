use auth_service::rate_limiter::{FixedKeyExtractor, GlobalRateLimiter, RateLimitSettings};
use std::time::{Duration, Instant};

#[test]
fn fixed_key_is_shared() {
    assert_eq!(FixedKeyExtractor.extract(), "fixed_key");
}

#[test]
fn zero_settings_are_refused() {
    assert!(GlobalRateLimiter::new(RateLimitSettings { requests_per_second: 0, burst_size: 10 }).is_none());
    assert!(GlobalRateLimiter::new(RateLimitSettings { requests_per_second: 10, burst_size: 0 }).is_none());
    let l = GlobalRateLimiter::new(RateLimitSettings::login()).unwrap();
    assert_eq!(l.settings(), RateLimitSettings { requests_per_second: 10, burst_size: 10 });
}

#[test]
fn test_rate_limiting() {
    let mut limiter = GlobalRateLimiter::new(RateLimitSettings::login()).unwrap();
    for _ in 0..10 {
        assert!(limiter.allow());
    }
    assert!(!limiter.allow());
}

#[test]
fn burst_then_refill() {
    let mut limiter = GlobalRateLimiter::new(RateLimitSettings::login()).unwrap();
    for _ in 0..10 {
        assert!(limiter.allow());
    }
    assert!(!limiter.allow());
    let start = Instant::now();
    while start.elapsed() < Duration::from_millis(1100) {}
    assert!(limiter.allow());
}
