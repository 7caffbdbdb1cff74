//! A global limiter in front of the login endpoint: one bucket for every
//! caller together, refilled at a fixed rate up to a burst capacity.
use vstd::prelude::*;
use actix_governor::governor::{DefaultDirectRateLimiter, Quota};
use std::num::NonZeroU32;

verus! {

/// The key under which every request is counted.
pub struct FixedKeyExtractor;

impl FixedKeyExtractor {
    /// The same key for every request, so that all callers share one bucket.
    pub fn extract(&self) -> (r: String)
        ensures
            r@ == "fixed_key"@,
    {
        String::from_str("fixed_key")
    }
}

/// How fast the bucket refills (tokens per second) and how much it holds.
#[derive(Debug, Clone, Copy, PartialEq, Eq, Structural)]
pub struct RateLimitSettings {
    pub requests_per_second: u32,
    pub burst_size: u32,
}

impl RateLimitSettings {
    /// The login endpoint's settings: ten per second, bursts of ten.
    pub fn login() -> (r: Self)
        ensures
            r.requests_per_second == 10,
            r.burst_size == 10,
    {
        RateLimitSettings { requests_per_second: 10, burst_size: 10 }
    }

    /// Both numbers must be positive.
    pub open spec fn spec_usable(self) -> bool {
        self.requests_per_second > 0 && self.burst_size > 0
    }
}

/// Holds governor's direct (unkeyed) limiter, whose type Verus cannot take
/// in a declaration: its bounds name governor's own traits.
#[verifier::external_body]
pub struct Bucket {
    inner: DefaultDirectRateLimiter,
}

/// How many requests the bucket has admitted since it was made.
pub uninterp spec fn bucket_grants(b: Bucket) -> nat;

/// How many requests the bucket holds when full.
pub uninterp spec fn bucket_burst(b: Bucket) -> nat;

/// Relies on governor's Quota::per_second and allow_burst, and
/// RateLimiter::direct: a bucket of `burst_size` that starts full (the GCRA's
/// theoretical arrival time starts at the clock's origin).
#[verifier::external_body]
fn governor_direct(requests_per_second: u32, burst_size: u32) -> (r: Bucket)
    requires
        requests_per_second > 0,
        burst_size > 0,
    ensures
        bucket_grants(r) == 0,
        bucket_burst(r) == burst_size,
{
    let rate = NonZeroU32::new(requests_per_second).unwrap();
    let burst = NonZeroU32::new(burst_size).unwrap();
    Bucket { inner: DefaultDirectRateLimiter::direct(Quota::per_second(rate).allow_burst(burst)) }
}

/// Relies on governor's RateLimiter::check: takes one token if one is there.
/// Beyond that the answer depends on the clock; what holds whatever it is: a
/// bucket that started full and has admitted fewer than its burst still holds
/// a token, since tokens only leave by admissions.
#[verifier::external_body]
fn governor_check(bucket: &mut Bucket) -> (r: bool)
    ensures
        bucket_burst(*final(bucket)) == bucket_burst(*old(bucket)),
        r ==> bucket_grants(*final(bucket)) == bucket_grants(*old(bucket)) + 1,
        !r ==> bucket_grants(*final(bucket)) == bucket_grants(*old(bucket)),
        bucket_grants(*old(bucket)) < bucket_burst(*old(bucket)) ==> r,
{
    bucket.inner.check().is_ok()
}

pub struct GlobalRateLimiter {
    settings: RateLimitSettings,
    bucket: Bucket,
}

impl GlobalRateLimiter {
    pub closed spec fn spec_settings(&self) -> RateLimitSettings {
        self.settings
    }

    /// Requests admitted so far.
    pub closed spec fn spec_granted(&self) -> nat {
        bucket_grants(self.bucket)
    }

    /// The bucket's capacity.
    pub closed spec fn spec_burst(&self) -> nat {
        bucket_burst(self.bucket)
    }

    /// A limiter with a full bucket, or `None` where a setting is zero.
    pub fn new(settings: RateLimitSettings) -> (r: Option<GlobalRateLimiter>)
        ensures
            r is Some <==> settings.spec_usable(),
            r matches Some(l) ==> l.spec_settings() == settings && l.spec_granted() == 0
                && l.spec_burst() == settings.burst_size,
    {
        if settings.requests_per_second == 0 || settings.burst_size == 0 {
            return None;
        }
        let bucket = governor_direct(settings.requests_per_second, settings.burst_size);
        Some(GlobalRateLimiter { settings, bucket })
    }

    pub fn settings(&self) -> (r: RateLimitSettings)
        ensures
            r == self.spec_settings(),
    {
        self.settings
    }

    /// Consumes one token if one is available; `false` means the request is
    /// to be refused (HTTP 429). While fewer than `burst_size` requests have
    /// been admitted, the request is admitted.
    pub fn allow(&mut self) -> (r: bool)
        ensures
            final(self).spec_settings() == old(self).spec_settings(),
            final(self).spec_burst() == old(self).spec_burst(),
            r ==> final(self).spec_granted() == old(self).spec_granted() + 1,
            !r ==> final(self).spec_granted() == old(self).spec_granted(),
            old(self).spec_granted() < old(self).spec_burst() ==> r,
    {
        governor_check(&mut self.bucket)
    }
}

} // verus!
