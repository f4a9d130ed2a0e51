use vstd::prelude::*;

use crate::limiter::RateLimiter;

verus! {

/// Unit marker for request-count rate limiting.
pub enum Requests {
    /// One request.
    Request,
}

/// A rate limiter where one unit represents one request.
pub type RequestRateLimiter<K> = RateLimiter<K, Requests>;

/// Unit marker for duration-count rate limiting.
pub enum DurationUnits {
    /// One millisecond.
    Millisecond,
}

/// A rate limiter where one unit represents one millisecond.
pub type DurationBudgetLimiter<K> = RateLimiter<K, DurationUnits>;

} // verus!
