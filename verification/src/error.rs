use std::time::Duration;
use vstd::prelude::*;

verus! {

/// Error returned when a limiter cannot accept a request or cost.
#[derive(Clone, Copy, Debug, PartialEq, Eq)]
pub enum RateLimitError {
    /// The key is temporarily over budget.
    Limited { retry_after: Duration },
    /// The requested units exceed this limiter's burst capacity.
    InsufficientCapacity,
}

impl RateLimitError {
    /// The delay after which waiting can make the request fit.
    pub open spec fn retry_delay(self) -> Option<Duration> {
        match self {
            RateLimitError::Limited { retry_after } => Some(retry_after),
            RateLimitError::InsufficientCapacity => None,
        }
    }

    /// Creates a temporary limit error with the given retry delay.
    pub fn limited(retry_after: Duration) -> (r: Self)
        ensures
            r == (RateLimitError::Limited { retry_after }),
            r.retry_delay() == Some(retry_after),
    {
        RateLimitError::Limited { retry_after }
    }

    /// Returns the retry delay when waiting can make the request fit.
    pub fn retry_after(self) -> (r: Option<Duration>)
        ensures
            r == self.retry_delay(),
            r is Some <==> self is Limited,
    {
        match self {
            RateLimitError::Limited { retry_after } => Some(retry_after),
            RateLimitError::InsufficientCapacity => None,
        }
    }
}

} // verus!
