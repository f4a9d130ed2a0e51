//! What the library relies on from `std::time`.
use std::time::{Duration, Instant};
use vstd::prelude::*;

verus! {

/// An `Instant` is opaque: the library only takes one and later asks how long ago that was.
#[verifier::external_type_specification]
#[verifier::external_body]
pub struct ExInstant(Instant);

/// The number of nanoseconds in a duration, as `Duration::as_nanos` reports it.
pub uninterp spec fn duration_nanos(duration: Duration) -> nat;

/// The longest duration: `u64::MAX` seconds and 999,999,999 nanoseconds.
pub open spec fn max_duration_nanos() -> nat {
    (u64::MAX * 1_000_000_000 + 999_999_999) as nat
}

/// The whole seconds in a number of nanoseconds.
pub open spec fn whole_seconds(nanos: nat) -> nat {
    nanos / 1_000_000_000
}

/// `Duration::as_nanos` returns the total number of nanoseconds contained by the duration, which
/// is made of at most `u64::MAX` seconds and a part of less than one second.
pub assume_specification[ Duration::as_nanos ](duration: &Duration) -> (r: u128)
    ensures
        r == duration_nanos(*duration),
        r <= max_duration_nanos(),
;

/// `Duration::from_secs` makes a duration of that many whole seconds.
pub assume_specification[ Duration::from_secs ](secs: u64) -> (r: Duration)
    ensures
        duration_nanos(r) == secs * 1_000_000_000,
;

/// `Instant::now` reads the machine's monotonic clock; nothing is claimed of what it returns.
pub assume_specification[ Instant::now ]() -> (r: Instant)
;

/// `Instant::elapsed` returns the time that has passed since the instant; nothing is claimed of
/// how long that is.
pub assume_specification[ Instant::elapsed ](start: &Instant) -> (r: Duration)
;

} // verus!
