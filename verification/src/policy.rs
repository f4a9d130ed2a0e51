use vstd::prelude::*;

use crate::nonzero::NonZeroU32;

verus! {

/// Refill policy for one rate limiter bucket.
///
/// `rate_per_second` is the number of units replenished per second. `burst` is
/// the maximum number of units that can be consumed in a burst.
#[derive(Clone, Copy, Debug, PartialEq, Eq)]
pub struct Policy {
    /// Units replenished per second.
    pub rate_per_second: NonZeroU32,
    /// Maximum burst capacity.
    pub burst: NonZeroU32,
}

/// A `governor` quota is opaque; two names say what it holds.
#[verifier::external_type_specification]
#[verifier::external_body]
pub struct ExQuota(governor::Quota);

/// The number that `governor::Quota::burst_size` reports.
pub uninterp spec fn quota_burst(quota: governor::Quota) -> nat;

/// The number of nanoseconds in what `governor::Quota::replenish_interval` reports.
pub uninterp spec fn quota_interval(quota: governor::Quota) -> nat;

/// `governor::Quota::per_second` followed by `governor::Quota::allow_burst`: the quota replenishes
/// one unit per `rate`-th part of a second, rounded down to nanoseconds, and holds `burst` units.
#[verifier::external_body]
fn governor_quota(rate: u32, burst: u32) -> (r: governor::Quota)
    requires
        rate > 0,
        burst > 0,
    ensures
        quota_burst(r) == burst,
        quota_interval(r) == 1_000_000_000nat / rate as nat,
{
    let rate = std::num::NonZeroU32::new(rate).unwrap();
    let burst = std::num::NonZeroU32::new(burst).unwrap();
    governor::Quota::per_second(rate).allow_burst(burst)
}

impl Policy {
    /// Whether a quota holds this policy.
    pub open spec fn is_held_by(self, quota: governor::Quota) -> bool {
        &&& quota_burst(quota) == self.burst@
        &&& quota_interval(quota) == 1_000_000_000nat / self.rate_per_second@
    }

    /// A policy from its rate and its burst capacity.
    pub fn per_second(rate_per_second: NonZeroU32, burst: NonZeroU32) -> (r: Self)
        ensures
            r.rate_per_second == rate_per_second,
            r.burst == burst,
    {
        Policy { rate_per_second, burst }
    }

    pub(crate) fn to_governor_quota(self) -> (r: governor::Quota)
        ensures
            self.is_held_by(r),
            quota_interval(r) <= 1_000_000_000,
            0 < self.burst@ <= u32::MAX,
    {
        governor_quota(self.rate_per_second.get(), self.burst.get())
    }
}

} // verus!
