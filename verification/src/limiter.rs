use std::hash::Hash;
use std::marker::PhantomData;
use std::time::{Duration, Instant};

use governor::clock::{Clock, DefaultClock, FakeRelativeClock};
use governor::middleware::NoOpMiddleware;
use governor::state::keyed::DashMapStateStore;
use vstd::arithmetic::div_mod::*;
use vstd::prelude::*;

use crate::error::RateLimitError;
use crate::nonzero::NonZeroU32;
use crate::policy::{self, Policy};
use crate::time;
use crate::units::{DurationUnits, Requests};

verus! {

/// The clock that `governor` reads by default.
#[verifier::external_type_specification]
#[verifier::external_body]
pub struct ExDefaultClock(DefaultClock);

/// A `governor` clock that only moves when it is told to.
#[verifier::external_type_specification]
#[verifier::external_body]
pub struct ExFakeRelativeClock(FakeRelativeClock);

/// `DefaultClock::default` makes a handle on the machine's clock; nothing is claimed of it.
pub assume_specification[ <DefaultClock as Default>::default ]() -> (r: DefaultClock)
;

/// A clock of one of the kinds that a limiter can read.
pub enum ClockSource {
    /// The machine's clock.
    Default(DefaultClock),
    /// A clock that only moves when it is told to.
    Fake(FakeRelativeClock),
}

/// A clock that a limiter can read.
pub trait LimiterClock: Sized {
    /// The clock, tagged with its kind.
    spec fn source(self) -> ClockSource;

    /// Tags the clock with its kind.
    fn into_source(self) -> (r: ClockSource)
        ensures
            r == self.source(),
    ;
}

impl LimiterClock for DefaultClock {
    open spec fn source(self) -> ClockSource {
        ClockSource::Default(self)
    }

    fn into_source(self) -> (r: ClockSource) {
        ClockSource::Default(self)
    }
}

impl LimiterClock for FakeRelativeClock {
    open spec fn source(self) -> ClockSource {
        ClockSource::Fake(self)
    }

    fn into_source(self) -> (r: ClockSource) {
        ClockSource::Fake(self)
    }
}

/// What the bucket store answers when units are to be charged to a key.
pub enum ChargeReply {
    /// The units fitted, and have been charged.
    Allowed,
    /// The units do not fit now, but may after the wait; nothing has been charged.
    NotUntil { wait: Duration },
    /// The units can never fit; nothing has been charged.
    InsufficientCapacity,
}

/// One `governor` bucket per key, in a concurrent map, refilled by a clock.
///
/// The buckets change behind a shared reference and with time, so no contract speaks of how full
/// they are.
#[verifier::external_body]
#[verifier::reject_recursive_types(K)]
struct KeyedStore<K> where K: Eq + Hash + Clone {
    inner: Result<
        governor::RateLimiter<
            K,
            DashMapStateStore<K, ahash::RandomState>,
            DefaultClock,
            NoOpMiddleware<<DefaultClock as Clock>::Instant>,
        >,
        governor::RateLimiter<
            K,
            DashMapStateStore<K, ahash::RandomState>,
            FakeRelativeClock,
            NoOpMiddleware<<FakeRelativeClock as Clock>::Instant>,
        >,
    >,
}

/// Whether a store is one that `KeyedStore::new` made of a quota and a clock.
spec fn made_of<K>(store: KeyedStore<K>, quota: governor::Quota, clock: ClockSource) -> bool where
    K: Eq + Hash + Clone,
 {
    call_ensures(KeyedStore::<K>::new, (quota, clock), store)
}

/// Whether a store is one that was made of a quota of the policy and the clock.
spec fn holds_policy<K>(store: KeyedStore<K>, policy: Policy, clock: ClockSource) -> bool where
    K: Eq + Hash + Clone,
 {
    &&& 0 < policy.burst@ <= u32::MAX
    &&& exists|quota: governor::Quota| #[trigger]
        made_of(store, quota, clock) && policy.is_held_by(quota) && policy::quota_interval(quota)
            <= 1_000_000_000
}

impl<K> KeyedStore<K> where K: Eq + Hash + Clone {
    /// `governor::RateLimiter::new` over an empty map: every bucket starts full. An interval of at
    /// most a second keeps the time in which any number of units comes back within the 64 bits of
    /// nanoseconds that `governor` counts in.
    #[verifier::external_body]
    fn new(quota: governor::Quota, clock: ClockSource) -> (r: Self)
        requires
            policy::quota_interval(quota) <= 1_000_000_000,
    {
        KeyedStore {
            inner: match clock {
                ClockSource::Default(clock) => Ok(
                    governor::RateLimiter::new(quota, <_>::default(), clock),
                ),
                ClockSource::Fake(clock) => Err(
                    governor::RateLimiter::new(quota, <_>::default(), clock),
                ),
            },
        }
    }

    /// `governor::RateLimiter::check_key_n`, with `NotUntil::wait_time_from` the present for a
    /// refusal that time can lift. More units than the burst capacity of the quota that the store
    /// was made of are refused for good, and no others are, if that quota replenishes a unit at
    /// least every second. Which of the two other answers comes,
    /// and the wait, rest on the clock and on what was charged to the key before; nothing is
    /// claimed of them.
    ///
    /// `governor` counts the nanoseconds since the store was made in 64 bits, and adds to them
    /// without a check. A clock that has moved on for some 300 years or more since then can
    /// overflow the sum, which panics where overflow checks are on.
    #[verifier::external_body]
    fn check_key_n(&self, key: &K, units: u32) -> (r: ChargeReply)
        requires
            units > 0,
        ensures
            forall|quota: governor::Quota, clock: ClockSource| #[trigger]
                made_of(*self, quota, clock) && policy::quota_interval(quota) <= 1_000_000_000
                    ==> (r is InsufficientCapacity <==> units > policy::quota_burst(quota)),
    {
        let units = std::num::NonZeroU32::new(units).unwrap();
        let reply = match &self.inner {
            Ok(l) => l.check_key_n(key, units).map(
                |r| r.map_err(|not_until| not_until.wait_time_from(l.clock().now())),
            ),
            Err(l) => l.check_key_n(key, units).map(
                |r| r.map_err(|not_until| not_until.wait_time_from(l.clock().now())),
            ),
        };
        match reply {
            Ok(Ok(())) => ChargeReply::Allowed,
            Ok(Err(wait)) => ChargeReply::NotUntil { wait },
            Err(_) => ChargeReply::InsufficientCapacity,
        }
    }

    /// `governor::RateLimiter::retain_recent` forgets keys whose buckets are full again, which are
    /// as good as new. Which keys these are rests on the clock; nothing is claimed of it.
    #[verifier::external_body]
    fn retain_recent(&self) {
        match &self.inner {
            Ok(limiter) => limiter.retain_recent(),
            Err(limiter) => limiter.retain_recent(),
        }
    }
}

/// What a limiter answers when its store gave this reply.
pub open spec fn outcome_of(reply: ChargeReply) -> Result<(), RateLimitError> {
    match reply {
        ChargeReply::Allowed => Ok(()),
        ChargeReply::NotUntil { wait } => Err(RateLimitError::Limited { retry_after: wait }),
        ChargeReply::InsufficientCapacity => Err(RateLimitError::InsufficientCapacity),
    }
}

/// Turns the store's reply into the limiter's answer.
pub fn charge_outcome(reply: ChargeReply) -> (r: Result<(), RateLimitError>)
    ensures
        r == outcome_of(reply),
{
    match reply {
        ChargeReply::Allowed => Ok(()),
        ChargeReply::NotUntil { wait } => Err(RateLimitError::limited(wait)),
        ChargeReply::InsufficientCapacity => Err(RateLimitError::InsufficientCapacity),
    }
}

/// A keyed rate limiter for one policy and one unit type.
#[verifier::reject_recursive_types(K)]
pub struct RateLimiter<K, U = Requests, C = DefaultClock> where K: Eq + Hash + Clone {
    store: KeyedStore<K>,
    policy: Ghost<Policy>,
    source: Ghost<ClockSource>,
    _unit: PhantomData<U>,
    _clock: PhantomData<C>,
}

impl<K, U> RateLimiter<K, U> where K: Eq + Hash + Clone {
    /// A limiter for a policy that reads the machine's clock.
    pub fn new(policy: Policy) -> (r: Self)
        ensures
            r.policy() == policy,
            exists|clock: DefaultClock| #[trigger]
                call_ensures(DefaultClock::default, (), clock) && r.source()
                    == ClockSource::Default(clock),
            exists|quota: governor::Quota| #[trigger]
                r.has_buckets_of(quota, r.source()) && policy.is_held_by(quota),
    {
        Self::with_clock(policy, DefaultClock::default())
    }
}

impl<K, U, C> RateLimiter<K, U, C> where K: Eq + Hash + Clone {
    #[verifier::type_invariant]
    spec fn wf(&self) -> bool {
        holds_policy(self.store, self.policy@, self.source@)
    }

    /// The policy that the limiter was made with.
    pub closed spec fn policy(&self) -> Policy {
        self.policy@
    }

    /// The clock that the limiter reads.
    pub closed spec fn source(&self) -> ClockSource {
        self.source@
    }

    /// Whether the limiter's buckets were made of this quota and this clock.
    pub closed spec fn has_buckets_of(&self, quota: governor::Quota, clock: ClockSource) -> bool {
        made_of(self.store, quota, clock)
    }

    /// Whether `reply` is a reply of this limiter's store to charging `units` to `key`.
    pub closed spec fn may_reply(&self, key: K, units: u32, reply: ChargeReply) -> bool {
        call_ensures(KeyedStore::<K>::check_key_n, (&self.store, &key, units), reply)
    }

    /// Whether `answer` is what this limiter answers, for some reply of its store, when `units`
    /// are charged to `key`.
    pub open spec fn may_answer(
        &self,
        key: K,
        units: u32,
        answer: Result<(), RateLimitError>,
    ) -> bool {
        exists|reply: ChargeReply| #[trigger]
            self.may_reply(key, units, reply) && answer == outcome_of(reply)
    }

    /// Whether this limiter's store can have been told to forget keys that are as good as new.
    pub closed spec fn may_have_forgotten(&self) -> bool {
        call_ensures(KeyedStore::<K>::retain_recent, (&self.store,), ())
    }

    /// A limiter for a policy that reads the given clock.
    pub fn with_clock(policy: Policy, clock: C) -> (r: Self) where C: LimiterClock
        ensures
            r.policy() == policy,
            r.source() == clock.source(),
            exists|quota: governor::Quota| #[trigger]
                r.has_buckets_of(quota, clock.source()) && policy.is_held_by(quota),
    {
        let quota = policy.to_governor_quota();
        let ghost source = clock.source();
        let store = KeyedStore::<K>::new(quota, clock.into_source());
        proof {
            assert(made_of(store, quota, source));
        }
        let r = RateLimiter::<K, U, C> {
            store,
            policy: Ghost(policy),
            source: Ghost(source),
            _unit: PhantomData::<U>,
            _clock: PhantomData::<C>,
        };
        proof {
            assert(r.has_buckets_of(quota, source));
        }
        r
    }

    /// Charges one unit to the key.
    pub fn check_and_consume_one(&self, key: &K) -> (r: Result<(), RateLimitError>)
        ensures
            self.may_answer(*key, 1, r),
            r != Err::<(), _>(RateLimitError::InsufficientCapacity),
    {
        proof {
            use_type_invariant(self);
        }
        let one = NonZeroU32::new(1).unwrap();
        self.check_and_consume_n(key, one)
    }

    /// Charges `units` to the key, all of them or none.
    ///
    /// Whether units within the burst capacity fit, and the wait if they do not, rest on the clock
    /// and on what was charged before, also by other threads: the answer is the one that the store
    /// gives for this key and these units.
    pub fn check_and_consume_n(&self, key: &K, units: NonZeroU32) -> (r: Result<(), RateLimitError>)
        ensures
            self.may_answer(*key, units@ as u32, r),
            r == Err::<(), _>(RateLimitError::InsufficientCapacity) <==> units@
                > self.policy().burst@,
    {
        proof {
            use_type_invariant(self);
        }
        let reply = self.store.check_key_n(key, units.get());
        proof {
            assert(self.may_reply(*key, units@ as u32, reply));
        }
        charge_outcome(reply)
    }

    /// Forgets keys that have not been charged for so long that their budget is whole again. Which
    /// keys these are rests on the clock.
    pub fn retain_recent(&self)
        ensures
            self.may_have_forgotten(),
    {
        self.store.retain_recent();
    }
}

impl<K, C> RateLimiter<K, Requests, C> where K: Eq + Hash + Clone {
    /// Charges one request to the key.
    pub fn check_request(&self, key: &K) -> (r: Result<(), RateLimitError>)
        ensures
            self.may_answer(*key, 1, r),
            r != Err::<(), _>(RateLimitError::InsufficientCapacity),
    {
        self.check_and_consume_one(key)
    }

    /// Charges one request to the key.
    ///
    /// This is not a read-only check: it spends capacity for the key when the request is allowed.
    pub fn consume_request(&self, key: &K) -> (r: Result<(), RateLimitError>)
        ensures
            self.may_answer(*key, 1, r),
            r != Err::<(), _>(RateLimitError::InsufficientCapacity),
    {
        self.check_request(key)
    }
}

/// The units that a duration of `nanos` nanoseconds costs: one per whole millisecond, and one for
/// any time at all below a millisecond.
pub open spec fn duration_units(nanos: nat) -> nat {
    if 0 < nanos < 1_000_000 {
        1
    } else {
        nanos / 1_000_000
    }
}

/// A duration is free exactly when it is zero, and a whole number of milliseconds costs that many
/// units.
pub proof fn law_duration_units(nanos: nat, millis: nat)
    ensures
        duration_units(nanos) == 0 <==> nanos == 0,
        duration_units(millis * 1_000_000) == millis,
{
}

/// A longer duration never costs less.
pub proof fn law_duration_units_are_monotone(shorter: nat, longer: nat)
    requires
        shorter <= longer,
    ensures
        duration_units(shorter) <= duration_units(longer),
{
}

impl<K, C> RateLimiter<K, DurationUnits, C> where K: Eq + Hash + Clone {
    /// Whether `answer` is what this limiter answers when a duration is charged to `key`: zero is
    /// free, a cost beyond the burst capacity can never fit, one that is too large for a `u32` is
    /// such a cost, and any other cost is answered as the store replies to it.
    pub open spec fn may_answer_duration(
        &self,
        key: K,
        duration: Duration,
        answer: Result<(), RateLimitError>,
    ) -> bool {
        let units = duration_units(time::duration_nanos(duration));
        &&& units == 0 ==> answer == Ok::<_, RateLimitError>(())
        &&& answer == Err::<(), _>(RateLimitError::InsufficientCapacity) <==> units
            > self.policy().burst@
        &&& units > u32::MAX ==> answer == Err::<(), _>(RateLimitError::InsufficientCapacity)
        &&& 0 < units <= u32::MAX ==> self.may_answer(key, units as u32, answer)
    }

    /// Charges a duration to the key, one unit per millisecond.
    pub fn consume_duration(&self, key: &K, duration: Duration) -> (r: Result<(), RateLimitError>)
        ensures
            self.may_answer_duration(*key, duration, r),
    {
        proof {
            use_type_invariant(self);
        }
        let nanos: u128 = duration.as_nanos();
        if nanos == 0 {
            return Ok(());
        }
        let millis: u128 = nanos / 1_000_000;
        if millis > u32::MAX as u128 {
            return Err(RateLimitError::InsufficientCapacity);
        }
        let units: u32 = if millis == 0 {
            1
        } else {
            millis as u32
        };
        self.check_and_consume_n(key, NonZeroU32::new(units).unwrap())
    }

    /// Starts timing work whose cost is to be charged to the key.
    ///
    /// The timer does not charge when it is dropped; call [`DurationTimer::consume_elapsed`].
    pub fn start_timer<'a>(&'a self, key: &'a K) -> (r: DurationTimer<'a, K, C>)
        ensures
            r.limiter() == self,
            r.key() == key,
            call_ensures(Instant::now, (), r.start()),
    {
        DurationTimer { limiter: self, key, start: Instant::now() }
    }
}

/// A running timer for work whose elapsed time is charged to a key.
#[verifier::reject_recursive_types(K)]
pub struct DurationTimer<'a, K, C = DefaultClock> where K: Eq + Hash + Clone {
    limiter: &'a RateLimiter<K, DurationUnits, C>,
    key: &'a K,
    start: Instant,
}

impl<'a, K, C> DurationTimer<'a, K, C> where K: Eq + Hash + Clone {
    /// The limiter that the time is charged to.
    pub closed spec fn limiter(&self) -> &'a RateLimiter<K, DurationUnits, C> {
        self.limiter
    }

    /// The key that the time is charged to.
    pub closed spec fn key(&self) -> &'a K {
        self.key
    }

    /// When the timer was started.
    pub closed spec fn start(&self) -> Instant {
        self.start
    }

    /// Charges the time since the timer was started.
    pub fn consume_elapsed(self) -> (r: Result<(), RateLimitError>)
        ensures
            exists|elapsed: Duration| #[trigger]
                call_ensures(Instant::elapsed, (&self.start(),), elapsed)
                    && self.limiter().may_answer_duration(*self.key(), elapsed, r),
    {
        let elapsed = self.start.elapsed();
        proof {
            assert(call_ensures(Instant::elapsed, (&self.start(),), elapsed));
        }
        self.limiter.consume_duration(self.key, elapsed)
    }
}

/// Whether an answer tells exactly what the store replied: it is a success when the units were
/// charged, it carries the wait when they were not, for every wait, and it says so when they can
/// never fit.
pub open spec fn tells(answer: Result<(), RateLimitError>, reply: ChargeReply) -> bool {
    &&& answer is Ok <==> reply is Allowed
    &&& forall|wait: Duration|
        answer == Err::<(), _>(RateLimitError::Limited { retry_after: wait }) <==> reply == (
        ChargeReply::NotUntil { wait })
    &&& answer == Err::<(), _>(RateLimitError::InsufficientCapacity) <==> reply
        is InsufficientCapacity
}

/// The limiter's answer tells exactly what its store replied.
pub proof fn law_answer_tells_the_reply(reply: ChargeReply, answer: Result<(), RateLimitError>)
    requires
        call_ensures(charge_outcome, (reply,), answer),
    ensures
        tells(answer, reply),
        answer == outcome_of(reply),
{
}

/// Charging `n` units to a key asks the store for that key and those units, and answers exactly
/// what the store replies. It says that the units can never fit exactly when they are more than
/// the burst capacity.
pub proof fn law_charge_answers_the_store<K, U, C>(
    limiter: RateLimiter<K, U, C>,
    key: K,
    units: NonZeroU32,
    answer: Result<(), RateLimitError>,
) where K: Eq + Hash + Clone
    requires
        call_ensures(RateLimiter::<K, U, C>::check_and_consume_n, (&limiter, &key, units), answer),
    ensures
        exists|reply: ChargeReply| #[trigger]
            limiter.may_reply(key, units@ as u32, reply) && tells(answer, reply),
        answer == Err::<(), _>(RateLimitError::InsufficientCapacity) <==> units@
            > limiter.policy().burst@,
{
    let reply = choose|reply: ChargeReply| #[trigger]
        limiter.may_reply(key, units@ as u32, reply) && answer == outcome_of(reply);
    assert(tells(answer, reply));
}

/// Charging one unit is charging a number of units that always fits a full bucket.
pub proof fn law_single_charge_answers_the_store<K, U, C>(
    limiter: RateLimiter<K, U, C>,
    key: K,
    answer: Result<(), RateLimitError>,
) where K: Eq + Hash + Clone
    requires
        call_ensures(RateLimiter::<K, U, C>::check_and_consume_one, (&limiter, &key), answer),
    ensures
        exists|reply: ChargeReply| #[trigger]
            limiter.may_reply(key, 1, reply) && tells(answer, reply),
        answer is Ok || answer->Err_0 is Limited,
{
    let reply = choose|reply: ChargeReply| #[trigger]
        limiter.may_reply(key, 1, reply) && answer == outcome_of(reply);
    assert(tells(answer, reply));
}

/// Charging a request, by either name, is charging one unit.
pub proof fn law_request_charge_answers_the_store<K, C>(
    limiter: RateLimiter<K, Requests, C>,
    key: K,
    answer: Result<(), RateLimitError>,
) where K: Eq + Hash + Clone
    requires
        call_ensures(RateLimiter::<K, Requests, C>::check_request, (&limiter, &key), answer)
            || call_ensures(
            RateLimiter::<K, Requests, C>::consume_request,
            (&limiter, &key),
            answer,
        ),
    ensures
        exists|reply: ChargeReply| #[trigger]
            limiter.may_reply(key, 1, reply) && tells(answer, reply),
        answer is Ok || answer->Err_0 is Limited,
{
    let reply = choose|reply: ChargeReply| #[trigger]
        limiter.may_reply(key, 1, reply) && answer == outcome_of(reply);
    assert(tells(answer, reply));
}

/// What the limiter's replies are replies to: the store that it was made with, asked for exactly
/// this key and these units.
proof fn law_replies_are_the_stores<K, U, C>(
    limiter: RateLimiter<K, U, C>,
    key: K,
    units: u32,
    reply: ChargeReply,
) where K: Eq + Hash + Clone
    requires
        limiter.may_reply(key, units, reply),
    ensures
        call_ensures(KeyedStore::<K>::check_key_n, (&limiter.store, &key, units), reply),
{
}

/// A duration of some whole milliseconds and a rest costs one unit per whole millisecond, and one
/// if it has none; only no time at all is free.
pub proof fn law_duration_units_round_down(millis: nat, rest: nat)
    requires
        rest < 1_000_000,
    ensures
        millis > 0 ==> duration_units(millis * 1_000_000 + rest) == millis,
        rest > 0 ==> duration_units(rest) == 1,
        duration_units(0) == 0,
{
}

/// Charging a duration: no time at all is free; `n` whole milliseconds, or one if there is only a
/// part of one, are charged as that many units, and answered exactly as the store replies; and
/// more of them than the burst capacity can never fit, nor more than a `u32` can count.
pub proof fn law_duration_charge_answers_the_store<K, C>(
    limiter: RateLimiter<K, DurationUnits, C>,
    key: K,
    duration: Duration,
    answer: Result<(), RateLimitError>,
) where K: Eq + Hash + Clone
    requires
        call_ensures(
            RateLimiter::<K, DurationUnits, C>::consume_duration,
            (&limiter, &key, duration),
            answer,
        ),
    ensures
        charges_time(limiter, key, time::duration_nanos(duration), answer),
{
    lemma_duration_answer(limiter, key, duration, answer);
}

/// Whether an answer is one to charging `nanos` nanoseconds to a key.
pub open spec fn charges_time<K, C>(
    limiter: RateLimiter<K, DurationUnits, C>,
    key: K,
    nanos: nat,
    answer: Result<(), RateLimitError>,
) -> bool where K: Eq + Hash + Clone {
    &&& nanos == 0 ==> answer is Ok
    &&& forall|units: nat|
        0 < units && (units * 1_000_000 <= nanos < (units + 1) * 1_000_000 || units == 1 && 0
            < nanos < 1_000_000) ==> {
            &&& answer == Err::<(), _>(RateLimitError::InsufficientCapacity) <==> (units
                > limiter.policy().burst@)
            &&& units > u32::MAX ==> answer == Err::<(), _>(RateLimitError::InsufficientCapacity)
            &&& units <= u32::MAX ==> #[trigger] is_charged(limiter, key, units, answer)
        }
}

/// Whether an answer tells a reply of the store to charging this many units to a key.
pub open spec fn is_charged<K, U, C>(
    limiter: RateLimiter<K, U, C>,
    key: K,
    units: nat,
    answer: Result<(), RateLimitError>,
) -> bool where K: Eq + Hash + Clone {
    exists|reply: ChargeReply| #[trigger]
        limiter.may_reply(key, units as u32, reply) && tells(answer, reply)
}

pub(crate) proof fn lemma_duration_answer<K, C>(
    limiter: RateLimiter<K, DurationUnits, C>,
    key: K,
    duration: Duration,
    answer: Result<(), RateLimitError>,
) where K: Eq + Hash + Clone
    requires
        limiter.may_answer_duration(key, duration, answer),
    ensures
        charges_time(limiter, key, time::duration_nanos(duration), answer),
{
    let nanos = time::duration_nanos(duration);
    assert forall|units: nat|
        0 < units <= u32::MAX && (units * 1_000_000 <= nanos < (units + 1) * 1_000_000 || units == 1
            && 0 < nanos < 1_000_000) implies #[trigger] is_charged(
        limiter,
        key,
        units,
        answer,
    ) by {
        assert(units == duration_units(nanos));
        let reply = choose|reply: ChargeReply| #[trigger]
            limiter.may_reply(key, units as u32, reply) && answer == outcome_of(reply);
        assert(tells(answer, reply));
    }
    assert forall|units: nat|
        0 < units && (units * 1_000_000 <= nanos < (units + 1) * 1_000_000 || units == 1 && 0
            < nanos < 1_000_000) implies {
        &&& answer == Err::<(), _>(RateLimitError::InsufficientCapacity) <==> (units
            > limiter.policy().burst@)
        &&& units > u32::MAX ==> answer == Err::<(), _>(RateLimitError::InsufficientCapacity)
        &&& units <= u32::MAX ==> #[trigger] is_charged(limiter, key, units, answer)
    } by {
        assert(units == duration_units(nanos));
    }
}

/// A timer charges the time since it was started, to the limiter and the key that it was started
/// with.
pub proof fn law_timer_charges_its_own_key<K, C>(
    limiter: RateLimiter<K, DurationUnits, C>,
    key: K,
    timer: DurationTimer<K, C>,
    answer: Result<(), RateLimitError>,
) where K: Eq + Hash + Clone
    requires
        call_ensures(
            RateLimiter::<K, DurationUnits, C>::start_timer,
            (&limiter, &key),
            timer,
        ),
        call_ensures(DurationTimer::<K, C>::consume_elapsed, (timer,), answer),
    ensures
        call_ensures(Instant::now, (), timer.start()),
        exists|elapsed: Duration| #[trigger]
            call_ensures(Instant::elapsed, (&timer.start(),), elapsed) && charges_time(
                limiter,
                key,
                time::duration_nanos(elapsed),
                answer,
            ),
{
    let elapsed = choose|elapsed: Duration| #[trigger]
        call_ensures(Instant::elapsed, (&timer.start(),), elapsed)
            && timer.limiter().may_answer_duration(*timer.key(), elapsed, answer);
    lemma_duration_answer(limiter, key, elapsed, answer);
    assert(call_ensures(Instant::elapsed, (&timer.start(),), elapsed));
}

/// The buckets of a limiter hold as many units as the policy's burst, and a unit comes back in the
/// whole nanoseconds that a second has for each of the units that the policy refills.
pub proof fn law_limiter_holds_its_policy<K, U, C>(
    policy: Policy,
    clock: C,
    limiter: RateLimiter<K, U, C>,
) where K: Eq + Hash + Clone, C: LimiterClock
    requires
        policy.rate_per_second@ > 0,
        call_ensures(RateLimiter::<K, U, C>::with_clock, (policy, clock), limiter),
    ensures
        limiter.policy() == policy,
        exists|quota: governor::Quota| #[trigger]
            limiter.has_buckets_of(quota, clock.source()) && policy::quota_burst(quota)
                == policy.burst@ && policy::quota_interval(quota) * policy.rate_per_second@
                <= 1_000_000_000 < (policy::quota_interval(quota) + 1) * policy.rate_per_second@,
{
    let quota = choose|quota: governor::Quota| #[trigger]
        limiter.has_buckets_of(quota, clock.source()) && policy.is_held_by(quota);
    let rate = policy.rate_per_second@ as int;
    let interval = policy::quota_interval(quota) as int;
    lemma_fundamental_div_mod(1_000_000_000, rate);
    lemma_mod_bound(1_000_000_000, rate);
    assert(interval * rate <= 1_000_000_000 < (interval + 1) * rate) by (nonlinear_arith)
        requires
            1_000_000_000 == rate * interval + 1_000_000_000int % rate,
            0 <= 1_000_000_000int % rate < rate,
    ;
    assert(limiter.has_buckets_of(quota, clock.source()));
}

} // verus!
