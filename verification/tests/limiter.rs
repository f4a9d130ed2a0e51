use doorman::limiter::{charge_outcome, ChargeReply};
use doorman::{
    DurationBudgetLimiter, DurationUnits, IpAddr, IpKey, NonZeroU32, Policy, RateLimitError,
    RateLimiter, RequestRateLimiter, Requests,
};
use governor::clock::FakeRelativeClock;
use std::time::{Duration, Instant};

fn make_request_limiter(
    burst: u32,
) -> (
    RateLimiter<u64, Requests, FakeRelativeClock>,
    FakeRelativeClock,
) {
    let clock = FakeRelativeClock::default();
    let policy = Policy::per_second(NonZeroU32::new(1).unwrap(), NonZeroU32::new(burst).unwrap());
    let limiter = RateLimiter::with_clock(policy, clock.clone());
    (limiter, clock)
}

fn make_duration_limiter(
    burst: u32,
) -> (
    RateLimiter<u64, DurationUnits, FakeRelativeClock>,
    FakeRelativeClock,
) {
    let clock = FakeRelativeClock::default();
    let policy = Policy::per_second(NonZeroU32::new(1).unwrap(), NonZeroU32::new(burst).unwrap());
    let limiter = RateLimiter::with_clock(policy, clock.clone());
    (limiter, clock)
}

#[test]
fn allows_requests_under_quota() {
    let (limiter, _) = make_request_limiter(1);

    assert!(limiter.check_request(&1).is_ok());
}

#[test]
fn denies_requests_over_quota() {
    let (limiter, _) = make_request_limiter(1);

    assert!(limiter.check_request(&1).is_ok());
    assert!(limiter.check_request(&1).is_err());
}

#[test]
fn independent_keys_have_independent_quota() {
    let (limiter, _) = make_request_limiter(1);

    assert!(limiter.check_request(&1).is_ok());
    assert!(limiter.check_request(&1).is_err());

    assert!(limiter.check_request(&2).is_ok());
}

#[test]
fn quota_replenishes_after_time() {
    let (limiter, clock) = make_request_limiter(1);

    assert!(limiter.check_request(&1).is_ok());
    assert!(limiter.check_request(&1).is_err());

    clock.advance(Duration::from_secs(1));

    assert!(limiter.check_request(&1).is_ok());
}

#[test]
fn retain_recent_doesnt_panic() {
    let (limiter, clock) = make_request_limiter(1);

    assert!(limiter.check_request(&1).is_ok());

    clock.advance(Duration::from_secs(60));
    limiter.retain_recent();

    assert!(limiter.check_request(&1).is_ok());
}

#[test]
fn allows_n_requests_under_quota() {
    let (limiter, _) = make_request_limiter(20);

    assert!(limiter
        .check_and_consume_n(&1, NonZeroU32::new(20).unwrap())
        .is_ok());
}

#[test]
fn denies_n_requests_over_quota() {
    let (limiter, _) = make_request_limiter(20);

    assert!(limiter
        .check_and_consume_n(&1, NonZeroU32::new(40).unwrap())
        .is_err());
}

#[test]
fn temp_limited_over_quota() {
    let (limiter, _) = make_request_limiter(3);

    assert!(limiter
        .check_and_consume_n(&1, NonZeroU32::new(3).unwrap())
        .is_ok());
    assert!(limiter.check_and_consume_one(&1).is_err());
}

#[test]
fn zero_duration_is_noop() {
    let (limiter, _) = make_duration_limiter(1);

    assert!(limiter.consume_duration(&1, Duration::ZERO).is_ok());
    assert!(limiter
        .consume_duration(&1, Duration::from_millis(1))
        .is_ok());
}

#[test]
fn sub_millisecond_duration_rounds_up_to_one_unit() {
    let (limiter, _) = make_duration_limiter(1);

    assert!(limiter
        .consume_duration(&1, Duration::from_nanos(1))
        .is_ok());
    assert!(limiter
        .consume_duration(&1, Duration::from_millis(1))
        .is_err());
}

#[test]
fn duration_consumes_millisecond_units() {
    let (limiter, _) = make_duration_limiter(3);

    assert!(limiter
        .consume_duration(&1, Duration::from_millis(3))
        .is_ok());
    assert!(limiter
        .consume_duration(&1, Duration::from_millis(1))
        .is_err());
}

#[test]
fn cost_beyond_the_burst_never_fits() {
    let (limiter, clock) = make_request_limiter(20);
    let cost = NonZeroU32::new(21).unwrap();

    assert_eq!(
        limiter.check_and_consume_n(&1, cost),
        Err(RateLimitError::InsufficientCapacity)
    );
    clock.advance(Duration::from_secs(3600));
    assert_eq!(
        limiter.check_and_consume_n(&1, cost),
        Err(RateLimitError::InsufficientCapacity)
    );
    assert!(limiter
        .check_and_consume_n(&1, NonZeroU32::new(20).unwrap())
        .is_ok());
}

#[test]
fn limited_carries_the_time_until_the_units_fit() {
    let (limiter, clock) = make_request_limiter(2);

    assert!(limiter.consume_request(&1).is_ok());
    assert!(limiter.consume_request(&1).is_ok());
    assert_eq!(
        limiter.consume_request(&1),
        Err(RateLimitError::limited(Duration::from_secs(1)))
    );
    clock.advance(Duration::from_millis(400));
    assert_eq!(
        limiter.consume_request(&1),
        Err(RateLimitError::limited(Duration::from_millis(600)))
    );
    assert_eq!(
        limiter.check_and_consume_n(&1, NonZeroU32::new(2).unwrap()),
        Err(RateLimitError::limited(Duration::from_millis(1600)))
    );
}

#[test]
fn refused_units_are_not_charged() {
    let (limiter, _) = make_request_limiter(3);

    assert!(limiter
        .check_and_consume_n(&1, NonZeroU32::new(2).unwrap())
        .is_ok());
    assert!(limiter
        .check_and_consume_n(&1, NonZeroU32::new(2).unwrap())
        .is_err());
    assert!(limiter.check_request(&1).is_ok());
}

#[test]
fn rate_sets_how_fast_units_come_back() {
    let clock = FakeRelativeClock::default();
    let policy = Policy::per_second(NonZeroU32::new(200).unwrap(), NonZeroU32::new(1).unwrap());
    let limiter: RateLimiter<u64, Requests, FakeRelativeClock> =
        RateLimiter::with_clock(policy, clock.clone());

    assert!(limiter.check_request(&1).is_ok());
    assert_eq!(
        limiter.check_request(&1),
        Err(RateLimitError::limited(Duration::from_millis(5)))
    );
    clock.advance(Duration::from_millis(5));
    assert!(limiter.check_request(&1).is_ok());
}

#[test]
fn part_of_a_millisecond_beyond_whole_ones_is_free() {
    let (limiter, _) = make_duration_limiter(2);

    assert!(limiter
        .consume_duration(&1, Duration::from_micros(1999))
        .is_ok());
    assert!(limiter
        .consume_duration(&1, Duration::from_micros(999))
        .is_ok());
    assert!(limiter
        .consume_duration(&1, Duration::from_nanos(1))
        .is_err());
}

#[test]
fn durations_beyond_the_burst_or_the_unit_type_never_fit() {
    let (limiter, _) = make_duration_limiter(u32::MAX);

    assert_eq!(
        limiter.consume_duration(&1, Duration::from_millis(u64::from(u32::MAX) + 1)),
        Err(RateLimitError::InsufficientCapacity)
    );
    assert_eq!(
        limiter.consume_duration(&1, Duration::MAX),
        Err(RateLimitError::InsufficientCapacity)
    );
    assert!(limiter
        .consume_duration(&1, Duration::from_millis(u64::from(u32::MAX)))
        .is_ok());

    let (limiter, _) = make_duration_limiter(5);
    assert_eq!(
        limiter.consume_duration(&1, Duration::from_millis(6)),
        Err(RateLimitError::InsufficientCapacity)
    );
}

#[test]
fn timer_charges_the_elapsed_time_when_asked() {
    let policy = Policy {
        rate_per_second: NonZeroU32::new(1).unwrap(),
        burst: NonZeroU32::new(1).unwrap(),
    };
    let budget = DurationBudgetLimiter::<IpKey>::new(policy);
    let key = IpKey::from(IpAddr::V4(0x0102_0304));

    // A dropped timer charges nothing.
    let _ = budget.start_timer(&key);

    let timer = budget.start_timer(&key);
    let start = Instant::now();
    while start.elapsed() < Duration::from_millis(2) {}
    assert_eq!(
        timer.consume_elapsed(),
        Err(RateLimitError::InsufficientCapacity)
    );
    assert!(budget
        .consume_duration(&key, Duration::from_millis(1))
        .is_ok());
}

#[test]
fn limiters_read_the_machine_clock_by_default() {
    let policy = Policy {
        rate_per_second: NonZeroU32::new(200).unwrap(),
        burst: NonZeroU32::new(400).unwrap(),
    };
    let limiter = RequestRateLimiter::<IpKey>::new(policy);
    let key = IpKey::from(IpAddr::V4(0x0102_0304));

    assert!(limiter.consume_request(&key).is_ok());
    assert!(limiter
        .check_and_consume_n(&key, NonZeroU32::new(399).unwrap())
        .is_ok());
    match limiter.consume_request(&key) {
        Ok(()) => {}
        Err(err) => assert!(err.retry_after().unwrap() <= Duration::from_millis(5)),
    }
    limiter.retain_recent();
}

#[test]
fn replies_turn_into_answers() {
    let wait = Duration::from_millis(7);
    assert_eq!(charge_outcome(ChargeReply::Allowed), Ok(()));
    assert_eq!(
        charge_outcome(ChargeReply::NotUntil { wait }),
        Err(RateLimitError::Limited { retry_after: wait })
    );
    assert_eq!(
        charge_outcome(ChargeReply::InsufficientCapacity),
        Err(RateLimitError::InsufficientCapacity)
    );
}

#[test]
fn only_limited_errors_have_a_retry_delay() {
    let wait = Duration::from_secs(2);
    assert_eq!(RateLimitError::limited(wait).retry_after(), Some(wait));
    assert_eq!(RateLimitError::InsufficientCapacity.retry_after(), None);
}
