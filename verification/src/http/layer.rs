use std::time::{Duration, Instant};

use vstd::prelude::*;

use crate::error::RateLimitError;
use crate::http::headers::{self, empty_headers, insert_retry_after, number_value};
use crate::http::message::{Request, Response};
use crate::time;

verus! {

/// `429 Too Many Requests`.
pub const TOO_MANY_REQUESTS: u16 = 429;

/// `500 Internal Server Error`.
pub const INTERNAL_SERVER_ERROR: u16 = 500;

/// How the inner service ended.
#[derive(Debug, Clone, Copy)]
pub enum RateLimitOutcome {
    /// It answered, with this status code.
    ResponseStatus(u16),
    /// It failed.
    ServiceError,
    /// It was dropped because the timeout fired first.
    Timeout,
}

/// Reason a rate-limit strategy rejected a request before the inner service ran.
pub enum RateLimitRejection {
    /// The request was rejected by a limiter.
    Limited(RateLimitError),
    /// The request did not contain peer address information.
    MissingPeer,
    /// The strategy could not extract a usable client identity from the request.
    ExtractFailed,
}

/// Layer that applies a rate-limit strategy before calling the inner service.
///
/// The layer owns the mechanics. The strategy owns the policy decision:
/// what key to extract, what cost to charge, and whether the request should be
/// rejected before the inner service runs.
pub struct RateLimitLayer<T> {
    pub strategy: T,
}

/// The hooks of a strategy that do not see the request: accounting when the inner service has
/// ended, and an optional timeout.
///
/// If [`RateLimitAccounting::timeout`] returns a duration and that timeout fires,
/// the layer drops the inner service future and returns `429 Too Many Requests`.
/// Only async work that respects cancellation is actually stopped.
pub trait RateLimitAccounting: Clone {
    /// What the strategy remembers of a request until its response.
    type State;

    /// Accounts for a request when the inner service has ended.
    fn after_response(
        &self,
        state: Self::State,
        outcome: RateLimitOutcome,
        elapsed: Duration,
    ) -> (r: Result<(), RateLimitRejection>)
        default_ensures
            r is Ok,
    {
        Ok(())
    }

    /// How long the inner service may take.
    fn timeout(&self, state: &Self::State) -> (r: Option<Duration>)
        default_ensures
            r is None,
    {
        None
    }
}

/// Strategy hook run by [`RateLimitLayer`] before the inner service is called.
///
/// Implement this trait for custom pre-request policies, such as API-key
/// limits, user-account limits, or route-specific request costs.
pub trait RateLimitStrategy<B>: RateLimitAccounting {
    /// Checks and optionally mutates a request before the inner service runs.
    ///
    /// Returning `Ok` allows the request to continue. Returning
    /// [`RateLimitRejection`] causes [`RateLimitLayer`] to return the matching
    /// rejection response without calling the inner service.
    fn before_request(&self, req: &mut Request<B>) -> (r: Result<Self::State, RateLimitRejection>);
}

/// An inner service behind a rate-limit strategy.
pub struct RateLimitService<S, T> {
    pub inner: S,
    pub strategy: T,
}

/// A request on its way through a [`RateLimitService`].
pub enum RateLimitFuture<T> where T: RateLimitAccounting {
    /// The strategy let the request through to the inner service.
    Allowed {
        strategy: T,
        /// What the strategy remembers; taken when it accounts for the request.
        state: Option<T::State>,
        /// When the inner service was started.
        start: Instant,
        /// How long the inner service may take.
        timeout: Option<Duration>,
    },
    /// A limiter rejected the request.
    Limited(RateLimitError),
    /// The request had no peer address.
    MissingPeer,
    /// The request had no usable client identity.
    ExtractFailed,
}

/// What happened since a [`RateLimitFuture`] last said what to do.
pub enum PollEvent<B, E> {
    /// The future was polled.
    Polled,
    /// The inner service was polled, and has not ended.
    InnerPending,
    /// The inner service was polled, and has ended.
    InnerReady(Result<Response<B>, E>),
    /// The timer was polled, and has not fired.
    TimerPending,
    /// The timer was polled, and has fired.
    TimerFired,
}

/// What a [`RateLimitFuture`] says to do next.
pub enum PollAction<B, E> {
    /// Poll the inner service.
    PollInner,
    /// Poll the timer.
    PollTimer,
    /// Stop, and wait to be polled again.
    Pending,
    /// Stop: this is the answer.
    Ready(Result<Response<B>, E>),
}

/// How the inner service ended, with what it gave.
pub enum Served<B, E> {
    /// It answered.
    Response(Response<B>),
    /// It failed.
    Error(E),
    /// The timeout fired first.
    Timeout,
}

/// The seconds to announce for a delay: one more than it has whole seconds.
pub open spec fn retry_after_secs(delay: Duration) -> nat {
    let secs = time::whole_seconds(time::duration_nanos(delay));
    if secs < u64::MAX {
        secs + 1
    } else {
        u64::MAX as nat
    }
}

/// The header fields that announce after how many seconds to retry.
pub open spec fn retry_after_fields(secs: nat) -> Map<Seq<char>, Seq<Seq<u8>>> {
    headers::no_fields().insert(
        "retry-after"@,
        seq![headers::decimal(secs)],
    )
}

/// Whether a response has this status, these header fields and a default body.
pub open spec fn is_plain_response<B: Default>(
    response: Response<B>,
    status: u16,
    fields: Map<Seq<char>, Seq<Seq<u8>>>,
) -> bool {
    &&& response.status == status
    &&& headers::header_fields(response.headers) == fields
    &&& call_ensures(B::default, (), response.body)
}

/// Whether a response tells that a limiter gave this error: too many requests, with the time to
/// wait where waiting can help.
pub open spec fn is_rate_limited<B: Default>(response: Response<B>, err: RateLimitError) -> bool {
    is_plain_response(
        response,
        TOO_MANY_REQUESTS,
        match err.retry_delay() {
            Some(delay) => retry_after_fields(retry_after_secs(delay)),
            None => headers::no_fields(),
        },
    )
}

/// Whether a response tells of an internal server error.
pub open spec fn is_server_error<B: Default>(response: Response<B>) -> bool {
    is_plain_response(response, INTERNAL_SERVER_ERROR, headers::no_fields())
}

/// Whether a response is the one for a rejection.
pub open spec fn is_rejection<B: Default>(
    response: Response<B>,
    rejection: RateLimitRejection,
) -> bool {
    match rejection {
        RateLimitRejection::Limited(err) => is_rate_limited(response, err),
        RateLimitRejection::MissingPeer => is_server_error(response),
        RateLimitRejection::ExtractFailed => is_server_error(response),
    }
}

/// The response for an error of a limiter.
pub fn rate_limited_response<B: Default>(err: RateLimitError) -> (r: Response<B>)
    ensures
        is_rate_limited(r, err),
{
    let mut headers = empty_headers();
    if let Some(retry_after) = err.retry_after() {
        let nanos: u128 = retry_after.as_nanos();
        let secs: u64 = (nanos / 1_000_000_000) as u64;
        insert_retry_after(&mut headers, number_value(secs.saturating_add(1)));
    }
    Response { status: TOO_MANY_REQUESTS, headers, body: B::default() }
}

/// The response for an internal server error.
pub fn server_error_response<B: Default>() -> (r: Response<B>)
    ensures
        is_server_error(r),
{
    Response { status: INTERNAL_SERVER_ERROR, headers: empty_headers(), body: B::default() }
}

/// The response for a rejection.
pub fn rejection_response<B: Default>(rejection: RateLimitRejection) -> (r: Response<B>)
    ensures
        is_rejection(r, rejection),
{
    match rejection {
        RateLimitRejection::Limited(err) => rate_limited_response(err),
        RateLimitRejection::MissingPeer => server_error_response(),
        RateLimitRejection::ExtractFailed => server_error_response(),
    }
}

/// Whether a response tells of a timeout: too many requests, to be retried after a second.
pub open spec fn is_timed_out<B: Default>(response: Response<B>) -> bool {
    is_plain_response(response, TOO_MANY_REQUESTS, retry_after_fields(1))
}

/// The answer to a request whose inner service ended like `served` and for which the strategy's
/// accounting gave `verdict`. What a limiter rejects gets the response for that. A timeout is
/// answered with too many requests in any other case. Otherwise a rejection replaces what the
/// inner service gave, and without one that is passed on.
pub open spec fn concludes<B: Default, E>(
    verdict: Result<(), RateLimitRejection>,
    served: Served<B, E>,
    answer: Result<Response<B>, E>,
) -> bool {
    match (verdict, served) {
        (Err(RateLimitRejection::Limited(err)), _) => answer matches Ok(response)
            && is_rate_limited(response, err),
        (_, Served::Timeout) => answer matches Ok(response) && is_timed_out(response),
        (Err(rejection), _) => answer matches Ok(response) && is_rejection(response, rejection),
        (Ok(()), Served::Response(response)) => answer == Ok::<_, E>(response),
        (Ok(()), Served::Error(err)) => answer == Err::<Response<B>, _>(err),
    }
}

/// The answer to a request whose inner service ended like `served` and for which the strategy's
/// accounting gave `verdict`.
pub fn conclude<B: Default, E>(
    verdict: Result<(), RateLimitRejection>,
    served: Served<B, E>,
) -> (r: Result<Response<B>, E>)
    ensures
        concludes(verdict, served, r),
{
    match (verdict, served) {
        (Err(RateLimitRejection::Limited(err)), _) => Ok(rate_limited_response(err)),
        (_, Served::Timeout) => Ok(
            rate_limited_response(RateLimitError::limited(Duration::from_secs(0))),
        ),
        (Err(rejection), _) => Ok(rejection_response(rejection)),
        (Ok(()), Served::Response(response)) => Ok(response),
        (Ok(()), Served::Error(err)) => Err(err),
    }
}

impl<T: Clone> Clone for RateLimitLayer<T> {
    fn clone(&self) -> (r: Self)
        ensures
            cloned(self.strategy, r.strategy),
    {
        RateLimitLayer { strategy: self.strategy.clone() }
    }
}

impl<S: Clone, T: Clone> Clone for RateLimitService<S, T> {
    fn clone(&self) -> (r: Self)
        ensures
            cloned(self.inner, r.inner),
            cloned(self.strategy, r.strategy),
    {
        RateLimitService { inner: self.inner.clone(), strategy: self.strategy.clone() }
    }
}

impl<T> RateLimitLayer<T> {
    /// Creates a layer from a rate-limit strategy.
    pub fn with_strategy(strategy: T) -> (r: Self)
        ensures
            r.strategy == strategy,
    {
        RateLimitLayer { strategy }
    }

    /// Puts an inner service behind the layer's strategy.
    pub fn layer<S>(&self, inner: S) -> (r: RateLimitService<S, T>) where T: Clone
        ensures
            r.inner == inner,
            cloned(self.strategy, r.strategy),
    {
        RateLimitService { inner, strategy: self.strategy.clone() }
    }
}

impl<T> RateLimitFuture<T> where T: RateLimitAccounting {
    /// Whether this is how a request sets out when `strategy` gave `verdict` on it.
    pub open spec fn sets_out(
        self,
        strategy: T,
        verdict: Result<T::State, RateLimitRejection>,
    ) -> bool {
        match verdict {
            Ok(given) => {
                &&& self matches RateLimitFuture::Allowed { strategy: own, state, start, timeout }
                &&& cloned(strategy, own)
                &&& state == Some(given)
                &&& call_ensures(Instant::now, (), start)
                &&& call_ensures(T::timeout, (&strategy, &given), timeout)
            },
            Err(RateLimitRejection::Limited(err)) => self == RateLimitFuture::<T>::Limited(err),
            Err(RateLimitRejection::MissingPeer) => self == RateLimitFuture::<T>::MissingPeer,
            Err(RateLimitRejection::ExtractFailed) => self
                == RateLimitFuture::<T>::ExtractFailed,
        }
    }

    /// Whether the strategy has not yet accounted for this request, if it was let through.
    pub open spec fn awaits_end(self) -> bool {
        self matches RateLimitFuture::Allowed { strategy, state, start, timeout } ==> state is Some
    }

    /// Whether the strategy's accounting for this request can be `verdict`, when the inner service
    /// ended with `outcome`: the strategy is asked with the state that it left, and with the time
    /// since the inner service was started.
    pub open spec fn accounts(
        self,
        outcome: RateLimitOutcome,
        elapsed: Duration,
        verdict: Result<(), RateLimitRejection>,
    ) -> bool {
        &&& self matches RateLimitFuture::Allowed { strategy, state, start, timeout }
        &&& state matches Some(given)
        &&& call_ensures(Instant::elapsed, (&start,), elapsed)
        &&& call_ensures(T::after_response, (&strategy, given, outcome, elapsed), verdict)
    }

    /// This request once the strategy has accounted for it.
    pub open spec fn accounted(self) -> Self {
        match self {
            RateLimitFuture::Allowed { strategy, state, start, timeout } => {
                RateLimitFuture::Allowed { strategy, state: None, start, timeout }
            },
            other => other,
        }
    }

    /// Whether the answer is one that the strategy's accounting leads to, when the inner service
    /// ended like `served`, with `outcome`.
    pub open spec fn ends<R: Default, E>(
        self,
        outcome: RateLimitOutcome,
        served: Served<R, E>,
        action: PollAction<R, E>,
    ) -> bool {
        exists|elapsed: Duration, verdict: Result<(), RateLimitRejection>| #[trigger]
            self.accounts(outcome, elapsed, verdict) && (action matches PollAction::Ready(answer)
                && concludes(verdict, served, answer))
    }

    /// Whether `action` is what to do on `event`, and `after` is this request then.
    ///
    /// A rejected request is answered at once. One that was let through polls the inner service
    /// first, and the timer only while the inner service has not ended. It is answered when either
    /// has, once the strategy has accounted for it.
    pub open spec fn steps<R: Default, E>(
        self,
        event: PollEvent<R, E>,
        after: Self,
        action: PollAction<R, E>,
    ) -> bool {
        match self {
            RateLimitFuture::Limited(err) => after == self && (action matches PollAction::Ready(
                Ok(response),
            ) && is_rate_limited(response, err)),
            RateLimitFuture::MissingPeer => after == self && (action matches PollAction::Ready(
                Ok(response),
            ) && is_server_error(response)),
            RateLimitFuture::ExtractFailed => after == self && (action matches PollAction::Ready(
                Ok(response),
            ) && is_server_error(response)),
            RateLimitFuture::Allowed { strategy, state, start, timeout } => match event {
                PollEvent::Polled => after == self && action == PollAction::<R, E>::PollInner,
                PollEvent::InnerPending => after == self && action == (if timeout is Some {
                    PollAction::<R, E>::PollTimer
                } else {
                    PollAction::<R, E>::Pending
                }),
                PollEvent::TimerPending => after == self && action == PollAction::<R, E>::Pending,
                PollEvent::TimerFired => after == self.accounted() && self.ends(
                    RateLimitOutcome::Timeout,
                    Served::Timeout,
                    action,
                ),
                PollEvent::InnerReady(Ok(response)) => after == self.accounted() && self.ends(
                    RateLimitOutcome::ResponseStatus(response.status),
                    Served::Response(response),
                    action,
                ),
                PollEvent::InnerReady(Err(err)) => after == self.accounted() && self.ends(
                    RateLimitOutcome::ServiceError,
                    Served::Error(err),
                    action,
                ),
            },
        }
    }

    /// Sets a request out on which `strategy` gave `verdict`.
    pub fn set_out(strategy: &T, verdict: Result<T::State, RateLimitRejection>) -> (r: Self)
        ensures
            r.sets_out(*strategy, verdict),
    {
        match verdict {
            Ok(state) => {
                let start = Instant::now();
                let timeout = strategy.timeout(&state);
                RateLimitFuture::Allowed {
                    strategy: strategy.clone(),
                    state: Some(state),
                    start,
                    timeout,
                }
            },
            Err(RateLimitRejection::Limited(err)) => RateLimitFuture::Limited(err),
            Err(RateLimitRejection::MissingPeer) => RateLimitFuture::MissingPeer,
            Err(RateLimitRejection::ExtractFailed) => RateLimitFuture::ExtractFailed,
        }
    }

    /// Says what to do next on an event.
    ///
    /// A request that was let through ends once: its state must not have been taken when the inner
    /// service ends or the timer fires.
    pub fn poll<R: Default, E>(&mut self, event: PollEvent<R, E>) -> (r: PollAction<R, E>)
        requires
            event is InnerReady || event is TimerFired ==> old(self).awaits_end(),
        ensures
            old(self).steps(event, *final(self), r),
    {
        match self {
            RateLimitFuture::Allowed { strategy, state, start, timeout } => {
                let (outcome, served) = match event {
                    PollEvent::Polled => {
                        return PollAction::PollInner;
                    },
                    PollEvent::InnerPending => {
                        if timeout.is_some() {
                            return PollAction::PollTimer;
                        } else {
                            return PollAction::Pending;
                        }
                    },
                    PollEvent::TimerPending => {
                        return PollAction::Pending;
                    },
                    PollEvent::TimerFired => (RateLimitOutcome::Timeout, Served::Timeout),
                    PollEvent::InnerReady(Ok(response)) => (
                        RateLimitOutcome::ResponseStatus(response.status),
                        Served::Response(response),
                    ),
                    PollEvent::InnerReady(Err(err)) => (
                        RateLimitOutcome::ServiceError,
                        Served::Error(err),
                    ),
                };
                let elapsed = start.elapsed();
                let given = state.take().unwrap();
                let verdict = strategy.after_response(given, outcome, elapsed);
                proof {
                    assert(old(self).accounts(outcome, elapsed, verdict));
                }
                PollAction::Ready(conclude(verdict, served))
            },
            RateLimitFuture::Limited(err) => PollAction::Ready(Ok(rate_limited_response(*err))),
            RateLimitFuture::MissingPeer => PollAction::Ready(Ok(server_error_response())),
            RateLimitFuture::ExtractFailed => PollAction::Ready(Ok(server_error_response())),
        }
    }
}

impl<S, T> RateLimitService<S, T> {
    /// Asks the strategy about a request, and sets the request out. The inner service is to be
    /// called with the request exactly when it was allowed.
    pub fn call<B>(&self, req: &mut Request<B>) -> (r: RateLimitFuture<T>) where
        T: RateLimitStrategy<B>,

        ensures
            exists|asked: &mut Request<B>, verdict: Result<T::State, RateLimitRejection>|
                *asked == *old(req) && *final(asked) == *final(req) && #[trigger] call_ensures(
                    T::before_request,
                    (&self.strategy, asked),
                    verdict,
                ) && r.sets_out(self.strategy, verdict),
    {
        let verdict = self.strategy.before_request(req);
        RateLimitFuture::set_out(&self.strategy, verdict)
    }
}

/// The seconds announced with a rejection are at least one, and waiting that long outlasts the
/// delay that the limiter gave, as long as a second more can be counted.
pub proof fn law_announced_seconds_outlast_the_delay(delay: Duration)
    requires
        time::whole_seconds(time::duration_nanos(delay)) < u64::MAX,
    ensures
        retry_after_secs(delay) >= 1,
        retry_after_secs(delay) * 1_000_000_000 > time::duration_nanos(delay),
{
}

/// A request that the strategy rejected gets the response for that rejection, whatever happens,
/// and the inner service is never polled for it.
pub proof fn law_rejected_request_never_reaches_the_inner_service<
    T: RateLimitAccounting,
    B: Default,
    E,
>(
    strategy: T,
    rejection: RateLimitRejection,
    future: RateLimitFuture<T>,
    event: PollEvent<B, E>,
    after: RateLimitFuture<T>,
    action: PollAction<B, E>,
)
    requires
        future.sets_out(strategy, Err(rejection)),
        future.steps(event, after, action),
    ensures
        after == future,
        action matches PollAction::Ready(Ok(response)) && is_rejection(response, rejection),
{
}

/// A rejection by a limiter is answered with `429 Too Many Requests`, and any other with
/// `500 Internal Server Error`; only the former can announce when to retry, and does so exactly
/// when waiting can help.
pub proof fn law_rejection_status<B: Default>(response: Response<B>, rejection: RateLimitRejection)
    requires
        is_rejection(response, rejection),
    ensures
        response.status == (if rejection is Limited {
            TOO_MANY_REQUESTS
        } else {
            INTERNAL_SERVER_ERROR
        }),
        headers::header_fields(response.headers).dom().contains("retry-after"@) <==> (
        rejection matches RateLimitRejection::Limited(err) && err is Limited),
{
}

/// If the timeout fires before the inner service has ended, the strategy still accounts for the
/// request, and the answer is `429 Too Many Requests`, whatever the accounting gives: with the
/// limiter's delay if a limiter rejects, and to be retried after a second otherwise.
pub proof fn law_timeout_is_accounted_and_answered<T: RateLimitAccounting, B: Default, E>(
    future: RateLimitFuture<T>,
    after: RateLimitFuture<T>,
    action: PollAction<B, E>,
)
    requires
        future is Allowed,
        future.steps(PollEvent::TimerFired, after, action),
    ensures
        exists|elapsed: Duration, verdict: Result<(), RateLimitRejection>| #[trigger]
            future.accounts(RateLimitOutcome::Timeout, elapsed, verdict) && (
            action matches PollAction::Ready(Ok(response)) && response.status == TOO_MANY_REQUESTS
                && (match verdict {
                Err(RateLimitRejection::Limited(err)) => is_rate_limited(response, err),
                _ => is_timed_out(response),
            })),
{
}

/// The inner service is polled whenever the request is, before the timer; the timer is polled only
/// when the inner service has just turned out not to have ended, and only if there is a timeout.
pub proof fn law_inner_service_goes_first<T: RateLimitAccounting, B: Default, E>(
    future: RateLimitFuture<T>,
    event: PollEvent<B, E>,
    after: RateLimitFuture<T>,
    action: PollAction<B, E>,
)
    requires
        future is Allowed,
        future.steps(event, after, action),
    ensures
        event is Polled ==> action is PollInner,
        action is PollTimer <==> event is InnerPending && future->timeout is Some,
{
}

/// The strategy accounts for a request that was let through once: the event that ends the request
/// takes the state that the strategy left, and no other event does.
pub proof fn law_request_is_accounted_once<T: RateLimitAccounting, B: Default, E>(
    future: RateLimitFuture<T>,
    event: PollEvent<B, E>,
    after: RateLimitFuture<T>,
    action: PollAction<B, E>,
)
    requires
        future is Allowed,
        future.awaits_end(),
        future.steps(event, after, action),
    ensures
        action is Ready <==> event is InnerReady || event is TimerFired,
        action is Ready <==> !after.awaits_end(),
        !(action is Ready) ==> after == future,
{
}

/// What the inner service gives is passed on as it is when the accounting accepts it.
pub proof fn law_accepted_result_is_passed_on<B: Default, E>(
    result: Result<Response<B>, E>,
    answer: Result<Response<B>, E>,
)
    requires
        concludes(
            Ok(()),
            match result {
                Ok(response) => Served::Response(response),
                Err(err) => Served::Error(err),
            },
            answer,
        ),
    ensures
        answer == result,
{
}

/// Whether header fields announce when to retry and nothing else: one `retry-after` value, which
/// spells a number of seconds without needless zeros. That is the least number of whole seconds
/// that is longer than the delay, or the greatest number that 64 bits hold.
pub open spec fn announces(fields: Map<Seq<char>, Seq<Seq<u8>>>, delay: Duration) -> bool {
    let nanos = time::duration_nanos(delay) as int;
    let digits = fields["retry-after"@][0];
    let secs = headers::spelled_number(digits);
    &&& forall|name: Seq<char>| #[trigger] fields.dom().contains(name) <==> name == "retry-after"@
    &&& fields["retry-after"@].len() == 1
    &&& digits.len() > 0
    &&& forall|i: int| 0 <= i < digits.len() ==> 0x30 <= #[trigger] digits[i] <= 0x39
    &&& digits[0] != 0x30
    &&& (secs - 1) * 1_000_000_000 <= nanos
    &&& nanos < secs * 1_000_000_000 || secs == u64::MAX
    &&& secs <= u64::MAX
}

/// Whether a response is `429 Too Many Requests` with a default body, and with when to retry
/// exactly if waiting can help.
pub open spec fn tells_too_many<B: Default>(response: Response<B>, err: RateLimitError) -> bool {
    let fields = headers::header_fields(response.headers);
    &&& response.status == 429
    &&& call_ensures(B::default, (), response.body)
    &&& err matches RateLimitError::Limited { retry_after } ==> announces(fields, retry_after)
    &&& err is InsufficientCapacity ==> fields == Map::<Seq<char>, Seq<Seq<u8>>>::empty()
}

/// Whether a response is `500 Internal Server Error` with a default body and no header.
pub open spec fn tells_server_error<B: Default>(response: Response<B>) -> bool {
    &&& response.status == 500
    &&& call_ensures(B::default, (), response.body)
    &&& headers::header_fields(response.headers) == Map::<Seq<char>, Seq<Seq<u8>>>::empty()
}

/// Whether a response is `429 Too Many Requests` with a default body, to be retried after a second.
pub open spec fn tells_timeout<B: Default>(response: Response<B>) -> bool {
    &&& response.status == 429
    &&& call_ensures(B::default, (), response.body)
    &&& headers::header_fields(response.headers) == map!["retry-after"@ => seq![seq![0x31u8]]]
}

/// The seconds announced are the least whole number of seconds that is longer than the delay, up
/// to the greatest number that 64 bits hold.
pub proof fn law_announced_seconds(delay: Duration)
    ensures
        announces(retry_after_fields(retry_after_secs(delay)), delay),
{
    let secs = retry_after_secs(delay);
    headers::law_decimal_spells_the_number(secs);
    assert(retry_after_fields(secs)["retry-after"@] == seq![headers::decimal(secs)]);
}

proof fn lemma_rate_limited<B: Default>(response: Response<B>, err: RateLimitError)
    requires
        is_rate_limited(response, err),
    ensures
        tells_too_many(response, err),
{
    if let RateLimitError::Limited { retry_after } = err {
        law_announced_seconds(retry_after);
    }
}

proof fn lemma_timed_out<B: Default>(response: Response<B>)
    requires
        is_timed_out(response),
    ensures
        tells_timeout(response),
{
    assert(headers::decimal(1) == seq![0x31u8]);
    assert(retry_after_fields(1) =~= map!["retry-after"@ => seq![seq![0x31u8]]]);
}

/// The response for an error of a limiter is `429 Too Many Requests`, with when to retry exactly
/// if waiting can help.
pub proof fn law_rate_limited_response<B: Default>(err: RateLimitError, response: Response<B>)
    requires
        call_ensures(rate_limited_response::<B>, (err,), response),
    ensures
        tells_too_many(response, err),
{
    lemma_rate_limited(response, err);
}

/// The response for a rejection tells the limiter's error, or a server error for every other
/// reason.
pub proof fn law_rejection_response<B: Default>(
    rejection: RateLimitRejection,
    response: Response<B>,
)
    requires
        call_ensures(rejection_response::<B>, (rejection,), response),
    ensures
        match rejection {
            RateLimitRejection::Limited(err) => tells_too_many(response, err),
            RateLimitRejection::MissingPeer => tells_server_error(response),
            RateLimitRejection::ExtractFailed => tells_server_error(response),
        },
{
    if let RateLimitRejection::Limited(err) = rejection {
        lemma_rate_limited(response, err);
    }
}

/// Whether `answer` is the right one when the inner service ended with `result`, or ran into the
/// timeout if that is `None`, and the strategy's accounting gave `verdict`.
pub open spec fn answers_end<B: Default, E>(
    verdict: Result<(), RateLimitRejection>,
    result: Option<Result<Response<B>, E>>,
    answer: Result<Response<B>, E>,
) -> bool {
    &&& verdict is Ok && result is Some ==> answer == result->0
    &&& result is None || verdict is Err ==> answer is Ok
    &&& result is None && (verdict is Ok || verdict->Err_0 !is Limited) ==> tells_timeout(
        answer->Ok_0,
    )
    &&& verdict is Err && verdict->Err_0 is Limited ==> tells_too_many(
        answer->Ok_0,
        verdict->Err_0->Limited_0,
    )
    &&& result is Some && verdict is Err && verdict->Err_0 !is Limited ==> tells_server_error(
        answer->Ok_0,
    )
}

/// The answer to a request follows from how the inner service ended and what the accounting gave.
pub proof fn law_conclusion<B: Default, E>(
    verdict: Result<(), RateLimitRejection>,
    served: Served<B, E>,
    answer: Result<Response<B>, E>,
)
    requires
        call_ensures(conclude::<B, E>, (verdict, served), answer),
    ensures
        served matches Served::Response(response) ==> answers_end(
            verdict,
            Some(Ok(response)),
            answer,
        ),
        served matches Served::Error(err) ==> answers_end(verdict, Some(Err(err)), answer),
        served is Timeout ==> answers_end(verdict, None, answer),
{
    lemma_conclusion(verdict, served, answer);
}

proof fn lemma_conclusion<B: Default, E>(
    verdict: Result<(), RateLimitRejection>,
    served: Served<B, E>,
    answer: Result<Response<B>, E>,
)
    requires
        concludes(verdict, served, answer),
    ensures
        served matches Served::Response(response) ==> answers_end(
            verdict,
            Some(Ok(response)),
            answer,
        ),
        served matches Served::Error(err) ==> answers_end(verdict, Some(Err(err)), answer),
        served is Timeout ==> answers_end(verdict, None, answer),
{
    if let Ok(response) = answer {
        if let Err(RateLimitRejection::Limited(err)) = verdict {
            lemma_rate_limited(response, err);
        } else if served is Timeout {
            lemma_timed_out(response);
        }
    }
}

/// What polling a request that was let through does, on every event: poll the inner service first,
/// the timer only if there is a timeout and the inner service is pending, and wait otherwise, all
/// without touching the request. When the inner service has ended or the timer has fired, the
/// strategy accounts for the request, with the state that it left, how the inner service ended and
/// the time since the start; the state is gone then, and the answer follows from the two.
pub proof fn law_poll_of_an_allowed_request<T: RateLimitAccounting, B: Default, E>(
    strategy: T,
    state: T::State,
    start: Instant,
    timeout: Option<Duration>,
    event: PollEvent<B, E>,
    after: RateLimitFuture<T>,
    action: PollAction<B, E>,
)
    requires
        exists|future: &mut RateLimitFuture<T>|
            *future == (RateLimitFuture::Allowed { strategy, state: Some(state), start, timeout })
                && *final(future) == after && #[trigger] call_ensures(
                RateLimitFuture::<T>::poll::<B, E>,
                (future, event),
                action,
            ),
    ensures
        ({
            let before = RateLimitFuture::Allowed { strategy, state: Some(state), start, timeout };
            let gone = RateLimitFuture::Allowed { strategy, state: None, start, timeout };
            &&& event is Polled ==> action is PollInner && after == before
            &&& event is InnerPending && timeout is Some ==> action is PollTimer && after == before
            &&& event is InnerPending && timeout is None ==> action is Pending && after == before
            &&& event is TimerPending ==> action is Pending && after == before
            &&& event is TimerFired ==> after == gone && is_settled(
                strategy,
                state,
                start,
                RateLimitOutcome::Timeout,
                None,
                action,
            )
            &&& event matches PollEvent::InnerReady(Ok(response)) ==> after == gone && is_settled(
                strategy,
                state,
                start,
                RateLimitOutcome::ResponseStatus(response.status),
                Some(Ok(response)),
                action,
            )
            &&& event matches PollEvent::InnerReady(Err(err)) ==> after == gone && is_settled(
                strategy,
                state,
                start,
                RateLimitOutcome::ServiceError,
                Some(Err(err)),
                action,
            )
        }),
{
    match event {
        PollEvent::TimerFired => {
            lemma_settled(
                strategy,
                state,
                start,
                timeout,
                RateLimitOutcome::Timeout,
                Served::Timeout,
                action,
            );
        },
        PollEvent::InnerReady(Ok(response)) => {
            lemma_settled(
                strategy,
                state,
                start,
                timeout,
                RateLimitOutcome::ResponseStatus(response.status),
                Served::Response(response),
                action,
            );
        },
        PollEvent::InnerReady(Err(err)) => {
            lemma_settled(
                strategy,
                state,
                start,
                timeout,
                RateLimitOutcome::ServiceError,
                Served::Error(err),
                action,
            );
        },
        _ => {},
    }
}

/// Whether a request is answered as its end calls for: the strategy was asked with the state that
/// it left, how the inner service ended and a time since the start, and the answer follows from
/// what it gave and from what the inner service gave, which is `None` for a timeout.
pub open spec fn is_settled<T: RateLimitAccounting, B: Default, E>(
    strategy: T,
    state: T::State,
    start: Instant,
    outcome: RateLimitOutcome,
    result: Option<Result<Response<B>, E>>,
    action: PollAction<B, E>,
) -> bool {
    action matches PollAction::Ready(answer) && exists|
        elapsed: Duration,
        verdict: Result<(), RateLimitRejection>,
    |
        call_ensures(Instant::elapsed, (&start,), elapsed) && #[trigger] call_ensures(
            T::after_response,
            (&strategy, state, outcome, elapsed),
            verdict,
        ) && answers_end(verdict, result, answer)
}

proof fn lemma_settled<T: RateLimitAccounting, B: Default, E>(
    strategy: T,
    state: T::State,
    start: Instant,
    timeout: Option<Duration>,
    outcome: RateLimitOutcome,
    served: Served<B, E>,
    action: PollAction<B, E>,
)
    requires
        (RateLimitFuture::Allowed { strategy, state: Some(state), start, timeout }).ends(
            outcome,
            served,
            action,
        ),
    ensures
        is_settled(
            strategy,
            state,
            start,
            outcome,
            match served {
                Served::Response(response) => Some(Ok(response)),
                Served::Error(err) => Some(Err(err)),
                Served::Timeout => None,
            },
            action,
        ),
{
    let future = RateLimitFuture::Allowed { strategy, state: Some(state), start, timeout };
    let (elapsed, verdict) = choose|elapsed: Duration, verdict: Result<(), RateLimitRejection>|
        #[trigger]
        future.accounts(outcome, elapsed, verdict) && (action matches PollAction::Ready(answer)
            && concludes(verdict, served, answer));
    if let PollAction::Ready(answer) = action {
        lemma_conclusion(verdict, served, answer);
    }
    assert(call_ensures(T::after_response, (&strategy, state, outcome, elapsed), verdict));
}

/// What polling a rejected request does, on every event: it is answered at once for what it was
/// rejected for, and stays as it is.
pub proof fn law_poll_of_a_rejected_request<T: RateLimitAccounting, B: Default, E>(
    before: RateLimitFuture<T>,
    event: PollEvent<B, E>,
    after: RateLimitFuture<T>,
    action: PollAction<B, E>,
)
    requires
        before !is Allowed,
        exists|future: &mut RateLimitFuture<T>|
            *future == before && *final(future) == after && #[trigger] call_ensures(
                RateLimitFuture::<T>::poll::<B, E>,
                (future, event),
                action,
            ),
    ensures
        after == before,
        action matches PollAction::Ready(Ok(response)) && (match before {
            RateLimitFuture::Limited(err) => tells_too_many(response, err),
            _ => tells_server_error(response),
        }),
{
    if let RateLimitFuture::Limited(err) = before {
        if let PollAction::Ready(Ok(response)) = action {
            lemma_rate_limited(response, err);
        }
    }
}

/// A service asks the strategy about the request once it gets it, and sets the request out as the
/// strategy says: with the strategy's state and timeout and from now on if it is allowed, and
/// marked with the very reason if it is rejected.
pub proof fn law_call<S, B, T: RateLimitStrategy<B>>(
    service: RateLimitService<S, T>,
    before: Request<B>,
    after: Request<B>,
    future: RateLimitFuture<T>,
)
    requires
        exists|req: &mut Request<B>|
            *req == before && *final(req) == after && #[trigger] call_ensures(
                RateLimitService::<S, T>::call::<B>,
                (&service, req),
                future,
            ),
    ensures
        exists|asked: &mut Request<B>, verdict: Result<T::State, RateLimitRejection>|
            *asked == before && *final(asked) == after && #[trigger] call_ensures(
                T::before_request,
                (&service.strategy, asked),
                verdict,
            ) && (future is Allowed <==> verdict is Ok) && (verdict matches Ok(given)
                ==> future->state == Some(given) && cloned(service.strategy, future->strategy)
                && call_ensures(T::timeout, (&service.strategy, &given), future->timeout)
                && call_ensures(Instant::now, (), future->start)) && (verdict matches Err(
                RateLimitRejection::Limited(err),
            ) ==> future == RateLimitFuture::<T>::Limited(err)) && (verdict
                == Err::<T::State, _>(RateLimitRejection::MissingPeer) ==> future is MissingPeer)
                && (verdict == Err::<T::State, _>(RateLimitRejection::ExtractFailed)
                ==> future is ExtractFailed),
{
    let req = choose|req: &mut Request<B>|
        *req == before && *final(req) == after && #[trigger] call_ensures(
            RateLimitService::<S, T>::call::<B>,
            (&service, req),
            future,
        );
    let (asked, verdict) = choose|
        asked: &mut Request<B>,
        verdict: Result<T::State, RateLimitRejection>,
    |
        *asked == *req && *final(asked) == *final(req) && #[trigger] call_ensures(
            T::before_request,
            (&service.strategy, asked),
            verdict,
        ) && future.sets_out(service.strategy, verdict);
    assert(call_ensures(T::before_request, (&service.strategy, asked), verdict));
}

} // verus!
