use std::sync::Arc;
use std::time::{Duration, Instant};

use vstd::prelude::*;

use crate::addr::{self, IpAddr, IpNet, NetSet, SocketAddr};
use crate::error::RateLimitError;
use crate::http::extract::{self, peer_addr, ClientIpExtractor, ExtractClientIpError};
use crate::http::layer::{
    self, PollAction, PollEvent, RateLimitAccounting, RateLimitFuture, RateLimitLayer,
    RateLimitOutcome, RateLimitRejection, RateLimitService, RateLimitStrategy,
};
use crate::http::message::{Request, Response};
use crate::key::IpKey;
use crate::limiter;
use crate::policy::Policy;
use crate::time;
use crate::units::{DurationBudgetLimiter, RequestRateLimiter};

verus! {

/// `Arc::clone` makes another pointer to the same value.
#[verifier::external_body]
fn share<T>(shared: &Arc<T>) -> (r: Arc<T>)
    ensures
        r == *shared,
{
    Arc::clone(shared)
}

/// The client of a request, or why it has none: the request holds no peer address, or the peer is
/// a trusted proxy that names no client.
pub open spec fn identified<B>(extractor: ClientIpExtractor, req: Request<B>) -> Result<
    IpAddr,
    RateLimitRejection,
> {
    match extract::peer_of(req) {
        None => Err(RateLimitRejection::MissingPeer),
        Some(peer) => match extractor.client_ip(peer, req.headers) {
            Ok(ip) => Ok(ip),
            Err(_) => Err(RateLimitRejection::ExtractFailed),
        },
    }
}

/// A request with the client identity stored for downstream code.
pub open spec fn with_key<B>(req: Request<B>, key: IpKey) -> Request<B> {
    Request { ip_key: Some(key), ..req }
}

/// A strategy's verdict when the limiter gave `answer`.
pub open spec fn verdict_of(answer: Result<(), RateLimitError>) -> Result<(), RateLimitRejection> {
    match answer {
        Ok(()) => Ok(()),
        Err(err) => Err(RateLimitRejection::Limited(err)),
    }
}

/// Turns the limiter's answer into a strategy's verdict.
pub fn limiter_verdict(answer: Result<(), RateLimitError>) -> (r: Result<(), RateLimitRejection>)
    ensures
        r == verdict_of(answer),
{
    match answer {
        Ok(()) => Ok(()),
        Err(err) => Err(RateLimitRejection::Limited(err)),
    }
}

/// What becomes of a request when the limiter gives `answer` for its client: an allowed request
/// has the client identity stored, and a rejected one is left as it was.
pub open spec fn settled<B>(
    before: Request<B>,
    key: IpKey,
    answer: Result<(), RateLimitError>,
) -> Request<B> {
    match answer {
        Ok(()) => with_key(before, key),
        Err(_) => before,
    }
}

/// Turns the limiter's answer into a verdict on a request, and stores the client identity in the
/// request if it is allowed.
pub fn settle<B>(req: &mut Request<B>, key: IpKey, answer: Result<(), RateLimitError>) -> (r:
    Result<(), RateLimitRejection>)
    ensures
        r == verdict_of(answer),
        *final(req) == settled(*old(req), key, answer),
{
    if answer.is_ok() {
        req.ip_key = Some(key);
    }
    limiter_verdict(answer)
}

fn extract_ip_key<B>(extractor: &ClientIpExtractor, req: &Request<B>) -> (r: Result<
    (IpAddr, IpKey),
    RateLimitRejection,
>)
    ensures
        match identified(*extractor, *req) {
            Ok(ip) => r == Ok::<_, RateLimitRejection>((ip, IpKey::of(ip))),
            Err(rejection) => r == Err::<(IpAddr, IpKey), _>(rejection),
        },
{
    match peer_addr(req) {
        None => Err(RateLimitRejection::MissingPeer),
        Some(peer) => match extractor.extract(peer, &req.headers) {
            Ok(ip) => Ok((ip, IpKey::from(ip))),
            Err(_) => Err(RateLimitRejection::ExtractFailed),
        },
    }
}

/// Elapsed-time budget accounting by client IP.
///
/// This built-in [`RateLimitStrategy`] extracts the real client IP before the
/// inner service runs, then charges the elapsed inner-service future duration
/// after it completes. The measured duration does not include full response body
/// streaming after the response future resolves.
pub struct DurationBudgetByIp {
    limiter: Arc<DurationBudgetLimiter<IpKey>>,
    extractor: ClientIpExtractor,
    timeout: Option<Duration>,
}

impl Clone for DurationBudgetByIp {
    fn clone(&self) -> (r: Self)
        ensures
            r.limiter() == self.limiter(),
            r.extractor().same_trust(&self.extractor()),
            r.spec_timeout() == self.spec_timeout(),
    {
        DurationBudgetByIp {
            limiter: share(&self.limiter),
            extractor: self.extractor.clone(),
            timeout: self.timeout,
        }
    }
}

impl DurationBudgetByIp {
    /// The limiter that the time is charged to.
    pub closed spec fn limiter(&self) -> DurationBudgetLimiter<IpKey> {
        *self.limiter
    }

    /// The extractor that finds the client of a request.
    pub closed spec fn extractor(&self) -> ClientIpExtractor {
        self.extractor
    }

    /// How long the inner service may take.
    pub closed spec fn spec_timeout(&self) -> Option<Duration> {
        self.timeout
    }

    /// Creates an elapsed-time budget strategy keyed by client IP.
    pub fn new(
        limiter: Arc<DurationBudgetLimiter<IpKey>>,
        extractor: ClientIpExtractor,
        timeout: Option<Duration>,
    ) -> (r: Self)
        ensures
            r.limiter() == *limiter,
            r.extractor() == extractor,
            r.spec_timeout() == timeout,
    {
        DurationBudgetByIp { limiter, extractor, timeout }
    }

    /// Creates a strategy without a timeout that charges a limiter of the application's own.
    pub fn with_limiter(
        limiter: Arc<DurationBudgetLimiter<IpKey>>,
        extractor: ClientIpExtractor,
    ) -> (r: Self)
        ensures
            r.limiter() == *limiter,
            r.extractor() == extractor,
            r.spec_timeout() is None,
    {
        Self::new(limiter, extractor, None)
    }

    /// Creates a strategy without a timeout that charges a new limiter for the policy.
    pub fn with_policy(policy: Policy, extractor: ClientIpExtractor) -> (r: Self)
        ensures
            r.limiter().policy() == policy,
            r.limiter().source() is Default,
            r.extractor() == extractor,
            r.spec_timeout() is None,
    {
        Self::with_limiter(Arc::new(DurationBudgetLimiter::new(policy)), extractor)
    }

    /// Sets how long the inner service may take.
    pub fn with_timeout(self, timeout: Duration) -> (r: Self)
        ensures
            r.limiter() == self.limiter(),
            r.extractor() == self.extractor(),
            r.spec_timeout() == Some(timeout),
    {
        DurationBudgetByIp {
            limiter: self.limiter,
            extractor: self.extractor,
            timeout: Some(timeout),
        }
    }

    /// Whether `verdict` is the one on the request `before`, and `after` is the request then: a
    /// request without a client is rejected as it stands, and any other is allowed.
    pub open spec fn judges<B>(
        &self,
        before: Request<B>,
        after: Request<B>,
        verdict: Result<IpKey, RateLimitRejection>,
    ) -> bool {
        match identified(self.extractor(), before) {
            Err(rejection) => verdict == Err::<IpKey, _>(rejection) && after == before,
            Ok(ip) => verdict == Ok::<_, RateLimitRejection>(IpKey::of(ip)) && after == with_key(
                before,
                IpKey::of(ip),
            ),
        }
    }

    /// Finds the client of a request, and stores it for downstream code.
    pub fn check_before_request<B>(&self, req: &mut Request<B>) -> (r: Result<
        IpKey,
        RateLimitRejection,
    >)
        ensures
            self.judges(*old(req), *final(req), r),
    {
        match extract_ip_key(&self.extractor, req) {
            Ok((_, key)) => {
                req.ip_key = Some(key);
                Ok(key)
            },
            Err(rejection) => Err(rejection),
        }
    }
}

impl RateLimitAccounting for DurationBudgetByIp {
    type State = IpKey;

    fn after_response(&self, state: IpKey, outcome: RateLimitOutcome, elapsed: Duration) -> (r:
        Result<(), RateLimitRejection>)
        ensures
            exists|answer: Result<(), RateLimitError>| #[trigger]
                self.limiter().may_answer_duration(state, elapsed, answer) && r == verdict_of(
                    answer,
                ),
    {
        let answer = self.limiter.consume_duration(&state, elapsed);
        proof {
            assert(self.limiter().may_answer_duration(state, elapsed, answer));
        }
        limiter_verdict(answer)
    }

    fn timeout(&self, state: &IpKey) -> (r: Option<Duration>)
        ensures
            r == self.spec_timeout(),
    {
        self.timeout
    }
}

impl<B> RateLimitStrategy<B> for DurationBudgetByIp {
    fn before_request(&self, req: &mut Request<B>) -> (r: Result<IpKey, RateLimitRejection>)
        ensures
            self.judges(*old(req), *final(req), r),
    {
        self.check_before_request(req)
    }
}

/// Fixed-cost request limiting by client IP.
///
/// This is the built-in [`RateLimitStrategy`] for the common HTTP case: extract
/// the real client IP, optionally bypass whitelisted networks, consume one
/// request unit, and store the resulting [`IpKey`] in the request.
pub struct RequestCountByIp {
    limiter: Arc<RequestRateLimiter<IpKey>>,
    extractor: ClientIpExtractor,
    whitelist: NetSet,
}

impl Clone for RequestCountByIp {
    fn clone(&self) -> (r: Self)
        ensures
            r.limiter() == self.limiter(),
            r.extractor().same_trust(&self.extractor()),
            forall|ip: IpAddr| #[trigger] r.bypasses(ip) == self.bypasses(ip),
    {
        RequestCountByIp {
            limiter: share(&self.limiter),
            extractor: self.extractor.clone(),
            whitelist: self.whitelist.clone(),
        }
    }
}

impl RequestCountByIp {
    /// The limiter that the requests are charged to.
    pub closed spec fn limiter(&self) -> RequestRateLimiter<IpKey> {
        *self.limiter
    }

    /// The extractor that finds the client of a request.
    pub closed spec fn extractor(&self) -> ClientIpExtractor {
        self.extractor
    }

    /// Whether requests of this client bypass the limiter.
    pub closed spec fn bypasses(&self, ip: IpAddr) -> bool {
        self.whitelist.covers(ip)
    }

    /// Creates a request-counting strategy keyed by client IP.
    pub fn new(limiter: Arc<RequestRateLimiter<IpKey>>, extractor: ClientIpExtractor) -> (r: Self)
        ensures
            r.limiter() == *limiter,
            r.extractor() == extractor,
            forall|ip: IpAddr| !(#[trigger] r.bypasses(ip)),
    {
        RequestCountByIp { limiter, extractor, whitelist: NetSet::new(Vec::new()) }
    }

    /// Creates a strategy that charges a limiter of the application's own.
    pub fn with_limiter(
        limiter: Arc<RequestRateLimiter<IpKey>>,
        extractor: ClientIpExtractor,
    ) -> (r: Self)
        ensures
            r.limiter() == *limiter,
            r.extractor() == extractor,
            forall|ip: IpAddr| !(#[trigger] r.bypasses(ip)),
    {
        Self::new(limiter, extractor)
    }

    /// Creates a strategy that charges a new limiter for the policy.
    pub fn with_policy(policy: Policy, extractor: ClientIpExtractor) -> (r: Self)
        ensures
            r.limiter().policy() == policy,
            r.limiter().source() is Default,
            r.extractor() == extractor,
            forall|ip: IpAddr| !(#[trigger] r.bypasses(ip)),
    {
        Self::with_limiter(Arc::new(RequestRateLimiter::new(policy)), extractor)
    }

    /// Adds IP networks that bypass this strategy's request limiter.
    ///
    /// Whitelisting is scoped to this layer only.
    pub fn with_whitelist(self, whitelist: Vec<IpNet>) -> (r: Self)
        ensures
            r.limiter() == self.limiter(),
            r.extractor() == self.extractor(),
            forall|ip: IpAddr| #[trigger]
                r.bypasses(ip) <==> self.bypasses(ip) || addr::any_covers(whitelist@, ip),
    {
        RequestCountByIp {
            limiter: self.limiter,
            extractor: self.extractor,
            whitelist: self.whitelist.with_nets(whitelist),
        }
    }

    /// Whether requests of this client bypass the limiter.
    pub fn is_whitelisted(&self, ip: IpAddr) -> (r: bool)
        ensures
            r == self.bypasses(ip),
    {
        self.whitelist.contains(ip)
    }

    /// Whether `verdict` is one on the request `before`, and `after` is the request then: a request
    /// without a client is rejected as it stands, one of a whitelisted client is allowed, and any
    /// other is allowed if the limiter allows one request of its client.
    pub open spec fn judges<B>(
        &self,
        before: Request<B>,
        after: Request<B>,
        verdict: Result<(), RateLimitRejection>,
    ) -> bool {
        match identified(self.extractor(), before) {
            Err(rejection) => verdict == Err::<(), _>(rejection) && after == before,
            Ok(ip) => if self.bypasses(ip) {
                verdict == Ok::<_, RateLimitRejection>(()) && after == with_key(
                    before,
                    IpKey::of(ip),
                )
            } else {
                exists|answer: Result<(), RateLimitError>| #[trigger]
                    self.limiter().may_answer(IpKey::of(ip), 1, answer) && answer != Err::<(), _>(
                        RateLimitError::InsufficientCapacity,
                    ) && verdict == verdict_of(answer) && after == settled(
                        before,
                        IpKey::of(ip),
                        answer,
                    )
            },
        }
    }

    /// Finds the client of a request, charges one request to it unless it is whitelisted, and
    /// stores it for downstream code if the request is allowed.
    pub fn check_before_request<B>(&self, req: &mut Request<B>) -> (r: Result<
        (),
        RateLimitRejection,
    >)
        ensures
            self.judges(*old(req), *final(req), r),
    {
        let (ip, key) = match extract_ip_key(&self.extractor, req) {
            Ok(found) => found,
            Err(rejection) => {
                return Err(rejection);
            },
        };
        if self.is_whitelisted(ip) {
            return settle(req, key, Ok(()));
        }
        let answer = self.limiter.check_request(&key);
        proof {
            assert(self.limiter().may_answer(IpKey::of(ip), 1, answer));
        }
        settle(req, key, answer)
    }
}

impl RateLimitAccounting for RequestCountByIp {
    type State = ();
}

impl<B> RateLimitStrategy<B> for RequestCountByIp {
    fn before_request(&self, req: &mut Request<B>) -> (r: Result<(), RateLimitRejection>)
        ensures
            self.judges(*old(req), *final(req), r),
    {
        self.check_before_request(req)
    }
}

/// A request of a whitelisted client is allowed whatever the limiter holds.
pub proof fn law_whitelisted_client_bypasses_the_limiter<B>(
    strategy: RequestCountByIp,
    ip: IpAddr,
    before: Request<B>,
    after: Request<B>,
    verdict: Result<(), RateLimitRejection>,
)
    requires
        identified(strategy.extractor(), before) == Ok::<_, RateLimitRejection>(ip),
        strategy.bypasses(ip),
        strategy.judges(before, after, verdict),
    ensures
        verdict is Ok,
        after == with_key(before, IpKey::of(ip)),
{
}

/// An allowed request carries the identity of its client, and a rejected one is left as it was.
/// Nothing else of a request changes.
pub proof fn law_allowed_request_carries_its_client<B>(
    strategy: RequestCountByIp,
    before: Request<B>,
    after: Request<B>,
    verdict: Result<(), RateLimitRejection>,
)
    requires
        strategy.judges(before, after, verdict),
    ensures
        verdict is Ok ==> (identified(strategy.extractor(), before) matches Ok(ip) && after
            == with_key(before, IpKey::of(ip))),
        verdict is Err ==> after == before,
{
}

/// A request without a peer address is answered with `500 Internal Server Error`, and the inner
/// service is not called for it.
pub proof fn law_missing_peer_is_a_server_error<B, R: Default, E>(
    strategy: RequestCountByIp,
    before: Request<B>,
    after: Request<B>,
    verdict: Result<(), RateLimitRejection>,
    future: RateLimitFuture<RequestCountByIp>,
    event: PollEvent<R, E>,
    next: RateLimitFuture<RequestCountByIp>,
    action: PollAction<R, E>,
)
    requires
        extract::peer_of(before) is None,
        strategy.judges(before, after, verdict),
        future.sets_out(strategy, verdict),
        future.steps(event, next, action),
    ensures
        action matches PollAction::Ready(Ok(response)) && layer::is_server_error(response),
{
}

/// A request of a client that is over quota is answered with `429 Too Many Requests` and with when
/// to retry, and the inner service is not called for it.
pub proof fn law_over_quota_is_too_many_requests<B, R: Default, E>(
    strategy: RequestCountByIp,
    before: Request<B>,
    after: Request<B>,
    err: RateLimitError,
    future: RateLimitFuture<RequestCountByIp>,
    event: PollEvent<R, E>,
    next: RateLimitFuture<RequestCountByIp>,
    action: PollAction<R, E>,
)
    requires
        strategy.judges(before, after, Err(RateLimitRejection::Limited(err))),
        future.sets_out(strategy, Err(RateLimitRejection::Limited(err))),
        future.steps(event, next, action),
    ensures
        after == before,
        err matches RateLimitError::Limited { retry_after } && (action matches PollAction::Ready(
            Ok(response),
        ) && layer::is_plain_response(
            response,
            layer::TOO_MANY_REQUESTS,
            layer::retry_after_fields(
                layer::retry_after_secs(retry_after),
            ),
        )),
{
}

/// Services of one layer share its limiter, and find and bypass the same clients as the layer's
/// strategy does.
pub proof fn law_services_of_one_layer_share_its_limiter<S1, S2>(
    layer: RateLimitLayer<RequestCountByIp>,
    a: RateLimitService<S1, RequestCountByIp>,
    b: RateLimitService<S2, RequestCountByIp>,
    inner_a: S1,
    inner_b: S2,
)
    requires
        call_ensures(RateLimitLayer::<RequestCountByIp>::layer::<S1>, (&layer, inner_a), a),
        call_ensures(RateLimitLayer::<RequestCountByIp>::layer::<S2>, (&layer, inner_b), b),
    ensures
        a.inner == inner_a,
        b.inner == inner_b,
        a.strategy.limiter() == layer.strategy.limiter(),
        b.strategy.limiter() == layer.strategy.limiter(),
        a.strategy.extractor().same_trust(&b.strategy.extractor()),
        forall|ip: IpAddr| #[trigger] a.strategy.bypasses(ip) == b.strategy.bypasses(ip),
{
}

/// What the inner service gives for an allowed request is passed on as it is when requests are
/// counted, and there is no timeout.
pub proof fn law_counted_request_is_passed_on<R: Default, E>(
    strategy: RequestCountByIp,
    future: RateLimitFuture<RequestCountByIp>,
    result: Result<Response<R>, E>,
    next: RateLimitFuture<RequestCountByIp>,
    action: PollAction<R, E>,
)
    requires
        future.sets_out(strategy, Ok(())),
        future.steps(PollEvent::InnerReady(result), next, action),
    ensures
        future is Allowed && future->timeout is None,
        action == PollAction::Ready(result),
{
}

/// Where time is budgeted, the time that the inner service took is charged to the client of the
/// request, however the inner service ended, also when the timeout fired first. The answer is
/// `429 Too Many Requests` if the budget does not hold that time.
pub proof fn law_elapsed_time_is_charged_to_the_client<B, R: Default, E>(
    strategy: DurationBudgetByIp,
    ip: IpAddr,
    before: Request<B>,
    after: Request<B>,
    verdict: Result<IpKey, RateLimitRejection>,
    future: RateLimitFuture<DurationBudgetByIp>,
    event: PollEvent<R, E>,
    next: RateLimitFuture<DurationBudgetByIp>,
    action: PollAction<R, E>,
)
    requires
        identified(strategy.extractor(), before) == Ok::<_, RateLimitRejection>(ip),
        strategy.judges(before, after, verdict),
        future.sets_out(strategy, verdict),
        future.steps(event, next, action),
        event is InnerReady || event is TimerFired,
    ensures
        future is Allowed && future->timeout == strategy.spec_timeout(),
        exists|elapsed: Duration, answer: Result<(), RateLimitError>|
            call_ensures(Instant::elapsed, (&future->start,), elapsed) && #[trigger]
            strategy.limiter().may_answer_duration(IpKey::of(ip), elapsed, answer) && (
            answer matches Err(err) ==> (action matches PollAction::Ready(Ok(response))
                && layer::is_rate_limited(response, err))),
{
}

/// Whether a verdict tells exactly what the store replied to a charge: the request is allowed when
/// it was charged, and rejected with the limiter's error, with its wait, when it was not.
pub open spec fn verdict_tells(
    verdict: Result<(), RateLimitRejection>,
    reply: limiter::ChargeReply,
) -> bool {
    &&& verdict is Ok <==> reply is Allowed
    &&& forall|retry_after: Duration|
        verdict == Err::<(), _>(
            RateLimitRejection::Limited(RateLimitError::Limited { retry_after }),
        ) <==> reply == (limiter::ChargeReply::NotUntil { wait: retry_after })
    &&& verdict == Err::<(), _>(
        RateLimitRejection::Limited(RateLimitError::InsufficientCapacity),
    ) <==> reply is InsufficientCapacity
}

/// The address that a request came from: the one that the server stored, or else the connect info.
pub open spec fn came_from<B>(req: Request<B>, peer: SocketAddr) -> bool {
    ||| req.peer == Some(peer)
    ||| req.peer is None && req.connect_info == Some(peer)
}

/// Whether all that differs between two requests is that the latter carries this key.
pub open spec fn only_carries<B>(before: Request<B>, after: Request<B>, key: IpKey) -> bool {
    &&& after.ip_key == Some(key)
    &&& after.peer == before.peer
    &&& after.connect_info == before.connect_info
    &&& after.headers == before.headers
    &&& after.body == before.body
}

/// A limiter's answer becomes a verdict that carries its error, exactly.
pub proof fn law_limiter_verdict(
    answer: Result<(), RateLimitError>,
    verdict: Result<(), RateLimitRejection>,
)
    requires
        call_ensures(limiter_verdict, (answer,), verdict),
    ensures
        verdict is Ok <==> answer is Ok,
        forall|err: RateLimitError|
            verdict == Err::<(), _>(RateLimitRejection::Limited(err)) <==> answer == Err::<(), _>(
                err,
            ),
{
}

/// A request passes the limiter by only if its client is in a whitelisted network. For every other
/// client, of either address family, the verdict is what the limiter's store replied to charging
/// one unit to the key of the client that extraction finds. An allowed request carries that key
/// and is otherwise as it was, and a rejected one is as it was.
pub proof fn law_counted_request<B>(
    strategy: RequestCountByIp,
    before: Request<B>,
    after: Request<B>,
    verdict: Result<(), RateLimitRejection>,
    peer: SocketAddr,
    found: Result<IpAddr, ExtractClientIpError>,
)
    requires
        came_from(before, peer),
        call_ensures(
            ClientIpExtractor::extract,
            (&strategy.extractor(), peer, &before.headers),
            found,
        ),
        exists|req: &mut Request<B>|
            *req == before && *final(req) == after && #[trigger] call_ensures(
                RequestCountByIp::check_before_request::<B>,
                (&strategy, req),
                verdict,
            ) || *req == before && *final(req) == after && call_ensures(
                <RequestCountByIp as RateLimitStrategy<B>>::before_request,
                (&strategy, req),
                verdict,
            ),
    ensures
        found is Err ==> verdict == Err::<(), _>(RateLimitRejection::ExtractFailed),
        found is Ok && strategy.bypasses(found->Ok_0) ==> verdict is Ok,
        found is Ok && !strategy.bypasses(found->Ok_0) ==> exists|reply: limiter::ChargeReply|
            #[trigger]
            strategy.limiter().may_reply(IpKey::of(found->Ok_0), 1, reply) && verdict_tells(
                verdict,
                reply,
            ) && reply !is InsufficientCapacity,
        verdict is Ok ==> only_carries(before, after, IpKey::of(found->Ok_0)),
        verdict is Err ==> after == before,
{
    assert(strategy.judges(before, after, verdict));
    if found is Ok && !strategy.bypasses(found->Ok_0) {
        let key = IpKey::of(found->Ok_0);
        let answer = choose|answer: Result<(), RateLimitError>| #[trigger]
            strategy.limiter().may_answer(key, 1, answer) && answer != Err::<(), _>(
                RateLimitError::InsufficientCapacity,
            ) && verdict == verdict_of(answer) && after == settled(before, key, answer);
        let reply = choose|reply: limiter::ChargeReply| #[trigger]
            strategy.limiter().may_reply(key, 1, reply) && answer == limiter::outcome_of(reply);
        assert(strategy.limiter().may_reply(key, 1, reply));
        assert(verdict_tells(verdict, reply));
    }
}

/// A request that holds no peer address is rejected for that, and left as it was.
pub proof fn law_counted_request_without_peer<B>(
    strategy: RequestCountByIp,
    before: Request<B>,
    after: Request<B>,
    verdict: Result<(), RateLimitRejection>,
)
    requires
        before.peer is None && before.connect_info is None,
        exists|req: &mut Request<B>|
            *req == before && *final(req) == after && #[trigger] call_ensures(
                RequestCountByIp::check_before_request::<B>,
                (&strategy, req),
                verdict,
            ) || *req == before && *final(req) == after && call_ensures(
                <RequestCountByIp as RateLimitStrategy<B>>::before_request,
                (&strategy, req),
                verdict,
            ),
    ensures
        verdict == Err::<(), _>(RateLimitRejection::MissingPeer),
        after == before,
{
    assert(strategy.judges(before, after, verdict));
}

/// Where time is budgeted, a request is let through exactly when extraction finds its client, with
/// the client's key as what is remembered, and carries that key; any other is rejected as it was.
pub proof fn law_budgeted_request<B>(
    strategy: DurationBudgetByIp,
    before: Request<B>,
    after: Request<B>,
    verdict: Result<IpKey, RateLimitRejection>,
    peer: SocketAddr,
    found: Result<IpAddr, ExtractClientIpError>,
)
    requires
        came_from(before, peer),
        call_ensures(
            ClientIpExtractor::extract,
            (&strategy.extractor(), peer, &before.headers),
            found,
        ),
        exists|req: &mut Request<B>|
            *req == before && *final(req) == after && #[trigger] call_ensures(
                DurationBudgetByIp::check_before_request::<B>,
                (&strategy, req),
                verdict,
            ) || *req == before && *final(req) == after && call_ensures(
                <DurationBudgetByIp as RateLimitStrategy<B>>::before_request,
                (&strategy, req),
                verdict,
            ),
    ensures
        found is Ok ==> verdict == Ok::<_, RateLimitRejection>(IpKey::of(found->Ok_0))
            && only_carries(before, after, IpKey::of(found->Ok_0)),
        found is Err ==> verdict == Err::<IpKey, _>(RateLimitRejection::ExtractFailed) && after
            == before,
{
    assert(strategy.judges(before, after, verdict));
}

/// Where time is budgeted, a request that holds no peer address is rejected for that, and left as
/// it was.
pub proof fn law_budgeted_request_without_peer<B>(
    strategy: DurationBudgetByIp,
    before: Request<B>,
    after: Request<B>,
    verdict: Result<IpKey, RateLimitRejection>,
)
    requires
        before.peer is None && before.connect_info is None,
        exists|req: &mut Request<B>|
            *req == before && *final(req) == after && #[trigger] call_ensures(
                DurationBudgetByIp::check_before_request::<B>,
                (&strategy, req),
                verdict,
            ) || *req == before && *final(req) == after && call_ensures(
                <DurationBudgetByIp as RateLimitStrategy<B>>::before_request,
                (&strategy, req),
                verdict,
            ),
    ensures
        verdict == Err::<IpKey, _>(RateLimitRejection::MissingPeer),
        after == before,
{
    assert(strategy.judges(before, after, verdict));
}

/// The accounting of the time budget charges the whole time that passed to the key that was
/// remembered, whatever the outcome, and its verdict carries the limiter's error, exactly.
pub proof fn law_budget_accounting(
    strategy: DurationBudgetByIp,
    key: IpKey,
    outcome: RateLimitOutcome,
    elapsed: Duration,
    verdict: Result<(), RateLimitRejection>,
)
    requires
        call_ensures(
            <DurationBudgetByIp as RateLimitAccounting>::after_response,
            (&strategy, key, outcome, elapsed),
            verdict,
        ),
    ensures
        exists|answer: Result<(), RateLimitError>| #[trigger]
            limiter::charges_time(
                strategy.limiter(),
                key,
                time::duration_nanos(elapsed),
                answer,
            ) && (verdict is Ok <==> answer is Ok) && forall|err: RateLimitError|
                verdict == Err::<(), _>(RateLimitRejection::Limited(err)) <==> answer == Err::<
                    (),
                    _,
                >(err),
{
    let answer = choose|answer: Result<(), RateLimitError>| #[trigger]
        strategy.limiter().may_answer_duration(key, elapsed, answer) && verdict == verdict_of(
            answer,
        );
    limiter::lemma_duration_answer(strategy.limiter(), key, elapsed, answer);
    assert(limiter::charges_time(
        strategy.limiter(),
        key,
        time::duration_nanos(elapsed),
        answer,
    ));
}

/// The time that the inner service may take is the one that the strategy was made with.
pub proof fn law_budget_timeout(
    limiter: Arc<DurationBudgetLimiter<IpKey>>,
    extractor: ClientIpExtractor,
    timeout: Option<Duration>,
    strategy: DurationBudgetByIp,
    key: IpKey,
    allowed: Option<Duration>,
)
    requires
        call_ensures(DurationBudgetByIp::new, (limiter, extractor, timeout), strategy),
        call_ensures(
            <DurationBudgetByIp as RateLimitAccounting>::timeout,
            (&strategy, &key),
            allowed,
        ),
    ensures
        allowed == timeout,
        strategy.limiter() == *limiter,
        strategy.extractor() == extractor,
{
}

/// A strategy bypasses its limiter exactly for the addresses in the blocks of the networks that
/// were added to it, each of the family of its network.
pub proof fn law_bypass_is_in_the_networks(
    limiter: Arc<RequestRateLimiter<IpKey>>,
    extractor: ClientIpExtractor,
    whitelist: Vec<IpNet>,
    plain: RequestCountByIp,
    strategy: RequestCountByIp,
    ip: IpAddr,
    whitelisted: bool,
)
    requires
        call_ensures(RequestCountByIp::new, (limiter, extractor), plain),
        call_ensures(RequestCountByIp::with_whitelist, (plain, whitelist), strategy),
        call_ensures(RequestCountByIp::is_whitelisted, (&strategy, ip), whitelisted),
    ensures
        !plain.bypasses(ip),
        whitelisted == strategy.bypasses(ip),
        whitelisted <==> exists|i: int|
            0 <= i < whitelist@.len() && addr::net_block_holds(#[trigger] whitelist@[i], ip),
        strategy.limiter() == *limiter,
        strategy.extractor() == extractor,
{
    addr::lemma_any_covers_is_some_block(whitelist@, ip);
}

/// Adding networks keeps those that were there: an address is bypassed afterwards exactly if it
/// was before or is in a block of one of the networks added.
pub proof fn law_whitelists_add_up(
    strategy: RequestCountByIp,
    whitelist: Vec<IpNet>,
    more: RequestCountByIp,
    ip: IpAddr,
)
    requires
        call_ensures(RequestCountByIp::with_whitelist, (strategy, whitelist), more),
    ensures
        more.bypasses(ip) <==> strategy.bypasses(ip) || exists|i: int|
            0 <= i < whitelist@.len() && addr::net_block_holds(#[trigger] whitelist@[i], ip),
        more.limiter() == strategy.limiter(),
        more.extractor() == strategy.extractor(),
{
    addr::lemma_any_covers_is_some_block(whitelist@, ip);
}

} // verus!
