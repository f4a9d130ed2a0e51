use doorman::http::layer::{
    conclude, rate_limited_response, rejection_response, server_error_response, PollAction,
    PollEvent, RateLimitFuture, Served,
};
use doorman::http::strategy::{limiter_verdict, settle};
use doorman::http::{
    ClientIpExtractor, DurationBudgetByIp, RateLimitAccounting, RateLimitLayer, RateLimitOutcome,
    RateLimitRejection, RateLimitService, RateLimitStrategy, Request, RequestCountByIp, Response,
};
use doorman::{
    DurationBudgetLimiter, IpAddr, IpKey, IpNet, Ipv4Net, Ipv6Net, NonZeroU32, Policy,
    RateLimitError, RequestRateLimiter, SocketAddr,
};
use http::header::RETRY_AFTER;
use std::cell::Cell;
use std::rc::Rc;
use std::sync::Arc;
use std::time::{Duration, Instant};

const OK: u16 = 200;
const TOO_MANY_REQUESTS: u16 = 429;
const INTERNAL_SERVER_ERROR: u16 = 500;

#[derive(Clone)]
struct AlwaysAllow;

impl RateLimitAccounting for AlwaysAllow {
    type State = ();
}

impl<B> RateLimitStrategy<B> for AlwaysAllow {
    fn before_request(&self, _req: &mut Request<B>) -> Result<(), RateLimitRejection> {
        Ok(())
    }
}

#[derive(Clone)]
struct AlwaysLimited;

impl RateLimitAccounting for AlwaysLimited {
    type State = ();
}

impl<B> RateLimitStrategy<B> for AlwaysLimited {
    fn before_request(&self, _req: &mut Request<B>) -> Result<(), RateLimitRejection> {
        Err(RateLimitRejection::Limited(RateLimitError::limited(
            Duration::from_secs(2),
        )))
    }
}

#[derive(Clone)]
struct RecordsAfterResponse {
    called: Rc<Cell<bool>>,
}

impl RateLimitAccounting for RecordsAfterResponse {
    type State = ();

    fn after_response(
        &self,
        _state: Self::State,
        _outcome: RateLimitOutcome,
        _elapsed: Duration,
    ) -> Result<(), RateLimitRejection> {
        self.called.set(true);
        Ok(())
    }
}

impl<B> RateLimitStrategy<B> for RecordsAfterResponse {
    fn before_request(&self, _req: &mut Request<B>) -> Result<(), RateLimitRejection> {
        Ok(())
    }
}

#[derive(Clone)]
struct RejectsAfterResponse;

impl RateLimitAccounting for RejectsAfterResponse {
    type State = ();

    fn after_response(
        &self,
        _state: Self::State,
        _outcome: RateLimitOutcome,
        _elapsed: Duration,
    ) -> Result<(), RateLimitRejection> {
        Err(RateLimitRejection::Limited(RateLimitError::limited(
            Duration::from_secs(2),
        )))
    }
}

impl<B> RateLimitStrategy<B> for RejectsAfterResponse {
    fn before_request(&self, _req: &mut Request<B>) -> Result<(), RateLimitRejection> {
        Ok(())
    }
}

#[derive(Clone)]
struct TimeoutImmediately {
    called: Rc<Cell<bool>>,
}

impl RateLimitAccounting for TimeoutImmediately {
    type State = ();

    fn after_response(
        &self,
        _state: Self::State,
        _outcome: RateLimitOutcome,
        _elapsed: Duration,
    ) -> Result<(), RateLimitRejection> {
        self.called.set(true);
        Ok(())
    }

    fn timeout(&self, _state: &Self::State) -> Option<Duration> {
        Some(Duration::ZERO)
    }
}

impl<B> RateLimitStrategy<B> for TimeoutImmediately {
    fn before_request(&self, _req: &mut Request<B>) -> Result<(), RateLimitRejection> {
        Ok(())
    }
}

/// Rejects every request for want of a client, but only once the inner service has ended.
#[derive(Clone)]
struct LosesItsClient {
    timeout: Option<Duration>,
}

impl RateLimitAccounting for LosesItsClient {
    type State = ();

    fn after_response(
        &self,
        _state: Self::State,
        _outcome: RateLimitOutcome,
        _elapsed: Duration,
    ) -> Result<(), RateLimitRejection> {
        Err(RateLimitRejection::MissingPeer)
    }

    fn timeout(&self, _state: &Self::State) -> Option<Duration> {
        self.timeout
    }
}

impl<B> RateLimitStrategy<B> for LosesItsClient {
    fn before_request(&self, _req: &mut Request<B>) -> Result<(), RateLimitRejection> {
        Ok(())
    }
}

#[derive(Clone)]
struct OutcomeObserver {
    service_error_seen: Rc<Cell<bool>>,
    called: Rc<Cell<bool>>,
}

impl RateLimitAccounting for OutcomeObserver {
    type State = ();

    fn after_response(
        &self,
        _state: Self::State,
        outcome: RateLimitOutcome,
        _elapsed: Duration,
    ) -> Result<(), RateLimitRejection> {
        self.called.set(true);
        self.service_error_seen
            .set(matches!(outcome, RateLimitOutcome::ServiceError));
        Ok(())
    }
}

impl<B> RateLimitStrategy<B> for OutcomeObserver {
    fn before_request(&self, _req: &mut Request<B>) -> Result<(), RateLimitRejection> {
        Ok(())
    }
}

/// Hands a number from the request to the accounting, and writes down what it is asked.
#[derive(Clone)]
struct Ledger {
    seen: Rc<Cell<Option<(u64, u16, Duration)>>>,
    times: Rc<Cell<u32>>,
    timeout: Option<Duration>,
}

impl RateLimitAccounting for Ledger {
    type State = u64;

    fn after_response(
        &self,
        state: u64,
        outcome: RateLimitOutcome,
        elapsed: Duration,
    ) -> Result<(), RateLimitRejection> {
        let code = match outcome {
            RateLimitOutcome::ResponseStatus(status) => status,
            RateLimitOutcome::ServiceError => 1,
            RateLimitOutcome::Timeout => 2,
        };
        self.seen.set(Some((state, code, elapsed)));
        self.times.set(self.times.get() + 1);
        Ok(())
    }

    fn timeout(&self, state: &u64) -> Option<Duration> {
        assert_eq!(*state, 7);
        self.timeout
    }
}

impl RateLimitStrategy<()> for Ledger {
    fn before_request(&self, req: &mut Request<()>) -> Result<u64, RateLimitRejection> {
        req.ip_key = Some(IpKey::from(ip("9.8.7.6")));
        Ok(7)
    }
}

#[derive(Clone, Copy, Debug, PartialEq, Eq)]
struct ErrorServiceErr;

type Answer = Result<Response<()>, ErrorServiceErr>;

/// What an inner service does with a request: `None` if it never ends.
type Inner = fn(&Request<()>) -> Option<Answer>;

fn ok_service(_req: &Request<()>) -> Option<Answer> {
    Some(Ok(plain(OK)))
}

fn sleep_service(_req: &Request<()>) -> Option<Answer> {
    let start = Instant::now();
    while start.elapsed() < Duration::from_millis(2) {}
    Some(Ok(plain(OK)))
}

fn pending_service(_req: &Request<()>) -> Option<Answer> {
    None
}

fn error_service(_req: &Request<()>) -> Option<Answer> {
    Some(Err(ErrorServiceErr))
}

fn require_ip_key_service(req: &Request<()>) -> Option<Answer> {
    let expected = IpKey::from(ip("1.2.3.4"));
    let status = match req.ip_key {
        Some(key) if key == expected => OK,
        _ => INTERNAL_SERVER_ERROR,
    };
    Some(Ok(plain(status)))
}

fn unreachable_service(_req: &Request<()>) -> Option<Answer> {
    panic!("a rejected request reached the inner service")
}

fn plain(status: u16) -> Response<()> {
    Response {
        status,
        headers: http::HeaderMap::new(),
        body: (),
    }
}

/// Sends a request through a service. A timer fires as soon as it is polled.
fn answer<T: RateLimitStrategy<()>>(
    service: &RateLimitService<Inner, T>,
    mut req: Request<()>,
) -> Answer {
    let mut future = service.call(&mut req);
    let mut event: PollEvent<(), ErrorServiceErr> = PollEvent::Polled;
    loop {
        event = match future.poll(event) {
            PollAction::PollInner => match (service.inner)(&req) {
                Some(result) => PollEvent::InnerReady(result),
                None => PollEvent::InnerPending,
            },
            PollAction::PollTimer => PollEvent::TimerFired,
            PollAction::Pending => panic!("neither the inner service nor the timer ends"),
            PollAction::Ready(result) => return result,
        }
    }
}

fn serve<T: RateLimitStrategy<()>>(
    service: &RateLimitService<Inner, T>,
    req: Request<()>,
) -> Response<()> {
    answer(service, req).unwrap()
}

fn retry_after(response: &Response<()>) -> Option<&str> {
    response
        .headers
        .get(RETRY_AFTER)
        .and_then(|value| value.to_str().ok())
}

fn net(text: &str) -> IpNet {
    match text.parse::<ipnet::IpNet>().unwrap() {
        ipnet::IpNet::V4(net) => {
            IpNet::V4(Ipv4Net::new(net.addr().into(), net.prefix_len()).unwrap())
        }
        ipnet::IpNet::V6(net) => {
            IpNet::V6(Ipv6Net::new(net.addr().into(), net.prefix_len()).unwrap())
        }
    }
}

fn ip(text: &str) -> IpAddr {
    match format!("{}/32", text).parse::<ipnet::IpNet>().unwrap() {
        ipnet::IpNet::V4(net) => IpAddr::V4(net.addr().into()),
        ipnet::IpNet::V6(net) => IpAddr::V6(net.addr().into()),
    }
}

fn socket(text: &str) -> SocketAddr {
    SocketAddr { ip: ip(text), port: 12345 }
}

fn request(peer: Option<&str>) -> Request<()> {
    Request {
        peer: peer.map(socket),
        connect_info: None,
        headers: http::HeaderMap::new(),
        ip_key: None,
        body: (),
    }
}

fn policy(rate: u32, burst: u32) -> Policy {
    Policy::per_second(NonZeroU32::new(rate).unwrap(), NonZeroU32::new(burst).unwrap())
}

fn loopback_extractor() -> ClientIpExtractor {
    ClientIpExtractor::with_trusted_proxies(vec![net("127.0.0.0/8")])
}

fn layer() -> RateLimitLayer<RequestCountByIp> {
    let limiter = Arc::new(RequestRateLimiter::new(policy(1, 1)));
    RateLimitLayer::with_strategy(RequestCountByIp::with_limiter(limiter, loopback_extractor()))
}

fn whitelisted_layer() -> RateLimitLayer<RequestCountByIp> {
    let limiter = Arc::new(RequestRateLimiter::new(policy(1, 1)));
    let strategy = RequestCountByIp::with_limiter(limiter, loopback_extractor())
        .with_whitelist(vec![net("1.2.3.0/24")]);
    RateLimitLayer::with_strategy(strategy)
}

fn proxied(client: &str, peer: &str) -> Request<()> {
    let mut req = request(Some(peer));
    req.headers
        .insert("x-forwarded-for", client.parse().unwrap());
    req
}

#[test]
fn allowed_request_calls_inner_service() {
    let service = layer().layer(ok_service as Inner);

    let response = serve(&service, request(Some("1.2.3.4")));

    assert_eq!(response.status, OK);
}

#[test]
fn custom_strategy_can_allow_request() {
    let service = RateLimitLayer::with_strategy(AlwaysAllow).layer(ok_service as Inner);

    let response = serve(&service, request(None));

    assert_eq!(response.status, OK);
}

#[test]
fn custom_strategy_can_reject_request() {
    let service = RateLimitLayer::with_strategy(AlwaysLimited).layer(ok_service as Inner);

    let response = serve(&service, request(None));

    assert_eq!(response.status, TOO_MANY_REQUESTS);
    assert_eq!(retry_after(&response), Some("3"));
}

#[test]
fn custom_strategy_after_response_runs_after_inner_service() {
    let called = Rc::new(Cell::new(false));
    let strategy = RecordsAfterResponse {
        called: Rc::clone(&called),
    };
    let service = RateLimitLayer::with_strategy(strategy).layer(ok_service as Inner);

    let response = serve(&service, request(None));

    assert_eq!(response.status, OK);
    assert!(called.get());
}

#[test]
fn custom_strategy_after_response_can_reject_request() {
    let service = RateLimitLayer::with_strategy(RejectsAfterResponse).layer(ok_service as Inner);

    let response = serve(&service, request(None));

    assert_eq!(response.status, TOO_MANY_REQUESTS);
    assert_eq!(retry_after(&response), Some("3"));
}

#[test]
fn custom_strategy_timeout_returns_429_and_runs_after_response() {
    let called = Rc::new(Cell::new(false));
    let strategy = TimeoutImmediately {
        called: Rc::clone(&called),
    };
    let service = RateLimitLayer::with_strategy(strategy).layer(pending_service as Inner);

    let response = serve(&service, request(None));

    assert_eq!(response.status, TOO_MANY_REQUESTS);
    assert!(called.get());
    assert_eq!(retry_after(&response), Some("1"));
}

#[test]
fn custom_strategy_receives_service_error_outcome() {
    let service_error_seen = Rc::new(Cell::new(false));
    let called = Rc::new(Cell::new(false));
    let strategy = OutcomeObserver {
        service_error_seen: Rc::clone(&service_error_seen),
        called: Rc::clone(&called),
    };
    let service = RateLimitLayer::with_strategy(strategy).layer(error_service as Inner);

    let response = answer(&service, request(None));
    assert!(response.is_err());
    assert!(called.get());
    assert!(service_error_seen.get());
}

#[test]
fn duration_budget_by_ip_charges_elapsed_time_after_response() {
    let limiter = Arc::new(DurationBudgetLimiter::<IpKey>::new(policy(1, 1)));
    let strategy = DurationBudgetByIp::with_limiter(limiter, loopback_extractor());
    let service = RateLimitLayer::with_strategy(strategy).layer(sleep_service as Inner);

    let response = serve(&service, request(Some("1.2.3.4")));

    assert_eq!(response.status, TOO_MANY_REQUESTS);
}

#[test]
fn duration_budget_by_ip_timeout_returns_429() {
    let limiter = Arc::new(DurationBudgetLimiter::<IpKey>::new(policy(10, 10)));
    let strategy = DurationBudgetByIp::with_limiter(limiter, loopback_extractor())
        .with_timeout(Duration::ZERO);
    let service = RateLimitLayer::with_strategy(strategy).layer(pending_service as Inner);

    let response = serve(&service, request(Some("1.2.3.4")));

    assert_eq!(response.status, TOO_MANY_REQUESTS);
    assert_eq!(retry_after(&response), Some("1"));
}

#[test]
fn allowed_request_inserts_ip_key_extension() {
    let service = layer().layer(require_ip_key_service as Inner);

    let response = serve(&service, request(Some("1.2.3.4")));

    assert_eq!(response.status, OK);
}

#[test]
fn second_request_from_same_ip_returns_429() {
    let service = layer().layer(ok_service as Inner);

    let first = serve(&service, request(Some("1.2.3.4")));
    assert_eq!(first.status, OK);

    let second = serve(&service, request(Some("1.2.3.4")));

    assert_eq!(second.status, TOO_MANY_REQUESTS);
    assert_eq!(retry_after(&second), Some("1"));
}

#[test]
fn whitelist_bypasses_only_the_configured_layer() {
    let action_service = whitelisted_layer().layer(ok_service as Inner);

    let first = serve(&action_service, request(Some("1.2.3.4")));
    assert_eq!(first.status, OK);

    let second = serve(&action_service, request(Some("1.2.3.4")));
    assert_eq!(second.status, OK);

    let general_service = layer().layer(ok_service as Inner);

    let first = serve(&general_service, request(Some("1.2.3.4")));
    assert_eq!(first.status, OK);

    let second = serve(&general_service, request(Some("1.2.3.4")));
    assert_eq!(second.status, TOO_MANY_REQUESTS);
}

#[test]
fn missing_peer_extension_returns_500() {
    let service = layer().layer(ok_service as Inner);

    let response = serve(&service, request(None));

    assert_eq!(response.status, INTERNAL_SERVER_ERROR);
}

#[test]
fn trusted_proxy_header_is_used_as_key() {
    let service = layer().layer(ok_service as Inner);

    let first = serve(&service, proxied("1.1.1.1", "127.0.0.1"));
    assert_eq!(first.status, OK);

    let second = serve(&service, proxied("2.2.2.2", "127.0.0.1"));
    assert_eq!(second.status, OK);
}

#[test]
fn trusted_proxy_forwarded_clients_have_independent_quota() {
    let service = layer().layer(ok_service as Inner);

    let first = serve(&service, proxied("1.1.1.1", "127.0.0.1"));
    assert_eq!(first.status, OK);

    let second = serve(&service, proxied("2.2.2.2", "127.0.0.1"));
    assert_eq!(second.status, OK);

    let third = serve(&service, proxied("1.1.1.1", "127.0.0.1"));
    assert_eq!(third.status, TOO_MANY_REQUESTS);
}

#[test]
fn untrusted_forwarded_header_is_ignored() {
    let service = layer().layer(ok_service as Inner);

    let first = serve(&service, proxied("1.1.1.1", "9.9.9.9"));
    assert_eq!(first.status, OK);

    let second = serve(&service, proxied("2.2.2.2", "9.9.9.9"));
    assert_eq!(second.status, TOO_MANY_REQUESTS);
}

#[test]
fn peer_addr_reads_axum_connect_info() {
    let service = layer().layer(ok_service as Inner);
    let mut req = request(None);
    req.connect_info = Some(socket("1.2.3.4"));

    let response = serve(&service, req);

    assert_eq!(response.status, OK);
}

#[test]
fn rejected_requests_stay_away_from_the_inner_service() {
    let limited = RateLimitLayer::with_strategy(AlwaysLimited).layer(unreachable_service as Inner);
    assert_eq!(serve(&limited, request(None)).status, TOO_MANY_REQUESTS);

    let service = layer().layer(unreachable_service as Inner);
    let response = serve(&service, request(None));
    assert_eq!(response.status, INTERNAL_SERVER_ERROR);
    assert!(response.headers.is_empty());

    // A trusted proxy that names no client.
    let response = serve(&service, request(Some("127.0.0.1")));
    assert_eq!(response.status, INTERNAL_SERVER_ERROR);
    assert!(response.headers.is_empty());
}

#[test]
fn rejected_request_is_left_as_it_was() {
    let strategy = RequestCountByIp::with_policy(policy(1, 1), loopback_extractor());
    let mut first = request(Some("1.2.3.4"));
    assert!(strategy.check_before_request(&mut first).is_ok());
    assert_eq!(first.ip_key, Some(IpKey::from(ip("1.2.3.4"))));
    assert_eq!(first.peer, Some(socket("1.2.3.4")));

    let mut second = request(Some("1.2.3.4"));
    match strategy.check_before_request(&mut second) {
        Err(RateLimitRejection::Limited(RateLimitError::Limited { retry_after })) => {
            assert!(retry_after <= Duration::from_secs(1))
        }
        _ => panic!("the second request is over quota"),
    }
    assert_eq!(second.ip_key, None);
    assert_eq!(second.peer, Some(socket("1.2.3.4")));
}

#[test]
fn whitelists_add_up() {
    let strategy = RequestCountByIp::with_policy(policy(1, 1), loopback_extractor());
    assert!(!strategy.is_whitelisted(ip("1.2.3.4")));
    let strategy = strategy.with_whitelist(vec![net("1.2.3.0/24")]);
    assert!(strategy.is_whitelisted(ip("1.2.3.4")));
    assert!(!strategy.is_whitelisted(ip("10.0.0.1")));
    let strategy = strategy.with_whitelist(vec![net("10.0.0.0/8")]);
    assert!(strategy.is_whitelisted(ip("1.2.3.4")));
    assert!(strategy.is_whitelisted(ip("10.0.0.1")));
    assert!(!strategy.is_whitelisted(ip("11.0.0.1")));
    let copy = strategy.clone();
    assert!(copy.is_whitelisted(ip("1.2.3.4")));
    assert!(!copy.is_whitelisted(ip("11.0.0.1")));
}

#[test]
fn cloned_strategies_share_their_limiter() {
    let strategy = RequestCountByIp::new(
        Arc::new(RequestRateLimiter::new(policy(1, 1))),
        loopback_extractor(),
    );
    let copy = strategy.clone();
    assert!(strategy.check_before_request(&mut request(Some("1.2.3.4"))).is_ok());
    assert!(copy.check_before_request(&mut request(Some("1.2.3.4"))).is_err());
}

#[test]
fn duration_budget_stores_the_client_and_charges_later() {
    let strategy = DurationBudgetByIp::with_policy(policy(1, 3), loopback_extractor());
    let mut req = request(Some("1.2.3.4"));
    let key = match strategy.check_before_request(&mut req) {
        Ok(key) => key,
        Err(_) => panic!("the request has a client"),
    };
    assert_eq!(key, IpKey::from(ip("1.2.3.4")));
    assert_eq!(req.ip_key, Some(key));
    assert_eq!(strategy.timeout(&key), None);

    let outcome = RateLimitOutcome::ResponseStatus(OK);
    let copy = strategy.clone();
    assert!(strategy.after_response(key, outcome, Duration::from_millis(3)).is_ok());
    assert!(matches!(
        copy.after_response(key, RateLimitOutcome::ServiceError, Duration::from_millis(1)),
        Err(RateLimitRejection::Limited(RateLimitError::Limited { .. }))
    ));
    assert!(matches!(
        copy.after_response(key, RateLimitOutcome::Timeout, Duration::from_millis(4)),
        Err(RateLimitRejection::Limited(RateLimitError::InsufficientCapacity))
    ));

    let wait = Duration::from_millis(250);
    assert_eq!(strategy.with_timeout(wait).timeout(&key), Some(wait));
    assert!(matches!(
        copy.check_before_request(&mut request(None)),
        Err(RateLimitRejection::MissingPeer)
    ));
    assert!(matches!(
        copy.check_before_request(&mut request(Some("127.0.0.1"))),
        Err(RateLimitRejection::ExtractFailed)
    ));
}

#[test]
fn duration_budget_takes_its_timeout() {
    let limiter = Arc::new(DurationBudgetLimiter::<IpKey>::new(policy(1, 1)));
    let wait = Duration::from_millis(250);
    let strategy = DurationBudgetByIp::new(limiter, loopback_extractor(), Some(wait));
    assert_eq!(strategy.timeout(&IpKey::from(ip("1.2.3.4"))), Some(wait));
}

#[test]
fn accounting_gets_state_outcome_and_elapsed_time() {
    let seen = Rc::new(Cell::new(None));
    let times = Rc::new(Cell::new(0));
    let ledger = Ledger {
        seen: Rc::clone(&seen),
        times: Rc::clone(&times),
        timeout: None,
    };
    let service = RateLimitLayer::with_strategy(ledger).layer(sleep_service as Inner);
    assert_eq!(serve(&service, request(None)).status, OK);
    let (state, code, elapsed) = seen.get().unwrap();
    assert_eq!((state, code), (7, OK));
    assert!(elapsed >= Duration::from_millis(2));
    assert_eq!(times.get(), 1);

    let other = RateLimitLayer::with_strategy(service.strategy.clone())
        .layer(error_service as Inner)
        .clone();
    assert!(matches!(answer(&other, request(None)), Err(ErrorServiceErr)));
    let (state, code, _) = seen.get().unwrap();
    assert_eq!((state, code), (7, 1));
    assert_eq!(times.get(), 2);
}

#[test]
fn inner_service_is_polled_before_the_timer() {
    let seen = Rc::new(Cell::new(None));
    let times = Rc::new(Cell::new(0));
    let ledger = Ledger {
        seen: Rc::clone(&seen),
        times: Rc::clone(&times),
        timeout: Some(Duration::from_millis(1)),
    };
    let service = RateLimitLayer::with_strategy(ledger).clone().layer(());
    let mut req = request(None);
    let mut future = service.call(&mut req);
    assert_eq!(req.ip_key, Some(IpKey::from(ip("9.8.7.6"))));
    assert!(matches!(
        future,
        RateLimitFuture::Allowed { state: Some(7), timeout: Some(_), .. }
    ));

    let polled = future.poll(PollEvent::<(), ()>::Polled);
    assert!(matches!(polled, PollAction::PollInner));
    let pending = future.poll(PollEvent::<(), ()>::InnerPending);
    assert!(matches!(pending, PollAction::PollTimer));
    let waiting = future.poll(PollEvent::<(), ()>::TimerPending);
    assert!(matches!(waiting, PollAction::Pending));
    let again = future.poll(PollEvent::<(), ()>::Polled);
    assert!(matches!(again, PollAction::PollInner));
    assert_eq!(times.get(), 0);

    match future.poll(PollEvent::<(), ()>::TimerFired) {
        PollAction::Ready(Ok(response)) => {
            assert_eq!(response.status, TOO_MANY_REQUESTS);
            assert_eq!(retry_after(&response), Some("1"));
        }
        _ => panic!("the timer ends the request"),
    }
    let (state, code, _) = seen.get().unwrap();
    assert_eq!((state, code), (7, 2));
    assert_eq!(times.get(), 1);
    assert!(matches!(future, RateLimitFuture::Allowed { state: None, .. }));
}

#[test]
fn without_a_timeout_only_the_inner_service_is_polled() {
    let service = RateLimitLayer::with_strategy(AlwaysAllow).layer(());
    let mut future = service.call(&mut request(None));
    let pending = future.poll(PollEvent::<(), ()>::InnerPending);
    assert!(matches!(pending, PollAction::Pending));
}

#[test]
fn what_the_inner_service_gives_is_passed_on() {
    let mut given = plain(404);
    given.headers.insert("x-served-by", "inner".parse().unwrap());
    match conclude::<(), ErrorServiceErr>(Ok(()), Served::Response(given)) {
        Ok(response) => {
            assert_eq!(response.status, 404);
            assert_eq!(response.headers.get("x-served-by").unwrap(), "inner");
        }
        Err(_) => panic!("the inner service answered"),
    }
    assert!(matches!(
        conclude::<(), ErrorServiceErr>(Ok(()), Served::Error(ErrorServiceErr)),
        Err(ErrorServiceErr)
    ));
}

#[test]
fn accounting_rejections_replace_what_the_inner_service_gives() {
    let limited = RateLimitError::limited(Duration::from_millis(9999));
    let ends: [fn() -> Served<(), ErrorServiceErr>; 2] = [
        || Served::Response(plain(OK)),
        || Served::Error(ErrorServiceErr),
    ];
    for end in ends {
        let response = conclude(Err(RateLimitRejection::Limited(limited)), end()).unwrap();
        assert_eq!(response.status, TOO_MANY_REQUESTS);
        assert_eq!(retry_after(&response), Some("10"));
        let response = conclude(Err(RateLimitRejection::MissingPeer), end()).unwrap();
        assert_eq!(response.status, INTERNAL_SERVER_ERROR);
        let response = conclude(Err(RateLimitRejection::ExtractFailed), end()).unwrap();
        assert_eq!(response.status, INTERNAL_SERVER_ERROR);
    }
}

#[test]
fn timeouts_are_too_many_requests_whatever_the_accounting_gives() {
    let limited = RateLimitError::limited(Duration::from_millis(9999));
    let answers = [
        (Ok(()), Some("1")),
        (Err(RateLimitRejection::Limited(limited)), Some("10")),
        (
            Err(RateLimitRejection::Limited(RateLimitError::InsufficientCapacity)),
            None,
        ),
        (Err(RateLimitRejection::MissingPeer), Some("1")),
        (Err(RateLimitRejection::ExtractFailed), Some("1")),
    ];
    for (verdict, announced) in answers {
        let response = conclude::<(), ErrorServiceErr>(verdict, Served::Timeout).unwrap();
        assert_eq!(response.status, TOO_MANY_REQUESTS);
        assert_eq!(retry_after(&response), announced);
    }
}

#[test]
fn timeout_without_a_client_is_too_many_requests() {
    let strategy = LosesItsClient {
        timeout: Some(Duration::ZERO),
    };
    let service = RateLimitLayer::with_strategy(strategy).layer(pending_service as Inner);
    let response = serve(&service, request(None));
    assert_eq!(response.status, TOO_MANY_REQUESTS);
    assert_eq!(retry_after(&response), Some("1"));

    let strategy = LosesItsClient { timeout: None };
    let service = RateLimitLayer::with_strategy(strategy).layer(ok_service as Inner);
    let response = serve(&service, request(None));
    assert_eq!(response.status, INTERNAL_SERVER_ERROR);
    assert_eq!(retry_after(&response), None);
}

#[test]
fn services_of_one_layer_share_its_limiter() {
    let layer = layer();
    let first = layer.layer(ok_service as Inner);
    let second = layer.layer(unreachable_service as Inner);
    assert_eq!(serve(&first, request(Some("1.2.3.4"))).status, OK);
    assert_eq!(serve(&second, request(Some("1.2.3.4"))).status, TOO_MANY_REQUESTS);
}

#[test]
fn announced_seconds_outlast_the_delay() {
    let announced = |delay: Duration| {
        let response: Response<()> = rate_limited_response(RateLimitError::limited(delay));
        assert_eq!(response.status, TOO_MANY_REQUESTS);
        assert_eq!(response.headers.len(), 1);
        retry_after(&response).unwrap().to_string()
    };
    assert_eq!(announced(Duration::ZERO), "1");
    assert_eq!(announced(Duration::from_millis(999)), "1");
    assert_eq!(announced(Duration::from_secs(1)), "2");
    assert_eq!(announced(Duration::from_secs(u64::MAX - 1)), "18446744073709551615");
    assert_eq!(announced(Duration::MAX), "18446744073709551615");
}

#[test]
fn hopeless_errors_announce_no_delay() {
    let response: Response<()> = rate_limited_response(RateLimitError::InsufficientCapacity);
    assert_eq!(response.status, TOO_MANY_REQUESTS);
    assert!(response.headers.is_empty());
}

#[test]
fn rejections_have_their_responses() {
    let limited = RateLimitError::limited(Duration::from_secs(4));
    let response: Response<()> = rejection_response(RateLimitRejection::Limited(limited));
    assert_eq!(response.status, TOO_MANY_REQUESTS);
    assert_eq!(retry_after(&response), Some("5"));
    let response: Response<u32> = rejection_response(RateLimitRejection::MissingPeer);
    assert_eq!((response.status, response.body), (INTERNAL_SERVER_ERROR, 0));
    let response: Response<u32> = rejection_response(RateLimitRejection::ExtractFailed);
    assert_eq!((response.status, response.body), (INTERNAL_SERVER_ERROR, 0));
    let response: Response<String> = server_error_response();
    assert_eq!((response.status, response.body.as_str()), (INTERNAL_SERVER_ERROR, ""));
    assert!(response.headers.is_empty());
}

#[test]
fn limiter_answers_become_verdicts() {
    assert!(limiter_verdict(Ok(())).is_ok());
    assert!(matches!(
        limiter_verdict(Err(RateLimitError::InsufficientCapacity)),
        Err(RateLimitRejection::Limited(RateLimitError::InsufficientCapacity))
    ));

    let key = IpKey::from(ip("1.2.3.4"));
    let mut req = request(None);
    assert!(settle(&mut req, key, Err(RateLimitError::InsufficientCapacity)).is_err());
    assert_eq!(req.ip_key, None);
    assert!(settle(&mut req, key, Ok(())).is_ok());
    assert_eq!(req.ip_key, Some(key));
}
