//! Reusable keyed rate limiting primitives.
//!
//! Doorman models each bucket as one [`RateLimiter`] with one [`Policy`] and
//! one unit meaning. Applications compose multiple limiters when different
//! traffic classes need different budgets.
//!
//! For example, a service can use a [`RequestRateLimiter`] for fixed-cost
//! request limits and a [`DurationBudgetLimiter`] for post-work duration
//! accounting. Low-level limiters can be keyed by [`IpKey`] or by an
//! application-specific key type; the built-in HTTP strategies handle client-IP
//! keys internally.
//!
//! The [`http`] module provides HTTP client IP extraction, built-in
//! client-IP request and elapsed-time strategies, and the decisions of a layer that runs
//! lifecycle strategies around an inner service. Strategies can decide whether a request is
//! allowed before the inner service runs, account after the service future
//! completes, and provide an optional timeout. Route classification and bucket
//! composition remain application responsibilities.
//!
//! Built-in HTTP strategies provide `with_policy` for simple construction and
//! `with_limiter` for applications that need to own the limiter handle, for
//! example to call [`RateLimiter::retain_recent`] from a maintenance task or to
//! share one bucket across multiple layers.

pub mod addr;
pub mod error;
pub mod http;
pub mod key;
pub mod limiter;
pub mod nonzero;
pub mod policy;
pub mod time;
pub mod units;

pub use addr::{IpAddr, IpNet, Ipv4Net, Ipv6Net, SocketAddr};
pub use error::RateLimitError;
pub use key::IpKey;
pub use limiter::{DurationTimer, RateLimiter};
pub use nonzero::NonZeroU32;
pub use policy::Policy;
pub use units::{DurationBudgetLimiter, DurationUnits, RequestRateLimiter, Requests};
