//! Client IP extraction, strategies and the layer that runs them.

pub mod extract;
pub mod headers;
pub mod layer;
pub mod message;
pub mod strategy;
pub mod text;

pub use extract::{ClientIpExtractor, ExtractClientIpError};
pub use layer::{
    RateLimitAccounting, RateLimitLayer, RateLimitOutcome, RateLimitRejection, RateLimitService,
    RateLimitStrategy,
};
pub use message::{Request, Response};
pub use strategy::{DurationBudgetByIp, RequestCountByIp};
