use vstd::prelude::*;

use crate::addr::SocketAddr;
use crate::key::IpKey;

verus! {

/// What rate limiting reads and writes of a request, and the rest of the request as `body`.
pub struct Request<B> {
    /// The peer address that the server stored in the request, if it did.
    pub peer: Option<SocketAddr>,
    /// The peer address that the web framework stored as connect info, if it did.
    pub connect_info: Option<SocketAddr>,
    /// The header fields.
    pub headers: ::http::HeaderMap,
    /// The resolved client identity, for downstream code.
    pub ip_key: Option<IpKey>,
    /// The rest of the request.
    pub body: B,
}

/// What rate limiting reads and writes of a response, and the rest of the response as `body`.
pub struct Response<B> {
    /// The status code.
    pub status: u16,
    /// The header fields.
    pub headers: ::http::HeaderMap,
    /// The rest of the response.
    pub body: B,
}

} // verus!
