use forwarded_header_value::{ForwardedHeaderValue, Identifier};
use vstd::prelude::*;

use crate::addr::{self, IpAddr, IpNet, NetSet, SocketAddr};
use crate::http::headers::{self, all_values, first_value, value_text};
use crate::http::message::Request;
use crate::http::text::{self, split_trimmed};
use crate::key::IpKey;

verus! {

/// Extracts the real client IP from peer connection info and HTTP proxy headers.
///
/// Forwarding headers are trusted only when the peer IP is in the configured
/// trusted proxy networks.
#[derive(Debug)]
pub struct ClientIpExtractor {
    trusted: NetSet,
}

/// Error returned when a client IP cannot be extracted.
#[derive(Clone, Copy, Debug, PartialEq, Eq)]
pub enum ExtractClientIpError {
    /// The peer is trusted, but no usable forwarded client IP header was found.
    MissingForwardedClientIp,
}

/// The node that an element of a `Forwarded` header names as the one forwarded for.
#[derive(Clone, Copy, Debug, PartialEq, Eq)]
pub enum ForwardedNode {
    /// An address with a port.
    SocketAddr(SocketAddr),
    /// An address.
    IpAddr(IpAddr),
    /// Something that is not an address.
    Other,
}

const LOWER_H: u8 = 0x68;

const UPPER_H: u8 = 0x48;

const LOWER_O: u8 = 0x6f;

const UPPER_O: u8 = 0x4f;

const LOWER_S: u8 = 0x73;

const UPPER_S: u8 = 0x53;

const LOWER_T: u8 = 0x74;

const UPPER_T: u8 = 0x54;

const EQUALS: u8 = 0x3d;

const QUOTE: u8 = 0x22;

/// The address that a text spells, as parsing the text as an IP address in std gives it.
pub uninterp spec fn parsed_ip(text: Seq<char>) -> Option<IpAddr>;

/// For each element of a `Forwarded` header value the node that it names after `for=`, if it does,
/// as `ForwardedHeaderValue::from_forwarded` finds them; `None` if the value is malformed.
pub uninterp spec fn forwarded_nodes(text: Seq<char>) -> Option<Seq<Option<ForwardedNode>>>;

/// `str::parse` at the type of IP addresses. The result is named [`parsed_ip`]; nothing is claimed
/// of the grammar. The address goes through an `ipnet::IpNet` to tell its family.
#[verifier::external_body]
fn parse_ip(text: &str) -> (r: Option<IpAddr>)
    ensures
        r == parsed_ip(text@),
{
    match ipnet::IpNet::new(text.parse().ok()?, 0).ok()? {
        ipnet::IpNet::V4(net) => Some(IpAddr::V4(net.addr().into())),
        ipnet::IpNet::V6(net) => Some(IpAddr::V6(net.addr().into())),
    }
}

/// `ForwardedHeaderValue::from_forwarded` and the `forwarded_for` of each of its stanzas, in
/// order. The result is named [`forwarded_nodes`]; nothing is claimed of the grammar. A part that
/// reads `host="` makes the parser panic, so a text with one is left out.
#[verifier::external_body]
fn parse_forwarded(text: &str) -> (r: Option<Vec<Option<ForwardedNode>>>)
    requires
        text::is_header_text(text@),
        !has_open_host_quote(text@),
    ensures
        match r {
            Some(nodes) => forwarded_nodes(text@) == Some(nodes@),
            None => forwarded_nodes(text@) is None,
        },
{
    let ip = |net| match net {
        ipnet::IpNet::V4(net) => IpAddr::V4(net.addr().into()),
        ipnet::IpNet::V6(net) => IpAddr::V6(net.addr().into()),
    };
    let node = |id: &Identifier| match id {
        Identifier::SocketAddr(a) => ForwardedNode::SocketAddr(
            SocketAddr { ip: ip(a.ip().into()), port: a.port() },
        ),
        Identifier::IpAddr(a) => ForwardedNode::IpAddr(ip((*a).into())),
        _ => ForwardedNode::Other,
    };
    let value = ForwardedHeaderValue::from_forwarded(text).ok()?;
    Some(value.iter().map(|stanza| stanza.forwarded_for.as_ref().map(node)).collect())
}

/// The first address in a list of candidates.
pub open spec fn first_some(candidates: Seq<Option<IpAddr>>) -> Option<IpAddr>
    decreases candidates.len(),
{
    if candidates.len() == 0 {
        None
    } else if candidates.first() is Some {
        candidates.first()
    } else {
        first_some(candidates.drop_first())
    }
}

/// The first address in a list of candidates.
pub fn first_present(candidates: &Vec<Option<IpAddr>>) -> (r: Option<IpAddr>)
    ensures
        r == first_some(candidates@),
{
    let mut i: usize = 0;
    proof {
        assert(candidates@.skip(0) == candidates@);
    }
    while i < candidates.len()
        invariant
            i <= candidates.len(),
            first_some(candidates@) == first_some(candidates@.skip(i as int)),
        decreases candidates.len() - i,
    {
        proof {
            assert(candidates@.skip(i as int).drop_first() == candidates@.skip(i + 1));
        }
        if candidates[i].is_some() {
            return candidates[i];
        }
        i += 1;
    }
    None
}

/// The address of a node, if it has one.
pub open spec fn node_ip(node: Option<ForwardedNode>) -> Option<IpAddr> {
    match node {
        Some(ForwardedNode::SocketAddr(addr)) => Some(addr.ip),
        Some(ForwardedNode::IpAddr(ip)) => Some(ip),
        _ => None,
    }
}

/// The client in the text of an `X-Forwarded-For` header: the leftmost element that is an address,
/// since proxies append to the right.
pub open spec fn listed_ip(text: Seq<char>) -> Option<IpAddr> {
    first_some(
        text::pieces(text, text::commas()).map_values(
            |piece: Seq<char>| parsed_ip(text::trim(piece)),
        ),
    )
}

/// Whether a part of a `Forwarded` header value reads `host="`, in any case of the letters: a
/// quoted string that is opened and not closed.
pub open spec fn has_open_host_quote(text: Seq<char>) -> bool {
    let parts = text::pieces(text, text::commas_and_semicolons());
    exists|i: int| 0 <= i < parts.len() && is_open_host_quote(
        text::trim(#[trigger] parts[i]),
    )
}

/// Whether a text reads `host="`, in any case of the letters.
pub open spec fn is_open_host_quote(part: Seq<char>) -> bool {
    &&& part.len() == 6
    &&& part[0] == 'h' || part[0] == 'H'
    &&& part[1] == 'o' || part[1] == 'O'
    &&& part[2] == 's' || part[2] == 'S'
    &&& part[3] == 't' || part[3] == 'T'
    &&& part[4] == '='
    &&& part[5] == '"'
}

/// The client in the text of a `Forwarded` header: the first address that an element names after
/// `for=`. A malformed value names none, and neither does one with a string that is not closed.
pub open spec fn forwarded_ip(text: Seq<char>) -> Option<IpAddr> {
    if has_open_host_quote(text) {
        None
    } else {
        match forwarded_nodes(text) {
            Some(nodes) => first_some(
                nodes.map_values(|node: Option<ForwardedNode>| node_ip(node)),
            ),
            None => None,
        }
    }
}

/// The client that the first `X-Forwarded-For` header of a request names.
pub open spec fn x_forwarded_for_ip(headers: ::http::HeaderMap) -> Option<IpAddr> {
    let values = headers::field_values(headers, "x-forwarded-for"@);
    if values.len() == 0 {
        None
    } else {
        match headers::header_text(values[0]) {
            Some(text) => listed_ip(text),
            None => None,
        }
    }
}

/// The client that the first `X-Real-IP` header of a request names.
pub open spec fn x_real_ip(headers: ::http::HeaderMap) -> Option<IpAddr> {
    let values = headers::field_values(headers, "x-real-ip"@);
    if values.len() == 0 {
        None
    } else {
        match headers::header_text(values[0]) {
            Some(text) => parsed_ip(text),
            None => None,
        }
    }
}

/// The client that a `Forwarded` header value names.
pub open spec fn forwarded_value_ip(bytes: Seq<u8>) -> Option<IpAddr> {
    match headers::header_text(bytes) {
        Some(text) => forwarded_ip(text),
        None => None,
    }
}

/// The client that the first of the `Forwarded` headers to name one names.
pub open spec fn forwarded_header_ip(headers: ::http::HeaderMap) -> Option<IpAddr> {
    first_some(
        headers::field_values(headers, "forwarded"@).map_values(
            |bytes: Seq<u8>| forwarded_value_ip(bytes),
        ),
    )
}

/// The client that the forwarding headers of a request name: `X-Forwarded-For` before `X-Real-IP`
/// before `Forwarded`.
pub open spec fn forwarded_client_ip(headers: ::http::HeaderMap) -> Option<IpAddr> {
    if x_forwarded_for_ip(headers) is Some {
        x_forwarded_for_ip(headers)
    } else if x_real_ip(headers) is Some {
        x_real_ip(headers)
    } else {
        forwarded_header_ip(headers)
    }
}

/// Whether a part reads `host="`, in any case of the letters.
fn opens_host_quote(part: &str) -> (r: bool)
    requires
        text::is_header_text(part@),
    ensures
        r == is_open_host_quote(part@),
{
    proof {
        text::lemma_header_text_bytes(part);
    }
    let b = part.as_bytes();
    b.len() == 6 && (b[0] == LOWER_H || b[0] == UPPER_H) && (b[1] == LOWER_O || b[1] == UPPER_O)
        && (b[2] == LOWER_S || b[2] == UPPER_S) && (b[3] == LOWER_T || b[3] == UPPER_T) && b[4]
        == EQUALS && b[5] == QUOTE
}

/// Whether a part of a `Forwarded` header value reads `host="`.
fn opens_any_host_quote(text: &str) -> (r: bool)
    requires
        text::is_header_text(text@),
    ensures
        r == has_open_host_quote(text@),
{
    let ghost found = text::pieces(text@, text::commas_and_semicolons());
    let parts = split_trimmed(text, true);
    let mut i: usize = 0;
    while i < parts.len()
        invariant
            i <= parts.len(),
            found == text::pieces(text@, text::commas_and_semicolons()),
            parts@.len() == found.len(),
            forall|j: int|
                0 <= j < found.len() ==> (#[trigger] parts@[j])@ == text::trim(found[j]),
            forall|j: int|
                0 <= j < found.len() ==> text::is_header_text((#[trigger] parts@[j])@),
            forall|j: int|
                0 <= j < i ==> !is_open_host_quote(text::trim(#[trigger] found[j])),
        decreases parts.len() - i,
    {
        if opens_host_quote(parts[i]) {
            return true;
        }
        i += 1;
    }
    false
}

/// The client in the text of an `X-Forwarded-For` header.
fn parse_list(text: &str) -> (r: Option<IpAddr>)
    requires
        text::is_header_text(text@),
    ensures
        r == listed_ip(text@),
{
    let ghost found = text::pieces(text@, text::commas());
    let parts = split_trimmed(text, false);
    let mut candidates: Vec<Option<IpAddr>> = Vec::new();
    let mut i: usize = 0;
    while i < parts.len()
        invariant
            i <= parts.len(),
            candidates@.len() == i,
            parts@.len() == found.len(),
            forall|j: int|
                0 <= j < found.len() ==> (#[trigger] parts@[j])@ == text::trim(found[j]),
            forall|j: int|
                0 <= j < i ==> #[trigger] candidates@[j] == parsed_ip(
                    text::trim(found[j]),
                ),
        decreases parts.len() - i,
    {
        candidates.push(parse_ip(parts[i]));
        i += 1;
    }
    proof {
        assert(candidates@ == found.map_values(
            |piece: Seq<char>| parsed_ip(text::trim(piece)),
        ));
    }
    first_present(&candidates)
}

/// The first address that the nodes of a `Forwarded` header value have.
pub fn first_node_ip(nodes: &Vec<Option<ForwardedNode>>) -> (r: Option<IpAddr>)
    ensures
        r == first_some(nodes@.map_values(|node: Option<ForwardedNode>| node_ip(node))),
{
    let mut candidates: Vec<Option<IpAddr>> = Vec::new();
    let mut i: usize = 0;
    while i < nodes.len()
        invariant
            i <= nodes.len(),
            candidates@.len() == i,
            forall|j: int| 0 <= j < i ==> #[trigger] candidates@[j] == node_ip(nodes@[j]),
        decreases nodes.len() - i,
    {
        candidates.push(
            match nodes[i] {
                Some(ForwardedNode::SocketAddr(addr)) => Some(addr.ip),
                Some(ForwardedNode::IpAddr(ip)) => Some(ip),
                Some(ForwardedNode::Other) => None,
                None => None,
            },
        );
        i += 1;
    }
    proof {
        assert(candidates@ == nodes@.map_values(|node: Option<ForwardedNode>| node_ip(node)));
    }
    first_present(&candidates)
}

/// The client in the text of a `Forwarded` header.
fn parse_forwarded_client(text: &str) -> (r: Option<IpAddr>)
    requires
        text::is_header_text(text@),
    ensures
        r == forwarded_ip(text@),
{
    if opens_any_host_quote(text) {
        return None;
    }
    match parse_forwarded(text) {
        Some(nodes) => first_node_ip(&nodes),
        None => None,
    }
}

fn maybe_x_forwarded_for(headers: &::http::HeaderMap) -> (r: Option<IpAddr>)
    ensures
        r == x_forwarded_for_ip(*headers),
{
    proof {
        reveal_strlit("x-forwarded-for");
    }
    match first_value(headers, "x-forwarded-for") {
        Some(value) => match value_text(value) {
            Some(text) => parse_list(text),
            None => None,
        },
        None => None,
    }
}

fn maybe_x_real_ip(headers: &::http::HeaderMap) -> (r: Option<IpAddr>)
    ensures
        r == x_real_ip(*headers),
{
    proof {
        reveal_strlit("x-real-ip");
    }
    match first_value(headers, "x-real-ip") {
        Some(value) => match value_text(value) {
            Some(text) => parse_ip(text),
            None => None,
        },
        None => None,
    }
}

fn maybe_forwarded(headers: &::http::HeaderMap) -> (r: Option<IpAddr>)
    ensures
        r == forwarded_header_ip(*headers),
{
    proof {
        reveal_strlit("forwarded");
    }
    let ghost found = headers::field_values(*headers, "forwarded"@);
    let values = all_values(headers, "forwarded");
    let mut candidates: Vec<Option<IpAddr>> = Vec::new();
    let mut i: usize = 0;
    while i < values.len()
        invariant
            i <= values.len(),
            candidates@.len() == i,
            values@.len() == found.len(),
            forall|j: int|
                0 <= j < values@.len() ==> headers::header_value_bytes(
                    *#[trigger] values@[j],
                ) == found[j],
            forall|j: int|
                0 <= j < i ==> #[trigger] candidates@[j] == forwarded_value_ip(found[j]),
        decreases values.len() - i,
    {
        candidates.push(
            match value_text(values[i]) {
                Some(text) => parse_forwarded_client(text),
                None => None,
            },
        );
        i += 1;
    }
    proof {
        assert(candidates@ == found.map_values(|bytes: Seq<u8>| forwarded_value_ip(bytes)));
    }
    first_present(&candidates)
}

impl Clone for ClientIpExtractor {
    fn clone(&self) -> (r: Self)
        ensures
            r.same_trust(self),
    {
        ClientIpExtractor { trusted: self.trusted.clone() }
    }
}

impl ClientIpExtractor {
    /// Whether two extractors trust the same addresses.
    pub open spec fn same_trust(&self, other: &Self) -> bool {
        forall|ip: IpAddr| #[trigger] self.trusts(ip) == other.trusts(ip)
    }

    /// Whether an address is in the configured trusted proxy networks.
    pub closed spec fn trusts(&self, ip: IpAddr) -> bool {
        self.trusted.covers(ip)
    }

    /// The client of a request that came from `peer`, when the forwarding headers name
    /// `forwarded`.
    pub open spec fn resolved_ip(
        &self,
        peer: SocketAddr,
        forwarded: Option<IpAddr>,
    ) -> Result<IpAddr, ExtractClientIpError> {
        if !self.trusts(peer.ip) {
            Ok(peer.ip)
        } else {
            match forwarded {
                Some(ip) => Ok(ip),
                None => Err(ExtractClientIpError::MissingForwardedClientIp),
            }
        }
    }

    /// The client of a request that came from `peer` with these headers.
    pub open spec fn client_ip(
        &self,
        peer: SocketAddr,
        headers: ::http::HeaderMap,
    ) -> Result<IpAddr, ExtractClientIpError> {
        self.resolved_ip(peer, forwarded_client_ip(headers))
    }

    /// Creates an extractor with the trusted proxy networks.
    pub fn with_trusted_proxies(trusted_proxies: Vec<IpNet>) -> (r: Self)
        ensures
            forall|ip: IpAddr| #[trigger]
                r.trusts(ip) <==> addr::any_covers(trusted_proxies@, ip),
    {
        ClientIpExtractor { trusted: NetSet::new(trusted_proxies) }
    }

    /// Returns whether the IP is in the configured trusted proxy networks.
    pub fn is_trusted_proxy(&self, ip: IpAddr) -> (r: bool)
        ensures
            r == self.trusts(ip),
    {
        self.trusted.contains(ip)
    }

    /// The client of a request that came from `peer`, when the forwarding headers name
    /// `forwarded`.
    pub fn resolve(&self, peer_addr: SocketAddr, forwarded: Option<IpAddr>) -> (r: Result<
        IpAddr,
        ExtractClientIpError,
    >)
        ensures
            r == self.resolved_ip(peer_addr, forwarded),
    {
        if self.is_trusted_proxy(peer_addr.ip) {
            match forwarded {
                Some(ip) => Ok(ip),
                None => Err(ExtractClientIpError::MissingForwardedClientIp),
            }
        } else {
            Ok(peer_addr.ip)
        }
    }

    /// Extracts the real client IP for a request.
    ///
    /// If `peer_addr` is trusted, this checks `X-Forwarded-For`, then
    /// `X-Real-IP`, then `Forwarded`. Otherwise forwarding headers are ignored.
    pub fn extract(&self, peer_addr: SocketAddr, headers: &::http::HeaderMap) -> (r: Result<
        IpAddr,
        ExtractClientIpError,
    >)
        ensures
            r == self.client_ip(peer_addr, *headers),
    {
        if !self.is_trusted_proxy(peer_addr.ip) {
            return self.resolve(peer_addr, None);
        }
        let forwarded = match maybe_x_forwarded_for(headers) {
            Some(ip) => Some(ip),
            None => match maybe_x_real_ip(headers) {
                Some(ip) => Some(ip),
                None => maybe_forwarded(headers),
            },
        };
        self.resolve(peer_addr, forwarded)
    }

    /// Extracts the real client IP and converts it into an [`IpKey`].
    pub fn extract_key(&self, peer_addr: SocketAddr, headers: &::http::HeaderMap) -> (r: Result<
        IpKey,
        ExtractClientIpError,
    >)
        ensures
            r == (match self.client_ip(peer_addr, *headers) {
                Ok(ip) => Ok(IpKey::of(ip)),
                Err(err) => Err(err),
            }),
    {
        match self.extract(peer_addr, headers) {
            Ok(ip) => Ok(IpKey::from(ip)),
            Err(err) => Err(err),
        }
    }
}

/// The peer address of a request: the one that the server stored, or else the connect info.
pub open spec fn peer_of<B>(req: Request<B>) -> Option<SocketAddr> {
    if req.peer is Some {
        req.peer
    } else {
        req.connect_info
    }
}

/// The peer address of a request, if the request holds one.
pub fn peer_addr<B>(req: &Request<B>) -> (r: Option<SocketAddr>)
    ensures
        r == peer_of(*req),
{
    match req.peer {
        Some(addr) => Some(addr),
        None => req.connect_info,
    }
}

/// If the peer is not trusted, forwarding headers are ignored and the peer address is the client.
pub proof fn law_untrusted_peer_ignores_headers(
    extractor: ClientIpExtractor,
    peer: SocketAddr,
    headers: ::http::HeaderMap,
)
    requires
        !extractor.trusts(peer.ip),
    ensures
        extractor.client_ip(peer, headers) == Ok::<_, ExtractClientIpError>(peer.ip),
{
}

/// If the peer is trusted, the client is the one that `X-Forwarded-For` names, else the one that
/// `X-Real-IP` names, else the one that `Forwarded` names; it is an error if none names one. The
/// peer address itself is never taken for the client.
pub proof fn law_trusted_peer_headers_in_order(
    extractor: ClientIpExtractor,
    peer: SocketAddr,
    headers: ::http::HeaderMap,
)
    requires
        extractor.trusts(peer.ip),
    ensures
        x_forwarded_for_ip(headers) matches Some(ip) ==> extractor.client_ip(peer, headers)
            == Ok::<_, ExtractClientIpError>(ip),
        x_forwarded_for_ip(headers) is None ==> (x_real_ip(headers) matches Some(ip)
            ==> extractor.client_ip(peer, headers) == Ok::<_, ExtractClientIpError>(ip)),
        x_forwarded_for_ip(headers) is None && x_real_ip(headers) is None ==> (forwarded_header_ip(
            headers,
        ) matches Some(ip) ==> extractor.client_ip(peer, headers) == Ok::<_, ExtractClientIpError>(
            ip,
        )),
        extractor.client_ip(peer, headers) is Err <==> x_forwarded_for_ip(headers) is None
            && x_real_ip(headers) is None && forwarded_header_ip(headers) is None,
{
}

/// The first address in a list is the leftmost: everything before it is not an address.
pub proof fn law_first_is_leftmost(candidates: Seq<Option<IpAddr>>, ip: IpAddr)
    ensures
        first_some(candidates) == Some(ip) <==> exists|i: int|
            0 <= i < candidates.len() && #[trigger] candidates[i] == Some(ip) && forall|j: int|
                0 <= j < i ==> (#[trigger] candidates[j]) is None,
    decreases candidates.len(),
{
    if candidates.len() > 0 && candidates.first() is None {
        let rest = candidates.drop_first();
        law_first_is_leftmost(rest, ip);
        if first_some(rest) == Some(ip) {
            let i = choose|i: int|
                0 <= i < rest.len() && #[trigger] rest[i] == Some(ip) && forall|j: int|
                    0 <= j < i ==> (#[trigger] rest[j]) is None;
            assert forall|j: int| 0 <= j < i + 1 implies (#[trigger] candidates[j]) is None by {
                if j > 0 {
                    assert(rest[j - 1] is None);
                }
            }
        }
        if exists|i: int|
            0 <= i < candidates.len() && #[trigger] candidates[i] == Some(ip) && forall|j: int|
                0 <= j < i ==> (#[trigger] candidates[j]) is None {
            let i = choose|i: int|
                0 <= i < candidates.len() && #[trigger] candidates[i] == Some(ip) && forall|j: int|
                    0 <= j < i ==> (#[trigger] candidates[j]) is None;
            assert(rest[i - 1] == Some(ip));
        }
    }
}

/// There is no first address exactly when no candidate is an address.
pub proof fn law_no_first_without_candidates(candidates: Seq<Option<IpAddr>>)
    ensures
        first_some(candidates) is None <==> forall|i: int|
            0 <= i < candidates.len() ==> (#[trigger] candidates[i]) is None,
    decreases candidates.len(),
{
    if candidates.len() > 0 && candidates.first() is None {
        let rest = candidates.drop_first();
        law_no_first_without_candidates(rest);
        if first_some(rest) is None {
            assert forall|i: int| 0 <= i < candidates.len() implies (
            #[trigger] candidates[i]) is None by {
                if i > 0 {
                    assert(rest[i - 1] is None);
                }
            }
        } else {
            let i = choose|i: int| 0 <= i < rest.len() && (#[trigger] rest[i]) is Some;
            assert(candidates[i + 1] is Some);
        }
    } else if candidates.len() > 0 {
        assert(candidates[0] is Some);
    }
}

/// Whether the piece at `i` of a text that is cut at its commas spells `ip` once it is trimmed,
/// and no piece to its left spells an address.
pub open spec fn is_leftmost_in_list(text: Seq<char>, i: int, ip: IpAddr) -> bool {
    let parts = text::pieces(text, text::commas());
    &&& 0 <= i < parts.len()
    &&& parsed_ip(text::trim(parts[i])) == Some(ip)
    &&& forall|j: int| 0 <= j < i ==> parsed_ip(text::trim(#[trigger] parts[j])) is None
}

/// Whether no piece of a text that is cut at its commas spells an address once it is trimmed.
pub open spec fn lists_nobody(text: Seq<char>) -> bool {
    let parts = text::pieces(text, text::commas());
    forall|i: int| 0 <= i < parts.len() ==> parsed_ip(text::trim(#[trigger] parts[i])) is None
}

/// The client in the text of an `X-Forwarded-For` header is the address that one of its pieces
/// spells while none to its left spells one; there is none exactly when no piece spells one.
pub proof fn law_listed_client_is_the_leftmost(text: Seq<char>, ip: IpAddr)
    ensures
        listed_ip(text) == Some(ip) <==> exists|i: int| #[trigger] is_leftmost_in_list(text, i, ip),
        listed_ip(text) is None <==> lists_nobody(text),
{
    let parts = text::pieces(text, text::commas());
    let candidates = parts.map_values(|piece: Seq<char>| parsed_ip(text::trim(piece)));
    law_first_is_leftmost(candidates, ip);
    law_no_first_without_candidates(candidates);
    assert forall|i: int| 0 <= i < parts.len() implies candidates[i] == parsed_ip(
        text::trim(#[trigger] parts[i]),
    ) by {}
    if first_some(candidates) == Some(ip) {
        let i = choose|i: int|
            0 <= i < candidates.len() && #[trigger] candidates[i] == Some(ip) && forall|j: int|
                0 <= j < i ==> (#[trigger] candidates[j]) is None;
        assert forall|j: int| 0 <= j < i implies parsed_ip(
            text::trim(#[trigger] parts[j]),
        ) is None by {
            assert(candidates[j] is None);
        }
        assert(is_leftmost_in_list(text, i, ip));
    }
    if exists|i: int| #[trigger] is_leftmost_in_list(text, i, ip) {
        let i = choose|i: int| #[trigger] is_leftmost_in_list(text, i, ip);
        assert(candidates[i] == Some(ip));
        assert forall|j: int| 0 <= j < i implies (#[trigger] candidates[j]) is None by {
            assert(parsed_ip(text::trim(parts[j])) is None);
        }
    }
    if lists_nobody(text) {
        assert forall|i: int| 0 <= i < candidates.len() implies (
        #[trigger] candidates[i]) is None by {
            assert(parsed_ip(text::trim(parts[i])) is None);
        }
    }
    if first_some(candidates) is None {
        assert forall|i: int| 0 <= i < parts.len() implies parsed_ip(
            text::trim(#[trigger] parts[i]),
        ) is None by {
            assert(candidates[i] is None);
        }
    }
}

/// The text of the first value that a header map holds under a name, if it holds one and that is
/// text.
pub open spec fn first_text(headers: ::http::HeaderMap, name: Seq<char>) -> Option<Seq<char>> {
    let fields = headers::header_fields(headers);
    if fields.dom().contains(name) && fields[name].len() > 0 {
        headers::header_text(fields[name][0])
    } else {
        None
    }
}

/// Only the first `X-Forwarded-For` header counts: it names the leftmost address in its text, and
/// nobody if it is missing, is no text or lists no address.
pub proof fn law_x_forwarded_for_client(headers: ::http::HeaderMap, ip: IpAddr)
    ensures
        x_forwarded_for_ip(headers) == Some(ip) <==> (first_text(headers, "x-forwarded-for"@)
            matches Some(text) && exists|i: int| #[trigger] is_leftmost_in_list(text, i, ip)),
        x_forwarded_for_ip(headers) is None <==> (first_text(headers, "x-forwarded-for"@)
            matches Some(text) ==> lists_nobody(text)),
{
    if let Some(text) = first_text(headers, "x-forwarded-for"@) {
        law_listed_client_is_the_leftmost(text, ip);
    }
}

/// Only the first `X-Real-IP` header counts: it names the address that its whole text spells, and
/// nobody if it is missing, is no text or spells no address.
pub proof fn law_x_real_ip_client(headers: ::http::HeaderMap, ip: IpAddr)
    ensures
        x_real_ip(headers) == Some(ip) <==> (first_text(headers, "x-real-ip"@) matches Some(text)
            && parsed_ip(text) == Some(ip)),
        x_real_ip(headers) is None <==> (first_text(headers, "x-real-ip"@) matches Some(text)
            ==> parsed_ip(text) is None),
{
}

/// Whether a node is this address, with a port or without.
pub open spec fn node_is(node: Option<ForwardedNode>, ip: IpAddr) -> bool {
    ||| node == Some(ForwardedNode::IpAddr(ip))
    ||| node matches Some(ForwardedNode::SocketAddr(addr)) && addr.ip == ip
}

/// Whether the node at `i` of a well-formed `Forwarded` header value is this address, and no node
/// to its left is an address.
pub open spec fn is_first_forwarded(text: Seq<char>, i: int, ip: IpAddr) -> bool {
    &&& !has_open_host_quote(text)
    &&& forwarded_nodes(text) matches Some(nodes)
    &&& 0 <= i < nodes.len()
    &&& node_is(nodes[i], ip)
    &&& forall|j: int, other: IpAddr| 0 <= j < i ==> !(#[trigger] node_is(nodes[j], other))
}

/// Whether a `Forwarded` header value is malformed, or no node in it is an address.
pub open spec fn forwards_nobody(text: Seq<char>) -> bool {
    !has_open_host_quote(text) ==> (forwarded_nodes(text) matches Some(nodes) ==> forall|
        i: int,
        other: IpAddr,
    |
        0 <= i < nodes.len() ==> !(#[trigger] node_is(nodes[i], other)))
}

/// The client in the text of a `Forwarded` header is the first of its nodes that is an address;
/// there is none exactly when the text is malformed or no node is one.
pub proof fn law_forwarded_client_is_the_first_node(text: Seq<char>, ip: IpAddr)
    ensures
        forwarded_ip(text) == Some(ip) <==> exists|i: int| #[trigger]
            is_first_forwarded(text, i, ip),
        forwarded_ip(text) is None <==> forwards_nobody(text),
{
    assert forall|node: Option<ForwardedNode>, other: IpAddr| #[trigger]
        node_is(node, other) <==> node_ip(node) == Some(other) by {}
    if let Some(nodes) = forwarded_nodes(text) {
        let candidates = nodes.map_values(|node: Option<ForwardedNode>| node_ip(node));
        law_first_is_leftmost(candidates, ip);
        law_no_first_without_candidates(candidates);
        if !has_open_host_quote(text) {
            if first_some(candidates) == Some(ip) {
                let i = choose|i: int|
                    0 <= i < candidates.len() && #[trigger] candidates[i] == Some(ip) && forall|
                        j: int,
                    |
                        0 <= j < i ==> (#[trigger] candidates[j]) is None;
                assert forall|j: int, other: IpAddr| 0 <= j < i implies !(#[trigger] node_is(
                    nodes[j],
                    other,
                )) by {
                    assert(candidates[j] is None);
                }
                assert(is_first_forwarded(text, i, ip));
            }
            if exists|i: int| #[trigger] is_first_forwarded(text, i, ip) {
                let i = choose|i: int| #[trigger] is_first_forwarded(text, i, ip);
                assert(candidates[i] == Some(ip));
                assert forall|j: int| 0 <= j < i implies (#[trigger] candidates[j]) is None by {
                    if let Some(other) = candidates[j] {
                        assert(node_is(nodes[j], other));
                    }
                }
            }
            if forwards_nobody(text) {
                assert forall|i: int| 0 <= i < candidates.len() implies (
                #[trigger] candidates[i]) is None by {
                    if let Some(other) = candidates[i] {
                        assert(node_is(nodes[i], other));
                    }
                }
            }
            if first_some(candidates) is None {
                assert forall|i: int, other: IpAddr| 0 <= i < nodes.len() implies !(
                #[trigger] node_is(nodes[i], other)) by {
                    assert(candidates[i] is None);
                }
            }
        }
    }
}

/// A value is left alone for an open quote exactly when one of its parts, cut at commas and
/// semicolons and trimmed, is six characters long, spells `host` in any case, and goes on with an
/// equals sign and a quote.
pub proof fn law_open_host_quote(text: Seq<char>)
    ensures
        has_open_host_quote(text) <==> exists|i: int| #[trigger]
            part_opens_host_quote(text::pieces(text, text::commas_and_semicolons()), i),
{
    reveal_strlit("host=\"");
    reveal_strlit("HOST=\"");
    let parts = text::pieces(text, text::commas_and_semicolons());
    assert forall|part: Seq<char>| #[trigger] is_open_host_quote(part) <==> (part.len() == 6
        && forall|k: int|
        0 <= k < 6 ==> #[trigger] part[k] == "host=\""@[k] || part[k] == "HOST=\""@[k]) by {
    }
    if has_open_host_quote(text) {
        let i = choose|i: int|
            0 <= i < parts.len() && is_open_host_quote(text::trim(#[trigger] parts[i]));
        assert(part_opens_host_quote(parts, i));
    }
    if exists|i: int| #[trigger] part_opens_host_quote(parts, i) {
        let i = choose|i: int| #[trigger] part_opens_host_quote(parts, i);
        assert(is_open_host_quote(text::trim(parts[i])));
    }
}

/// Whether the part at `i` is `host="` once it is trimmed, each letter in either case.
pub open spec fn part_opens_host_quote(parts: Seq<Seq<char>>, i: int) -> bool {
    &&& 0 <= i < parts.len()
    &&& text::trim(parts[i]).len() == 6
    &&& forall|k: int|
        0 <= k < 6 ==> #[trigger] text::trim(parts[i])[k] == "host=\""@[k] || text::trim(
            parts[i],
        )[k] == "HOST=\""@[k]
}

/// The text of each `Forwarded` header value in order, `None` for one that is no text.
pub open spec fn forwarded_texts(headers: ::http::HeaderMap) -> Seq<Option<Seq<char>>> {
    let fields = headers::header_fields(headers);
    if fields.dom().contains("forwarded"@) {
        fields["forwarded"@].map_values(|bytes: Seq<u8>| headers::header_text(bytes))
    } else {
        Seq::empty()
    }
}

/// Whether the `Forwarded` value at `i` names `ip`, and none before it names anybody.
pub open spec fn is_first_forwarded_value(
    headers: ::http::HeaderMap,
    i: int,
    ip: IpAddr,
) -> bool {
    let texts = forwarded_texts(headers);
    &&& 0 <= i < texts.len()
    &&& texts[i] matches Some(text) && exists|k: int| #[trigger] is_first_forwarded(text, k, ip)
    &&& forall|j: int|
        0 <= j < i ==> (#[trigger] texts[j] matches Some(text) ==> forwards_nobody(text))
}

/// All the `Forwarded` headers count, in order: the first of them that names a client names it,
/// and there is none exactly when none of them names one.
pub proof fn law_forwarded_header_client(headers: ::http::HeaderMap, ip: IpAddr)
    ensures
        forwarded_header_ip(headers) == Some(ip) <==> exists|i: int| #[trigger]
            is_first_forwarded_value(headers, i, ip),
        forwarded_header_ip(headers) is None <==> forall|i: int|
            0 <= i < forwarded_texts(headers).len() ==> (#[trigger] forwarded_texts(headers)[i]
                matches Some(text) ==> forwards_nobody(text)),
{
    let values = headers::field_values(headers, "forwarded"@);
    let texts = forwarded_texts(headers);
    let candidates = values.map_values(|bytes: Seq<u8>| forwarded_value_ip(bytes));
    law_first_is_leftmost(candidates, ip);
    law_no_first_without_candidates(candidates);
    assert(texts.len() == candidates.len());
    assert forall|i: int| 0 <= i < texts.len() implies (#[trigger] candidates[i] is None <==> (
    texts[i] matches Some(text) ==> forwards_nobody(text))) && (candidates[i] == Some(ip) <==> (
    texts[i] matches Some(text) && exists|k: int| #[trigger] is_first_forwarded(text, k, ip))) by {
        if let Some(text) = texts[i] {
            law_forwarded_client_is_the_first_node(text, ip);
        }
    }
    if first_some(candidates) == Some(ip) {
        let i = choose|i: int|
            0 <= i < candidates.len() && #[trigger] candidates[i] == Some(ip) && forall|j: int|
                0 <= j < i ==> (#[trigger] candidates[j]) is None;
        assert forall|j: int| 0 <= j < i implies (#[trigger] texts[j] matches Some(text)
            ==> forwards_nobody(text)) by {
            assert(candidates[j] is None);
        }
        assert(is_first_forwarded_value(headers, i, ip));
    }
    if exists|i: int| #[trigger] is_first_forwarded_value(headers, i, ip) {
        let i = choose|i: int| #[trigger] is_first_forwarded_value(headers, i, ip);
        assert(candidates[i] == Some(ip));
        assert forall|j: int| 0 <= j < i implies (#[trigger] candidates[j]) is None by {
            assert(texts[j] matches Some(text) ==> forwards_nobody(text));
        }
    }
    if first_some(candidates) is None {
        assert forall|i: int| 0 <= i < texts.len() implies (#[trigger] texts[i] matches Some(text)
            ==> forwards_nobody(text)) by {
            assert(candidates[i] is None);
        }
    }
    if forall|i: int|
        0 <= i < texts.len() ==> (#[trigger] texts[i] matches Some(text) ==> forwards_nobody(
            text,
        )) {
        assert forall|i: int| 0 <= i < candidates.len() implies (
        #[trigger] candidates[i]) is None by {
            assert(texts[i] matches Some(text) ==> forwards_nobody(text));
        }
    }
}

/// What extraction answers, for every peer and all headers: the peer itself if it is not trusted;
/// else the leftmost address of the first `X-Forwarded-For`; else, if that names nobody, the first
/// `X-Real-IP`; else, if that names nobody either, the first `Forwarded` that names somebody; and
/// an error exactly if the peer is trusted and none of them names anybody.
pub proof fn law_extraction(
    extractor: ClientIpExtractor,
    peer: SocketAddr,
    headers: ::http::HeaderMap,
    found: Result<IpAddr, ExtractClientIpError>,
    ip: IpAddr,
)
    requires
        call_ensures(ClientIpExtractor::extract, (&extractor, peer, &headers), found),
    ensures
        !extractor.trusts(peer.ip) ==> found == Ok::<_, ExtractClientIpError>(peer.ip),
        extractor.trusts(peer.ip) ==> {
            let list = first_text(headers, "x-forwarded-for"@);
            let single = first_text(headers, "x-real-ip"@);
            let listed = list matches Some(text) && !lists_nobody(text);
            let spelled = single matches Some(text) && parsed_ip(text) is Some;
            &&& listed ==> (found == Ok::<_, ExtractClientIpError>(ip) <==> exists|i: int|
                #[trigger]
                is_leftmost_in_list(list->0, i, ip))
            &&& !listed && spelled ==> found == Ok::<_, ExtractClientIpError>(
                parsed_ip(single->0)->0,
            )
            &&& !listed && !spelled ==> (found == Ok::<_, ExtractClientIpError>(ip) <==> exists|
                i: int,
            |
                #[trigger]
                is_first_forwarded_value(headers, i, ip))
            &&& found is Err <==> !listed && !spelled && forall|i: int|
                0 <= i < forwarded_texts(headers).len() ==> (#[trigger] forwarded_texts(headers)[i]
                    matches Some(text) ==> forwards_nobody(text))
        },
{
    law_x_forwarded_for_client(headers, ip);
    law_x_real_ip_client(headers, ip);
    law_forwarded_header_client(headers, ip);
}

/// The key that is extracted is the key of the client that is extracted from the same request.
pub proof fn law_extracted_key(
    extractor: ClientIpExtractor,
    peer: SocketAddr,
    headers: ::http::HeaderMap,
    found: Result<IpAddr, ExtractClientIpError>,
    key: Result<IpKey, ExtractClientIpError>,
)
    requires
        call_ensures(ClientIpExtractor::extract, (&extractor, peer, &headers), found),
        call_ensures(ClientIpExtractor::extract_key, (&extractor, peer, &headers), key),
    ensures
        key is Ok <==> found is Ok,
        key is Ok ==> key->Ok_0 == IpKey::of(found->Ok_0),
        key is Err ==> key->Err_0 == found->Err_0,
{
}

/// An extractor trusts exactly the addresses in the blocks of the networks that it was made with,
/// each of the family of its network.
pub proof fn law_trust_is_in_the_networks(
    trusted_proxies: Vec<IpNet>,
    extractor: ClientIpExtractor,
    ip: IpAddr,
    trusted: bool,
)
    requires
        call_ensures(ClientIpExtractor::with_trusted_proxies, (trusted_proxies,), extractor),
        call_ensures(ClientIpExtractor::is_trusted_proxy, (&extractor, ip), trusted),
    ensures
        trusted == extractor.trusts(ip),
        trusted <==> exists|i: int|
            0 <= i < trusted_proxies@.len() && addr::net_block_holds(
                #[trigger] trusted_proxies@[i],
                ip,
            ),
{
    addr::lemma_any_covers_is_some_block(trusted_proxies@, ip);
}

/// The peer address of a request is the one that the server stored; the connect info counts only
/// if there is none.
pub proof fn law_stored_peer_goes_first<B>(req: Request<B>, peer: Option<SocketAddr>)
    requires
        call_ensures(peer_addr::<B>, (&req,), peer),
    ensures
        req.peer is Some ==> peer == req.peer,
        req.peer is None ==> peer == req.connect_info,
{
}

/// What the resolver answers: an untrusted peer itself, and for a trusted one the forwarded client
/// or an error, exactly.
pub proof fn law_resolution(
    extractor: ClientIpExtractor,
    peer: SocketAddr,
    forwarded: Option<IpAddr>,
    found: Result<IpAddr, ExtractClientIpError>,
)
    requires
        call_ensures(ClientIpExtractor::resolve, (&extractor, peer, forwarded), found),
    ensures
        !extractor.trusts(peer.ip) ==> found == Ok::<_, ExtractClientIpError>(peer.ip),
        extractor.trusts(peer.ip) && forwarded is Some ==> found == Ok::<_, ExtractClientIpError>(
            forwarded->0,
        ),
        extractor.trusts(peer.ip) && forwarded is None ==> found is Err,
{
}

} // verus!
