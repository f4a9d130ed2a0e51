use doorman::http::extract::{first_node_ip, first_present, peer_addr, ForwardedNode};
use doorman::http::text::split_trimmed;
use doorman::http::{ClientIpExtractor, ExtractClientIpError, Request};
use doorman::{IpAddr, IpKey, IpNet, Ipv4Net, Ipv6Net, SocketAddr};
use http::header::FORWARDED;

fn net(text: &str) -> IpNet {
    match text.parse::<ipnet::IpNet>().unwrap() {
        ipnet::IpNet::V4(net) => {
            IpNet::V4(Ipv4Net::new(net.addr().into(), net.prefix_len()).unwrap())
        }
        ipnet::IpNet::V6(net) => {
            IpNet::V6(Ipv6Net::new(net.addr().into(), net.prefix_len()).unwrap())
        }
    }
}

fn ip(text: &str) -> IpAddr {
    let bits = if text.contains(':') { 128 } else { 32 };
    match format!("{}/{}", text, bits).parse::<ipnet::IpNet>().unwrap() {
        ipnet::IpNet::V4(net) => IpAddr::V4(net.addr().into()),
        ipnet::IpNet::V6(net) => IpAddr::V6(net.addr().into()),
    }
}

fn extractor(trusted: &[&str]) -> ClientIpExtractor {
    ClientIpExtractor::with_trusted_proxies(trusted.iter().map(|text| net(text)).collect())
}

fn socket(text: &str) -> SocketAddr {
    SocketAddr { ip: ip(text), port: 12345 }
}

/// What a trusted proxy's request with these headers resolves to.
fn resolved(fields: &[(&'static str, &str)]) -> Result<IpAddr, ExtractClientIpError> {
    let mut headers = http::HeaderMap::new();
    for (name, value) in fields {
        headers.append(*name, value.parse().unwrap());
    }
    extractor(&["127.0.0.0/8"]).extract(socket("127.0.0.1"), &headers)
}

const MISSING: Result<IpAddr, ExtractClientIpError> =
    Err(ExtractClientIpError::MissingForwardedClientIp);

#[test]
fn untrusted_peer_ignores_forwarded_headers() {
    let extractor = extractor(&["127.0.0.0/8"]);
    let mut headers = http::HeaderMap::new();
    headers.insert("x-forwarded-for", "9.9.9.9".parse().unwrap());

    let found = extractor.extract(socket("1.2.3.4"), &headers).unwrap();

    assert_eq!(found, ip("1.2.3.4"));
}

#[test]
fn trusted_proxy_uses_x_forwarded_for_first() {
    let extractor = extractor(&["127.0.0.0/8"]);
    let mut headers = http::HeaderMap::new();
    headers.insert("x-real-ip", "8.8.8.8".parse().unwrap());
    headers.insert("x-forwarded-for", "9.9.9.9, 127.0.0.1".parse().unwrap());

    let found = extractor.extract(socket("127.0.0.1"), &headers).unwrap();

    assert_eq!(found, ip("9.9.9.9"));
}

#[test]
fn trusted_proxy_falls_back_to_x_real_ip() {
    let extractor = extractor(&["127.0.0.0/8"]);
    let mut headers = http::HeaderMap::new();
    headers.insert("x-real-ip", "8.8.8.8".parse().unwrap());

    let found = extractor.extract(socket("127.0.0.1"), &headers).unwrap();

    assert_eq!(found, ip("8.8.8.8"));
}

#[test]
fn trusted_proxy_falls_back_to_forwarded() {
    let extractor = extractor(&["127.0.0.0/8"]);
    let mut headers = http::HeaderMap::new();
    headers.insert(FORWARDED, "for=8.8.4.4;proto=https".parse().unwrap());

    let found = extractor.extract(socket("127.0.0.1"), &headers).unwrap();

    assert_eq!(found, ip("8.8.4.4"));
}

#[test]
fn trusted_proxy_without_client_header_errors() {
    let extractor = extractor(&["127.0.0.0/8"]);
    let headers = http::HeaderMap::new();

    let err = extractor
        .extract(socket("127.0.0.1"), &headers)
        .unwrap_err();

    assert_eq!(err, ExtractClientIpError::MissingForwardedClientIp);
}

#[test]
fn x_forwarded_for_takes_the_leftmost_address() {
    let name = "x-forwarded-for";
    assert_eq!(resolved(&[(name, "unknown, 5.6.7.8, 9.9.9.9")]), Ok(ip("5.6.7.8")));
    assert_eq!(resolved(&[(name, "\t 5.6.7.8 \t,9.9.9.9")]), Ok(ip("5.6.7.8")));
    assert_eq!(resolved(&[(name, ",, 2600::1 ,")]), Ok(ip("2600::1")));
    assert_eq!(resolved(&[(name, "5.6.7.8:80")]), MISSING);
    assert_eq!(resolved(&[(name, "")]), MISSING);
}

#[test]
fn only_the_first_x_forwarded_for_counts() {
    let name = "x-forwarded-for";
    assert_eq!(resolved(&[(name, "unknown"), (name, "5.6.7.8")]), MISSING);
    assert_eq!(resolved(&[(name, "1.1.1.1"), (name, "5.6.7.8")]), Ok(ip("1.1.1.1")));
}

#[test]
fn unusable_headers_fall_through_in_order() {
    assert_eq!(
        resolved(&[
            ("forwarded", "for=7.7.7.7"),
            ("x-real-ip", "8.8.8.8"),
            ("x-forwarded-for", "unknown"),
        ]),
        Ok(ip("8.8.8.8"))
    );
    assert_eq!(
        resolved(&[
            ("forwarded", "for=7.7.7.7"),
            ("x-real-ip", " 8.8.8.8"),
            ("x-forwarded-for", "unknown"),
        ]),
        Ok(ip("7.7.7.7"))
    );
    assert_eq!(
        resolved(&[("forwarded", "for=7.7.7.7"), ("x-real-ip", "8.8.8.8, 9.9.9.9")]),
        Ok(ip("7.7.7.7"))
    );
}

#[test]
fn header_values_that_are_not_text_name_nobody() {
    let mut headers = http::HeaderMap::new();
    headers.insert("x-real-ip", http::HeaderValue::from_bytes(b"8.8.8.8\xff").unwrap());
    headers.insert("x-forwarded-for", http::HeaderValue::from_bytes(b"9.9.9.9,\xe9").unwrap());
    headers.insert(FORWARDED, http::HeaderValue::from_bytes(b"for=7.7.7.7;x=\xe9").unwrap());

    let found = extractor(&["127.0.0.0/8"]).extract(socket("127.0.0.1"), &headers);

    assert_eq!(found, MISSING);
}

#[test]
fn forwarded_takes_the_first_address_of_the_first_value_with_one() {
    let name = "forwarded";
    assert_eq!(
        resolved(&[(name, "for=unknown, for=_hidden, by=3.3.3.3, for=\"[2600::1]:80\", for=1.1.1.1")]),
        Ok(ip("2600::1"))
    );
    assert_eq!(
        resolved(&[(name, "for=unknown"), (name, "For=4.4.4.4:81"), (name, "for=5.5.5.5")]),
        Ok(ip("4.4.4.4"))
    );
    assert_eq!(resolved(&[(name, "for=nonsense, for=5.5.5.5")]), MISSING);
    assert_eq!(resolved(&[(name, "for=nonsense"), (name, "for=5.5.5.5")]), Ok(ip("5.5.5.5")));
    assert_eq!(resolved(&[(name, "for=5.5.5.5;host=\"a.example\"")]), Ok(ip("5.5.5.5")));
    assert_eq!(resolved(&[(name, "for=5.5.5.5;host=\"\"")]), Ok(ip("5.5.5.5")));
}

#[test]
fn forwarded_value_with_an_open_quote_names_nobody() {
    let name = "forwarded";
    assert_eq!(resolved(&[(name, "for=5.5.5.5;host=\"")]), MISSING);
    assert_eq!(resolved(&[(name, "HOST=\" ; for=5.5.5.5")]), MISSING);
    assert_eq!(resolved(&[(name, "for=1.1.1.1,\tHoSt=\"")]), MISSING);
    assert_eq!(
        resolved(&[(name, "host=\""), (name, "for=5.5.5.5")]),
        Ok(ip("5.5.5.5"))
    );
    assert_eq!(resolved(&[(name, "xhost=\";for=5.5.5.5")]), Ok(ip("5.5.5.5")));
}

#[test]
fn trust_follows_the_networks() {
    let extractor = extractor(&["127.0.0.0/8", "fd00::/8"]);
    assert!(extractor.is_trusted_proxy(ip("127.255.0.1")));
    assert!(!extractor.is_trusted_proxy(ip("128.0.0.1")));
    assert!(extractor.is_trusted_proxy(ip("fd12::1")));
    assert!(!extractor.is_trusted_proxy(ip("fe80::1")));
    assert!(!extractor.is_trusted_proxy(ip("::ffff:127.0.0.1")));
    let copy = extractor.clone();
    assert!(copy.is_trusted_proxy(ip("127.255.0.1")));
    assert!(!copy.is_trusted_proxy(ip("128.0.0.1")));
}

#[test]
fn resolving_follows_trust() {
    let extractor = extractor(&["127.0.0.0/8"]);
    let client = Some(ip("9.9.9.9"));
    assert_eq!(extractor.resolve(socket("127.0.0.1"), client), Ok(ip("9.9.9.9")));
    assert_eq!(extractor.resolve(socket("127.0.0.1"), None), MISSING);
    assert_eq!(extractor.resolve(socket("1.2.3.4"), client), Ok(ip("1.2.3.4")));
    assert_eq!(extractor.resolve(socket("1.2.3.4"), None), Ok(ip("1.2.3.4")));
}

#[test]
fn extracted_key_is_the_key_of_the_client() {
    let extractor = extractor(&["127.0.0.0/8"]);
    let mut headers = http::HeaderMap::new();
    assert_eq!(
        extractor.extract_key(socket("127.0.0.1"), &headers),
        Err(ExtractClientIpError::MissingForwardedClientIp)
    );
    headers.insert("x-real-ip", "8.8.8.8".parse().unwrap());
    assert_eq!(
        extractor.extract_key(socket("127.0.0.1"), &headers),
        Ok(IpKey::from(ip("8.8.8.8")))
    );
}

#[test]
fn stored_peer_goes_before_connect_info() {
    let mut req = Request {
        peer: None,
        connect_info: None,
        headers: http::HeaderMap::new(),
        ip_key: None,
        body: (),
    };
    assert_eq!(peer_addr(&req), None);
    req.connect_info = Some(socket("2.2.2.2"));
    assert_eq!(peer_addr(&req), Some(socket("2.2.2.2")));
    req.peer = Some(socket("1.1.1.1"));
    assert_eq!(peer_addr(&req), Some(socket("1.1.1.1")));
}

#[test]
fn first_candidate_wins() {
    let one = ip("1.1.1.1");
    let two = ip("2.2.2.2");
    assert_eq!(first_present(&vec![]), None);
    assert_eq!(first_present(&vec![None, None]), None);
    assert_eq!(first_present(&vec![None, Some(two), None, Some(one)]), Some(two));
    assert_eq!(
        first_node_ip(&vec![
            None,
            Some(ForwardedNode::Other),
            Some(ForwardedNode::SocketAddr(socket("2.2.2.2"))),
            Some(ForwardedNode::IpAddr(one)),
        ]),
        Some(two)
    );
    assert_eq!(first_node_ip(&vec![Some(ForwardedNode::IpAddr(one))]), Some(one));
}

#[test]
fn text_splits_at_its_separators() {
    assert_eq!(split_trimmed("a, b ;c,\t,d ", false), vec!["a", "b ;c", "", "d"]);
    assert_eq!(split_trimmed("a, b ;c,\t,d ", true), vec!["a", "b", "c", "", "d"]);
    assert_eq!(split_trimmed("", false), vec![""]);
    assert_eq!(split_trimmed(" a b ", false), vec!["a b"]);
}
