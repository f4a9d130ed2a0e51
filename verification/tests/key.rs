use doorman::{IpAddr, IpKey};

fn ip(text: &str) -> IpAddr {
    let bits = if text.contains(':') { 128 } else { 32 };
    match format!("{}/{}", text, bits).parse::<ipnet::IpNet>().unwrap() {
        ipnet::IpNet::V4(net) => IpAddr::V4(net.addr().into()),
        ipnet::IpNet::V6(net) => IpAddr::V6(net.addr().into()),
    }
}

#[test]
fn ipv4_key_uses_exact_address_bits() {
    let bits: u32 = 0x0102_0304;

    assert_eq!(ip("1.2.3.4"), IpAddr::V4(bits));
    assert_eq!(
        IpKey::from(IpAddr::V4(bits)).into_inner(),
        0x2001_0db8_0000_0000 | u64::from(bits)
    );
}

#[test]
fn ipv6_addresses_in_same_64_share_key() {
    let ip1 = ip("2600:1f18:1234:5600::1");
    let ip2 = ip("2600:1f18:1234:5600::ffff");

    assert_eq!(IpKey::from(ip1), IpKey::from(ip2));
}

#[test]
fn ipv6_addresses_in_different_64_have_different_keys() {
    let ip1 = ip("2600:1f18:1234:5600::1");
    let ip2 = ip("2600:1f18:1234:5601::1");

    assert_ne!(IpKey::from(ip1), IpKey::from(ip2));
}

#[test]
fn ip_key_is_one_u64() {
    assert_eq!(std::mem::size_of::<IpKey>(), std::mem::size_of::<u64>());
}

#[test]
fn ipv6_key_is_the_first_half() {
    assert_eq!(
        IpKey::from(ip("2600:1f18:1234:5600::1")).into_inner(),
        0x2600_1f18_1234_5600
    );
}

#[test]
fn number_is_the_whole_key() {
    let v4 = IpKey::from(ip("1.2.3.4"));
    let v6 = IpKey::from(ip("2001:db8:102:304::9"));
    assert_eq!(v4.into_inner(), v6.into_inner());
    assert_eq!(v4, v6);
    let other = IpKey::from(ip("1.2.3.5"));
    assert_ne!(v4.into_inner(), other.into_inner());
    assert_ne!(v4, other);
}

#[test]
fn ipv4_keys_are_exact() {
    assert_ne!(IpKey::from(ip("1.2.3.4")), IpKey::from(ip("1.2.3.5")));
    assert_eq!(IpKey::from(ip("255.255.255.255")).into_inner(), 0x2001_0db8_ffff_ffff);
    assert_eq!(IpKey::from(ip("0.0.0.0")).into_inner(), 0x2001_0db8_0000_0000);
}

#[test]
fn families_share_keys_only_in_the_sentinel_range() {
    assert_eq!(IpKey::from(ip("1.2.3.4")), IpKey::from(ip("2001:db8:102:304::9")));
    assert_ne!(IpKey::from(ip("1.2.3.4")), IpKey::from(ip("2001:db9:102:304::9")));
    assert_ne!(IpKey::from(ip("1.2.3.4")), IpKey::from(ip("::ffff:1.2.3.4")));
}
