use doorman::addr::{split_nets, NetSet};
use doorman::{IpAddr, IpNet, Ipv4Net, Ipv6Net, NonZeroU32, Policy};

fn v4(addr: u32, prefix_len: u8) -> Ipv4Net {
    Ipv4Net::new(addr, prefix_len).unwrap()
}

fn v6(addr: u128, prefix_len: u8) -> Ipv6Net {
    Ipv6Net::new(addr, prefix_len).unwrap()
}

#[test]
fn ipv4_networks_hold_their_prefix() {
    let net = v4(0x7f00_0000, 8);
    assert!(net.contains(0x7f00_0001));
    assert!(net.contains(0x7fff_ffff));
    assert!(!net.contains(0x8000_0000));
    assert!(!net.contains(0x7eff_ffff));
    assert!(v4(0x0102_0304, 32).contains(0x0102_0304));
    assert!(!v4(0x0102_0304, 32).contains(0x0102_0305));
    assert!(v4(0x0102_0304, 0).contains(0xffff_ffff));
    assert!(v4(0x0102_0304, 24).contains(0x0102_0300));
}

#[test]
fn ipv6_networks_hold_their_prefix() {
    let base: u128 = 0x2600_1f18_0000_0000_0000_0000_0000_0000;
    let net = v6(base, 32);
    assert!(net.contains(base));
    assert!(net.contains(base + 0xffff_ffff_ffff));
    assert!(!net.contains(base - 1));
    assert!(v6(base, 128).contains(base));
    assert!(!v6(base, 128).contains(base + 1));
    assert!(v6(base, 0).contains(1));
}

#[test]
fn prefixes_longer_than_an_address_are_refused() {
    assert!(Ipv4Net::new(0, 32).is_some());
    assert!(Ipv4Net::new(0, 33).is_none());
    assert!(Ipv6Net::new(0, 128).is_some());
    assert!(Ipv6Net::new(0, 129).is_none());
}

#[test]
fn split_nets_keeps_the_order_within_a_family() {
    let nets = vec![
        IpNet::V4(v4(1, 8)),
        IpNet::V6(v6(2, 8)),
        IpNet::V4(v4(3, 8)),
        IpNet::V6(v6(4, 8)),
    ];
    let (fours, sixes) = split_nets(nets);
    assert_eq!(fours, vec![v4(1, 8), v4(3, 8)]);
    assert_eq!(sixes, vec![v6(2, 8), v6(4, 8)]);
}

#[test]
fn net_sets_look_only_at_the_family_of_the_address() {
    let set = NetSet::new(vec![IpNet::V4(v4(0, 0)), IpNet::V6(v6(0, 96))]);
    assert!(set.contains(IpAddr::V4(77)));
    assert!(set.contains(IpAddr::V6(77)));
    assert!(!set.contains(IpAddr::V6(77 << 96)));
    let copy = set.clone();
    assert!(copy.contains(IpAddr::V4(77)));
    assert!(!NetSet::new(vec![]).contains(IpAddr::V4(77)));
}

#[test]
fn added_networks_join_the_others() {
    let set = NetSet::new(vec![IpNet::V4(v4(0x0a00_0000, 8)), IpNet::V6(v6(0, 96))])
        .with_nets(vec![IpNet::V4(v4(0x0102_0300, 24)), IpNet::V6(v6(1 << 127, 1))]);
    assert!(set.contains(IpAddr::V4(0x0a01_0203)));
    assert!(set.contains(IpAddr::V4(0x0102_0304)));
    assert!(!set.contains(IpAddr::V4(0x0102_0404)));
    assert!(set.contains(IpAddr::V6(5)));
    assert!(set.contains(IpAddr::V6(1 << 127)));
    assert!(!set.contains(IpAddr::V6(1 << 126)));
}

#[test]
fn zero_is_not_a_count() {
    assert!(NonZeroU32::new(0).is_none());
    assert_eq!(NonZeroU32::new(7).unwrap().get(), 7);
}

#[test]
fn policy_keeps_rate_and_burst() {
    let policy = Policy::per_second(NonZeroU32::new(3).unwrap(), NonZeroU32::new(5).unwrap());
    assert_eq!(policy.rate_per_second.get(), 3);
    assert_eq!(policy.burst.get(), 5);
}
