use vstd::prelude::*;

use crate::addr::IpAddr;

verus! {

const IPV4_SENTINEL_PREFIX: u64 = 0x2001_0db8_0000_0000;

/// Compact key type for IP-based rate limiting.
///
/// IPv4 addresses are keyed exactly by embedding their 32 bits into an internal
/// sentinel range. IPv6 addresses are grouped by /64 prefix.
///
/// This representation is compact, but it is not collision free for every
/// syntactically valid IPv6 address. The IPv4 sentinel uses 2001:db8::/32,
/// which is reserved for documentation and should not appear as real client traffic.
#[derive(Clone, Copy, Debug, PartialEq, Eq, Hash)]
pub struct IpKey(u64);

/// The number under which an address is keyed: the sentinel prefix followed by the 32 bits of an
/// IPv4 address, or the first 64 bits of an IPv6 address.
pub open spec fn key_bits(ip: IpAddr) -> nat {
    match ip {
        IpAddr::V4(bits) => 0x2001_0db8_0000_0000 + bits as nat,
        IpAddr::V6(bits) => bits as nat / 0x1_0000_0000_0000_0000,
    }
}

impl View for IpKey {
    type V = nat;

    closed spec fn view(&self) -> nat {
        self.0 as nat
    }
}

impl IpKey {
    /// The key of an address.
    pub closed spec fn of(ip: IpAddr) -> IpKey {
        IpKey(key_bits(ip) as u64)
    }

    /// The key as one number.
    pub fn into_inner(self) -> (r: u64)
        ensures
            r == self@,
    {
        self.0
    }
}

impl From<IpAddr> for IpKey {
    fn from(ip: IpAddr) -> (r: Self) {
        match ip {
            IpAddr::V4(bits) => IpKey(ipv4_to_u64(bits)),
            IpAddr::V6(bits) => IpKey(ipv6_to_u64(bits)),
        }
    }
}

impl vstd::std_specs::convert::FromSpecImpl<IpAddr> for IpKey {
    open spec fn obeys_from_spec() -> bool {
        true
    }

    open spec fn from_spec(ip: IpAddr) -> Self {
        IpKey::of(ip)
    }
}

fn ipv4_to_u64(bits: u32) -> (r: u64)
    ensures
        r == key_bits(IpAddr::V4(bits)),
{
    let wide: u64 = bits as u64;
    assert(0x2001_0db8_0000_0000u64 | wide == 0x2001_0db8_0000_0000u64 + wide) by (bit_vector)
        requires
            wide <= 0xffff_ffffu64,
    ;
    IPV4_SENTINEL_PREFIX | wide
}

/// Use the first 64 bits of the IPv6 address as the key:
///
/// This means that these share a key:
///
///   2600:db8:1234:5600::1
///   2600:db8:1234:5600::ffff
///
/// But these do not:
///
///   2600:db8:1234:5600::1
///   2600:db8:1234:5601::1
///
fn ipv6_to_u64(bits: u128) -> (r: u64)
    ensures
        r == key_bits(IpAddr::V6(bits)),
{
    assert(bits >> 64 == bits / 0x1_0000_0000_0000_0000u128) by (bit_vector);
    (bits >> 64) as u64
}

/// The number is the whole key: two keys are the same exactly when their numbers are.
pub proof fn law_key_is_its_number(a: IpKey, b: IpKey)
    ensures
        a == b <==> a@ == b@,
{
}

/// A key is the number that the address is keyed under.
pub proof fn law_key_is_the_address_bits(ip: IpAddr)
    ensures
        IpKey::of(ip)@ == key_bits(ip),
{
}

/// IPv4 addresses are keyed exactly: two of them share a key only when they are the same address.
pub proof fn law_ipv4_keys_are_exact(a: u32, b: u32)
    ensures
        IpKey::of(IpAddr::V4(a)) == IpKey::of(IpAddr::V4(b)) <==> a == b,
{
    law_key_is_the_address_bits(IpAddr::V4(a));
    law_key_is_the_address_bits(IpAddr::V4(b));
}

/// IPv6 addresses are grouped by /64 prefix: two of them share a key exactly when their first
/// 64 bits agree.
pub proof fn law_ipv6_keys_group_by_prefix(a: u128, b: u128)
    ensures
        IpKey::of(IpAddr::V6(a)) == IpKey::of(IpAddr::V6(b)) <==> a / 0x1_0000_0000_0000_0000
            == b / 0x1_0000_0000_0000_0000,
{
    law_key_is_the_address_bits(IpAddr::V6(a));
    law_key_is_the_address_bits(IpAddr::V6(b));
}

/// An IPv4 address and an IPv6 address share a key exactly when the first 64 bits of the IPv6
/// address are the sentinel followed by the IPv4 address. Such an IPv6 address lies in
/// 2001:db8::/32, so no address outside that documentation range shares a key with an IPv4
/// address.
pub proof fn law_families_meet_only_in_the_sentinel_range(v4: u32, v6: u128)
    ensures
        IpKey::of(IpAddr::V4(v4)) == IpKey::of(IpAddr::V6(v6)) <==> v6 / 0x1_0000_0000_0000_0000
            == 0x2001_0db8_0000_0000 + v4,
        IpKey::of(IpAddr::V4(v4)) == IpKey::of(IpAddr::V6(v6)) ==> v6
            / 0x1_0000_0000_0000_0000_0000_0000 == 0x2001_0db8,
{
    law_key_is_the_address_bits(IpAddr::V4(v4));
    law_key_is_the_address_bits(IpAddr::V6(v6));
    assert(v6 / 0x1_0000_0000_0000_0000_0000_0000u128 == (v6 / 0x1_0000_0000_0000_0000u128)
        / 0x1_0000_0000u128) by (bit_vector);
}

/// The number of an IPv4 address's key is its 32 bits behind the sentinel prefix, and that of an
/// IPv6 address's key is what its first 64 bits spell.
pub proof fn law_key_numbers(ip: IpAddr, key: IpKey, number: u64)
    requires
        call_ensures(<IpKey as From<IpAddr>>::from, (ip,), key),
        call_ensures(IpKey::into_inner, (key,), number),
    ensures
        key == IpKey::of(ip),
        match ip {
            IpAddr::V4(bits) => number - bits == 0x2001_0db8_0000_0000,
            IpAddr::V6(bits) => number * 0x1_0000_0000_0000_0000 <= bits < (number + 1)
                * 0x1_0000_0000_0000_0000,
        },
{
    law_key_is_the_address_bits(ip);
}

} // verus!
