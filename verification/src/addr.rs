//! Addresses and networks as plain numbers.
use vstd::arithmetic::div_mod::*;
use vstd::arithmetic::power2::*;
use vstd::prelude::*;

verus! {

/// An IP address, as the number that its bits spell.
#[derive(Clone, Copy, Debug, PartialEq, Eq)]
pub enum IpAddr {
    /// An IPv4 address.
    V4(u32),
    /// An IPv6 address.
    V6(u128),
}

/// An IP address and a port.
#[derive(Clone, Copy, Debug, PartialEq, Eq)]
pub struct SocketAddr {
    /// The address.
    pub ip: IpAddr,
    /// The port.
    pub port: u16,
}

/// Whether two addresses agree in every bit but the last `host_bits`.
pub open spec fn same_prefix(a: nat, b: nat, host_bits: nat) -> bool {
    a / pow2(host_bits) == b / pow2(host_bits)
}

/// An IPv4 network: an address, and how many of its leading bits name the network.
#[derive(Clone, Copy, Debug, PartialEq, Eq)]
pub struct Ipv4Net {
    addr: u32,
    prefix_len: u8,
}

/// An IPv6 network: an address, and how many of its leading bits name the network.
#[derive(Clone, Copy, Debug, PartialEq, Eq)]
pub struct Ipv6Net {
    addr: u128,
    prefix_len: u8,
}

/// An IP network of either family.
#[derive(Clone, Copy, Debug, PartialEq, Eq)]
pub enum IpNet {
    /// An IPv4 network.
    V4(Ipv4Net),
    /// An IPv6 network.
    V6(Ipv6Net),
}

/// `ipnet::Ipv4Net::new` and `ipnet::Ipv4Net::contains`: an address is in a network when it lies
/// between the first and the last address with the network's prefix, so when it has that prefix.
#[verifier::external_body]
fn ipv4_net_contains(addr: u32, prefix_len: u8, ip: u32) -> (r: bool)
    requires
        prefix_len <= 32,
    ensures
        r == same_prefix(addr as nat, ip as nat, (32 - prefix_len) as nat),
{
    let net = ipnet::Ipv4Net::new(addr.into(), prefix_len).unwrap();
    let host = ipnet::Ipv4Net::new(ip.into(), 32).unwrap();
    net.contains(&host.addr())
}

/// `ipnet::Ipv6Net::new` and `ipnet::Ipv6Net::contains`: an address is in a network when it lies
/// between the first and the last address with the network's prefix, so when it has that prefix.
#[verifier::external_body]
fn ipv6_net_contains(addr: u128, prefix_len: u8, ip: u128) -> (r: bool)
    requires
        prefix_len <= 128,
    ensures
        r == same_prefix(addr as nat, ip as nat, (128 - prefix_len) as nat),
{
    let net = ipnet::Ipv6Net::new(addr.into(), prefix_len).unwrap();
    let host = ipnet::Ipv6Net::new(ip.into(), 128).unwrap();
    net.contains(&host.addr())
}

impl Ipv4Net {
    #[verifier::type_invariant]
    spec fn wf(&self) -> bool {
        self.prefix_len <= 32
    }

    /// The address that the network was made with.
    pub closed spec fn spec_addr(&self) -> u32 {
        self.addr
    }

    /// How many leading bits name the network.
    pub closed spec fn spec_prefix_len(&self) -> u8 {
        self.prefix_len
    }

    /// Whether an address is in the network.
    pub open spec fn covers(&self, ip: u32) -> bool {
        same_prefix(self.spec_addr() as nat, ip as nat, (32 - self.spec_prefix_len()) as nat)
    }

    /// Makes a network, or returns `None` when the prefix is longer than an address.
    pub fn new(addr: u32, prefix_len: u8) -> (r: Option<Self>)
        ensures
            r is Some <==> prefix_len <= 32,
            r matches Some(net) ==> net.spec_addr() == addr && net.spec_prefix_len() == prefix_len,
    {
        if prefix_len <= 32 {
            Some(Ipv4Net { addr, prefix_len })
        } else {
            None
        }
    }

    /// Whether an address is in the network.
    pub fn contains(&self, ip: u32) -> (r: bool)
        ensures
            r == self.covers(ip),
    {
        proof {
            use_type_invariant(self);
        }
        ipv4_net_contains(self.addr, self.prefix_len, ip)
    }
}

impl Ipv6Net {
    #[verifier::type_invariant]
    spec fn wf(&self) -> bool {
        self.prefix_len <= 128
    }

    /// The address that the network was made with.
    pub closed spec fn spec_addr(&self) -> u128 {
        self.addr
    }

    /// How many leading bits name the network.
    pub closed spec fn spec_prefix_len(&self) -> u8 {
        self.prefix_len
    }

    /// Whether an address is in the network.
    pub open spec fn covers(&self, ip: u128) -> bool {
        same_prefix(self.spec_addr() as nat, ip as nat, (128 - self.spec_prefix_len()) as nat)
    }

    /// Makes a network, or returns `None` when the prefix is longer than an address.
    pub fn new(addr: u128, prefix_len: u8) -> (r: Option<Self>)
        ensures
            r is Some <==> prefix_len <= 128,
            r matches Some(net) ==> net.spec_addr() == addr && net.spec_prefix_len() == prefix_len,
    {
        if prefix_len <= 128 {
            Some(Ipv6Net { addr, prefix_len })
        } else {
            None
        }
    }

    /// Whether an address is in the network.
    pub fn contains(&self, ip: u128) -> (r: bool)
        ensures
            r == self.covers(ip),
    {
        proof {
            use_type_invariant(self);
        }
        ipv6_net_contains(self.addr, self.prefix_len, ip)
    }
}

impl IpNet {
    /// Whether an address is in the network; an address of the other family never is.
    pub open spec fn covers(self, ip: IpAddr) -> bool {
        match (self, ip) {
            (IpNet::V4(net), IpAddr::V4(bits)) => net.covers(bits),
            (IpNet::V6(net), IpAddr::V6(bits)) => net.covers(bits),
            _ => false,
        }
    }
}

/// Whether one of the networks holds the address.
pub open spec fn any_covers(nets: Seq<IpNet>, ip: IpAddr) -> bool {
    exists|i: int| 0 <= i < nets.len() && (#[trigger] nets[i]).covers(ip)
}

/// Networks sorted by family, each family in the order in which its networks were given.
#[derive(Debug)]
pub struct NetSet {
    v4: Vec<Ipv4Net>,
    v6: Vec<Ipv6Net>,
}

/// The IPv4 networks among `nets`, in order.
pub open spec fn v4_nets(nets: Seq<IpNet>) -> Seq<Ipv4Net>
    decreases nets.len(),
{
    if nets.len() == 0 {
        Seq::empty()
    } else {
        match nets.last() {
            IpNet::V4(net) => v4_nets(nets.drop_last()).push(net),
            IpNet::V6(_) => v4_nets(nets.drop_last()),
        }
    }
}

/// The IPv6 networks among `nets`, in order.
pub open spec fn v6_nets(nets: Seq<IpNet>) -> Seq<Ipv6Net>
    decreases nets.len(),
{
    if nets.len() == 0 {
        Seq::empty()
    } else {
        match nets.last() {
            IpNet::V4(_) => v6_nets(nets.drop_last()),
            IpNet::V6(net) => v6_nets(nets.drop_last()).push(net),
        }
    }
}

/// Sorts networks by family.
pub fn split_nets(nets: Vec<IpNet>) -> (r: (Vec<Ipv4Net>, Vec<Ipv6Net>))
    ensures
        r.0@ == v4_nets(nets@),
        r.1@ == v6_nets(nets@),
{
    let mut v4: Vec<Ipv4Net> = Vec::new();
    let mut v6: Vec<Ipv6Net> = Vec::new();
    let mut i: usize = 0;
    while i < nets.len()
        invariant
            i <= nets.len(),
            v4@ == v4_nets(nets@.take(i as int)),
            v6@ == v6_nets(nets@.take(i as int)),
        decreases nets.len() - i,
    {
        proof {
            assert(nets@.take(i + 1).drop_last() == nets@.take(i as int));
        }
        match nets[i] {
            IpNet::V4(net) => v4.push(net),
            IpNet::V6(net) => v6.push(net),
        }
        i += 1;
    }
    proof {
        assert(nets@.take(nets@.len() as int) == nets@);
    }
    (v4, v6)
}

proof fn lemma_v4_nets_cover(nets: Seq<IpNet>, bits: u32)
    ensures
        any_covers(nets, IpAddr::V4(bits)) <==> exists|i: int|
            0 <= i < v4_nets(nets).len() && (#[trigger] v4_nets(nets)[i]).covers(bits),
    decreases nets.len(),
{
    if nets.len() > 0 {
        let init = nets.drop_last();
        let ip = IpAddr::V4(bits);
        lemma_v4_nets_cover(init, bits);
        if any_covers(nets, ip) {
            let i = choose|i: int| 0 <= i < nets.len() && (#[trigger] nets[i]).covers(ip);
            if i < init.len() {
                assert(init[i].covers(ip));
                let j = choose|j: int|
                    0 <= j < v4_nets(init).len() && (#[trigger] v4_nets(init)[j]).covers(bits);
                assert(v4_nets(nets)[j] == v4_nets(init)[j]);
            } else {
                assert(v4_nets(nets)[v4_nets(init).len() as int].covers(bits));
            }
        }
    }
}

proof fn lemma_v6_nets_cover(nets: Seq<IpNet>, bits: u128)
    ensures
        any_covers(nets, IpAddr::V6(bits)) <==> exists|i: int|
            0 <= i < v6_nets(nets).len() && (#[trigger] v6_nets(nets)[i]).covers(bits),
    decreases nets.len(),
{
    if nets.len() > 0 {
        let init = nets.drop_last();
        let ip = IpAddr::V6(bits);
        lemma_v6_nets_cover(init, bits);
        if any_covers(nets, ip) {
            let i = choose|i: int| 0 <= i < nets.len() && (#[trigger] nets[i]).covers(ip);
            if i < init.len() {
                assert(init[i].covers(ip));
                let j = choose|j: int|
                    0 <= j < v6_nets(init).len() && (#[trigger] v6_nets(init)[j]).covers(bits);
                assert(v6_nets(nets)[j] == v6_nets(init)[j]);
            } else {
                assert(v6_nets(nets)[v6_nets(init).len() as int].covers(bits));
            }
        }
    }
}

impl Clone for NetSet {
    fn clone(&self) -> (r: Self)
        ensures
            forall|ip: IpAddr| #[trigger] r.covers(ip) == self.covers(ip),
    {
        let r = NetSet { v4: self.v4.clone(), v6: self.v6.clone() };
        proof {
            assert(r.v4@ == self.v4@);
            assert(r.v6@ == self.v6@);
        }
        r
    }
}

impl NetSet {
    /// Whether one of the networks holds the address.
    pub closed spec fn covers(&self, ip: IpAddr) -> bool {
        match ip {
            IpAddr::V4(bits) => exists|i: int|
                0 <= i < self.v4@.len() && (#[trigger] self.v4@[i]).covers(bits),
            IpAddr::V6(bits) => exists|i: int|
                0 <= i < self.v6@.len() && (#[trigger] self.v6@[i]).covers(bits),
        }
    }

    /// Sorts networks by family.
    pub fn new(nets: Vec<IpNet>) -> (r: Self)
        ensures
            forall|ip: IpAddr| #[trigger] r.covers(ip) <==> any_covers(nets@, ip),
    {
        let ghost given = nets@;
        let (v4, v6) = split_nets(nets);
        let r = NetSet { v4, v6 };
        proof {
            assert forall|ip: IpAddr| #[trigger] r.covers(ip) <==> any_covers(given, ip) by {
                match ip {
                    IpAddr::V4(bits) => {
                        lemma_v4_nets_cover(given, bits);
                        assert(r.v4@ == v4_nets(given));
                    },
                    IpAddr::V6(bits) => {
                        lemma_v6_nets_cover(given, bits);
                        assert(r.v6@ == v6_nets(given));
                    },
                }
            }
        }
        r
    }

    /// Adds networks.
    pub fn with_nets(self, nets: Vec<IpNet>) -> (r: Self)
        ensures
            forall|ip: IpAddr| #[trigger]
                r.covers(ip) <==> self.covers(ip) || any_covers(nets@, ip),
    {
        let mut added = NetSet::new(nets);
        let mut v4 = self.v4;
        let mut v6 = self.v6;
        let ghost added_v4 = added.v4@;
        let ghost added_v6 = added.v6@;
        let ghost known = added;
        v4.append(&mut added.v4);
        v6.append(&mut added.v6);
        let r = NetSet { v4, v6 };
        proof {
            assert forall|ip: IpAddr| #[trigger]
                r.covers(ip) <==> self.covers(ip) || known.covers(ip) by {
                match ip {
                    IpAddr::V4(bits) => {
                        let held = self.v4@.len() as int;
                        assert forall|i: int| 0 <= i < held implies self.v4@[i] == r.v4@[i] by {}
                        assert forall|i: int| 0 <= i < added_v4.len() implies #[trigger]
                            added_v4[i] == r.v4@[held + i] by {}
                        assert forall|i: int| held <= i < r.v4@.len() implies #[trigger]
                            r.v4@[i] == added_v4[i - held] by {}
                    },
                    IpAddr::V6(bits) => {
                        let held = self.v6@.len() as int;
                        assert forall|i: int| 0 <= i < held implies self.v6@[i] == r.v6@[i] by {}
                        assert forall|i: int| 0 <= i < added_v6.len() implies #[trigger]
                            added_v6[i] == r.v6@[held + i] by {}
                        assert forall|i: int| held <= i < r.v6@.len() implies #[trigger]
                            r.v6@[i] == added_v6[i - held] by {}
                    },
                }
            }
        }
        r
    }

    /// Whether one of the networks holds the address.
    pub fn contains(&self, ip: IpAddr) -> (r: bool)
        ensures
            r == self.covers(ip),
    {
        match ip {
            IpAddr::V4(bits) => {
                let mut i: usize = 0;
                while i < self.v4.len()
                    invariant
                        ip == IpAddr::V4(bits),
                        i <= self.v4.len(),
                        forall|j: int| 0 <= j < i ==> !(#[trigger] self.v4@[j]).covers(bits),
                    decreases self.v4.len() - i,
                {
                    if self.v4[i].contains(bits) {
                        return true;
                    }
                    i += 1;
                }
                false
            },
            IpAddr::V6(bits) => {
                let mut i: usize = 0;
                while i < self.v6.len()
                    invariant
                        ip == IpAddr::V6(bits),
                        i <= self.v6.len(),
                        forall|j: int| 0 <= j < i ==> !(#[trigger] self.v6@[j]).covers(bits),
                    decreases self.v6.len() - i,
                {
                    if self.v6[i].contains(bits) {
                        return true;
                    }
                    i += 1;
                }
                false
            },
        }
    }
}

/// Whether `ip` is in the block of `size` addresses that `addr` is in, when the numbers are cut
/// into such blocks from zero on.
pub open spec fn in_block(addr: int, size: int, ip: int) -> bool {
    addr - addr % size <= ip < addr - addr % size + size
}

proof fn lemma_same_prefix_is_block(addr: nat, ip: nat, host_bits: nat)
    ensures
        pow2(host_bits) > 0,
        same_prefix(addr, ip, host_bits) <==> in_block(
            addr as int,
            pow2(host_bits) as int,
            ip as int,
        ),
{
    lemma_pow2_pos(host_bits);
    let size = pow2(host_bits) as int;
    let (a, b) = (addr as int / size, ip as int / size);
    lemma_fundamental_div_mod(addr as int, size);
    lemma_fundamental_div_mod(ip as int, size);
    lemma_mod_bound(addr as int, size);
    lemma_mod_bound(ip as int, size);
    assert(a < b ==> size * a + size <= size * b) by (nonlinear_arith)
        requires
            size > 0,
    ;
    assert(b < a ==> size * b + size <= size * a) by (nonlinear_arith)
        requires
            size > 0,
    ;
}

/// A network of prefix length `p` is an interval: it holds exactly the addresses from its own
/// address rounded down to a multiple of 2^(32 - p), as many as that multiple, for every `p`.
pub proof fn law_ipv4_network_is_a_block(
    addr: u32,
    prefix_len: u8,
    made: Option<Ipv4Net>,
    ip: u32,
    held: bool,
)
    requires
        call_ensures(Ipv4Net::new, (addr, prefix_len), made),
        made matches Some(net) && call_ensures(Ipv4Net::contains, (&net, ip), held),
    ensures
        prefix_len <= 32,
        held <==> in_block(addr as int, pow2((32 - prefix_len) as nat) as int, ip as int),
        held <==> made->0.covers(ip),
{
    lemma_same_prefix_is_block(addr as nat, ip as nat, (32 - prefix_len) as nat);
}

/// Whether a network holds an address depends on the first `p` bits only: the network of the
/// longest prefix holds its own address alone, and that of the shortest holds every address.
pub proof fn law_ipv4_extreme_networks(net: Ipv4Net, ip: u32)
    ensures
        net.spec_prefix_len() == 32 ==> (net.covers(ip) <==> ip == net.spec_addr()),
        net.spec_prefix_len() == 0 ==> net.covers(ip),
{
    lemma_same_prefix_is_block(
        net.spec_addr() as nat,
        ip as nat,
        (32 - net.spec_prefix_len()) as nat,
    );
    lemma2_to64();
    lemma_pow2_adds(64, 64);
    lemma_small_mod(net.spec_addr() as nat, pow2(32));
}

/// A network of prefix length `p` is an interval: it holds exactly the addresses from its own
/// address rounded down to a multiple of 2^(128 - p), as many as that multiple, for every `p`.
pub proof fn law_ipv6_network_is_a_block(
    addr: u128,
    prefix_len: u8,
    made: Option<Ipv6Net>,
    ip: u128,
    held: bool,
)
    requires
        call_ensures(Ipv6Net::new, (addr, prefix_len), made),
        made matches Some(net) && call_ensures(Ipv6Net::contains, (&net, ip), held),
    ensures
        prefix_len <= 128,
        held <==> in_block(addr as int, pow2((128 - prefix_len) as nat) as int, ip as int),
        held <==> made->0.covers(ip),
{
    lemma_same_prefix_is_block(addr as nat, ip as nat, (128 - prefix_len) as nat);
}

/// Whether a network holds an address depends on the first `p` bits only: the network of the
/// longest prefix holds its own address alone, and that of the shortest holds every address.
pub proof fn law_ipv6_extreme_networks(net: Ipv6Net, ip: u128)
    ensures
        net.spec_prefix_len() == 128 ==> (net.covers(ip) <==> ip == net.spec_addr()),
        net.spec_prefix_len() == 0 ==> net.covers(ip),
{
    lemma_same_prefix_is_block(
        net.spec_addr() as nat,
        ip as nat,
        (128 - net.spec_prefix_len()) as nat,
    );
    lemma2_to64();
    lemma_pow2_adds(64, 64);
    lemma_small_mod(net.spec_addr() as nat, pow2(128));
}

/// An address is in a set of networks exactly when one of the networks that were given, of the
/// family of the address, has it in its block.
pub proof fn law_net_set_holds_the_blocks_given(
    nets: Vec<IpNet>,
    set: NetSet,
    ip: IpAddr,
    held: bool,
)
    requires
        call_ensures(NetSet::new, (nets,), set),
        call_ensures(NetSet::contains, (&set, ip), held),
    ensures
        held <==> exists|i: int| 0 <= i < nets@.len() && net_block_holds(#[trigger] nets@[i], ip),
{
    lemma_any_covers_is_some_block(nets@, ip);
}

/// Whether the block of a network holds an address of its family.
pub open spec fn net_block_holds(net: IpNet, ip: IpAddr) -> bool {
    match ip {
        IpAddr::V4(bits) => net matches IpNet::V4(own) && in_block(
            own.spec_addr() as int,
            pow2((32 - own.spec_prefix_len()) as nat) as int,
            bits as int,
        ),
        IpAddr::V6(bits) => net matches IpNet::V6(own) && in_block(
            own.spec_addr() as int,
            pow2((128 - own.spec_prefix_len()) as nat) as int,
            bits as int,
        ),
    }
}

pub(crate) proof fn lemma_any_covers_is_some_block(nets: Seq<IpNet>, ip: IpAddr)
    ensures
        any_covers(nets, ip) <==> exists|i: int|
            0 <= i < nets.len() && net_block_holds(#[trigger] nets[i], ip),
{
    assert forall|i: int| 0 <= i < nets.len() implies (#[trigger] nets[i]).covers(ip)
        == net_block_holds(nets[i], ip) by {
        match (nets[i], ip) {
            (IpNet::V4(net), IpAddr::V4(bits)) => lemma_same_prefix_is_block(
                net.spec_addr() as nat,
                bits as nat,
                (32 - net.spec_prefix_len()) as nat,
            ),
            (IpNet::V6(net), IpAddr::V6(bits)) => lemma_same_prefix_is_block(
                net.spec_addr() as nat,
                bits as nat,
                (128 - net.spec_prefix_len()) as nat,
            ),
            _ => {},
        }
    }
}

/// Networks that are added hold exactly what they hold on their own: adding takes nothing away,
/// and lets nothing else in.
pub proof fn law_added_networks_join(
    nets: Vec<IpNet>,
    more: Vec<IpNet>,
    set: NetSet,
    both: NetSet,
    ip: IpAddr,
    held: bool,
)
    requires
        call_ensures(NetSet::new, (nets,), set),
        call_ensures(NetSet::with_nets, (set, more), both),
        call_ensures(NetSet::contains, (&both, ip), held),
    ensures
        held <==> exists|i: int|
            0 <= i < (nets@ + more@).len() && net_block_holds(#[trigger] (nets@ + more@)[i], ip),
{
    let all = nets@ + more@;
    lemma_any_covers_is_some_block(nets@, ip);
    lemma_any_covers_is_some_block(more@, ip);
    assert forall|i: int| 0 <= i < nets@.len() implies #[trigger] nets@[i] == all[i] by {}
    assert forall|i: int| 0 <= i < more@.len() implies #[trigger] more@[i] == all[
        nets@.len() + i
    ] by {}
    assert forall|i: int| nets@.len() <= i < all.len() implies #[trigger] all[i] == more@[
        i - nets@.len()
    ] by {}
}

/// Splitting networks by family keeps those of each family, all of them and in order.
pub proof fn law_split_keeps_each_family_in_order(
    nets: Vec<IpNet>,
    split: (Vec<Ipv4Net>, Vec<Ipv6Net>),
)
    requires
        call_ensures(split_nets, (nets,), split),
    ensures
        split.0@ == nets@.filter_map(
            |net: IpNet| match net {
                IpNet::V4(own) => Some(own),
                IpNet::V6(_) => None,
            },
        ),
        split.1@ == nets@.filter_map(
            |net: IpNet| match net {
                IpNet::V4(_) => None,
                IpNet::V6(own) => Some(own),
            },
        ),
        split.0@.len() + split.1@.len() == nets@.len(),
{
    lemma_split_is_filter(nets@);
}

proof fn lemma_split_is_filter(nets: Seq<IpNet>)
    ensures
        v4_nets(nets) == nets.filter_map(
            |net: IpNet| match net {
                IpNet::V4(own) => Some(own),
                IpNet::V6(_) => None,
            },
        ),
        v6_nets(nets) == nets.filter_map(
            |net: IpNet| match net {
                IpNet::V4(_) => None,
                IpNet::V6(own) => Some(own),
            },
        ),
        v4_nets(nets).len() + v6_nets(nets).len() == nets.len(),
    decreases nets.len(),
{
    if nets.len() > 0 {
        lemma_split_is_filter(nets.drop_last());
    }
}

} // verus!
