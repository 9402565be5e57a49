//! IP addresses and network prefixes as plain integers, and the lowest host
//! address of a prefix.

use vstd::prelude::*;

verus! {

/// An IP address of either family, as the big-endian value of its octets.
#[derive(Clone, Copy, Debug, PartialEq, Eq, Structural)]
pub enum IpAddress {
    V4(u32),
    V6(u128),
}

/// The mask of a 32-bit prefix: the top `prefix_len` bits set.
pub open spec fn netmask_v4(prefix_len: u8) -> u32 {
    if prefix_len == 0 {
        0u32
    } else if prefix_len >= 32 {
        u32::MAX
    } else {
        u32::MAX << ((32 - prefix_len) as u32)
    }
}

/// The mask of a 128-bit prefix: the top `prefix_len` bits set.
pub open spec fn netmask_v6(prefix_len: u8) -> u128 {
    if prefix_len == 0 {
        0u128
    } else if prefix_len >= 128 {
        u128::MAX
    } else {
        u128::MAX << ((128 - prefix_len) as u128)
    }
}

/// The lowest host address of a 32-bit prefix.
pub open spec fn first_v4(addr: u32, prefix_len: u8) -> u32 {
    if prefix_len >= 32 {
        addr
    } else {
        ((addr & netmask_v4(prefix_len)) + 1) as u32
    }
}

/// The lowest host address of a 128-bit prefix.
pub open spec fn first_v6(addr: u128, prefix_len: u8) -> u128 {
    if prefix_len >= 128 {
        addr
    } else {
        ((addr & netmask_v6(prefix_len)) + 1) as u128
    }
}

/// Whether `ip` lies in the 32-bit prefix `addr/prefix_len`.
pub open spec fn contains_v4(addr: u32, prefix_len: u8, ip: u32) -> bool {
    ip & netmask_v4(prefix_len) == addr & netmask_v4(prefix_len)
}

/// Whether `ip` lies in the 128-bit prefix `addr/prefix_len`.
pub open spec fn contains_v6(addr: u128, prefix_len: u8, ip: u128) -> bool {
    ip & netmask_v6(prefix_len) == addr & netmask_v6(prefix_len)
}

fn mask_v4(prefix_len: u8) -> (mask: u32)
    ensures
        mask == netmask_v4(prefix_len),
{
    if prefix_len == 0 {
        0
    } else if prefix_len >= 32 {
        u32::MAX
    } else {
        let shift: u32 = (32 - prefix_len) as u32;
        u32::MAX << shift
    }
}

fn mask_v6(prefix_len: u8) -> (mask: u128)
    ensures
        mask == netmask_v6(prefix_len),
{
    if prefix_len == 0 {
        0
    } else if prefix_len >= 128 {
        u128::MAX
    } else {
        let shift: u128 = (128 - prefix_len) as u128;
        u128::MAX << shift
    }
}

/// A masked address of a prefix shorter than the address leaves room for one more.
proof fn lemma_masked_v4_below_max(addr: u32, prefix_len: u8)
    requires
        prefix_len < 32,
    ensures
        addr & netmask_v4(prefix_len) < u32::MAX,
{
    if prefix_len != 0 {
        let shift: u32 = (32 - prefix_len) as u32;
        assert(addr & (u32::MAX << shift) < u32::MAX) by (bit_vector)
            requires
                1 <= shift <= 31,
        ;
    } else {
        assert(addr & 0u32 == 0u32) by (bit_vector);
    }
}

proof fn lemma_masked_v6_below_max(addr: u128, prefix_len: u8)
    requires
        prefix_len < 128,
    ensures
        addr & netmask_v6(prefix_len) < u128::MAX,
{
    if prefix_len != 0 {
        let shift: u128 = (128 - prefix_len) as u128;
        assert(addr & (u128::MAX << shift) < u128::MAX) by (bit_vector)
            requires
                1 <= shift <= 127,
        ;
    } else {
        assert(addr & 0u128 == 0u128) by (bit_vector);
    }
}

/// An IPv4 prefix: an address and the number of leading bits that name the network.
#[derive(Clone, Copy, Debug, PartialEq, Eq, Structural)]
pub struct Ipv4Net {
    addr: u32,
    prefix_len: u8,
}

impl Ipv4Net {
    #[verifier::type_invariant]
    spec fn inv(self) -> bool {
        self.prefix_len <= 32
    }

    pub closed spec fn spec_addr(&self) -> u32 {
        self.addr
    }

    pub closed spec fn spec_prefix_len(&self) -> u8 {
        self.prefix_len
    }

    /// A prefix length fits the address width.
    pub open spec fn wf(&self) -> bool {
        self.spec_prefix_len() <= 32
    }

    pub open spec fn spec_contains(&self, ip: u32) -> bool {
        contains_v4(self.spec_addr(), self.spec_prefix_len(), ip)
    }

    /// The prefix `addr/prefix_len`, or nothing where the length exceeds 32 bits.
    pub fn new(addr: u32, prefix_len: u8) -> (net: Option<Ipv4Net>)
        ensures
            prefix_len <= 32 <==> net is Some,
            net matches Some(n) ==> n.spec_addr() == addr && n.spec_prefix_len() == prefix_len
                && n.wf(),
    {
        if prefix_len <= 32 {
            Some(Ipv4Net { addr, prefix_len })
        } else {
            None
        }
    }

    #[verifier::when_used_as_spec(spec_addr)]
    pub fn addr(&self) -> (addr: u32)
        ensures
            addr == self.spec_addr(),
    {
        self.addr
    }

    #[verifier::when_used_as_spec(spec_prefix_len)]
    pub fn prefix_len(&self) -> (prefix_len: u8)
        ensures
            prefix_len == self.spec_prefix_len(),
            self.wf(),
    {
        proof {
            use_type_invariant(self);
        }
        self.prefix_len
    }

    /// Whether `ip` lies inside this prefix.
    pub fn contains(&self, ip: u32) -> (inside: bool)
        ensures
            inside == self.spec_contains(ip),
    {
        let mask = mask_v4(self.prefix_len);
        ip & mask == self.addr & mask
    }
}


/// An IPv6 prefix: an address and the number of leading bits that name the network.
#[derive(Clone, Copy, Debug, PartialEq, Eq, Structural)]
pub struct Ipv6Net {
    addr: u128,
    prefix_len: u8,
}

impl Ipv6Net {
    #[verifier::type_invariant]
    spec fn inv(self) -> bool {
        self.prefix_len <= 128
    }

    pub closed spec fn spec_addr(&self) -> u128 {
        self.addr
    }

    pub closed spec fn spec_prefix_len(&self) -> u8 {
        self.prefix_len
    }

    /// A prefix length fits the address width.
    pub open spec fn wf(&self) -> bool {
        self.spec_prefix_len() <= 128
    }

    pub open spec fn spec_contains(&self, ip: u128) -> bool {
        contains_v6(self.spec_addr(), self.spec_prefix_len(), ip)
    }

    /// The prefix `addr/prefix_len`, or nothing where the length exceeds 128 bits.
    pub fn new(addr: u128, prefix_len: u8) -> (net: Option<Ipv6Net>)
        ensures
            prefix_len <= 128 <==> net is Some,
            net matches Some(n) ==> n.spec_addr() == addr && n.spec_prefix_len() == prefix_len
                && n.wf(),
    {
        if prefix_len <= 128 {
            Some(Ipv6Net { addr, prefix_len })
        } else {
            None
        }
    }

    #[verifier::when_used_as_spec(spec_addr)]
    pub fn addr(&self) -> (addr: u128)
        ensures
            addr == self.spec_addr(),
    {
        self.addr
    }

    #[verifier::when_used_as_spec(spec_prefix_len)]
    pub fn prefix_len(&self) -> (prefix_len: u8)
        ensures
            prefix_len == self.spec_prefix_len(),
            self.wf(),
    {
        proof {
            use_type_invariant(self);
        }
        self.prefix_len
    }

    /// Whether `ip` lies inside this prefix.
    pub fn contains(&self, ip: u128) -> (inside: bool)
        ensures
            inside == self.spec_contains(ip),
    {
        let mask = mask_v6(self.prefix_len);
        ip & mask == self.addr & mask
    }
}

/// A prefix of either family.
#[derive(Clone, Copy, Debug, PartialEq, Eq, Structural)]
pub enum IpNet {
    V4(Ipv4Net),
    V6(Ipv6Net),
}

impl IpAddress {
    pub open spec fn spec_is_ipv4(&self) -> bool {
        self is V4
    }

    /// Loopback addresses: 127.0.0.0/8 and ::1.
    pub open spec fn spec_is_loopback(&self) -> bool {
        match *self {
            IpAddress::V4(a) => 0x7f00_0000 <= a <= 0x7fff_ffff,
            IpAddress::V6(a) => a == 1,
        }
    }

    /// The order of addresses: IPv4 before IPv6, and by value within a family.
    pub open spec fn spec_precedes(&self, other: &IpAddress) -> bool {
        match (*self, *other) {
            (IpAddress::V4(a), IpAddress::V4(b)) => a < b,
            (IpAddress::V4(_), IpAddress::V6(_)) => true,
            (IpAddress::V6(_), IpAddress::V4(_)) => false,
            (IpAddress::V6(a), IpAddress::V6(b)) => a < b,
        }
    }

    #[verifier::when_used_as_spec(spec_precedes)]
    pub fn precedes(&self, other: &IpAddress) -> (before: bool)
        ensures
            before == self.spec_precedes(other),
    {
        match (self, other) {
            (IpAddress::V4(a), IpAddress::V4(b)) => *a < *b,
            (IpAddress::V4(_), IpAddress::V6(_)) => true,
            (IpAddress::V6(_), IpAddress::V4(_)) => false,
            (IpAddress::V6(a), IpAddress::V6(b)) => *a < *b,
        }
    }

    #[verifier::when_used_as_spec(spec_is_ipv4)]
    pub fn is_ipv4(&self) -> (v4: bool)
        ensures
            v4 == self.spec_is_ipv4(),
    {
        match self {
            IpAddress::V4(_) => true,
            IpAddress::V6(_) => false,
        }
    }

    #[verifier::when_used_as_spec(spec_is_loopback)]
    pub fn is_loopback(&self) -> (loopback: bool)
        ensures
            loopback == self.spec_is_loopback(),
    {
        match self {
            IpAddress::V4(a) => 0x7f00_0000 <= *a && *a <= 0x7fff_ffff,
            IpAddress::V6(a) => *a == 1,
        }
    }
}

impl IpNet {
    pub open spec fn wf(&self) -> bool {
        match *self {
            IpNet::V4(n) => n.wf(),
            IpNet::V6(n) => n.wf(),
        }
    }

    pub open spec fn spec_addr(&self) -> IpAddress {
        match *self {
            IpNet::V4(n) => IpAddress::V4(n.spec_addr()),
            IpNet::V6(n) => IpAddress::V6(n.spec_addr()),
        }
    }

    pub open spec fn spec_prefix_len(&self) -> u8 {
        match *self {
            IpNet::V4(n) => n.spec_prefix_len(),
            IpNet::V6(n) => n.spec_prefix_len(),
        }
    }

    /// The number of bits of an address of this family.
    pub open spec fn spec_max_prefix_len(&self) -> u8 {
        match *self {
            IpNet::V4(_) => 32,
            IpNet::V6(_) => 128,
        }
    }

    /// An address lies in a prefix of its own family whose network bits it shares.
    pub open spec fn spec_contains(&self, ip: IpAddress) -> bool {
        match (*self, ip) {
            (IpNet::V4(n), IpAddress::V4(a)) => n.spec_contains(a),
            (IpNet::V6(n), IpAddress::V6(a)) => n.spec_contains(a),
            _ => false,
        }
    }

    /// The prefix `addr/prefix_len`, or nothing where the length exceeds the
    /// width of the address.
    pub fn new(addr: IpAddress, prefix_len: u8) -> (net: Option<IpNet>)
        ensures
            net is Some <==> prefix_len <= (if addr is V4 { 32u8 } else { 128u8 }),
            net matches Some(n) ==> n.spec_addr() == addr && n.spec_prefix_len() == prefix_len
                && n.wf(),
    {
        match addr {
            IpAddress::V4(a) => match Ipv4Net::new(a, prefix_len) {
                Some(n) => Some(IpNet::V4(n)),
                None => None,
            },
            IpAddress::V6(a) => match Ipv6Net::new(a, prefix_len) {
                Some(n) => Some(IpNet::V6(n)),
                None => None,
            },
        }
    }

    #[verifier::when_used_as_spec(spec_addr)]
    pub fn addr(&self) -> (addr: IpAddress)
        ensures
            addr == self.spec_addr(),
    {
        match self {
            IpNet::V4(n) => IpAddress::V4(n.addr()),
            IpNet::V6(n) => IpAddress::V6(n.addr()),
        }
    }

    #[verifier::when_used_as_spec(spec_prefix_len)]
    pub fn prefix_len(&self) -> (prefix_len: u8)
        ensures
            prefix_len == self.spec_prefix_len(),
            self.wf(),
    {
        match self {
            IpNet::V4(n) => n.prefix_len(),
            IpNet::V6(n) => n.prefix_len(),
        }
    }

    #[verifier::when_used_as_spec(spec_max_prefix_len)]
    pub fn max_prefix_len(&self) -> (bits: u8)
        ensures
            bits == self.spec_max_prefix_len(),
    {
        match self {
            IpNet::V4(_) => 32,
            IpNet::V6(_) => 128,
        }
    }

    /// Whether `ip` is of this prefix's family and lies inside it.
    pub fn contains(&self, ip: &IpAddress) -> (inside: bool)
        ensures
            inside == self.spec_contains(*ip),
    {
        match (self, ip) {
            (IpNet::V4(n), IpAddress::V4(a)) => n.contains(*a),
            (IpNet::V6(n), IpAddress::V6(a)) => n.contains(*a),
            _ => false,
        }
    }
}

/// The address a peering request for a prefix is sent to.
pub trait FirstIp {
    /// The lowest host address of the prefix: the address itself for a host
    /// prefix, else the network address plus one.
    spec fn spec_first_ip(&self) -> IpAddress;

    fn first_ip(&self) -> (ip: IpAddress)
        ensures
            ip == self.spec_first_ip(),
    ;
}

impl FirstIp for Ipv4Net {
    open spec fn spec_first_ip(&self) -> IpAddress {
        IpAddress::V4(first_v4(self.spec_addr(), self.spec_prefix_len()))
    }

    fn first_ip(&self) -> (ip: IpAddress) {
        if self.prefix_len >= 32 {
            IpAddress::V4(self.addr)
        } else {
            let mask = mask_v4(self.prefix_len);
            proof {
                lemma_masked_v4_below_max(self.addr, self.prefix_len);
            }
            IpAddress::V4((self.addr & mask) + 1)
        }
    }
}

impl FirstIp for Ipv6Net {
    open spec fn spec_first_ip(&self) -> IpAddress {
        IpAddress::V6(first_v6(self.spec_addr(), self.spec_prefix_len()))
    }

    fn first_ip(&self) -> (ip: IpAddress) {
        if self.prefix_len >= 128 {
            IpAddress::V6(self.addr)
        } else {
            let mask = mask_v6(self.prefix_len);
            proof {
                lemma_masked_v6_below_max(self.addr, self.prefix_len);
            }
            IpAddress::V6((self.addr & mask) + 1)
        }
    }
}

impl FirstIp for IpNet {
    open spec fn spec_first_ip(&self) -> IpAddress {
        match *self {
            IpNet::V4(n) => n.spec_first_ip(),
            IpNet::V6(n) => n.spec_first_ip(),
        }
    }

    fn first_ip(&self) -> (ip: IpAddress) {
        match self {
            IpNet::V4(n) => n.first_ip(),
            IpNet::V6(n) => n.first_ip(),
        }
    }
}


/// The network address of a 32-bit prefix: the address with its host bits cleared.
pub open spec fn network_v4(addr: u32, prefix_len: u8) -> u32 {
    addr & netmask_v4(prefix_len)
}

/// The network address of a 128-bit prefix: the address with its host bits cleared.
pub open spec fn network_v6(addr: u128, prefix_len: u8) -> u128 {
    addr & netmask_v6(prefix_len)
}

/// The highest address of a 32-bit prefix: the address with its host bits set.
pub open spec fn broadcast_v4(addr: u32, prefix_len: u8) -> u32 {
    addr | !netmask_v4(prefix_len)
}

/// The highest address of a 128-bit prefix: the address with its host bits set.
pub open spec fn broadcast_v6(addr: u128, prefix_len: u8) -> u128 {
    addr | !netmask_v6(prefix_len)
}

/// The addresses of a 32-bit prefix are those from its network address up
/// to its highest address.
pub proof fn lemma_contains_v4_is_range(addr: u32, prefix_len: u8, ip: u32)
    ensures
        contains_v4(addr, prefix_len, ip) <==> network_v4(addr, prefix_len) <= ip <= broadcast_v4(
            addr,
            prefix_len,
        ),
{
    if prefix_len == 0 {
        assert(ip & 0u32 == addr & 0u32 && addr & 0u32 <= ip && ip <= addr | !0u32)
            by (bit_vector);
    } else if prefix_len >= 32 {
        assert((ip & u32::MAX == addr & u32::MAX) <==> (addr & u32::MAX <= ip && ip <= addr
            | !u32::MAX)) by (bit_vector);
    } else {
        let shift: u32 = (32 - prefix_len) as u32;
        assert((ip & (u32::MAX << shift) == addr & (u32::MAX << shift)) <==> (addr & (u32::MAX
            << shift) <= ip && ip <= addr | !(u32::MAX << shift))) by (bit_vector)
            requires
                1 <= shift <= 31,
        ;
    }
}

/// The addresses of a 128-bit prefix are those from its network address up
/// to its highest address.
pub proof fn lemma_contains_v6_is_range(addr: u128, prefix_len: u8, ip: u128)
    ensures
        contains_v6(addr, prefix_len, ip) <==> network_v6(addr, prefix_len) <= ip <= broadcast_v6(
            addr,
            prefix_len,
        ),
{
    if prefix_len == 0 {
        assert(ip & 0u128 == addr & 0u128 && addr & 0u128 <= ip && ip <= addr | !0u128)
            by (bit_vector);
    } else if prefix_len >= 128 {
        assert((ip & u128::MAX == addr & u128::MAX) <==> (addr & u128::MAX <= ip && ip <= addr
            | !u128::MAX)) by (bit_vector);
    } else {
        let shift: u128 = (128 - prefix_len) as u128;
        assert((ip & (u128::MAX << shift) == addr & (u128::MAX << shift)) <==> (addr & (u128::MAX
            << shift) <= ip && ip <= addr | !(u128::MAX << shift))) by (bit_vector)
            requires
                1 <= shift <= 127,
        ;
    }
}

/// The lowest host address of a 32-bit prefix lies inside the prefix.
pub proof fn lemma_first_v4_inside(addr: u32, prefix_len: u8)
    requires
        prefix_len <= 32,
    ensures
        contains_v4(addr, prefix_len, first_v4(addr, prefix_len)),
{
    if 0 < prefix_len < 32 {
        let shift: u32 = (32 - prefix_len) as u32;
        assert((((addr & (u32::MAX << shift)) + 1) as u32) & (u32::MAX << shift) == addr & (u32::MAX
            << shift)) by (bit_vector)
            requires
                1 <= shift <= 31,
        ;
    } else if prefix_len == 0 {
        assert(addr & 0u32 == 0u32) by (bit_vector);
        assert(1u32 & 0u32 == 0u32) by (bit_vector);
    }
}

/// The lowest host address of a 128-bit prefix lies inside the prefix.
pub proof fn lemma_first_v6_inside(addr: u128, prefix_len: u8)
    requires
        prefix_len <= 128,
    ensures
        contains_v6(addr, prefix_len, first_v6(addr, prefix_len)),
{
    if 0 < prefix_len < 128 {
        let shift: u128 = (128 - prefix_len) as u128;
        assert((((addr & (u128::MAX << shift)) + 1) as u128) & (u128::MAX << shift) == addr & (
        u128::MAX << shift)) by (bit_vector)
            requires
                1 <= shift <= 127,
        ;
    } else if prefix_len == 0 {
        assert(addr & 0u128 == 0u128) by (bit_vector);
        assert(1u128 & 0u128 == 0u128) by (bit_vector);
    }
}

/// No address of a 32-bit prefix lies below its network address, and none
/// but the network address lies below its lowest host address.
pub proof fn lemma_first_v4_lowest(addr: u32, prefix_len: u8, ip: u32)
    requires
        prefix_len < 32,
        contains_v4(addr, prefix_len, ip),
    ensures
        network_v4(addr, prefix_len) <= ip,
        ip != network_v4(addr, prefix_len) ==> first_v4(addr, prefix_len) <= ip,
{
    let mask = netmask_v4(prefix_len);
    assert(ip & mask <= ip) by (bit_vector);
    lemma_masked_v4_below_max(addr, prefix_len);
}

/// No address of a 128-bit prefix lies below its network address, and none
/// but the network address lies below its lowest host address.
pub proof fn lemma_first_v6_lowest(addr: u128, prefix_len: u8, ip: u128)
    requires
        prefix_len < 128,
        contains_v6(addr, prefix_len, ip),
    ensures
        network_v6(addr, prefix_len) <= ip,
        ip != network_v6(addr, prefix_len) ==> first_v6(addr, prefix_len) <= ip,
{
    let mask = netmask_v6(prefix_len);
    assert(ip & mask <= ip) by (bit_vector);
    lemma_masked_v6_below_max(addr, prefix_len);
}

/// The lowest host address of a prefix lies inside the prefix, whatever its family.
pub proof fn lemma_first_ip_inside(net: IpNet)
    requires
        net.wf(),
    ensures
        net.spec_contains(net.spec_first_ip()),
{
    match net {
        IpNet::V4(n) => lemma_first_v4_inside(n.spec_addr(), n.spec_prefix_len()),
        IpNet::V6(n) => lemma_first_v6_inside(n.spec_addr(), n.spec_prefix_len()),
    }
}

/// The lowest host address of a host prefix is its address.
pub proof fn lemma_first_ip_of_host(net: IpNet)
    requires
        net.spec_prefix_len() == net.spec_max_prefix_len(),
    ensures
        net.spec_first_ip() == net.spec_addr(),
{
}

} // verus!
