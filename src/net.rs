//! IP addresses, networks and the events reported about them.
use crate::wire::{be_bytes, be_nat, lemma_be_round_trip};
use vstd::prelude::*;

verus! {

/// An IPv4 or IPv6 address, held as the number its octets spell in network
/// order (as `std::net::Ipv4Addr::from(u32)` and `Ipv6Addr::from(u128)` do).
#[derive(Clone, Copy, Debug, PartialEq, Eq, Hash, Structural)]
pub enum IpAddr {
    V4(u32),
    V6(u128),
}

impl IpAddr {
    /// The address's octets, in network order.
    pub open spec fn octets(self) -> Seq<u8> {
        match self {
            IpAddr::V4(a) => be_bytes(a as nat, 4),
            IpAddr::V6(a) => be_bytes(a as nat, 16),
        }
    }

    /// Number of bits of the address, the largest prefix length it takes.
    pub open spec fn max_prefix_len(self) -> nat {
        match self {
            IpAddr::V4(_) => 32,
            IpAddr::V6(_) => 128,
        }
    }
}

/// The address that an attribute payload of four or sixteen bytes holds;
/// `None` for any other length.
pub open spec fn ip_of_payload(p: Seq<u8>) -> Option<IpAddr> {
    if p.len() == 4 {
        Some(IpAddr::V4(be_nat(p) as u32))
    } else if p.len() == 16 {
        Some(IpAddr::V6(be_nat(p) as u128))
    } else {
        None
    }
}

/// An address decoded from a payload has exactly the payload's octets.
pub proof fn lemma_payload_octets(p: Seq<u8>)
    requires
        p.len() == 4 || p.len() == 16,
    ensures
        ip_of_payload(p) matches Some(a) && a.octets() == p,
{
    lemma_be_round_trip(p);
    crate::wire::lemma_be_nat_bound(p);
    if p.len() == 4 {
        assert(crate::wire::pow256(4) == 0x1_0000_0000) by {
            reveal_with_fuel(crate::wire::pow256, 5);
        }
    } else {
        assert(crate::wire::pow256(16) == 0x1_0000_0000_0000_0000_0000_0000_0000_0000) by {
            reveal_with_fuel(crate::wire::pow256, 17);
        }
    }
}

/// An IPv4 address with a prefix length of at most 32.
#[derive(Clone, Copy, Debug, PartialEq, Eq, Hash, Structural)]
pub struct Ipv4Net {
    addr: u32,
    prefix_len: u8,
}

/// An IPv6 address with a prefix length of at most 128.
#[derive(Clone, Copy, Debug, PartialEq, Eq, Hash, Structural)]
pub struct Ipv6Net {
    addr: u128,
    prefix_len: u8,
}

impl Ipv4Net {
    #[verifier::type_invariant]
    spec fn inv(self) -> bool {
        self.prefix_len <= 32
    }

    pub closed spec fn spec_addr(self) -> u32 {
        self.addr
    }

    pub closed spec fn spec_prefix_len(self) -> u8 {
        self.prefix_len
    }

    /// The network of `addr` with `prefix_len` leading bits; `None` when
    /// `prefix_len` exceeds 32. The host bits of `addr` are kept.
    pub fn new(addr: u32, prefix_len: u8) -> (r: Option<Ipv4Net>)
        ensures
            r is Some <==> prefix_len <= 32,
            r matches Some(n) ==> n.spec_addr() == addr && n.spec_prefix_len() == prefix_len,
    {
        if prefix_len <= 32 {
            Some(Ipv4Net { addr, prefix_len })
        } else {
            None
        }
    }

    pub fn addr(&self) -> (r: u32)
        ensures
            r == self.spec_addr(),
    {
        self.addr
    }

    pub fn prefix_len(&self) -> (r: u8)
        ensures
            r == self.spec_prefix_len(),
            r <= 32,
    {
        proof {
            use_type_invariant(self);
        }
        self.prefix_len
    }
}

impl Ipv6Net {
    #[verifier::type_invariant]
    spec fn inv(self) -> bool {
        self.prefix_len <= 128
    }

    pub closed spec fn spec_addr(self) -> u128 {
        self.addr
    }

    pub closed spec fn spec_prefix_len(self) -> u8 {
        self.prefix_len
    }

    /// The network of `addr` with `prefix_len` leading bits; `None` when
    /// `prefix_len` exceeds 128. The host bits of `addr` are kept.
    pub fn new(addr: u128, prefix_len: u8) -> (r: Option<Ipv6Net>)
        ensures
            r is Some <==> prefix_len <= 128,
            r matches Some(n) ==> n.spec_addr() == addr && n.spec_prefix_len() == prefix_len,
    {
        if prefix_len <= 128 {
            Some(Ipv6Net { addr, prefix_len })
        } else {
            None
        }
    }

    pub fn addr(&self) -> (r: u128)
        ensures
            r == self.spec_addr(),
    {
        self.addr
    }

    pub fn prefix_len(&self) -> (r: u8)
        ensures
            r == self.spec_prefix_len(),
            r <= 128,
    {
        proof {
            use_type_invariant(self);
        }
        self.prefix_len
    }
}

/// A network: an address and a prefix length. Two networks are the same
/// entry of an address set when both parts are equal.
#[derive(Clone, Copy, Debug, PartialEq, Eq, Hash, Structural)]
pub enum IpNet {
    V4(Ipv4Net),
    V6(Ipv6Net),
}

/// The network of `ip` with `prefix_len` leading bits, the prefix length
/// being taken as valid.
pub closed spec fn net_of(ip: IpAddr, prefix_len: u8) -> IpNet {
    match ip {
        IpAddr::V4(a) => IpNet::V4(Ipv4Net { addr: a, prefix_len }),
        IpAddr::V6(a) => IpNet::V6(Ipv6Net { addr: a, prefix_len }),
    }
}

impl IpNet {
    pub open spec fn spec_addr(self) -> IpAddr {
        match self {
            IpNet::V4(n) => IpAddr::V4(n.spec_addr()),
            IpNet::V6(n) => IpAddr::V6(n.spec_addr()),
        }
    }

    pub open spec fn spec_prefix_len(self) -> u8 {
        match self {
            IpNet::V4(n) => n.spec_prefix_len(),
            IpNet::V6(n) => n.spec_prefix_len(),
        }
    }

    /// The network of `ip` with `prefix_len` leading bits; `None` when the
    /// prefix is longer than the address.
    pub fn from_addr(ip: IpAddr, prefix_len: u8) -> (r: Option<IpNet>)
        ensures
            r == (if prefix_len <= ip.max_prefix_len() {
                Some(net_of(ip, prefix_len))
            } else {
                None
            }),
            r matches Some(n) ==> n.spec_addr() == ip && n.spec_prefix_len() == prefix_len,
    {
        match ip {
            IpAddr::V4(a) => {
                if prefix_len <= 32 {
                    Some(IpNet::V4(Ipv4Net { addr: a, prefix_len }))
                } else {
                    None
                }
            },
            IpAddr::V6(a) => {
                if prefix_len <= 128 {
                    Some(IpNet::V6(Ipv6Net { addr: a, prefix_len }))
                } else {
                    None
                }
            },
        }
    }

    pub fn addr(&self) -> (r: IpAddr)
        ensures
            r == self.spec_addr(),
    {
        match self {
            IpNet::V4(n) => IpAddr::V4(n.addr()),
            IpNet::V6(n) => IpAddr::V6(n.addr()),
        }
    }

    pub fn prefix_len(&self) -> (r: u8)
        ensures
            r == self.spec_prefix_len(),
            r as nat <= self.spec_addr().max_prefix_len(),
    {
        match self {
            IpNet::V4(n) => n.prefix_len(),
            IpNet::V6(n) => n.prefix_len(),
        }
    }
}

/// A change of the host's networks.
#[derive(Clone, Copy, Debug, PartialEq, Eq, Hash, Structural)]
pub enum IfEvent {
    /// A network has been added.
    Up(IpNet),
    /// A network has been removed.
    Down(IpNet),
}

} // verus!
