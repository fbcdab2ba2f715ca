//! Interface addresses as an address enumeration reports them (an address
//! and its netmask), and the networks they stand for.
use crate::net::{net_of, IpAddr, IpNet};
use vstd::prelude::*;

verus! {

/// `2` to the power `n`.
pub open spec fn pow2(n: nat) -> nat
    decreases n,
{
    if n == 0 {
        1
    } else {
        2 * pow2((n - 1) as nat)
    }
}

/// Number of leading one bits of `m` written with `width` bits.
pub open spec fn leading_ones(m: nat, width: nat) -> nat
    decreases width,
{
    if width == 0 {
        0
    } else if m >= pow2((width - 1) as nat) {
        1 + leading_ones((m - pow2((width - 1) as nat)) as nat, (width - 1) as nat)
    } else {
        0
    }
}

proof fn lemma_pow2_add(a: nat, b: nat)
    ensures
        pow2(a + b) == pow2(a) * pow2(b),
    decreases a,
{
    let x = pow2(a);
    let y = pow2(b);
    let z = pow2(a + b);
    if a == 0 {
        assert(a + b == b);
        assert(x == 1);
        assert(z == x * y) by (nonlinear_arith)
            requires
                x == 1,
                z == y,
        ;
    } else {
        let a1 = (a - 1) as nat;
        lemma_pow2_add(a1, b);
        let x1 = pow2(a1);
        let z1 = pow2(a1 + b);
        assert(x == 2 * x1);
        assert(a + b == (a1 + b) + 1);
        assert(z == 2 * z1);
        assert(z == x * y) by (nonlinear_arith)
            requires
                x == 2 * x1,
                z == 2 * z1,
                z1 == x1 * y,
        ;
    }
}

proof fn lemma_pow2_values()
    ensures
        pow2(31) == 0x8000_0000,
        pow2(32) == 0x1_0000_0000,
        pow2(127) == 0x8000_0000_0000_0000_0000_0000_0000_0000,
        pow2(128) == 0x1_0000_0000_0000_0000_0000_0000_0000_0000,
{
    reveal_with_fuel(pow2, 33);
    lemma_pow2_add(32, 32);
    lemma_pow2_add(64, 32);
    lemma_pow2_add(96, 31);
    lemma_pow2_add(96, 32);
}

/// Number of leading one bits of the `width`-bit netmask `mask`: the prefix
/// length it stands for.
pub fn netmask_prefix_len(mask: u128, width: u32) -> (r: u8)
    requires
        width == 32 || width == 128,
        mask < pow2(width as nat),
    ensures
        r == leading_ones(mask as nat, width as nat),
        r <= width,
{
    proof {
        lemma_pow2_values();
    }
    let mut top: u128 = if width == 32 {
        0x8000_0000
    } else {
        0x8000_0000_0000_0000_0000_0000_0000_0000
    };
    let mut v: u128 = mask;
    let mut w: u32 = width;
    let mut n: u8 = 0;
    while w > 0 && v >= top
        invariant
            w <= width <= 128,
            n + w == width,
            w > 0 ==> top == pow2((w - 1) as nat),
            v < pow2(w as nat),
            leading_ones(mask as nat, width as nat) == n + leading_ones(v as nat, w as nat),
        decreases w,
    {
        v = v - top;
        w = w - 1;
        n = n + 1;
        top = top / 2;
    }
    n
}

/// An IPv4 interface address and its netmask, each held as the number its
/// octets spell in network order.
#[derive(Clone, Copy, Debug, PartialEq, Eq, Structural)]
pub struct Ifv4Addr {
    pub ip: u32,
    pub netmask: u32,
}

/// An IPv6 interface address and its netmask, each held as the number its
/// octets spell in network order.
#[derive(Clone, Copy, Debug, PartialEq, Eq, Structural)]
pub struct Ifv6Addr {
    pub ip: u128,
    pub netmask: u128,
}

/// An interface address.
#[derive(Clone, Copy, Debug, PartialEq, Eq, Structural)]
pub enum IfAddr {
    V4(Ifv4Addr),
    V6(Ifv6Addr),
}

/// The network of an interface address: its address, with as many prefix
/// bits as its netmask has leading ones.
pub open spec fn ifaddr_net(addr: IfAddr) -> IpNet {
    match addr {
        IfAddr::V4(a) => net_of(IpAddr::V4(a.ip), leading_ones(a.netmask as nat, 32) as u8),
        IfAddr::V6(a) => net_of(IpAddr::V6(a.ip), leading_ones(a.netmask as nat, 128) as u8),
    }
}

/// The network of an interface address; see `ifaddr_net`.
pub fn ifaddr_to_ipnet(addr: IfAddr) -> (r: IpNet)
    ensures
        r == ifaddr_net(addr),
{
    proof {
        lemma_pow2_values();
    }
    match addr {
        IfAddr::V4(a) => {
            let p = netmask_prefix_len(a.netmask as u128, 32);
            IpNet::from_addr(IpAddr::V4(a.ip), p).unwrap()
        },
        IfAddr::V6(a) => {
            let p = netmask_prefix_len(a.netmask, 128);
            IpNet::from_addr(IpAddr::V6(a.ip), p).unwrap()
        },
    }
}

} // verus!
