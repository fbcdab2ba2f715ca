//! Byte-level helpers shared by the record decoders. Netlink headers carry
//! their integers in the host's byte order, which these decoders take to be
//! little-endian; addresses are in network order (big-endian).
use vstd::prelude::*;

verus! {

/// `n` rounded up to the next multiple of four.
pub open spec fn align4(n: int) -> int {
    (n + 3) / 4 * 4
}

/// The unsigned 16-bit value stored little-endian at offset `i` of `b`.
pub open spec fn le_u16(b: Seq<u8>, i: int) -> u16 {
    (b[i] as int + 0x100 * b[i + 1] as int) as u16
}

/// The unsigned 32-bit value stored little-endian at offset `i` of `b`.
pub open spec fn le_u32(b: Seq<u8>, i: int) -> u32 {
    (b[i] as int + 0x100 * b[i + 1] as int + 0x10000 * b[i + 2] as int + 0x1000000
        * b[i + 3] as int) as u32
}

pub fn align4_exec(n: usize) -> (r: usize)
    requires
        n <= 0x100000,
    ensures
        r == align4(n as int),
{
    (n + 3) / 4 * 4
}

pub fn read_u16(b: &[u8], i: usize) -> (r: u16)
    requires
        i + 2 <= b@.len(),
    ensures
        r == le_u16(b@, i as int),
{
    b[i] as u16 + 0x100 * (b[i + 1] as u16)
}

pub fn read_u32(b: &[u8], i: usize) -> (r: u32)
    requires
        i + 4 <= b@.len(),
    ensures
        r == le_u32(b@, i as int),
{
    b[i] as u32 + 0x100 * (b[i + 1] as u32) + 0x10000 * (b[i + 2] as u32) + 0x1000000 * (b[i
        + 3] as u32)
}

} // verus!

verus! {

/// `256` to the power `n`.
pub open spec fn pow256(n: nat) -> nat
    decreases n,
{
    if n == 0 {
        1
    } else {
        256 * pow256((n - 1) as nat)
    }
}

/// The number whose big-endian (network order) bytes are `b`.
pub open spec fn be_nat(b: Seq<u8>) -> nat
    decreases b.len(),
{
    if b.len() == 0 {
        0
    } else {
        be_nat(b.drop_last()) * 256 + b.last() as nat
    }
}

/// The `n` low-order bytes of `v`, most significant first.
pub open spec fn be_bytes(v: nat, n: nat) -> Seq<u8>
    decreases n,
{
    if n == 0 {
        Seq::empty()
    } else {
        be_bytes(v / 256, (n - 1) as nat).push((v % 256) as u8)
    }
}

pub proof fn lemma_pow256_mono(a: nat, b: nat)
    requires
        a <= b,
    ensures
        pow256(a) <= pow256(b),
    decreases b,
{
    if a < b {
        lemma_pow256_mono(a, (b - 1) as nat);
    }
}

pub proof fn lemma_be_nat_bound(b: Seq<u8>)
    ensures
        be_nat(b) < pow256(b.len()),
    decreases b.len(),
{
    if b.len() > 0 {
        let d = b.drop_last();
        lemma_be_nat_bound(d);
        let x = be_nat(d);
        let p = pow256(d.len());
        let y = b.last() as nat;
        assert(x * 256 + y < 256 * p) by (nonlinear_arith)
            requires
                x < p,
                y < 256,
        ;
    }
}

/// Reading the bytes of a number back gives the bytes: a number read from
/// a byte string holds every bit of it.
pub proof fn lemma_be_round_trip(b: Seq<u8>)
    ensures
        be_bytes(be_nat(b), b.len()) == b,
    decreases b.len(),
{
    if b.len() > 0 {
        let d = b.drop_last();
        lemma_be_round_trip(d);
        let v = be_nat(b);
        vstd::arithmetic::div_mod::lemma_fundamental_div_mod_converse(
            v as int,
            256,
            be_nat(d) as int,
            b.last() as int,
        );
        assert(b =~= d.push(b.last()));
    }
}

} // verus!
