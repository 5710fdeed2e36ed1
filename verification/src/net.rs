//! Plain-value address types used throughout the library.
//!
//! The tunnel works on raw IPv4/IPv6 addresses held as integers, so every
//! piece of address arithmetic (FakeDNS pools, packet builders) is stated
//! over mathematical integers.

use vstd::prelude::*;

verus! {

/// An IPv4 address held as its 32-bit big-endian integer value.
#[derive(Debug, Clone, Copy, PartialEq, Eq, Hash, Structural)]
pub struct Ipv4Address {
    pub bits: u32,
}

impl Ipv4Address {
    /// Build from the four dotted-quad octets.
    pub fn new(a: u8, b: u8, c: u8, d: u8) -> (r: Ipv4Address)
        ensures
            r.bits == a * 0x1000000 + b * 0x10000 + c * 0x100 + d,
    {
        Ipv4Address {
            bits: (a as u32) * 0x1000000 + (b as u32) * 0x10000 + (c as u32) * 0x100 + (d as u32),
        }
    }

    /// Build from the 32-bit value.
    pub fn from_bits(bits: u32) -> (r: Ipv4Address)
        ensures
            r.bits == bits,
    {
        Ipv4Address { bits }
    }

    /// The dotted-quad octets, most significant first.
    pub fn octets(&self) -> (r: [u8; 4])
        ensures
            r@ == spec_u32_be(self.bits),
    {
        let b0: u8 = (self.bits / 0x1000000) as u8;
        let b1: u8 = ((self.bits / 0x10000) % 0x100) as u8;
        let b2: u8 = ((self.bits / 0x100) % 0x100) as u8;
        let b3: u8 = (self.bits % 0x100) as u8;
        let r = [b0, b1, b2, b3];
        proof {
            assert(r@ =~= spec_u32_be(self.bits));
        }
        r
    }
}

/// An IPv6 address held as its 128-bit big-endian integer value.
#[derive(Debug, Clone, Copy, PartialEq, Eq, Hash, Structural)]
pub struct Ipv6Address {
    pub bits: u128,
}

impl Ipv6Address {
    /// Build from the 128-bit value.
    pub fn from_bits(bits: u128) -> (r: Ipv6Address)
        ensures
            r.bits == bits,
    {
        Ipv6Address { bits }
    }

    /// The sixteen octets, most significant first.
    pub fn octets(&self) -> (r: [u8; 16])
        ensures
            r@ == spec_u128_be(self.bits),
        decreases 0int,
    {
        let mut out: [u8; 16] = [0u8; 16];
        let mut i: usize = 0;
        while i < 16
            invariant
                i <= 16,
                out@.len() == 16,
                forall|j: int| 0 <= j < i ==> out@[j] == spec_u128_be(self.bits)[j],
            decreases 16 - i,
        {
            let shift: u32 = (15 - i as u32) * 8;
            let byte: u8 = ((self.bits >> shift) & 0xff) as u8;
            out[i] = byte;
            proof {
                let j = i as int;
                assert((shift as u128) == (((15 - j) * 8) as u128));
                assert(byte == spec_u128_byte(self.bits, j));
            }
            i = i + 1;
        }
        proof {
            assert(out@ =~= spec_u128_be(self.bits));
        }
        out
    }
}

/// The big-endian bytes of a 32-bit value.
pub open spec fn spec_u32_be(n: u32) -> Seq<u8> {
    seq![
        (n / 0x1000000) as u8,
        ((n / 0x10000) % 0x100) as u8,
        ((n / 0x100) % 0x100) as u8,
        (n % 0x100) as u8,
    ]
}

/// Byte `i` (big-endian, 0 = most significant) of a 128-bit value.
pub open spec fn spec_u128_byte(n: u128, i: int) -> u8 {
    ((n >> ((15 - i) * 8) as u128) & 0xff) as u8
}

/// The big-endian bytes of a 128-bit value.
pub open spec fn spec_u128_be(n: u128) -> Seq<u8> {
    Seq::new(16, |i: int| spec_u128_byte(n, i))
}

/// The 16-bit value read from two big-endian bytes.
pub open spec fn spec_u16_from_be(hi: u8, lo: u8) -> u16 {
    (hi * 0x100 + lo) as u16
}

/// Read a 16-bit value from two big-endian bytes.
pub fn u16_from_be(hi: u8, lo: u8) -> (r: u16)
    ensures
        r == spec_u16_from_be(hi, lo),
{
    (hi as u16) * 0x100 + (lo as u16)
}

/// The 32-bit value read from four big-endian bytes.
pub open spec fn spec_u32_from_be(b0: u8, b1: u8, b2: u8, b3: u8) -> u32 {
    (b0 * 0x1000000 + b1 * 0x10000 + b2 * 0x100 + b3) as u32
}

/// Write a 32-bit value as its four big-endian bytes.
pub fn u32_to_be(n: u32) -> (r: [u8; 4])
    ensures
        r@ == spec_u32_be(n),
{
    let r = [
        (n / 0x1000000) as u8,
        ((n / 0x10000) % 0x100) as u8,
        ((n / 0x100) % 0x100) as u8,
        (n % 0x100) as u8,
    ];
    proof {
        assert(r@ =~= spec_u32_be(n));
    }
    r
}

/// Read a 32-bit value from four big-endian bytes.
pub fn u32_from_be(b0: u8, b1: u8, b2: u8, b3: u8) -> (r: u32)
    ensures
        r == spec_u32_from_be(b0, b1, b2, b3),
{
    (b0 as u32) * 0x1000000 + (b1 as u32) * 0x10000 + (b2 as u32) * 0x100 + (b3 as u32)
}

/// Round-trip: encoding a 32-bit value and reading it back is the identity.
pub proof fn lemma_u32_be_round_trip(n: u32)
    ensures
        spec_u32_from_be(
            spec_u32_be(n)[0],
            spec_u32_be(n)[1],
            spec_u32_be(n)[2],
            spec_u32_be(n)[3],
        ) == n,
{
}

} // verus!
