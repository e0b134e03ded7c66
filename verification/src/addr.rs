//! The 4-byte network address of IPv4.

use crate::text::{decimal, push_decimal};
use crate::wire::be32;
use vstd::prelude::*;
use vstd::string::StringExecFns;

verus! {

/// An IPv4 address: four bytes that are read as one big-endian 32-bit value.
#[derive(Clone, Copy, Debug, PartialEq, Eq, Structural)]
pub struct Ipv4Addr {
    bits: u32,
}

/// The dotted-decimal form of the address whose 32-bit value is `bits`.
pub open spec fn dotted(bits: u32) -> Seq<char> {
    decimal((bits / 16777216) as nat) + seq!['.'] + decimal(((bits / 65536) % 256) as nat)
        + seq!['.'] + decimal(((bits / 256) % 256) as nat) + seq!['.'] + decimal(
        (bits % 256) as nat,
    )
}

impl Ipv4Addr {
    /// The address as a 32-bit value, first byte most significant.
    pub closed spec fn bits(self) -> u32 {
        self.bits
    }

    /// The address whose 32-bit value is `bits`.
    pub fn from_bits(bits: u32) -> (a: Self)
        ensures
            a.bits() == bits,
    {
        Ipv4Addr { bits }
    }

    /// The address `a.b.c.d`.
    pub fn new(a: u8, b: u8, c: u8, d: u8) -> (addr: Self)
        ensures
            addr.bits() == be32(a, b, c, d),
    {
        Ipv4Addr { bits: crate::wire::u32_from_be(a, b, c, d) }
    }

    /// The address as a 32-bit value, first byte most significant.
    pub fn to_bits(&self) -> (bits: u32)
        ensures
            bits == self.bits(),
    {
        self.bits
    }

    /// The four bytes of the address, in the order they are written.
    pub fn octets(&self) -> (o: [u8; 4])
        ensures
            o@ == crate::wire::be32_bytes(self.bits()),
    {
        let v = self.bits;
        let o = [
            (v / 16777216) as u8,
            ((v / 65536) % 256) as u8,
            ((v / 256) % 256) as u8,
            (v % 256) as u8,
        ];
        assert(o@ =~= crate::wire::be32_bytes(v));
        o
    }

    /// The address in dotted-decimal text.
    pub fn to_string(&self) -> (s: String)
        ensures
            s@ == dotted(self.bits()),
    {
        proof {
            reveal_strlit(".");
        }
        let o = self.octets();
        let mut s = String::new();
        push_decimal(&mut s, o[0]);
        s.append(".");
        push_decimal(&mut s, o[1]);
        s.append(".");
        push_decimal(&mut s, o[2]);
        s.append(".");
        push_decimal(&mut s, o[3]);
        assert("."@ =~= seq!['.']);
        assert(s@ =~= dotted(self.bits()));
        s
    }
}

} // verus!
