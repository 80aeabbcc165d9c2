//! IPv4 addresses.

use vstd::prelude::*;

verus! {

/// An IPv4 address: four octets, most significant first.
#[derive(Clone, Copy, Debug, PartialEq, Eq, Hash)]
pub struct Ipv4Addr {
    octets: [u8; 4],
}

impl View for Ipv4Addr {
    type V = Seq<u8>;

    /// The four octets, in the order in which the address is written down.
    closed spec fn view(&self) -> Seq<u8> {
        self.octets@
    }
}

/// **An address has four octets.**
pub proof fn law_address_length(address: Ipv4Addr)
    ensures
        address@.len() == 4,
{
}

impl Ipv4Addr {
    /// The address `a.b.c.d`.
    pub fn new(a: u8, b: u8, c: u8, d: u8) -> (address: Self)
        ensures
            address@ == seq![a, b, c, d],
    {
        let address = Ipv4Addr { octets: [a, b, c, d] };
        assert(address@ =~= seq![a, b, c, d]);
        address
    }

    /// The four octets of this address, in the order in which it is written down.
    pub fn octets(&self) -> (octets: [u8; 4])
        ensures
            octets@ == self@,
    {
        self.octets
    }
}

} // verus!
