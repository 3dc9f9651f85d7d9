//! Internet addresses as plain bytes.

use vstd::prelude::*;

verus! {

/// An IPv4 address: four octets, the first one written first.
#[derive(Clone, Copy, Debug, PartialEq, Eq, Structural)]
pub struct Ipv4Addr {
    pub a: u8,
    pub b: u8,
    pub c: u8,
    pub d: u8,
}

/// An IPv6 address: sixteen octets in network order.
#[derive(Clone, Copy, Debug)]
pub struct Ipv6Addr {
    pub octets: [u8; 16],
}

impl View for Ipv4Addr {
    type V = Seq<u8>;

    open spec fn view(&self) -> Seq<u8> {
        seq![self.a, self.b, self.c, self.d]
    }
}

impl View for Ipv6Addr {
    type V = Seq<u8>;

    open spec fn view(&self) -> Seq<u8> {
        self.octets@
    }
}

/// The octets of the IPv4-compatible IPv6 address of `v4`: twelve zero
/// octets, then the four octets of `v4`.
pub open spec fn ipv6_compatible(v4: Seq<u8>) -> Seq<u8> {
    Seq::new(12, |i: int| 0u8) + v4
}

impl Ipv4Addr {
    /// The address `a.b.c.d`.
    pub fn new(a: u8, b: u8, c: u8, d: u8) -> (address: Self)
        ensures
            address == (Ipv4Addr { a, b, c, d }),
    {
        Ipv4Addr { a, b, c, d }
    }

    /// The address `0.0.0.0`.
    pub fn unspecified() -> (address: Self)
        ensures
            address == (Ipv4Addr { a: 0, b: 0, c: 0, d: 0 }),
    {
        Ipv4Addr { a: 0, b: 0, c: 0, d: 0 }
    }

    /// The address made of `bytes`, where there are four of them.
    pub fn from_bytes(bytes: &[u8]) -> (address: Option<Self>)
        ensures
            bytes@.len() == 4 ==> address.is_some() && address.unwrap()@ == bytes@,
            bytes@.len() != 4 ==> address.is_none(),
    {
        if bytes.len() != 4 {
            return None;
        }
        let address = Ipv4Addr { a: bytes[0], b: bytes[1], c: bytes[2], d: bytes[3] };
        assert(address@ =~= bytes@);
        Some(address)
    }

    /// The four octets.
    pub fn octets(&self) -> (octets: [u8; 4])
        ensures
            octets@ == self@,
    {
        let octets = [self.a, self.b, self.c, self.d];
        assert(octets@ =~= self@);
        octets
    }

    /// The four octets, as a vector.
    pub fn to_vec(&self) -> (octets: Vec<u8>)
        ensures
            octets@ == self@,
    {
        let mut octets: Vec<u8> = Vec::new();
        octets.push(self.a);
        octets.push(self.b);
        octets.push(self.c);
        octets.push(self.d);
        assert(octets@ =~= self@);
        octets
    }

    /// The IPv4-compatible IPv6 address `::a.b.c.d`.
    pub fn to_ipv6_compatible(&self) -> (address: Ipv6Addr)
        ensures
            address@ == ipv6_compatible(self@),
    {
        let octets: [u8; 16] = [0, 0, 0, 0, 0, 0, 0, 0, 0, 0, 0, 0, self.a, self.b, self.c, self.d];
        assert(octets@ =~= ipv6_compatible(self@));
        Ipv6Addr { octets }
    }
}

impl Ipv6Addr {
    /// The address `::`.
    pub fn unspecified() -> (address: Self)
        ensures
            address@ == Seq::new(16, |i: int| 0u8),
    {
        let octets: [u8; 16] = [0u8; 16];
        assert(octets@ =~= Seq::new(16, |i: int| 0u8));
        Ipv6Addr { octets }
    }

    /// The address made of `bytes`, where there are sixteen of them.
    pub fn from_bytes(bytes: &[u8]) -> (address: Option<Self>)
        ensures
            bytes@.len() == 16 ==> address.is_some() && address.unwrap()@ == bytes@,
            bytes@.len() != 16 ==> address.is_none(),
    {
        if bytes.len() != 16 {
            return None;
        }
        let mut octets: [u8; 16] = [0u8; 16];
        let mut i: usize = 0;
        while i < 16
            invariant
                i <= 16,
                bytes@.len() == 16,
                forall|j: int| 0 <= j < i ==> octets@[j] == bytes@[j],
            decreases 16 - i,
        {
            octets[i] = bytes[i];
            i += 1;
        }
        assert(octets@ =~= bytes@);
        Some(Ipv6Addr { octets })
    }

    /// The sixteen octets, as a vector.
    pub fn to_vec(&self) -> (octets: Vec<u8>)
        ensures
            octets@ == self@,
    {
        let mut octets: Vec<u8> = Vec::new();
        let mut i: usize = 0;
        while i < 16
            invariant
                i <= 16,
                octets@.len() == i,
                forall|j: int| 0 <= j < i ==> octets@[j] == self.octets@[j],
            decreases 16 - i,
        {
            octets.push(self.octets[i]);
            i += 1;
        }
        assert(octets@ =~= self@);
        octets
    }
}

} // verus!
