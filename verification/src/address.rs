//! Internet addresses as numbers, and the questions the engine asks of them.

use vstd::prelude::*;

verus! {

/// An IPv4 address, held as its 32 bits in network order.
#[derive(Clone, Copy, Debug, PartialEq, Eq, Structural)]
pub struct Ipv4 {
    pub bits: u32,
}

/// An IPv6 address, held as its 128 bits in network order.
#[derive(Clone, Copy, Debug, PartialEq, Eq, Structural)]
pub struct Ipv6 {
    pub bits: u128,
}

/// Either kind of address.
#[derive(Clone, Copy, Debug, PartialEq, Eq, Structural)]
pub enum Address {
    V4(Ipv4),
    V6(Ipv6),
}

/// The two address families, which are also the two record types the engine manages.
#[derive(Clone, Copy, Debug, PartialEq, Eq, Structural)]
pub enum Family {
    V4,
    V6,
}

/// The number that four octets stand for, first octet most significant.
pub open spec fn ipv4_value(a: u8, b: u8, c: u8, d: u8) -> int {
    a as int * 0x100_0000 + b as int * 0x1_0000 + c as int * 0x100 + d as int
}

/// The number that a sequence of 16-bit groups stands for, first group most significant.
pub open spec fn groups_value(groups: Seq<u16>) -> nat
    decreases groups.len(),
{
    if groups.len() == 0 {
        0
    } else {
        groups_value(groups.drop_last()) * 0x1_0000 + groups.last() as nat
    }
}

/// 2 to the power 16 * n, for the n that an address can ask for.
pub open spec fn group_weight(n: nat) -> nat
    decreases n,
{
    if n == 0 {
        1
    } else {
        group_weight((n - 1) as nat) * 0x1_0000
    }
}

/// A sequence of groups stands for a number below the weight of the next group.
pub proof fn lemma_groups_value_bound(groups: Seq<u16>)
    ensures
        groups_value(groups) < group_weight(groups.len()),
    decreases groups.len(),
{
    if groups.len() > 0 {
        lemma_groups_value_bound(groups.drop_last());
    }
}

impl Ipv4 {
    /// The address with the given octets, as they are written from left to right.
    pub fn new(a: u8, b: u8, c: u8, d: u8) -> (r: Ipv4)
        ensures
            r.bits == ipv4_value(a, b, c, d),
    {
        let bits: u32 = (a as u32) * 0x100_0000 + (b as u32) * 0x1_0000 + (c as u32) * 0x100 + (
        d as u32);
        Ipv4 { bits }
    }

    /// The four octets, as they are written from left to right.
    pub fn octets(&self) -> (r: (u8, u8, u8, u8))
        ensures
            ipv4_value(r.0, r.1, r.2, r.3) == self.bits,
    {
        let a: u32 = self.bits / 0x100_0000;
        let b: u32 = (self.bits / 0x1_0000) % 0x100;
        let c: u32 = (self.bits / 0x100) % 0x100;
        let d: u32 = self.bits % 0x100;
        (a as u8, b as u8, c as u8, d as u8)
    }
}

impl Ipv6 {
    /// Whether the address lies in fe80::/10, the link-local unicast range.
    pub open spec fn spec_is_link_local(self) -> bool {
        self.bits >> 118u128 == 0x3fa
    }

    /// Whether the address lies in fc00::/7, the unique-local range.
    pub open spec fn spec_is_unique_local(self) -> bool {
        self.bits >> 121u128 == 0x7e
    }

    /// Whether the engine may publish the address: it is neither link-local nor
    /// unique-local.
    pub open spec fn spec_is_global(self) -> bool {
        !self.spec_is_link_local() && !self.spec_is_unique_local()
    }

    /// Whether the address lies in fe80::/10, the link-local unicast range.
    #[verifier::when_used_as_spec(spec_is_link_local)]
    pub fn is_link_local(self) -> (r: bool)
        ensures
            r == self.spec_is_link_local(),
    {
        self.bits >> 118u128 == 0x3fa
    }

    /// Whether the address lies in fc00::/7, the unique-local range.
    #[verifier::when_used_as_spec(spec_is_unique_local)]
    pub fn is_unique_local(self) -> (r: bool)
        ensures
            r == self.spec_is_unique_local(),
    {
        self.bits >> 121u128 == 0x7e
    }

    /// Whether the engine may publish the address: it is neither link-local nor
    /// unique-local.
    #[verifier::when_used_as_spec(spec_is_global)]
    pub fn is_global(self) -> (r: bool)
        ensures
            r == self.spec_is_global(),
    {
        !self.is_link_local() && !self.is_unique_local()
    }
}

impl Address {
    /// The family of the address.
    pub open spec fn spec_family(&self) -> Family {
        match *self {
            Address::V4(_) => Family::V4,
            Address::V6(_) => Family::V6,
        }
    }

    /// The family of the address, which decides the type of record that holds it.
    #[verifier::when_used_as_spec(spec_family)]
    pub fn family(&self) -> (r: Family)
        ensures
            r == self.spec_family(),
    {
        match self {
            Address::V4(_) => Family::V4,
            Address::V6(_) => Family::V6,
        }
    }
}

/// A range of IPv6 addresses: all those that share the first `length` bits of `network`.
#[derive(Clone, Copy, Debug, PartialEq, Eq, Structural)]
pub struct Ipv6Prefix {
    pub network: Ipv6,
    pub length: u8,
}

impl Ipv6Prefix {
    /// A prefix is at most as long as an address.
    pub open spec fn wf(self) -> bool {
        self.length <= 128
    }

    /// The number of trailing bits that the prefix leaves open.
    pub open spec fn spec_free_bits(&self) -> u128 {
        if self.length >= 128 {
            0u128
        } else {
            (128 - self.length) as u128
        }
    }

    /// Whether `address` shares the first `length` bits of `network`. A prefix of
    /// length 0 contains every address.
    pub open spec fn spec_contains(&self, address: Ipv6) -> bool {
        self.length == 0 || (address.bits >> self.spec_free_bits()) == (self.network.bits
            >> self.spec_free_bits())
    }

    /// Whether `address` shares the first `length` bits of `network`.
    #[verifier::when_used_as_spec(spec_contains)]
    pub fn contains(&self, address: Ipv6) -> (r: bool)
        ensures
            r == self.spec_contains(address),
    {
        if self.length == 0 {
            true
        } else {
            let shift: u128 = if self.length >= 128 {
                0
            } else {
                (128 - self.length) as u128
            };
            (address.bits >> shift) == (self.network.bits >> shift)
        }
    }
}

/// Whether some prefix of the list contains the address.
pub open spec fn spec_any_contains(prefixes: Seq<Ipv6Prefix>, address: Ipv6) -> bool {
    exists|i: int| 0 <= i < prefixes.len() && (#[trigger] prefixes[i]).spec_contains(address)
}

/// Whether some prefix of the list contains the address.
pub fn any_contains(prefixes: &Vec<Ipv6Prefix>, address: Ipv6) -> (r: bool)
    ensures
        r == spec_any_contains(prefixes@, address),
{
    let mut i: usize = 0;
    while i < prefixes.len()
        invariant
            i <= prefixes.len(),
            forall|j: int| 0 <= j < i ==> !(#[trigger] prefixes[j]).spec_contains(address),
        decreases prefixes.len() - i,
    {
        if prefixes[i].contains(address) {
            return true;
        }
        i += 1;
    }
    false
}

} // verus!
