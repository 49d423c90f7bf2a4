//! Identifiers that cross the boundary between the host and the engine.

use vstd::prelude::*;

verus! {

/// The 64-bit identifier of a virtual network.
#[derive(Clone, Copy, Debug, PartialEq, Eq, Structural, PartialOrd, Ord, Hash)]
pub struct NetworkId(pub u64);

/// The identifier of a node; only its low forty bits carry meaning.
#[derive(Clone, Copy, Debug, PartialEq, Eq, Structural, PartialOrd, Ord, Hash)]
pub struct Address(pub u64);

/// An Ethernet hardware address, held in the low forty-eight bits.
#[derive(Clone, Copy, Debug, PartialEq, Eq, Structural, PartialOrd, Ord, Hash)]
pub struct MAC(pub u64);

/// A multicast group: a hardware address and an additional distinguishing value.
#[derive(Clone, Copy, Debug, PartialEq, Eq, Structural, PartialOrd, Ord, Hash)]
pub struct MulticastGroup {
    pub mac: MAC,
    pub adi: u32,
}

/// The short form of a node's identity: its address and a hash of its keys.
#[derive(Clone, Copy, Debug, PartialEq, Eq)]
pub struct Fingerprint {
    pub address: Address,
    pub hash: [u8; 48],
}

/// The identity of a node in the text form in which the engine writes it.
/// The host carries it to the event handler and never looks inside.
#[derive(Clone, Debug, PartialEq, Eq)]
pub struct Identity {
    pub address: Address,
    /// The public part of the identity.
    pub public: String,
    /// The identity with its secret part, where the host has it.
    pub secret: Option<String>,
}

/// The value of six octets read as one big-endian number.
pub open spec fn mac_value(o: Seq<u8>) -> int
    recommends
        o.len() == 6,
{
    o[0] as int * 0x100_0000_0000 + o[1] as int * 0x1_0000_0000 + o[2] as int * 0x100_0000
        + o[3] as int * 0x1_0000 + o[4] as int * 0x100 + o[5] as int
}

impl MAC {
    /// Builds a hardware address from its six octets, first octet highest.
    pub fn from_octets(octets: &[u8; 6]) -> (mac: MAC)
        ensures
            mac.0 as int == mac_value(octets@),
            mac.0 < 0x1_0000_0000_0000,
    {
        let b0: u64 = octets[0] as u64;
        let b1: u64 = octets[1] as u64;
        let b2: u64 = octets[2] as u64;
        let b3: u64 = octets[3] as u64;
        let b4: u64 = octets[4] as u64;
        let b5: u64 = octets[5] as u64;
        MAC(
            b0 * 0x100_0000_0000 + b1 * 0x1_0000_0000 + b2 * 0x100_0000 + b3 * 0x1_0000 + b4
                * 0x100 + b5,
        )
    }
}

} // verus!
