//! The addresses of the machine's network interfaces, as the operating
//! system lists them, turned into endpoints. The port of such an endpoint
//! is not a port: it carries the length of the network prefix, which is
//! the number of leading one bits of the netmask.

use vstd::prelude::*;
use vstd::std_specs::bits::*;

use crate::inet::{ipv4_value, ipv6_value, InetAddress};

verus! {

broadcast use vstd::std_specs::bits::group_bits_axioms;

/// Gives access to an address structure through a reference to it.
pub fn s6_addr_as_ptr<A>(a: &A) -> (p: &A)
    ensures
        *p == *a,
{
    a
}

/// The number of one bits at the head of a netmask: eight for each leading
/// octet that is all ones, and the leading one bits of the first octet
/// that is not.
pub open spec fn prefix_length(mask: Seq<u8>) -> nat
    decreases mask.len(),
{
    if mask.len() == 0 {
        0
    } else if mask[0] == 0xff {
        8 + prefix_length(mask.skip(1))
    } else {
        u8_leading_ones(mask[0]) as nat
    }
}

/// Whether bit `i` of the netmask is one, counting from the highest bit of
/// the first octet.
pub open spec fn mask_bit(mask: Seq<u8>, i: int) -> bool
    recommends
        0 <= i < 8 * mask.len(),
{
    (mask[i / 8] >> ((7 - i % 8) as u8)) & 1u8 == 1u8
}

/// The prefix length is the place of the first zero bit: every bit before
/// it is one, and the bit at it is zero unless the netmask has no zero bit.
pub proof fn lemma_prefix_length(mask: Seq<u8>)
    ensures
        prefix_length(mask) <= 8 * mask.len(),
        forall|i: int| 0 <= i < prefix_length(mask) ==> #[trigger] mask_bit(mask, i),
        prefix_length(mask) < 8 * mask.len() ==> !mask_bit(mask, prefix_length(mask) as int),
    decreases mask.len(),
{
    if mask.len() > 0 {
        let rest = mask.skip(1);
        let b = mask[0];
        let n = u8_leading_ones(b);
        axiom_u8_leading_ones(b);
        if b == 0xff {
            lemma_prefix_length(rest);
            assert forall|i: int| 0 <= i < prefix_length(mask) implies #[trigger] mask_bit(
                mask,
                i,
            ) by {
                if i < 8 {
                    let j = (7 - i % 8) as u8;
                    assert(0 <= j < 8);
                    assert((0xffu8 >> j) & 1u8 == 1u8) by (bit_vector)
                        requires
                            0 <= j < 8,
                    ;
                } else {
                    assert(mask_bit(rest, i - 8));
                    assert(rest[(i - 8) / 8] == mask[i / 8]);
                    assert((i - 8) % 8 == i % 8);
                }
            }
            if prefix_length(mask) < 8 * mask.len() {
                let p = prefix_length(mask) as int;
                assert(!mask_bit(rest, p - 8));
                assert(rest[(p - 8) / 8] == mask[p / 8]);
                assert((p - 8) % 8 == p % 8);
            }
        } else {
            assert(n < 8);
            assert forall|i: int| 0 <= i < prefix_length(mask) implies #[trigger] mask_bit(
                mask,
                i,
            ) by {
                let j = (7 - i) as u8;
                assert(8 - n <= j < 8);
                assert((b >> j) & 1u8 == 1u8);
            }
            let j = (7 - n) as u8;
            assert((b >> j) & 1u8 == 0u8);
        }
    }
}

/// Counts the leading one bits of a netmask of at most sixteen octets.
fn leading_one_bits(mask: &[u8]) -> (bits: u16)
    requires
        mask@.len() <= 16,
    ensures
        bits == prefix_length(mask@),
        bits <= 8 * mask@.len(),
{
    let mut bits: u16 = 0;
    let mut i: usize = 0;
    proof {
        assert(mask@.skip(0) =~= mask@);
    }
    while i < mask.len()
        invariant
            i <= mask@.len(),
            mask@.len() <= 16,
            bits == 8 * i,
            prefix_length(mask@) == 8 * i + prefix_length(mask@.skip(i as int)),
        decreases mask@.len() - i,
    {
        let b = mask[i];
        proof {
            assert(mask@.skip(i as int)[0] == b);
            assert(mask@.skip(i as int).skip(1) =~= mask@.skip(i + 1));
            axiom_u8_leading_ones(b);
        }
        if b == 0xff {
            bits += 8;
        } else {
            let ones = b.leading_ones();
            return bits + ones as u16;
        }
        i += 1;
    }
    proof {
        assert(mask@.skip(i as int).len() == 0);
        lemma_prefix_length(mask@);
    }
    bits
}

/// The prefix length that an IPv4 netmask stands for.
pub fn netmask_bits_v4(mask: &[u8; 4]) -> (bits: u16)
    ensures
        bits == prefix_length(mask@),
        bits <= 32,
{
    leading_one_bits(mask.as_slice())
}

/// The prefix length that an IPv6 netmask stands for.
pub fn netmask_bits_v6(mask: &[u8; 16]) -> (bits: u16)
    ensures
        bits == prefix_length(mask@),
        bits <= 128,
{
    leading_one_bits(mask.as_slice())
}

/// A socket address as the operating system gives it, told apart by its
/// family. The octets are in network order.
#[derive(Clone, Copy, Debug, PartialEq, Eq)]
#[allow(inconsistent_fields)]
pub enum SocketAddress {
    Inet { octets: [u8; 4] },
    Inet6 { octets: [u8; 16] },
    Other,
}

/// One entry of the operating system's list of interface addresses. Any
/// of its parts may be missing.
#[derive(Clone, Debug, PartialEq, Eq)]
pub struct InterfaceRecord {
    pub address: Option<SocketAddress>,
    pub netmask: Option<SocketAddress>,
    pub name: Option<String>,
}

/// The endpoint that an entry stands for: its address, with the prefix
/// length of its netmask in place of the port. The prefix length is zero
/// if the netmask is missing or of another family. An entry without an
/// address, or with an address that is neither IPv4 nor IPv6, stands for
/// no endpoint.
pub open spec fn record_endpoint(record: &InterfaceRecord) -> Option<InetAddress> {
    match record.address {
        Some(SocketAddress::Inet { octets }) => Some(
            InetAddress::V4 {
                port: match record.netmask {
                    Some(SocketAddress::Inet { octets: mask }) => prefix_length(mask@) as u16,
                    _ => 0,
                },
                ip: ipv4_value(octets@) as u32,
            },
        ),
        Some(SocketAddress::Inet6 { octets }) => Some(
            InetAddress::V6 {
                port: match record.netmask {
                    Some(SocketAddress::Inet6 { octets: mask }) => prefix_length(mask@) as u16,
                    _ => 0,
                },
                ip: ipv6_value(octets@) as u128,
            },
        ),
        _ => None,
    }
}

/// What an entry contributes to the list of interface addresses: its
/// endpoint and the name of its device, if it has both.
pub open spec fn record_entry(record: &InterfaceRecord) -> Option<(InetAddress, String)> {
    match (record_endpoint(record), record.name) {
        (Some(endpoint), Some(name)) => Some((endpoint, name)),
        _ => None,
    }
}

/// The interface addresses that a list of entries stands for, in the
/// order of the entries.
pub open spec fn listed_addresses(records: Seq<InterfaceRecord>) -> Seq<(InetAddress, String)>
    decreases records.len(),
{
    if records.len() == 0 {
        Seq::empty()
    } else {
        let before = listed_addresses(records.drop_last());
        match record_entry(&records.last()) {
            Some(entry) => before.push(entry),
            None => before,
        }
    }
}

/// The endpoint that an entry stands for, if it stands for one.
pub fn endpoint_of(record: &InterfaceRecord) -> (endpoint: Option<InetAddress>)
    ensures
        endpoint == record_endpoint(record),
{
    match &record.address {
        Some(SocketAddress::Inet { octets }) => {
            let bits = match &record.netmask {
                Some(SocketAddress::Inet { octets: mask }) => netmask_bits_v4(mask),
                _ => 0,
            };
            Some(InetAddress::from_ipv4(octets, bits))
        },
        Some(SocketAddress::Inet6 { octets }) => {
            let bits = match &record.netmask {
                Some(SocketAddress::Inet6 { octets: mask }) => netmask_bits_v6(mask),
                _ => 0,
            };
            Some(InetAddress::from_ipv6(octets, bits))
        },
        _ => None,
    }
}

/// Goes through the operating system's list of interface addresses and
/// gives, for each entry that has an IPv4 or IPv6 address and a device
/// name, its endpoint and the name. Other entries are passed over.
pub fn for_each_address(records: &Vec<InterfaceRecord>) -> (found: Vec<(InetAddress, String)>)
    ensures
        found@ == listed_addresses(records@),
{
    let mut found: Vec<(InetAddress, String)> = Vec::new();
    let mut i: usize = 0;
    while i < records.len()
        invariant
            i <= records@.len(),
            found@ == listed_addresses(records@.take(i as int)),
        decreases records@.len() - i,
    {
        let record = &records[i];
        proof {
            assert(records@.take(i + 1).drop_last() =~= records@.take(i as int));
            assert(records@.take(i + 1).last() == records@[i as int]);
        }
        match endpoint_of(record) {
            Some(endpoint) => {
                match &record.name {
                    Some(name) => {
                        found.push((endpoint, name.clone()));
                    },
                    None => {},
                }
            },
            None => {},
        }
        i += 1;
    }
    proof {
        assert(records@.take(i as int) =~= records@);
    }
    found
}

} // verus!
