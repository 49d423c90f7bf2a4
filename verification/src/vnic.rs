//! What the operating system's list of link-level multicast memberships
//! says about one device.

use vstd::prelude::*;

use crate::ident::{mac_value, MulticastGroup, MAC};

verus! {

/// Whether an entry of the list speaks of a multicast group of the device:
/// its hardware address has six octets, and the name in the entry is the
/// beginning of the device's name.
pub open spec fn entry_matches(device: Seq<u8>, entry_name: Seq<u8>, link_address: Seq<u8>) -> bool {
    link_address.len() == 6 && entry_name.is_prefix_of(device)
}

/// Whether `prefix` is the beginning of `whole`.
fn starts_with(whole: &[u8], prefix: &[u8]) -> (yes: bool)
    ensures
        yes == prefix@.is_prefix_of(whole@),
{
    if prefix.len() > whole.len() {
        return false;
    }
    let mut i: usize = 0;
    while i < prefix.len()
        invariant
            i <= prefix@.len(),
            prefix@.len() <= whole@.len(),
            forall|k: int| 0 <= k < i ==> prefix@[k] == whole@[k],
        decreases prefix@.len() - i,
    {
        if prefix[i] != whole[i] {
            proof {
                assert(whole@.subrange(0, prefix@.len() as int)[i as int] == whole@[i as int]);
            }
            return false;
        }
        i += 1;
    }
    proof {
        assert(prefix@ =~= whole@.subrange(0, prefix@.len() as int));
    }
    true
}

/// The multicast group that one entry of the list gives for the device
/// named `device`: the group of the entry's hardware address, if the entry
/// speaks of the device, and nothing else.
pub fn multicast_group_of(device: &[u8], entry_name: &[u8], link_address: &[u8]) -> (group: Option<
    MulticastGroup,
>)
    ensures
        group is Some <==> entry_matches(device@, entry_name@, link_address@),
        group matches Some(g) ==> g.adi == 0 && g.mac.0 as int == mac_value(link_address@),
{
    if link_address.len() == 6 && starts_with(device, entry_name) {
        let octets: [u8; 6] = [
            link_address[0],
            link_address[1],
            link_address[2],
            link_address[3],
            link_address[4],
            link_address[5],
        ];
        assert(octets@ =~= link_address@);
        Some(MulticastGroup { mac: MAC::from_octets(&octets), adi: 0 })
    } else {
        None
    }
}

} // verus!
