//! The local configuration that the service runs with. A configuration is a
//! complete value: it is replaced as a whole and never changed in place.

use std::collections::HashMap;
use vstd::prelude::*;

use crate::ident::Address;
use crate::inet::InetAddress;

verus! {

/// What is configured for one remote node.
#[derive(Clone, Debug, PartialEq, Eq)]
pub struct LocalConfigVirtualConfig {
    /// Endpoints to try when the engine knows no path to the node.
    pub try_: Vec<InetAddress>,
}

/// The settings of the service itself.
#[derive(Clone, Debug, PartialEq, Eq)]
pub struct LocalConfigSettings {
    pub primary_port: u16,
    pub secondary_port: Option<u16>,
    pub auto_port_search: bool,
    pub log_size_max: usize,
    pub log_to_stderr: bool,
    /// Names of the devices on which the service does not listen.
    pub interface_blacklist: Vec<String>,
}

/// One snapshot of the local configuration.
#[derive(Clone, Debug, PartialEq, Eq)]
pub struct LocalConfig {
    /// Per-node configuration, keyed by the node's address.
    pub virtual_: HashMap<u64, LocalConfigVirtualConfig>,
    pub settings: LocalConfigSettings,
}

impl LocalConfigSettings {
    /// Whether `device` is one of the blacklisted device names.
    pub open spec fn blacklists(&self, device: Seq<char>) -> bool {
        exists|i: int|
            0 <= i < self.interface_blacklist@.len() && (
            #[trigger] self.interface_blacklist@[i])@ == device
    }

    /// Whether the service must not listen on the device named `device`.
    pub fn is_interface_blacklisted(&self, device: &str) -> (listed: bool)
        ensures
            listed == self.blacklists(device@),
    {
        let name = device.to_owned();
        let mut i: usize = 0;
        while i < self.interface_blacklist.len()
            invariant
                i <= self.interface_blacklist@.len(),
                name@ == device@,
                forall|k: int| 0 <= k < i ==> (#[trigger] self.interface_blacklist@[k])@ != device@,
            decreases self.interface_blacklist@.len() - i,
        {
            if self.interface_blacklist[i] == name {
                return true;
            }
            i += 1;
        }
        false
    }
}

impl LocalConfig {
    /// The endpoints configured as fallbacks for the node `address`; none
    /// when nothing is configured for it.
    pub open spec fn fallback_endpoints(&self, address: Address) -> Seq<InetAddress> {
        if self.virtual_@.contains_key(address.0) {
            self.virtual_@[address.0].try_@
        } else {
            Seq::empty()
        }
    }
}

} // verus!
