//! The networks that the node has joined, each with the object that the
//! host keeps for it.

use std::collections::HashMap;
use std::sync::Arc;
use vstd::prelude::*;
use vstd::std_specs::hash::*;
use vstd::std_specs::iter::IteratorSpec;

use crate::ident::NetworkId;

verus! {

broadcast use vstd::std_specs::hash::group_hash_axioms;

/// A map from the identifier of a joined network to the object that the
/// host keeps for it. The registry owns one handle to each object from the
/// time the network is registered until it is removed, and hands each
/// handle back exactly once.
pub struct NetworkRegistry<N> {
    networks: HashMap<u64, Arc<N>>,
}

impl<N> View for NetworkRegistry<N> {
    type V = Map<u64, Arc<N>>;

    closed spec fn view(&self) -> Map<u64, Arc<N>> {
        self.networks@
    }
}

impl<N> NetworkRegistry<N> {
    /// A registry without networks.
    pub fn new() -> (r: Self)
        ensures
            r@ == Map::<u64, Arc<N>>::empty(),
    {
        NetworkRegistry { networks: HashMap::new() }
    }

    /// The number of registered networks.
    pub fn len(&self) -> (n: usize)
        ensures
            n == self@.len(),
            self@.dom().finite(),
    {
        self.networks.len()
    }

    /// Whether the network is registered.
    pub fn contains(&self, network_id: NetworkId) -> (found: bool)
        ensures
            found == self@.contains_key(network_id.0),
    {
        self.networks.contains_key(&network_id.0)
    }

    /// The object of the network, if the network is registered.
    pub fn get(&self, network_id: NetworkId) -> (r: Option<&Arc<N>>)
        ensures
            r is Some <==> self@.contains_key(network_id.0),
            r matches Some(obj) ==> *obj == self@[network_id.0],
    {
        self.networks.get(&network_id.0)
    }

    /// Registers the network with its object. If the network was
    /// registered, the new object takes the place of the old one, which is
    /// handed back.
    pub fn insert(&mut self, network_id: NetworkId, network_obj: Arc<N>) -> (previous: Option<
        Arc<N>,
    >)
        ensures
            final(self)@ == old(self)@.insert(network_id.0, network_obj),
            previous is Some <==> old(self)@.contains_key(network_id.0),
            previous matches Some(obj) ==> obj == old(self)@[network_id.0],
    {
        self.networks.insert(network_id.0, network_obj)
    }

    /// Removes the network and hands its object back. Removing a network
    /// that is not registered changes nothing.
    pub fn remove(&mut self, network_id: NetworkId) -> (removed: Option<Arc<N>>)
        ensures
            final(self)@ == old(self)@.remove(network_id.0),
            removed is Some <==> old(self)@.contains_key(network_id.0),
            removed matches Some(obj) ==> obj == old(self)@[network_id.0],
    {
        self.networks.remove(&network_id.0)
    }

    /// The identifiers of the registered networks, each once, in no
    /// particular order.
    pub fn ids(&self) -> (ids: Vec<u64>)
        ensures
            ids@.no_duplicates(),
            ids@.to_set() == self@.dom(),
            ids@.len() == self@.len(),
    {
        let mut ids: Vec<u64> = Vec::new();
        let ghost keys = spec_keys_iter(&self.networks).remaining();
        for id in it: self.networks.keys()
            invariant
                it.seq() == keys,
                ids@.len() == it.index(),
                forall|k: int| 0 <= k < ids@.len() ==> ids@[k] == *it.seq()[k],
        {
            ids.push(*id);
        }
        proof {
            assert(ids@ =~= keys.unref());
        }
        ids
    }

    /// Takes every network out of the registry and hands back each object
    /// exactly once, with the identifier it was registered under.
    pub fn drain(&mut self) -> (released: Vec<(NetworkId, Arc<N>)>)
        ensures
            final(self)@ == Map::<u64, Arc<N>>::empty(),
            released@.len() == old(self)@.len(),
            forall|i: int|
                0 <= i < released@.len() ==> old(self)@.contains_key((#[trigger] released@[i]).0.0)
                    && released@[i].1 == old(self)@[released@[i].0.0],
            forall|i: int, j: int|
                0 <= i < j < released@.len() ==> (#[trigger] released@[i]).0 != (
                #[trigger] released@[j]).0,
            forall|id: u64|
                old(self)@.contains_key(id) ==> exists|i: int|
                    0 <= i < released@.len() && (#[trigger] released@[i]).0.0 == id,
    {
        let ids = self.ids();
        let mut released: Vec<(NetworkId, Arc<N>)> = Vec::new();
        let mut i: usize = 0;
        while i < ids.len()
            invariant
                i <= ids@.len(),
                ids@.no_duplicates(),
                ids@.to_set() == old(self)@.dom(),
                ids@.len() == old(self)@.len(),
                released@.len() == i,
                forall|k: int| 0 <= k < i ==> (#[trigger] released@[k]).0.0 == ids@[k],
                forall|k: int| 0 <= k < i ==> (#[trigger] released@[k]).1 == old(self)@[ids@[k]],
                forall|id: u64|
                    self@.contains_key(id) <==> exists|k: int|
                        i <= k < ids@.len() && #[trigger] ids@[k] == id,
                forall|id: u64| self@.contains_key(id) ==> self@[id] == old(self)@[id],
            decreases ids@.len() - i,
        {
            let id = ids[i];
            let ghost before = self@;
            assert(before.contains_key(id));
            match self.remove(NetworkId(id)) {
                Some(obj) => {
                    released.push((NetworkId(id), obj));
                },
                None => {},
            }
            proof {
                assert forall|other: u64|
                    self@.contains_key(other) <==> exists|k: int|
                        i + 1 <= k < ids@.len() && #[trigger] ids@[k] == other by {
                    if self@.contains_key(other) {
                        let k = choose|k: int| i <= k < ids@.len() && #[trigger] ids@[k] == other;
                        assert(k != i);
                    }
                    if exists|k: int| i + 1 <= k < ids@.len() && #[trigger] ids@[k] == other {
                        let k = choose|k: int|
                            i + 1 <= k < ids@.len() && #[trigger] ids@[k] == other;
                        assert(ids@[k] != ids@[i as int]);
                        assert(before.contains_key(other));
                    }
                }
            }
            i += 1;
        }
        proof {
            assert(self@ =~= Map::<u64, Arc<N>>::empty());
            assert forall|k: int| 0 <= k < released@.len() implies old(self)@.contains_key(
                (#[trigger] released@[k]).0.0,
            ) by {
                assert(ids@.to_set().contains(ids@[k]));
            }
            assert forall|id: u64| old(self)@.contains_key(id) implies exists|k: int|
                0 <= k < released@.len() && (#[trigger] released@[k]).0.0 == id by {
                assert(ids@.to_set().contains(id));
                let k = choose|k: int| 0 <= k < ids@.len() && ids@[k] == id;
                assert(released@[k].0.0 == id);
            }
        }
        released
    }
}

} // verus!
