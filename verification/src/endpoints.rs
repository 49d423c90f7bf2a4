//! An ordered map from endpoints to the devices that own them. Both the set
//! of endpoints that the service wants to listen on and the set that it is
//! bound to are such maps.

use vstd::prelude::*;

use crate::inet::InetAddress;

verus! {

/// An endpoint together with the name of the device that owns its address.
#[derive(Clone, Debug, PartialEq, Eq)]
pub struct Endpoint {
    pub address: InetAddress,
    pub device: String,
}

/// Whether the addresses of `s` strictly increase in the order of endpoints.
/// A sequence that does holds no address twice.
pub open spec fn strictly_ordered(s: Seq<Endpoint>) -> bool {
    forall|i: int, j: int| 0 <= i < j < s.len() ==> (#[trigger] s[i]).address.comes_before(
        (#[trigger] s[j]).address,
    )
}

/// Whether the addresses of `s` strictly increase in the order of endpoints.
pub open spec fn addresses_strictly_ordered(s: Seq<InetAddress>) -> bool {
    forall|i: int, j: int| 0 <= i < j < s.len() ==> (#[trigger] s[i]).comes_before(#[trigger] s[j])
}

/// Whether some entry of `s` has the address `a`.
pub open spec fn has_address(s: Seq<Endpoint>, a: InetAddress) -> bool {
    exists|i: int| 0 <= i < s.len() && (#[trigger] s[i]).address == a
}

/// The position of an entry of `s` with the address `a`.
pub open spec fn index_of(s: Seq<Endpoint>, a: InetAddress) -> int {
    choose|i: int| 0 <= i < s.len() && (#[trigger] s[i]).address == a
}

/// The map that the entries of `s` spell: each address of `s` goes to the
/// device of its entry.
pub open spec fn as_map(s: Seq<Endpoint>) -> Map<InetAddress, String> {
    Map::new(|a: InetAddress| has_address(s, a), |a: InetAddress| s[index_of(s, a)].device)
}

/// In a strictly ordered sequence an address is found at one place only.
pub proof fn lemma_index_unique(s: Seq<Endpoint>, i: int)
    requires
        strictly_ordered(s),
        0 <= i < s.len(),
    ensures
        has_address(s, s[i].address),
        index_of(s, s[i].address) == i,
        as_map(s).contains_key(s[i].address),
        as_map(s)[s[i].address] == s[i].device,
{
    let j = index_of(s, s[i].address);
    assert(0 <= j < s.len() && s[j].address == s[i].address);
    if j < i {
        assert(s[j].address.comes_before(s[i].address));
    } else if i < j {
        assert(s[i].address.comes_before(s[j].address));
    }
}

/// A strictly ordered sequence is fixed by the map it spells: two such
/// sequences with the same map are the same sequence.
pub proof fn lemma_ordered_entries_determined(s: Seq<Endpoint>, t: Seq<Endpoint>)
    requires
        strictly_ordered(s),
        strictly_ordered(t),
        as_map(s) == as_map(t),
    ensures
        s == t,
    decreases s.len(),
{
    if s.len() == 0 {
        if t.len() > 0 {
            lemma_index_unique(t, 0);
            assert(as_map(s).contains_key(t[0].address));
        }
        assert(s =~= t);
    } else if t.len() == 0 {
        lemma_index_unique(s, 0);
        assert(as_map(t).contains_key(s[0].address));
    } else {
        // The last entries agree: each is the greatest address of the map.
        let sl = s.len() - 1;
        let tl = t.len() - 1;
        lemma_index_unique(s, sl);
        lemma_index_unique(t, tl);
        assert(as_map(t).contains_key(s[sl].address));
        assert(as_map(s).contains_key(t[tl].address));
        let k = index_of(t, s[sl].address);
        let m = index_of(s, t[tl].address);
        assert(0 <= k < t.len() && t[k].address == s[sl].address);
        assert(0 <= m < s.len() && s[m].address == t[tl].address);
        if k < tl {
            assert(t[k].address.comes_before(t[tl].address));
            if m < sl {
                assert(s[m].address.comes_before(s[sl].address));
            }
        }
        assert(k == tl);
        assert(s[sl].device == t[tl].device);
        let s2 = s.drop_last();
        let t2 = t.drop_last();
        assert(strictly_ordered(s2)) by {
            assert forall|i: int, j: int| 0 <= i < j < s2.len() implies (#[trigger] s2[i])
                .address.comes_before((#[trigger] s2[j]).address) by {
                assert(s[i].address.comes_before(s[j].address));
            }
        }
        assert(strictly_ordered(t2)) by {
            assert forall|i: int, j: int| 0 <= i < j < t2.len() implies (#[trigger] t2[i])
                .address.comes_before((#[trigger] t2[j]).address) by {
                assert(t[i].address.comes_before(t[j].address));
            }
        }
        assert(as_map(s2) =~= as_map(t2)) by {
            lemma_without_last(s);
            lemma_without_last(t);
        }
        lemma_ordered_entries_determined(s2, t2);
        assert(s =~= s2.push(s[sl]));
        assert(t =~= t2.push(t[tl]));
        assert(s[sl] == t[tl]);
    }
}

/// Dropping the last entry of a strictly ordered sequence removes its
/// address from the map and changes nothing else.
proof fn lemma_without_last(s: Seq<Endpoint>)
    requires
        strictly_ordered(s),
        s.len() > 0,
    ensures
        as_map(s.drop_last()) == as_map(s).remove(s.last().address),
{
    lemma_remove_at(s, s.len() - 1);
    assert(s.remove(s.len() - 1) =~= s.drop_last());
}

/// Putting an entry at the place where its address belongs keeps the order
/// and adds the entry to the map.
pub proof fn lemma_insert_at(s: Seq<Endpoint>, pos: int, e: Endpoint)
    requires
        strictly_ordered(s),
        0 <= pos <= s.len(),
        forall|k: int| 0 <= k < pos ==> (#[trigger] s[k]).address.comes_before(e.address),
        forall|k: int| pos <= k < s.len() ==> e.address.comes_before((#[trigger] s[k]).address),
    ensures
        strictly_ordered(s.insert(pos, e)),
        as_map(s.insert(pos, e)) == as_map(s).insert(e.address, e.device),
{
    let t = s.insert(pos, e);
    assert forall|i: int, j: int| 0 <= i < j < t.len() implies (#[trigger] t[i]).address.comes_before(
        (#[trigger] t[j]).address,
    ) by {
        let a = if i < pos { s[i] } else if i == pos { e } else { s[i - 1] };
        let b = if j < pos { s[j] } else if j == pos { e } else { s[j - 1] };
        assert(t[i] == a && t[j] == b);
        if i < pos && j > pos {
            assert(s[i].address.comes_before(s[j - 1].address) || i == j - 1);
            if i == j - 1 {
                crate::inet::lemma_endpoint_order_is_total(s[i].address, e.address, s[j - 1].address);
            }
        } else if i > pos {
            assert(s[i - 1].address.comes_before(s[j - 1].address));
        }
    }
    assert forall|a: InetAddress| has_address(t, a) <==> (has_address(s, a) || a == e.address) by {
        if has_address(t, a) {
            let k = index_of(t, a);
            assert(0 <= k < t.len() && t[k].address == a);
            if k < pos {
                assert(s[k].address == a);
            } else if k > pos {
                assert(s[k - 1].address == a);
            }
        }
        if has_address(s, a) {
            let k = index_of(s, a);
            assert(0 <= k < s.len() && s[k].address == a);
            if k < pos {
                assert(t[k].address == a);
            } else {
                assert(t[k + 1].address == a);
            }
        }
        if a == e.address {
            assert(t[pos].address == a);
        }
    }
    assert forall|a: InetAddress| has_address(t, a) implies #[trigger] as_map(t)[a] == as_map(
        s,
    ).insert(e.address, e.device)[a] by {
        let k = index_of(t, a);
        assert(0 <= k < t.len() && t[k].address == a);
        lemma_index_unique(t, k);
        if k < pos {
            lemma_index_unique(s, k);
            assert(s[k].address != e.address) by {
                assert(s[k].address.comes_before(e.address));
            }
        } else if k > pos {
            lemma_index_unique(s, k - 1);
            assert(s[k - 1].address != e.address) by {
                assert(e.address.comes_before(s[k - 1].address));
            }
        }
    }
    assert(as_map(t) =~= as_map(s).insert(e.address, e.device));
}

/// Replacing an entry by one with the same address keeps the order and
/// changes the device of that address in the map.
pub proof fn lemma_replace_at(s: Seq<Endpoint>, pos: int, e: Endpoint)
    requires
        strictly_ordered(s),
        0 <= pos < s.len(),
        s[pos].address == e.address,
    ensures
        strictly_ordered(s.update(pos, e)),
        as_map(s.update(pos, e)) == as_map(s).insert(e.address, e.device),
{
    let t = s.update(pos, e);
    assert forall|i: int, j: int| 0 <= i < j < t.len() implies (#[trigger] t[i]).address.comes_before(
        (#[trigger] t[j]).address,
    ) by {
        assert(t[i].address == s[i].address && t[j].address == s[j].address);
        assert(s[i].address.comes_before(s[j].address));
    }
    assert forall|a: InetAddress| has_address(t, a) <==> (has_address(s, a) || a == e.address) by {
        if has_address(t, a) {
            let k = index_of(t, a);
            assert(0 <= k < t.len() && t[k].address == a);
            assert(s[k].address == a);
        }
        if has_address(s, a) {
            let k = index_of(s, a);
            assert(0 <= k < s.len() && s[k].address == a);
            assert(t[k].address == a);
        }
        if a == e.address {
            assert(t[pos].address == a);
        }
    }
    assert forall|a: InetAddress| has_address(t, a) implies #[trigger] as_map(t)[a] == as_map(
        s,
    ).insert(e.address, e.device)[a] by {
        let k = index_of(t, a);
        assert(0 <= k < t.len() && t[k].address == a);
        lemma_index_unique(t, k);
        lemma_index_unique(s, k);
        lemma_index_unique(s, pos);
    }
    assert(as_map(t) =~= as_map(s).insert(e.address, e.device));
}

/// Taking an entry out keeps the order and removes its address from the map.
pub proof fn lemma_remove_at(s: Seq<Endpoint>, pos: int)
    requires
        strictly_ordered(s),
        0 <= pos < s.len(),
    ensures
        strictly_ordered(s.remove(pos)),
        as_map(s.remove(pos)) == as_map(s).remove(s[pos].address),
{
    let t = s.remove(pos);
    let gone = s[pos].address;
    assert forall|i: int, j: int| 0 <= i < j < t.len() implies (#[trigger] t[i]).address.comes_before(
        (#[trigger] t[j]).address,
    ) by {
        let a = if i < pos { s[i] } else { s[i + 1] };
        let b = if j < pos { s[j] } else { s[j + 1] };
        assert(t[i] == a && t[j] == b);
        if i < pos {
            if j < pos {
                assert(s[i].address.comes_before(s[j].address));
            } else {
                assert(s[i].address.comes_before(s[j + 1].address));
            }
        } else {
            assert(s[i + 1].address.comes_before(s[j + 1].address));
        }
    }
    assert forall|a: InetAddress| has_address(t, a) <==> (has_address(s, a) && a != gone) by {
        if has_address(t, a) {
            let k = index_of(t, a);
            assert(0 <= k < t.len() && t[k].address == a);
            if k < pos {
                assert(s[k].address == a);
                assert(s[k].address.comes_before(s[pos].address));
            } else {
                assert(s[k + 1].address == a);
                assert(s[pos].address.comes_before(s[k + 1].address));
            }
        }
        if has_address(s, a) && a != gone {
            let k = index_of(s, a);
            assert(0 <= k < s.len() && s[k].address == a);
            if k < pos {
                assert(t[k].address == a);
            } else {
                assert(t[k - 1].address == a);
            }
        }
    }
    assert forall|a: InetAddress| has_address(t, a) implies #[trigger] as_map(t)[a] == as_map(
        s,
    ).remove(gone)[a] by {
        let k = index_of(t, a);
        assert(0 <= k < t.len() && t[k].address == a);
        lemma_index_unique(t, k);
        if k < pos {
            lemma_index_unique(s, k);
        } else {
            lemma_index_unique(s, k + 1);
        }
    }
    assert(as_map(t) =~= as_map(s).remove(gone));
}

/// An ordered map from endpoints to device names. Its entries are kept in
/// the order of endpoints, and no address occurs twice.
pub struct EndpointMap {
    entries: Vec<Endpoint>,
}

impl View for EndpointMap {
    type V = Map<InetAddress, String>;

    open spec fn view(&self) -> Map<InetAddress, String> {
        as_map(self.entries())
    }
}

impl EndpointMap {
    #[verifier::type_invariant]
    spec fn ordered(&self) -> bool {
        strictly_ordered(self.entries@)
    }

    /// The entries of the map, in the order in which they are kept.
    pub closed spec fn entries(&self) -> Seq<Endpoint> {
        self.entries@
    }

    /// Whether the entries are in strictly increasing order. Every map that
    /// a program holds is; the predicate is for statements about maps in
    /// proofs.
    pub open spec fn wf(&self) -> bool {
        strictly_ordered(self.entries())
    }

    /// A map without entries.
    pub fn new() -> (m: EndpointMap)
        ensures
            m.entries() == Seq::<Endpoint>::empty(),
            m@ == Map::<InetAddress, String>::empty(),
            m.wf(),
    {
        let m = EndpointMap { entries: Vec::new() };
        assert(m@ =~= Map::<InetAddress, String>::empty());
        m
    }

    /// The number of entries.
    pub fn len(&self) -> (n: usize)
        ensures
            n == self.entries().len(),
            self.wf(),
    {
        proof {
            use_type_invariant(self);
        }
        self.entries.len()
    }

    /// Whether the map has no entry.
    pub fn is_empty(&self) -> (empty: bool)
        ensures
            empty == (self.entries().len() == 0),
            empty == (self@ == Map::<InetAddress, String>::empty()),
    {
        proof {
            use_type_invariant(self);
            if self.entries@.len() > 0 {
                lemma_index_unique(self.entries@, 0);
            } else {
                assert(self@ =~= Map::<InetAddress, String>::empty());
            }
        }
        self.entries.len() == 0
    }

    /// The entry at position `i` in the order of endpoints, or `None` when
    /// the map has no more than `i` entries.
    pub fn get(&self, i: usize) -> (e: Option<&Endpoint>)
        ensures
            self.wf(),
            i < self.entries().len() ==> e == Some(&self.entries()[i as int]),
            i >= self.entries().len() ==> e is None,
    {
        proof {
            use_type_invariant(self);
        }
        if i < self.entries.len() {
            Some(&self.entries[i])
        } else {
            None
        }
    }

    /// The first position whose address does not come before `address`.
    fn lower_bound(&self, address: &InetAddress) -> (pos: usize)
        ensures
            pos <= self.entries().len(),
            forall|k: int| 0 <= k < pos ==> (#[trigger] self.entries()[k]).address.comes_before(*address),
            forall|k: int|
                pos <= k < self.entries().len() ==> !(#[trigger] self.entries()[k]).address.comes_before(
                    *address,
                ),
    {
        proof {
            use_type_invariant(self);
        }
        let mut pos: usize = 0;
        while pos < self.entries.len() && self.entries[pos].address.precedes(address)
            invariant
                pos <= self.entries@.len(),
                forall|k: int| 0 <= k < pos ==> (#[trigger] self.entries@[k]).address.comes_before(*address),
            decreases self.entries@.len() - pos,
        {
            pos += 1;
        }
        proof {
            assert forall|k: int| pos <= k < self.entries@.len() implies !(#[trigger] self.entries@[k])
                .address.comes_before(*address) by {
                if pos < k {
                    assert(self.entries@[pos as int].address.comes_before(self.entries@[k].address));
                    crate::inet::lemma_endpoint_order_is_total(
                        self.entries@[pos as int].address,
                        self.entries@[k].address,
                        *address,
                    );
                }
            }
        }
        pos
    }

    /// The position of the entry for `address`, or `None` when the map has
    /// no entry for it.
    pub fn find(&self, address: &InetAddress) -> (r: Option<usize>)
        ensures
            self.wf(),
            r is Some <==> self@.contains_key(*address),
            r matches Some(i) ==> i < self.entries().len() && self.entries()[i as int].address
                == *address && self.entries()[i as int].device == self@[*address],
    {
        proof {
            use_type_invariant(self);
        }
        let pos = self.lower_bound(address);
        if pos < self.entries.len() && self.entries[pos].address == *address {
            proof {
                lemma_index_unique(self.entries@, pos as int);
            }
            Some(pos)
        } else {
            proof {
                if has_address(self.entries@, *address) {
                    let k = index_of(self.entries@, *address);
                    assert(0 <= k < self.entries@.len() && self.entries@[k].address == *address);
                    assert(!self.entries@[k].address.comes_before(*address));
                    if k > pos {
                        assert(self.entries@[pos as int].address.comes_before(self.entries@[k].address));
                        crate::inet::lemma_endpoint_order_is_total(
                            self.entries@[pos as int].address,
                            *address,
                            *address,
                        );
                    }
                }
            }
            None
        }
    }

    /// Whether the map has an entry for `address`.
    pub fn contains(&self, address: &InetAddress) -> (found: bool)
        ensures
            found == self@.contains_key(*address),
    {
        self.find(address).is_some()
    }

    /// Sets the device of `address`, adding an entry when the map has none
    /// for it. Returns whether an entry was there before.
    pub fn insert(&mut self, address: InetAddress, device: String) -> (replaced: bool)
        ensures
            final(self).wf(),
            final(self)@ == old(self)@.insert(address, device),
            replaced == old(self)@.contains_key(address),
    {
        proof {
            use_type_invariant(&*self);
        }
        let pos = self.lower_bound(&address);
        let entry = Endpoint { address, device };
        if pos < self.entries.len() && self.entries[pos].address == address {
            proof {
                lemma_replace_at(self.entries@, pos as int, entry);
                lemma_index_unique(self.entries@, pos as int);
            }
            let mut entries: Vec<Endpoint> = Vec::new();
            std::mem::swap(&mut self.entries, &mut entries);
            entries[pos] = entry;
            self.entries = entries;
            true
        } else {
            proof {
                assert forall|k: int| pos <= k < self.entries@.len() implies address.comes_before(
                    (#[trigger] self.entries@[k]).address,
                ) by {
                    if k > pos {
                        assert(self.entries@[pos as int].address.comes_before(self.entries@[k].address));
                    }
                    crate::inet::lemma_endpoint_order_is_total(
                        self.entries@[pos as int].address,
                        address,
                        self.entries@[k].address,
                    );
                    crate::inet::lemma_endpoint_order_is_total(
                        address,
                        self.entries@[pos as int].address,
                        self.entries@[k].address,
                    );
                }
                lemma_insert_at(self.entries@, pos as int, entry);
                if has_address(self.entries@, address) {
                    let k = index_of(self.entries@, address);
                    assert(0 <= k < self.entries@.len() && self.entries@[k].address == address);
                    if k < pos {
                        assert(self.entries@[k].address.comes_before(address));
                    } else {
                        assert(address.comes_before(self.entries@[k].address));
                    }
                }
            }
            let mut entries: Vec<Endpoint> = Vec::new();
            std::mem::swap(&mut self.entries, &mut entries);
            entries.insert(pos, entry);
            self.entries = entries;
            false
        }
    }

    /// Takes the entry for `address` out of the map. Returns whether there
    /// was one.
    pub fn remove(&mut self, address: &InetAddress) -> (removed: bool)
        ensures
            final(self).wf(),
            final(self)@ == old(self)@.remove(*address),
            removed == old(self)@.contains_key(*address),
    {
        proof {
            use_type_invariant(&*self);
        }
        match self.find(address) {
            Some(pos) => {
                proof {
                    lemma_remove_at(self.entries@, pos as int);
                }
                let mut entries: Vec<Endpoint> = Vec::new();
                std::mem::swap(&mut self.entries, &mut entries);
                let _ = entries.remove(pos);
                self.entries = entries;
                true
            },
            None => {
                assert(self@ =~= self@.remove(*address));
                false
            },
        }
    }
}

} // verus!
