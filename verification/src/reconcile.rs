//! Keeping the bound sockets in step with the interfaces of the machine and
//! the configuration: which endpoints the service wants, which sockets to
//! close and to open, and what the outcome says about the two ports.

use vstd::prelude::*;

use crate::config::LocalConfigSettings;
use crate::endpoints::{
    addresses_strictly_ordered, as_map, has_address, index_of, lemma_index_unique, strictly_ordered,
    Endpoint, EndpointMap,
};
use crate::inet::{InetAddress, IpScope};

verus! {

/// One address of one network interface, with the scope that the engine
/// gives it. The port of `address` carries no meaning for listening: the
/// ports come from the configuration.
#[derive(Clone, Debug, PartialEq, Eq)]
pub struct InterfaceAddress {
    pub address: InetAddress,
    pub scope: IpScope,
    pub device: String,
}

/// Whether the service wants to listen on the interface address at all: its
/// scope permits it and its device is not blacklisted.
pub open spec fn wanted(iface: &InterfaceAddress, settings: &LocalConfigSettings) -> bool {
    iface.scope.permits_binding() && !settings.blacklists(iface.device@)
}

/// Whether the interface address makes `a` a desired endpoint: the
/// interface is wanted, and `a` is its address at the primary port or, if a
/// secondary port is configured, at the secondary port.
pub open spec fn yields(
    iface: &InterfaceAddress,
    settings: &LocalConfigSettings,
    a: InetAddress,
) -> bool {
    wanted(iface, settings) && (a == iface.address.with_port(settings.primary_port) || (
    settings.secondary_port matches Some(s) && a == iface.address.with_port(s)))
}

/// The desired endpoints and their devices: every wanted interface address
/// at the primary port and, if one is configured, at the secondary port.
/// Where several interface addresses give the same endpoint, the device of
/// the last one stands.
pub open spec fn desired_map(
    interfaces: Seq<InterfaceAddress>,
    settings: &LocalConfigSettings,
) -> Map<InetAddress, String>
    decreases interfaces.len(),
{
    if interfaces.len() == 0 {
        Map::empty()
    } else {
        let before = desired_map(interfaces.drop_last(), settings);
        let last = interfaces.last();
        if wanted(&last, settings) {
            let with_primary = before.insert(
                last.address.with_port(settings.primary_port),
                last.device,
            );
            match settings.secondary_port {
                Some(s) => with_primary.insert(last.address.with_port(s), last.device),
                None => with_primary,
            }
        } else {
            before
        }
    }
}

/// An endpoint is desired exactly if some interface address yields it, and
/// its device is that of the last interface address that does.
pub proof fn lemma_desired_endpoints(
    interfaces: Seq<InterfaceAddress>,
    settings: &LocalConfigSettings,
    a: InetAddress,
)
    ensures
        desired_map(interfaces, settings).contains_key(a) <==> exists|i: int|
            0 <= i < interfaces.len() && yields(&#[trigger] interfaces[i], settings, a),
        desired_map(interfaces, settings).contains_key(a) ==> exists|i: int|
            0 <= i < interfaces.len() && yields(&#[trigger] interfaces[i], settings, a)
                && desired_map(interfaces, settings)[a] == interfaces[i].device && forall|j: int|
                i < j < interfaces.len() ==> !yields(&#[trigger] interfaces[j], settings, a),
    decreases interfaces.len(),
{
    if interfaces.len() > 0 {
        let front = interfaces.drop_last();
        let n = interfaces.len() - 1;
        let last = interfaces.last();
        lemma_desired_endpoints(front, settings, a);
        assert(forall|i: int| 0 <= i < front.len() ==> front[i] == interfaces[i]);
        if yields(&last, settings, a) {
            assert(yields(&interfaces[n], settings, a));
            assert(desired_map(interfaces, settings)[a] == interfaces[n].device);
        } else {
            assert(desired_map(interfaces, settings).contains_key(a) == desired_map(
                front,
                settings,
            ).contains_key(a));
            if desired_map(front, settings).contains_key(a) {
                let i = choose|i: int|
                    0 <= i < front.len() && yields(&#[trigger] front[i], settings, a)
                        && desired_map(front, settings)[a] == front[i].device && forall|j: int|
                        i < j < front.len() ==> !yields(&#[trigger] front[j], settings, a);
                assert(yields(&interfaces[i], settings, a));
                assert(desired_map(interfaces, settings)[a] == interfaces[i].device);
                assert forall|j: int| i < j < interfaces.len() implies !yields(
                    &#[trigger] interfaces[j],
                    settings,
                    a,
                ) by {
                    if j < n {
                        assert(!yields(&front[j], settings, a));
                    }
                }
            }
            if exists|i: int|
                0 <= i < interfaces.len() && yields(&#[trigger] interfaces[i], settings, a) {
                let i = choose|i: int|
                    0 <= i < interfaces.len() && yields(&#[trigger] interfaces[i], settings, a);
                assert(i < n);
                assert(yields(&front[i], settings, a));
            }
        }
    }
}

/// Computes the endpoints that the service wants to listen on, from the
/// addresses of the machine's interfaces and the settings.
pub fn desired_endpoints(
    interfaces: &Vec<InterfaceAddress>,
    settings: &LocalConfigSettings,
) -> (desired: EndpointMap)
    ensures
        desired.wf(),
        desired@ == desired_map(interfaces@, settings),
{
    let mut desired = EndpointMap::new();
    let mut i: usize = 0;
    while i < interfaces.len()
        invariant
            i <= interfaces@.len(),
            desired.wf(),
            desired@ == desired_map(interfaces@.take(i as int), settings),
        decreases interfaces@.len() - i,
    {
        let iface = &interfaces[i];
        proof {
            assert(interfaces@.take(i + 1).drop_last() =~= interfaces@.take(i as int));
            assert(interfaces@.take(i + 1).last() == interfaces@[i as int]);
        }
        if iface.scope.permits_binding() && !settings.is_interface_blacklisted(
            iface.device.as_str(),
        ) {
            let _ = desired.insert(
                iface.address.with_port(settings.primary_port),
                iface.device.clone(),
            );
            match settings.secondary_port {
                Some(s) => {
                    let _ = desired.insert(iface.address.with_port(s), iface.device.clone());
                },
                None => {},
            }
        }
        i += 1;
    }
    proof {
        assert(interfaces@.take(i as int) =~= interfaces@);
    }
    desired
}

/// Which sockets to close and which to open so that the bound sockets meet
/// the desired endpoints. Both lists are in the order of endpoints.
#[derive(Clone, Debug, PartialEq, Eq)]
pub struct ReconcilePlan {
    pub close: Vec<InetAddress>,
    pub open: Vec<Endpoint>,
}

/// Whether `close` and `open` are what turns `bound` into `desired` with
/// the least change: `close` holds, in order, the bound addresses that are
/// no longer desired, and `open` holds, in order, the desired endpoints
/// that are not bound.
pub open spec fn is_plan_for(
    close: Seq<InetAddress>,
    open: Seq<Endpoint>,
    bound: Map<InetAddress, String>,
    desired: Map<InetAddress, String>,
) -> bool {
    &&& addresses_strictly_ordered(close)
    &&& forall|a: InetAddress|
        close.contains(a) <==> bound.contains_key(a) && !desired.contains_key(a)
    &&& strictly_ordered(open)
    &&& as_map(open) == desired.remove_keys(bound.dom())
}

/// What is bound once the sockets of `open` whose opening succeeded have
/// joined `bound`. The outcome of `open[k]` is `outcomes[k]`; an endpoint
/// without an outcome counts as not opened.
pub open spec fn opened_into(
    bound: Map<InetAddress, String>,
    open: Seq<Endpoint>,
    outcomes: Seq<bool>,
) -> Map<InetAddress, String>
    decreases open.len(),
{
    if open.len() == 0 {
        bound
    } else {
        let before = opened_into(bound, open.drop_last(), outcomes);
        let k = open.len() - 1;
        if k < outcomes.len() && outcomes[k] {
            before.insert(open[k].address, open[k].device)
        } else {
            before
        }
    }
}

/// What is bound after one pass: the sockets of `close` are gone, and the
/// sockets of `open` whose opening succeeded have joined.
pub open spec fn after_pass(
    bound: Map<InetAddress, String>,
    close: Seq<InetAddress>,
    open: Seq<Endpoint>,
    outcomes: Seq<bool>,
) -> Map<InetAddress, String> {
    opened_into(bound.remove_keys(close.to_set()), open, outcomes)
}

/// Whether some socket is bound at `port`.
pub open spec fn bound_at(bound: Map<InetAddress, String>, port: u16) -> bool {
    exists|a: InetAddress| #[trigger] bound.contains_key(a) && a.port() == port
}

/// What the bound sockets say about the two ports.
#[derive(Clone, Copy, Debug, PartialEq, Eq, Structural)]
pub struct PortHealth {
    /// No socket is bound at the primary port.
    pub primary_port_bind_failure: bool,
    /// A secondary port is configured and no socket is bound at it.
    pub secondary_port_bind_failure: bool,
}

impl PortHealth {
    /// Whether the serving cycle cannot go on: the primary port is bound
    /// nowhere and the service may not look for another port. A failure of
    /// the secondary port never ends the cycle.
    pub fn is_fatal(&self, auto_port_search: bool) -> (fatal: bool)
        ensures
            fatal == (self.primary_port_bind_failure && !auto_port_search),
    {
        self.primary_port_bind_failure && !auto_port_search
    }

    /// Whether the outcome calls for a search for other ports: one of the
    /// two ports is bound nowhere and the service may look for another.
    /// How such a search goes is not laid down here; the caller that wants
    /// one finds in this the occasion for it.
    pub fn calls_for_port_search(&self, auto_port_search: bool) -> (wanted: bool)
        ensures
            wanted == ((self.primary_port_bind_failure || self.secondary_port_bind_failure)
                && auto_port_search),
    {
        (self.primary_port_bind_failure || self.secondary_port_bind_failure) && auto_port_search
    }
}

/// The endpoints at which the service holds a socket, each with the device
/// it was opened on.
pub struct SocketSet {
    bound: EndpointMap,
}

impl View for SocketSet {
    type V = Map<InetAddress, String>;

    closed spec fn view(&self) -> Map<InetAddress, String> {
        self.bound@
    }
}

impl SocketSet {
    /// The bound endpoints in the order of endpoints.
    pub closed spec fn entries(&self) -> Seq<Endpoint> {
        self.bound.entries()
    }

    /// A set without sockets.
    pub fn new() -> (s: SocketSet)
        ensures
            s@ == Map::<InetAddress, String>::empty(),
    {
        SocketSet { bound: EndpointMap::new() }
    }

    /// The number of bound endpoints.
    pub fn len(&self) -> (n: usize)
        ensures
            n == self.entries().len(),
            n == self@.dom().len(),
            strictly_ordered(self.entries()),
            as_map(self.entries()) == self@,
    {
        let n = self.bound.len();
        proof {
            lemma_domain_size(self.bound.entries());
        }
        n
    }

    /// Whether a socket is bound at `address`.
    pub fn contains(&self, address: &InetAddress) -> (found: bool)
        ensures
            found == self@.contains_key(*address),
    {
        self.bound.contains(address)
    }

    /// The bound endpoint at position `i` in the order of endpoints.
    pub fn get(&self, i: usize) -> (e: Option<&Endpoint>)
        ensures
            i < self.entries().len() ==> e == Some(&self.entries()[i as int]),
            i >= self.entries().len() ==> e is None,
            strictly_ordered(self.entries()),
            as_map(self.entries()) == self@,
    {
        self.bound.get(i)
    }

    /// The bound addresses that are not desired, in order.
    fn stale(&self, desired: &EndpointMap) -> (close: Vec<InetAddress>)
        ensures
            addresses_strictly_ordered(close@),
            forall|a: InetAddress|
                close@.contains(a) <==> self@.contains_key(a) && !desired@.contains_key(a),
    {
        let mut close: Vec<InetAddress> = Vec::new();
        let n = self.bound.len();
        let ghost b = self.bound.entries();
        let mut i: usize = 0;
        while i < n
            invariant
                i <= n,
                n == b.len(),
                b == self.bound.entries(),
                strictly_ordered(b),
                addresses_strictly_ordered(close@),
                forall|k: int, j: int|
                    0 <= k < close@.len() && i <= j < n ==> (#[trigger] close@[k]).comes_before(
                        (#[trigger] b[j]).address,
                    ),
                forall|a: InetAddress|
                    close@.contains(a) <==> (exists|k: int|
                        0 <= k < i && (#[trigger] b[k]).address == a) && !desired@.contains_key(a),
            decreases n - i,
        {
            match self.bound.get(i) {
                Some(e) => {
                    let address = e.address;
                    if !desired.contains(&address) {
                        proof {
                            let old_close = close@;
                            assert forall|k: int, j: int|
                                0 <= k < old_close.push(address).len() && i + 1 <= j
                                    < n implies (#[trigger] old_close.push(address)[k]).comes_before(
                                (#[trigger] b[j]).address,
                            ) by {
                                if k == old_close.len() {
                                    assert(b[i as int].address.comes_before(b[j].address));
                                }
                            }
                            assert forall|a: InetAddress|
                                old_close.push(address).contains(a) <==> (exists|k: int|
                                    0 <= k < i + 1 && (#[trigger] b[k]).address == a)
                                    && !desired@.contains_key(a) by {
                                if old_close.push(address).contains(a) {
                                    let k = choose|k: int|
                                        0 <= k < old_close.push(address).len() && old_close.push(
                                            address,
                                        )[k] == a;
                                    if k < old_close.len() {
                                        assert(old_close[k] == a);
                                        assert(old_close.contains(a));
                                    } else {
                                        assert(b[i as int].address == a);
                                    }
                                }
                                if (exists|k: int| 0 <= k < i + 1 && (#[trigger] b[k]).address == a)
                                    && !desired@.contains_key(a) {
                                    let k = choose|k: int|
                                        0 <= k < i + 1 && (#[trigger] b[k]).address == a;
                                    if k < i {
                                        assert(old_close.contains(a));
                                        let m = choose|m: int|
                                            0 <= m < old_close.len() && old_close[m] == a;
                                        assert(old_close.push(address)[m] == a);
                                    } else {
                                        assert(old_close.push(address)[old_close.len() as int] == a);
                                    }
                                }
                            }
                        }
                        close.push(address);
                    } else {
                        proof {
                            assert forall|a: InetAddress|
                                close@.contains(a) <==> (exists|k: int|
                                    0 <= k < i + 1 && (#[trigger] b[k]).address == a)
                                    && !desired@.contains_key(a) by {
                                if (exists|k: int| 0 <= k < i + 1 && (#[trigger] b[k]).address == a)
                                    && !desired@.contains_key(a) {
                                    let k = choose|k: int|
                                        0 <= k < i + 1 && (#[trigger] b[k]).address == a;
                                    assert(k < i);
                                }
                            }
                        }
                    }
                },
                None => {},
            }
            i += 1;
        }
        proof {
            assert forall|a: InetAddress|
                close@.contains(a) <==> self@.contains_key(a) && !desired@.contains_key(a) by {
                if self@.contains_key(a) {
                    let k = index_of(b, a);
                    assert(0 <= k < b.len() && b[k].address == a);
                }
            }
        }
        close
    }

    /// The desired endpoints that are not bound, in order.
    fn missing(&self, desired: &EndpointMap) -> (open: Vec<Endpoint>)
        ensures
            strictly_ordered(open@),
            as_map(open@) == desired@.remove_keys(self@.dom()),
    {
        let mut open: Vec<Endpoint> = Vec::new();
        let m = desired.len();
        let ghost d = desired.entries();
        let mut j: usize = 0;
        while j < m
            invariant
                j <= m,
                m == d.len(),
                d == desired.entries(),
                strictly_ordered(d),
                strictly_ordered(open@),
                forall|k: int, l: int|
                    0 <= k < open@.len() && j <= l < m ==> (#[trigger] open@[k]).address.comes_before(
                        (#[trigger] d[l]).address,
                    ),
                forall|k: int|
                    0 <= k < open@.len() ==> exists|l: int|
                        0 <= l < j && d[l] == #[trigger] open@[k],
                forall|l: int|
                    0 <= l < j && !self@.contains_key((#[trigger] d[l]).address) ==> exists|k: int|
                        0 <= k < open@.len() && open@[k] == d[l],
                forall|k: int|
                    0 <= k < open@.len() ==> !self@.contains_key((#[trigger] open@[k]).address),
            decreases m - j,
        {
            match desired.get(j) {
                Some(e) => {
                    if !self.bound.contains(&e.address) {
                        let entry = Endpoint { address: e.address, device: e.device.clone() };
                        proof {
                            let old_open = open@;
                            let new_open = old_open.push(entry);
                            assert(entry == d[j as int]);
                            assert forall|k: int, l: int|
                                0 <= k < new_open.len() && j + 1 <= l
                                    < m implies (#[trigger] new_open[k]).address.comes_before(
                                (#[trigger] d[l]).address,
                            ) by {
                                if k == old_open.len() {
                                    assert(d[j as int].address.comes_before(d[l].address));
                                }
                            }
                            assert forall|k: int, l: int|
                                0 <= k < l < new_open.len() implies (#[trigger] new_open[k])
                                .address.comes_before((#[trigger] new_open[l]).address) by {
                                if l == old_open.len() {
                                    assert(old_open[k].address.comes_before(d[j as int].address));
                                } else {
                                    assert(old_open[k].address.comes_before(old_open[l].address));
                                }
                            }
                            assert forall|k: int| 0 <= k < new_open.len() implies exists|l: int|
                                0 <= l < j + 1 && d[l] == #[trigger] new_open[k] by {
                                if k < old_open.len() {
                                    let l = choose|l: int| 0 <= l < j && d[l] == old_open[k];
                                    assert(d[l] == new_open[k]);
                                } else {
                                    assert(d[j as int] == new_open[k]);
                                }
                            }
                            assert forall|l: int|
                                0 <= l < j + 1 && !self@.contains_key(
                                    (#[trigger] d[l]).address,
                                ) implies exists|k: int|
                                0 <= k < new_open.len() && new_open[k] == d[l] by {
                                if l < j {
                                    let k = choose|k: int|
                                        0 <= k < old_open.len() && old_open[k] == d[l];
                                    assert(new_open[k] == d[l]);
                                } else {
                                    assert(new_open[old_open.len() as int] == d[l]);
                                }
                            }
                        }
                        open.push(entry);
                    }
                },
                None => {},
            }
            j += 1;
        }
        proof {
            let target = desired@.remove_keys(self@.dom());
            assert forall|a: InetAddress| has_address(open@, a) <==> target.contains_key(a) by {
                if has_address(open@, a) {
                    let k = index_of(open@, a);
                    assert(0 <= k < open@.len() && open@[k].address == a);
                    let l = choose|l: int| 0 <= l < m && d[l] == open@[k];
                    lemma_index_unique(d, l);
                }
                if target.contains_key(a) {
                    let l = index_of(d, a);
                    assert(0 <= l < d.len() && d[l].address == a);
                    let k = choose|k: int| 0 <= k < open@.len() && open@[k] == d[l];
                    assert(open@[k].address == a);
                }
            }
            assert forall|a: InetAddress| has_address(open@, a) implies #[trigger] as_map(open@)[a]
                == target[a] by {
                let k = index_of(open@, a);
                assert(0 <= k < open@.len() && open@[k].address == a);
                lemma_index_unique(open@, k);
                let l = choose|l: int| 0 <= l < m && d[l] == open@[k];
                lemma_index_unique(d, l);
            }
            assert(as_map(open@) =~= target);
        }
        open
    }

    /// Works out which sockets to close and which to open so that the bound
    /// sockets meet `desired`. Nothing is closed that is still desired and
    /// nothing is opened that is bound.
    pub fn plan(&self, desired: &EndpointMap) -> (plan: ReconcilePlan)
        ensures
            is_plan_for(plan.close@, plan.open@, self@, desired@),
    {
        let close = self.stale(desired);
        let open = self.missing(desired);
        ReconcilePlan { close, open }
    }

    /// Records the outcome of one pass: the sockets of `plan.close` are
    /// closed, and the sockets of `plan.open` whose opening succeeded are
    /// bound. The opening of `plan.open[k]` succeeded if `outcomes[k]` is
    /// there and true. A socket that could not be opened is left out; the
    /// next pass will plan it again.
    pub fn apply(&mut self, plan: &ReconcilePlan, outcomes: &Vec<bool>)
        ensures
            final(self)@ == after_pass(old(self)@, plan.close@, plan.open@, outcomes@),
    {
        let mut i: usize = 0;
        while i < plan.close.len()
            invariant
                i <= plan.close@.len(),
                self@ == old(self)@.remove_keys(plan.close@.take(i as int).to_set()),
            decreases plan.close@.len() - i,
        {
            let ghost before = self@;
            let _ = self.bound.remove(&plan.close[i]);
            proof {
                let taken = plan.close@.take(i as int);
                let more = plan.close@.take(i + 1);
                assert(more =~= taken.push(plan.close@[i as int]));
                assert forall|a: InetAddress| more.to_set().contains(a) <==> (taken.to_set().contains(
                    a,
                ) || a == plan.close@[i as int]) by {
                    if more.to_set().contains(a) {
                        let k = choose|k: int| 0 <= k < more.len() && more[k] == a;
                        if k < i {
                            assert(taken[k] == a);
                        }
                    }
                    if taken.to_set().contains(a) {
                        let k = choose|k: int| 0 <= k < taken.len() && taken[k] == a;
                        assert(more[k] == a);
                    }
                    if a == plan.close@[i as int] {
                        assert(more[i as int] == a);
                    }
                }
                assert(self@ =~= old(self)@.remove_keys(more.to_set()));
            }
            i += 1;
        }
        proof {
            assert(plan.close@.take(i as int) =~= plan.close@);
        }
        let ghost closed = self@;
        let mut j: usize = 0;
        while j < plan.open.len()
            invariant
                j <= plan.open@.len(),
                self@ == opened_into(closed, plan.open@.take(j as int), outcomes@),
            decreases plan.open@.len() - j,
        {
            proof {
                assert(plan.open@.take(j + 1).drop_last() =~= plan.open@.take(j as int));
                assert(plan.open@.take(j + 1)[j as int] == plan.open@[j as int]);
            }
            if j < outcomes.len() && outcomes[j] {
                let e = &plan.open[j];
                let _ = self.bound.insert(e.address, e.device.clone());
            }
            j += 1;
        }
        proof {
            assert(plan.open@.take(j as int) =~= plan.open@);
        }
    }

    /// Begins a pass: works out the desired endpoints from the addresses
    /// of the machine's interfaces and the settings, and from them the
    /// sockets to close and to open.
    pub fn begin_pass(
        &self,
        interfaces: &Vec<InterfaceAddress>,
        settings: &LocalConfigSettings,
    ) -> (plan: ReconcilePlan)
        ensures
            is_plan_for(plan.close@, plan.open@, self@, desired_map(interfaces@, settings)),
    {
        let desired = desired_endpoints(interfaces, settings);
        self.plan(&desired)
    }

    /// Ends a pass: records which sockets were closed and opened, and says
    /// what the sockets that are bound now mean for the two ports.
    pub fn finish_pass(
        &mut self,
        plan: &ReconcilePlan,
        outcomes: &Vec<bool>,
        settings: &LocalConfigSettings,
    ) -> (health: PortHealth)
        ensures
            final(self)@ == after_pass(old(self)@, plan.close@, plan.open@, outcomes@),
            health.primary_port_bind_failure == !bound_at(final(self)@, settings.primary_port),
            health.secondary_port_bind_failure == (settings.secondary_port matches Some(s)
                && !bound_at(final(self)@, s)),
    {
        self.apply(plan, outcomes);
        self.port_health(settings)
    }

    /// Says for each of the two ports whether it failed to bind: the
    /// primary port has failed unless some socket is bound at it, and the
    /// secondary port has failed if one is configured and no socket is
    /// bound at it.
    pub fn port_health(&self, settings: &LocalConfigSettings) -> (health: PortHealth)
        ensures
            health.primary_port_bind_failure == !bound_at(self@, settings.primary_port),
            health.secondary_port_bind_failure == (settings.secondary_port matches Some(s)
                && !bound_at(self@, s)),
    {
        let mut primary_failure = true;
        let mut secondary_failure = settings.secondary_port.is_some();
        let n = self.bound.len();
        let ghost b = self.bound.entries();
        let mut i: usize = 0;
        while i < n
            invariant
                i <= n,
                n == b.len(),
                b == self.bound.entries(),
                strictly_ordered(b),
                primary_failure == !exists|k: int|
                    0 <= k < i && (#[trigger] b[k]).address.port() == settings.primary_port,
                secondary_failure == (settings.secondary_port matches Some(s) && !exists|k: int|
                    0 <= k < i && (#[trigger] b[k]).address.port() == s),
            decreases n - i,
        {
            match self.bound.get(i) {
                Some(e) => {
                    let port = e.address.port();
                    if port == settings.primary_port {
                        primary_failure = false;
                    }
                    match settings.secondary_port {
                        Some(s) => {
                            if port == s {
                                secondary_failure = false;
                            }
                        },
                        None => {},
                    }
                },
                None => {},
            }
            i += 1;
        }
        proof {
            assert forall|p: u16|
                bound_at(self@, p) <==> exists|k: int|
                    0 <= k < n && (#[trigger] b[k]).address.port() == p by {
                if bound_at(self@, p) {
                    let a = choose|a: InetAddress| #[trigger] self@.contains_key(a) && a.port() == p;
                    let k = index_of(b, a);
                    assert(0 <= k < b.len() && b[k].address == a);
                }
                if exists|k: int| 0 <= k < n && (#[trigger] b[k]).address.port() == p {
                    let k = choose|k: int| 0 <= k < n && (#[trigger] b[k]).address.port() == p;
                    lemma_index_unique(b, k);
                    assert(self@.contains_key(b[k].address));
                }
            }
        }
        PortHealth {
            primary_port_bind_failure: primary_failure,
            secondary_port_bind_failure: secondary_failure,
        }
    }
}

/// Whether the pass opened a socket at `a`: some endpoint of `open` has the
/// address `a` and an outcome that is true.
pub open spec fn opened(open: Seq<Endpoint>, outcomes: Seq<bool>, a: InetAddress) -> bool {
    exists|k: int|
        0 <= k < open.len() && k < outcomes.len() && outcomes[k] && (#[trigger] open[k]).address
            == a
}

/// Whether every opening of the pass succeeded.
pub open spec fn all_opened(open: Seq<Endpoint>, outcomes: Seq<bool>) -> bool {
    forall|k: int| 0 <= k < open.len() ==> k < outcomes.len() && #[trigger] outcomes[k]
}

/// What joining the opened sockets does: an address is bound afterwards
/// exactly if it was bound or has been opened; an address that was not
/// opened keeps its device.
pub proof fn lemma_opened_into(
    bound: Map<InetAddress, String>,
    open: Seq<Endpoint>,
    outcomes: Seq<bool>,
    a: InetAddress,
)
    ensures
        opened_into(bound, open, outcomes).contains_key(a) <==> bound.contains_key(a) || opened(
            open,
            outcomes,
            a,
        ),
        !opened(open, outcomes, a) ==> opened_into(bound, open, outcomes)[a] == bound[a],
        strictly_ordered(open) && opened(open, outcomes, a) ==> opened_into(
            bound,
            open,
            outcomes,
        )[a] == as_map(open)[a],
    decreases open.len(),
{
    if open.len() > 0 {
        let front = open.drop_last();
        let k = open.len() - 1;
        lemma_opened_into(bound, front, outcomes, a);
        assert(forall|i: int| 0 <= i < front.len() ==> front[i] == open[i]);
        if opened(front, outcomes, a) {
            let i = choose|i: int|
                0 <= i < front.len() && i < outcomes.len() && outcomes[i] && (
                #[trigger] front[i]).address == a;
            assert(open[i].address == a);
        }
        if opened(open, outcomes, a) {
            let i = choose|i: int|
                0 <= i < open.len() && i < outcomes.len() && outcomes[i] && (
                #[trigger] open[i]).address == a;
            if i < k {
                assert(front[i].address == a);
            }
        }
        if k < outcomes.len() && outcomes[k] && open[k].address == a {
            assert(opened(open, outcomes, a));
        }
        if strictly_ordered(open) && opened(open, outcomes, a) {
            assert forall|i: int, j: int| 0 <= i < j < front.len() implies (#[trigger] front[i])
                .address.comes_before((#[trigger] front[j]).address) by {
                assert(open[i].address.comes_before(open[j].address));
            }
            let i = index_of(open, a);
            assert(0 <= i < open.len() && open[i].address == a);
            lemma_index_unique(open, i);
            if i < k {
                lemma_index_unique(front, i);
                assert(open[i].address.comes_before(open[k].address));
                assert(opened(front, outcomes, a));
            }
        }
    }
}

/// What one pass leaves bound, for a plan made from `bound` and `desired`:
/// nothing that is not desired, everything desired that was bound, and
/// every desired endpoint that the pass opened. A socket that stays keeps
/// its device; a socket that was opened has the device that is desired for
/// its address.
pub proof fn lemma_pass_result(
    bound: Map<InetAddress, String>,
    desired: Map<InetAddress, String>,
    close: Seq<InetAddress>,
    open: Seq<Endpoint>,
    outcomes: Seq<bool>,
    a: InetAddress,
)
    requires
        is_plan_for(close, open, bound, desired),
    ensures
        after_pass(bound, close, open, outcomes).contains_key(a) <==> desired.contains_key(a) && (
        bound.contains_key(a) || opened(open, outcomes, a)),
        after_pass(bound, close, open, outcomes).contains_key(a) && bound.contains_key(a)
            ==> after_pass(bound, close, open, outcomes)[a] == bound[a],
        after_pass(bound, close, open, outcomes).contains_key(a) && !bound.contains_key(a)
            ==> after_pass(bound, close, open, outcomes)[a] == desired[a],
{
    let kept = bound.remove_keys(close.to_set());
    lemma_opened_into(kept, open, outcomes, a);
    assert(close.to_set().contains(a) <==> close.contains(a));
    if opened(open, outcomes, a) {
        let k = choose|k: int|
            0 <= k < open.len() && k < outcomes.len() && outcomes[k] && (#[trigger] open[k]).address
                == a;
        lemma_index_unique(open, k);
        assert(as_map(open).contains_key(a));
    }
}

/// A pass whose openings all succeed leaves bound exactly the desired
/// addresses.
pub proof fn lemma_full_pass_meets_desired(
    bound: Map<InetAddress, String>,
    desired: Map<InetAddress, String>,
    close: Seq<InetAddress>,
    open: Seq<Endpoint>,
    outcomes: Seq<bool>,
)
    requires
        is_plan_for(close, open, bound, desired),
        all_opened(open, outcomes),
    ensures
        after_pass(bound, close, open, outcomes).dom() == desired.dom(),
{
    let after = after_pass(bound, close, open, outcomes);
    assert forall|a: InetAddress| after.contains_key(a) <==> desired.contains_key(a) by {
        lemma_pass_result(bound, desired, close, open, outcomes, a);
        if desired.contains_key(a) && !bound.contains_key(a) {
            assert(as_map(open).contains_key(a));
            let k = index_of(open, a);
            assert(0 <= k < open.len() && open[k].address == a);
            assert(outcomes[k]);
        }
    }
    assert(after.dom() =~= desired.dom());
}

/// Reconciling is idempotent: after a pass whose openings all succeeded, a
/// second pass for the same desired endpoints closes nothing and opens
/// nothing.
pub proof fn lemma_second_pass_is_idle(
    bound: Map<InetAddress, String>,
    desired: Map<InetAddress, String>,
    close: Seq<InetAddress>,
    open: Seq<Endpoint>,
    outcomes: Seq<bool>,
    close_again: Seq<InetAddress>,
    open_again: Seq<Endpoint>,
)
    requires
        is_plan_for(close, open, bound, desired),
        all_opened(open, outcomes),
        is_plan_for(close_again, open_again, after_pass(bound, close, open, outcomes), desired),
    ensures
        close_again.len() == 0,
        open_again.len() == 0,
{
    lemma_full_pass_meets_desired(bound, desired, close, open, outcomes);
    if close_again.len() > 0 {
        assert(close_again.contains(close_again[0]));
    }
    if open_again.len() > 0 {
        lemma_index_unique(open_again, 0);
    }
}

/// Whatever the outcomes of a pass are, the next pass for the same desired
/// endpoints closes nothing, and it opens exactly the desired endpoints
/// that the first pass did not manage to open.
pub proof fn lemma_next_pass_retries(
    bound: Map<InetAddress, String>,
    desired: Map<InetAddress, String>,
    close: Seq<InetAddress>,
    open: Seq<Endpoint>,
    outcomes: Seq<bool>,
    close_again: Seq<InetAddress>,
    open_again: Seq<Endpoint>,
)
    requires
        is_plan_for(close, open, bound, desired),
        is_plan_for(close_again, open_again, after_pass(bound, close, open, outcomes), desired),
    ensures
        close_again.len() == 0,
        forall|a: InetAddress|
            has_address(open_again, a) <==> has_address(open, a) && !opened(open, outcomes, a),
{
    if close_again.len() > 0 {
        assert(close_again.contains(close_again[0]));
        lemma_pass_result(bound, desired, close, open, outcomes, close_again[0]);
    }
    assert forall|a: InetAddress|
        has_address(open_again, a) <==> has_address(open, a) && !opened(open, outcomes, a) by {
        lemma_pass_result(bound, desired, close, open, outcomes, a);
        assert(as_map(open_again).contains_key(a) <==> has_address(open_again, a));
        assert(as_map(open).contains_key(a) <==> has_address(open, a));
        if opened(open, outcomes, a) {
            let k = choose|k: int|
                0 <= k < open.len() && k < outcomes.len() && outcomes[k] && (
                #[trigger] open[k]).address == a;
            assert(has_address(open, a));
        }
    }
}

/// Every desired endpoint that has an address is at the primary port or at
/// the secondary port.
pub proof fn lemma_desired_ports(
    interfaces: Seq<InterfaceAddress>,
    settings: &LocalConfigSettings,
    a: InetAddress,
)
    requires
        desired_map(interfaces, settings).contains_key(a),
        a != InetAddress::Nil,
    ensures
        a.port() == settings.primary_port || settings.secondary_port == Some(a.port()),
{
    lemma_desired_endpoints(interfaces, settings, a);
    let i = choose|i: int|
        0 <= i < interfaces.len() && yields(&#[trigger] interfaces[i], settings, a);
    crate::inet::lemma_with_port(interfaces[i].address, settings.primary_port);
    if settings.secondary_port is Some {
        crate::inet::lemma_with_port(interfaces[i].address, settings.secondary_port->0);
    }
}

/// After a pass whose openings all succeeded, the primary port has not
/// failed as long as some interface address is wanted, and neither has the
/// secondary port if one is configured.
pub proof fn lemma_full_pass_binds_the_ports(
    interfaces: Seq<InterfaceAddress>,
    settings: &LocalConfigSettings,
    bound: Map<InetAddress, String>,
    close: Seq<InetAddress>,
    open: Seq<Endpoint>,
    outcomes: Seq<bool>,
    i: int,
)
    requires
        is_plan_for(close, open, bound, desired_map(interfaces, settings)),
        all_opened(open, outcomes),
        0 <= i < interfaces.len(),
        wanted(&interfaces[i], settings),
        interfaces[i].address != InetAddress::Nil,
    ensures
        bound_at(after_pass(bound, close, open, outcomes), settings.primary_port),
        settings.secondary_port matches Some(s) ==> bound_at(
            after_pass(bound, close, open, outcomes),
            s,
        ),
{
    let desired = desired_map(interfaces, settings);
    let after = after_pass(bound, close, open, outcomes);
    lemma_full_pass_meets_desired(bound, desired, close, open, outcomes);
    let a = interfaces[i].address.with_port(settings.primary_port);
    assert(yields(&interfaces[i], settings, a));
    lemma_desired_endpoints(interfaces, settings, a);
    crate::inet::lemma_with_port(interfaces[i].address, settings.primary_port);
    assert(after.dom().contains(a));
    assert(after.contains_key(a) && a.port() == settings.primary_port);
    if settings.secondary_port is Some {
        let s = settings.secondary_port->0;
        let b = interfaces[i].address.with_port(s);
        assert(yields(&interfaces[i], settings, b));
        lemma_desired_endpoints(interfaces, settings, b);
        crate::inet::lemma_with_port(interfaces[i].address, s);
        assert(after.dom().contains(b));
        assert(after.contains_key(b) && b.port() == s);
    }
}

/// A strictly ordered sequence has as many entries as its map has addresses.
pub proof fn lemma_domain_size(s: Seq<Endpoint>)
    requires
        strictly_ordered(s),
    ensures
        as_map(s).dom().finite(),
        as_map(s).dom().len() == s.len(),
    decreases s.len(),
{
    if s.len() == 0 {
        assert(as_map(s).dom() =~= Set::<InetAddress>::empty());
    } else {
        let front = s.drop_last();
        let n = s.len() - 1;
        crate::endpoints::lemma_remove_at(s, n);
        assert(s.remove(n) =~= front);
        lemma_domain_size(front);
        lemma_index_unique(s, n);
        assert(as_map(s).dom() =~= as_map(front).dom().insert(s[n].address));
        assert(!as_map(front).dom().contains(s[n].address));
    }
}

} // verus!
