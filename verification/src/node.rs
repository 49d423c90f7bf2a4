//! The host's handle on one instance of the engine: the registry of joined
//! networks, the time that the engine was last told, and the order in which
//! the host and the engine act when a network is joined or left.
//!
//! The engine itself is outside this library. A function that has to call
//! into it takes the call as an argument; the call is shown the node as it
//! is at that moment, and the function states what it does for every status
//! that the engine may return. Each such function has its two halves beside
//! it, for a caller that cannot keep hold of the node while the engine
//! runs.

use std::sync::Arc;
use vstd::prelude::*;

use crate::codes::{Event, ResultCode, StateObjectType, VirtualNetworkConfigOperation};
use crate::ident::{Address, Fingerprint, Identity, NetworkId, MAC};
use crate::inet::{InetAddress, InetAddressFamily};
use crate::registry::NetworkRegistry;
use crate::scheduler::{clamped_delay, next_delay, NODE_BACKGROUND_TASKS_MAX_INTERVAL};

verus! {

/// `std::io::Error`, the error type of the standard library's input and
/// output, in which an event handler reports that its store has failed.
/// Nothing is claimed of its values: the library carries them and never
/// looks inside.
#[verifier::external_type_specification]
#[verifier::external_body]
pub struct ExIoError(std::io::Error);

/// The status of a node.
#[derive(Clone, Debug, PartialEq, Eq)]
pub struct NodeStatus {
    pub address: Address,
    pub identity: Identity,
    pub public_identity: String,
    pub secret_identity: String,
    pub online: bool,
}

impl NodeStatus {
    /// The status of a node, from what the engine reports of it. The
    /// engine gives the online state as a number that is zero for a node
    /// that is offline.
    pub fn from_engine(
        address: u64,
        identity: Identity,
        public_identity: String,
        secret_identity: String,
        online: i32,
    ) -> (status: NodeStatus)
        ensures
            status.address == Address(address),
            status.identity == identity,
            status.public_identity == public_identity,
            status.secret_identity == secret_identity,
            status.online == (online != 0),
    {
        NodeStatus {
            address: Address(address),
            identity,
            public_identity,
            secret_identity,
            online: online != 0,
        }
    }
}

/// The configuration of a joined network, as the engine reports it. The
/// host hands it to the event handler as it is.
#[derive(Clone, Debug, PartialEq, Eq)]
pub struct VirtualNetworkConfig {
    pub nwid: NetworkId,
    pub mac: MAC,
    pub name: String,
    pub mtu: u32,
    pub bridge: bool,
    pub broadcast_enabled: bool,
    pub assigned_addresses: Vec<InetAddress>,
}

/// A region of bytes that carries one packet or frame across the boundary
/// between the host and the engine. A buffer has one owner. It cannot be
/// copied, and a function that takes a buffer by value takes it for good.
#[derive(Debug)]
pub struct Buffer {
    data: Vec<u8>,
}

impl View for Buffer {
    type V = Seq<u8>;

    closed spec fn view(&self) -> Seq<u8> {
        self.data@
    }
}

impl Buffer {
    /// A buffer that holds `data`.
    pub fn new(data: Vec<u8>) -> (b: Buffer)
        ensures
            b@ == data@,
    {
        Buffer { data }
    }

    /// The number of bytes in the buffer.
    pub fn len(&self) -> (n: usize)
        ensures
            n == self@.len(),
    {
        self.data.len()
    }

    /// The bytes of the buffer.
    pub fn as_bytes(&self) -> (bytes: &[u8])
        ensures
            bytes@ == self@,
    {
        self.data.as_slice()
    }

    /// Gives the buffer up for its bytes.
    pub fn into_bytes(self) -> (bytes: Vec<u8>)
        ensures
            bytes@ == self@,
    {
        self.data
    }
}

/// What receives the events, frames and packets that the engine sends to
/// the host. The engine may call from any of its threads, so an
/// implementation has to be safe to call from several threads at once.
pub trait NodeEventHandler<N> {
    /// A network's configuration is to be applied, updated or taken down.
    /// `config` is absent when the configuration is no longer available.
    fn virtual_network_config(
        &self,
        network_id: NetworkId,
        network_obj: &Arc<N>,
        config_op: VirtualNetworkConfigOperation,
        config: Option<&VirtualNetworkConfig>,
    );

    /// A frame is to be injected into the virtual network.
    fn virtual_network_frame(
        &self,
        network_id: NetworkId,
        network_obj: &Arc<N>,
        source_mac: MAC,
        dest_mac: MAC,
        ethertype: u16,
        vlan_id: u16,
        data: &[u8],
    );

    /// Something happened to the node as a whole.
    fn event(&self, event: Event, event_data: &[u8]);

    /// An object is to be kept in the object store.
    fn state_put(&self, obj_type: StateObjectType, obj_id: &[u64], obj_data: &[u8]) -> std::io::Result<
        (),
    >;

    /// An object is to be fetched from the object store.
    fn state_get(&self, obj_type: StateObjectType, obj_id: &[u64]) -> std::io::Result<Vec<u8>>;

    /// A packet is to be sent over the physical network. Returns the
    /// number of bytes sent, or a negative number on failure.
    fn wire_packet_send(
        &self,
        local_socket: i64,
        sock_addr: &InetAddress,
        data: &[u8],
        packet_ttl: u32,
    ) -> i32;

    /// Whether a physical address may be used to reach a node.
    fn path_check(
        &self,
        address: Address,
        id: &Identity,
        local_socket: i64,
        sock_addr: &InetAddress,
    ) -> bool;

    /// A physical address at which to try a node that the engine has no
    /// path to, if the host knows one.
    fn path_lookup(
        &self,
        address: Address,
        id: &Identity,
        desired_family: InetAddressFamily,
    ) -> Option<InetAddress>;
}

/// The networks that are registered once a join has come back with the
/// status `rc`: the joined network with its object if the engine accepted
/// the join, and else the networks without the one that was to be joined.
pub open spec fn after_join<N>(
    networks: Map<u64, Arc<N>>,
    network_id: u64,
    network_obj: Arc<N>,
    rc: int,
) -> Map<u64, Arc<N>> {
    if rc == 0 {
        networks.insert(network_id, network_obj)
    } else {
        networks.remove(network_id)
    }
}

/// One call that changes the registry: joining a network, with the object
/// to register and the status that the engine answered with, or leaving a
/// network.
pub enum RegistryCall<N> {
    Join { network_id: u64, network_obj: Arc<N>, rc: i32 },
    Leave { network_id: u64 },
}

impl<N> RegistryCall<N> {
    /// The network that the call is about.
    pub open spec fn network_id(self) -> u64 {
        match self {
            RegistryCall::Join { network_id, .. } => network_id,
            RegistryCall::Leave { network_id } => network_id,
        }
    }

    /// Whether the call is a join that the engine accepted.
    pub open spec fn is_successful_join(self) -> bool {
        self matches RegistryCall::Join { rc, .. } && rc == 0
    }
}

/// The networks that are registered after one call.
pub open spec fn after_call<N>(networks: Map<u64, Arc<N>>, call: RegistryCall<N>) -> Map<
    u64,
    Arc<N>,
> {
    match call {
        RegistryCall::Join { network_id, network_obj, rc } => after_join(
            networks,
            network_id,
            network_obj,
            rc as int,
        ),
        RegistryCall::Leave { network_id } => networks.remove(network_id),
    }
}

/// The networks that are registered after a sequence of calls, made one
/// after the other.
pub open spec fn after_calls<N>(networks: Map<u64, Arc<N>>, calls: Seq<RegistryCall<N>>) -> Map<
    u64,
    Arc<N>,
>
    decreases calls.len(),
{
    if calls.len() == 0 {
        networks
    } else {
        after_call(after_calls(networks, calls.drop_last()), calls.last())
    }
}

/// After any sequence of joins and leaves, a network is registered exactly
/// if the last call about it was a join that the engine accepted, and it is
/// then registered with the object of that join. A network that no call was
/// about is registered exactly if it was before.
pub proof fn lemma_registered_iff_last_call_joined<N>(
    networks: Map<u64, Arc<N>>,
    calls: Seq<RegistryCall<N>>,
    x: u64,
)
    ensures
        (forall|j: int| 0 <= j < calls.len() ==> (#[trigger] calls[j]).network_id() != x)
            ==> after_calls(networks, calls).contains_key(x) == networks.contains_key(x),
        (exists|j: int| 0 <= j < calls.len() && (#[trigger] calls[j]).network_id() == x) ==> (
        after_calls(networks, calls).contains_key(x) <==> exists|i: int|
            0 <= i < calls.len() && (#[trigger] calls[i]).network_id() == x
                && calls[i].is_successful_join() && forall|j: int|
                i < j < calls.len() ==> (#[trigger] calls[j]).network_id() != x),
        forall|i: int|
            0 <= i < calls.len() && (#[trigger] calls[i]).network_id() == x
                && calls[i].is_successful_join() && (forall|j: int|
                i < j < calls.len() ==> (#[trigger] calls[j]).network_id() != x) ==> after_calls(
                networks,
                calls,
            ).contains_key(x) && after_calls(networks, calls)[x] == calls[i]->network_obj,
    decreases calls.len(),
{
    if calls.len() > 0 {
        let front = calls.drop_last();
        let n = calls.len() - 1;
        let last = calls.last();
        lemma_registered_iff_last_call_joined(networks, front, x);
        assert(forall|j: int| 0 <= j < front.len() ==> front[j] == calls[j]);
        let before = after_calls(networks, front);
        let after = after_calls(networks, calls);
        assert(after == after_call(before, last));
        if last.network_id() == x {
            assert(calls[n].network_id() == x);
            if last.is_successful_join() {
                assert(after.contains_key(x));
            } else {
                assert(!after.contains_key(x));
                assert forall|i: int|
                    0 <= i < calls.len() && (#[trigger] calls[i]).network_id() == x
                        && calls[i].is_successful_join() implies !(forall|j: int|
                    i < j < calls.len() ==> (#[trigger] calls[j]).network_id() != x) by {
                    assert(i < n);
                    assert(calls[n].network_id() == x);
                }
            }
            assert forall|i: int|
                0 <= i < calls.len() && (#[trigger] calls[i]).network_id() == x
                    && calls[i].is_successful_join() && (forall|j: int|
                    i < j < calls.len() ==> (#[trigger] calls[j]).network_id() != x) implies i
                == n by {
                if i < n {
                    assert(calls[n].network_id() == x);
                }
            }
        } else {
            assert(after.contains_key(x) == before.contains_key(x));
            assert(after.contains_key(x) ==> after[x] == before[x]);
            if exists|j: int| 0 <= j < calls.len() && (#[trigger] calls[j]).network_id() == x {
                let j = choose|j: int|
                    0 <= j < calls.len() && (#[trigger] calls[j]).network_id() == x;
                assert(j < n);
                assert(front[j].network_id() == x);
                if before.contains_key(x) {
                    let i = choose|i: int|
                        0 <= i < front.len() && (#[trigger] front[i]).network_id() == x
                            && front[i].is_successful_join() && forall|j: int|
                            i < j < front.len() ==> (#[trigger] front[j]).network_id() != x;
                    assert(calls[i].network_id() == x && calls[i].is_successful_join());
                    assert forall|j: int| i < j < calls.len() implies (
                    #[trigger] calls[j]).network_id() != x by {
                        if j < n {
                            assert(front[j].network_id() != x);
                        }
                    }
                }
                if exists|i: int|
                    0 <= i < calls.len() && (#[trigger] calls[i]).network_id() == x
                        && calls[i].is_successful_join() && forall|j: int|
                        i < j < calls.len() ==> (#[trigger] calls[j]).network_id() != x {
                    let i = choose|i: int|
                        0 <= i < calls.len() && (#[trigger] calls[i]).network_id() == x
                            && calls[i].is_successful_join() && forall|j: int|
                            i < j < calls.len() ==> (#[trigger] calls[j]).network_id() != x;
                    assert(i < n);
                    assert(front[i].network_id() == x && front[i].is_successful_join());
                    assert forall|j: int| i < j < front.len() implies (
                    #[trigger] front[j]).network_id() != x by {
                        assert(calls[j].network_id() != x);
                    }
                }
            }
            assert forall|i: int|
                0 <= i < calls.len() && (#[trigger] calls[i]).network_id() == x
                    && calls[i].is_successful_join() && (forall|j: int|
                    i < j < calls.len() ==> (#[trigger] calls[j]).network_id() != x) implies after.contains_key(
                x,
            ) && after[x] == calls[i]->network_obj by {
                assert(i < n);
                assert(front[i].network_id() == x && front[i].is_successful_join());
                assert forall|j: int| i < j < front.len() implies (
                #[trigger] front[j]).network_id() != x by {
                    assert(calls[j].network_id() != x);
                }
            }
        }
    }
}

/// An instance of the engine, as the host sees it.
pub struct Node<T: NodeEventHandler<N>, N> {
    event_handler: T,
    now: i64,
    networks_by_id: NetworkRegistry<N>,
}

impl<T: NodeEventHandler<N>, N> Node<T, N> {
    /// The registered networks, each with its object.
    pub closed spec fn networks(&self) -> Map<u64, Arc<N>> {
        self.networks_by_id@
    }

    /// The time that the engine was last told.
    pub closed spec fn clock(&self) -> i64 {
        self.now
    }

    /// The event handler of the node.
    pub closed spec fn handler(&self) -> T {
        self.event_handler
    }

    /// What creating a node comes to, given what the engine made of the
    /// request: the status `rc` of its constructor and whether it handed
    /// back an instance. A status other than zero is an error of its own;
    /// a missing instance is a fatal internal error.
    pub open spec fn creation_error(rc: int, instance_present: bool) -> Option<ResultCode> {
        if rc != 0 {
            Some(ResultCode::of_failed_construction(rc))
        } else if !instance_present {
            Some(ResultCode::FatalErrorInternal)
        } else {
            None
        }
    }

    /// Makes the host's side of a node at time `now`, once the engine has
    /// been asked for an instance. Fails if the engine reported a status
    /// other than zero, with the error of that status, or if it handed back
    /// no instance. A new node has no networks.
    pub fn new(event_handler: T, now: i64, rc: i32, instance_present: bool) -> (r: Result<
        Node<T, N>,
        ResultCode,
    >)
        ensures
            match Self::creation_error(rc as int, instance_present) {
                Some(e) => r == Err::<Node<T, N>, ResultCode>(e),
                None => r is Ok && r->Ok_0.handler() == event_handler && r->Ok_0.clock() == now
                    && r->Ok_0.networks() == Map::<u64, Arc<N>>::empty(),
            },
    {
        if rc != 0 {
            match ResultCode::from_i32(rc) {
                Some(e) => {
                    proof {
                        crate::codes::lemma_result_codes_distinct();
                    }
                    Err(e)
                },
                None => Err(ResultCode::FatalErrorInternal),
            }
        } else if !instance_present {
            Err(ResultCode::FatalErrorInternal)
        } else {
            Ok(Node { event_handler, now, networks_by_id: NetworkRegistry::new() })
        }
    }

    /// The event handler of the node.
    pub fn event_handler(&self) -> (h: &T)
        ensures
            *h == self.handler(),
    {
        &self.event_handler
    }

    /// The time that the engine was last told.
    pub fn now(&self) -> (t: i64)
        ensures
            t == self.clock(),
    {
        self.now
    }

    /// The object of a registered network.
    pub fn network(&self, network_id: NetworkId) -> (r: Option<&Arc<N>>)
        ensures
            r is Some <==> self.networks().contains_key(network_id.0),
            r matches Some(obj) ==> *obj == self.networks()[network_id.0],
    {
        self.networks_by_id.get(network_id)
    }

    /// The number of registered networks.
    pub fn network_count(&self) -> (n: usize)
        ensures
            n == self.networks().len(),
    {
        self.networks_by_id.len()
    }

    /// Runs the background tasks of the engine at `current_time` and says
    /// how long to wait before they run again. The engine is asked through
    /// `engine_tasks`, which sees the node with the new time, and answers
    /// with a deadline; the delay is the time from now to that deadline,
    /// but never less than one millisecond and never more than the maximum
    /// interval.
    pub fn process_background_tasks<F: FnOnce(&Node<T, N>, i64) -> i64>(
        &mut self,
        current_time: i64,
        engine_tasks: F,
    ) -> (delay: u64)
        requires
            forall|during: Node<T, N>|
                during.clock() == current_time && during.networks() == old(self).networks()
                    ==> #[trigger] engine_tasks.requires((&during, current_time)),
        ensures
            final(self).clock() == current_time,
            final(self).networks() == old(self).networks(),
            final(self).handler() == old(self).handler(),
            exists|deadline: i64, during: Node<T, N>|
                during.clock() == current_time && during.networks() == old(self).networks()
                    && during.handler() == old(self).handler() && #[trigger] engine_tasks.ensures(
                    (&during, current_time),
                    deadline,
                ) && delay as int == clamped_delay(current_time as int, deadline as int),
            1 <= delay <= NODE_BACKGROUND_TASKS_MAX_INTERVAL,
    {
        self.begin_background_tasks(current_time);
        let next_task_deadline = engine_tasks(&*self, current_time);
        next_delay(current_time, next_task_deadline)
    }

    /// Notes the time at which the engine is about to run its background
    /// tasks. Packets and frames that are handed to the engine afterwards
    /// carry this time.
    pub fn begin_background_tasks(&mut self, current_time: i64)
        ensures
            final(self).clock() == current_time,
            final(self).networks() == old(self).networks(),
            final(self).handler() == old(self).handler(),
    {
        self.now = current_time;
    }

    /// Takes the network out of the registry, if it is there, and hands
    /// its object back.
    fn delete_network_uptr(&mut self, nwid: u64) -> (removed: Option<Arc<N>>)
        ensures
            final(self).networks() == old(self).networks().remove(nwid),
            final(self).clock() == old(self).clock(),
            final(self).handler() == old(self).handler(),
            removed is Some <==> old(self).networks().contains_key(nwid),
            removed matches Some(obj) ==> obj == old(self).networks()[nwid],
    {
        self.networks_by_id.remove(NetworkId(nwid))
    }

    /// Registers the object of a network that is about to be joined. The
    /// engine may call back for the network as soon as it is asked to join,
    /// so the object has to be there before.
    pub fn begin_join(&mut self, nwid: NetworkId, network_obj: &Arc<N>)
        ensures
            final(self).networks() == old(self).networks().insert(nwid.0, *network_obj),
            final(self).clock() == old(self).clock(),
            final(self).handler() == old(self).handler(),
    {
        let _ = self.networks_by_id.insert(nwid, clone_handle(network_obj));
    }

    /// Takes in the status `rc` with which the engine answered a join. If
    /// the engine refused, the registration is taken back, so that no
    /// object stays behind for a network that was not joined.
    pub fn complete_join(&mut self, nwid: NetworkId, rc: i32) -> (r: ResultCode)
        ensures
            r == ResultCode::of_engine(rc as int),
            r == ResultCode::Success <==> rc == 0,
            rc == 0 ==> final(self).networks() == old(self).networks(),
            rc != 0 ==> final(self).networks() == old(self).networks().remove(nwid.0),
            final(self).clock() == old(self).clock(),
            final(self).handler() == old(self).handler(),
    {
        if rc != 0 {
            let _ = self.delete_network_uptr(nwid.0);
        }
        ResultCode::from_engine(rc)
    }

    /// Joins a network. The object is registered first, then the engine is
    /// asked to join; if it refuses, the registration is taken back. The
    /// engine is asked through `engine_join`, which sees the node as it is
    /// at that moment: with the network registered. The network is
    /// registered afterwards exactly if the result is a success.
    pub fn join<F: FnOnce(&Node<T, N>, u64, Option<Fingerprint>) -> i32>(
        &mut self,
        nwid: NetworkId,
        controller_fingerprint: Option<Fingerprint>,
        network_obj: &Arc<N>,
        engine_join: F,
    ) -> (r: ResultCode)
        requires
            forall|during: Node<T, N>|
                during.networks() == old(self).networks().insert(nwid.0, *network_obj)
                    ==> #[trigger] engine_join.requires((&during, nwid.0, controller_fingerprint)),
        ensures
            exists|rc: i32, during: Node<T, N>|
                during.networks() == old(self).networks().insert(nwid.0, *network_obj)
                    && during.clock() == old(self).clock() && during.handler() == old(
                    self,
                ).handler() && #[trigger] engine_join.ensures(
                    (&during, nwid.0, controller_fingerprint),
                    rc,
                ) && r == ResultCode::of_engine(rc as int) && (r == ResultCode::Success <==> rc
                    == 0) && final(self).networks() == after_join(
                    old(self).networks(),
                    nwid.0,
                    *network_obj,
                    rc as int,
                ),
            r == ResultCode::Success ==> final(self).networks() == old(self).networks().insert(
                nwid.0,
                *network_obj,
            ),
            r != ResultCode::Success ==> final(self).networks() == old(self).networks().remove(
                nwid.0,
            ),
            final(self).clock() == old(self).clock(),
            final(self).handler() == old(self).handler(),
    {
        self.begin_join(nwid, network_obj);
        let rc = engine_join(&*self, nwid.0, controller_fingerprint);
        let r = self.complete_join(nwid, rc);
        proof {
            assert(old(self).networks().insert(nwid.0, *network_obj).remove(nwid.0) =~= old(
                self,
            ).networks().remove(nwid.0));
        }
        r
    }

    /// Leaves a network. The network is taken out of the registry first,
    /// whatever the engine will answer, and then the engine is asked to
    /// leave through `engine_leave`, which sees the node without the
    /// network. Leaving a network that is not registered changes nothing in
    /// the registry.
    pub fn leave<F: FnOnce(&Node<T, N>, u64) -> i32>(&mut self, nwid: NetworkId, engine_leave: F) -> (r:
        ResultCode)
        requires
            forall|during: Node<T, N>|
                during.networks() == old(self).networks().remove(nwid.0)
                    ==> #[trigger] engine_leave.requires((&during, nwid.0)),
        ensures
            exists|rc: i32, during: Node<T, N>|
                during.networks() == old(self).networks().remove(nwid.0) && during.clock() == old(
                    self,
                ).clock() && during.handler() == old(self).handler()
                    && #[trigger] engine_leave.ensures((&during, nwid.0), rc) && r
                    == ResultCode::of_engine(rc as int),
            final(self).networks() == old(self).networks().remove(nwid.0),
            final(self).clock() == old(self).clock(),
            final(self).handler() == old(self).handler(),
    {
        let _ = self.begin_leave(nwid);
        ResultCode::from_engine(engine_leave(&*self, nwid.0))
    }

    /// Takes a network that is about to be left out of the registry and
    /// hands its object back, if the network was registered.
    pub fn begin_leave(&mut self, nwid: NetworkId) -> (removed: Option<Arc<N>>)
        ensures
            final(self).networks() == old(self).networks().remove(nwid.0),
            final(self).clock() == old(self).clock(),
            final(self).handler() == old(self).handler(),
            removed is Some <==> old(self).networks().contains_key(nwid.0),
            removed matches Some(obj) ==> obj == old(self).networks()[nwid.0],
    {
        self.delete_network_uptr(nwid.0)
    }

    /// Hands a packet from the physical network to the engine, with the
    /// time that the engine was last told. The buffer goes to the engine
    /// whatever the result is.
    pub fn process_wire_packet<F: FnOnce(i64, i64, InetAddress, Buffer) -> i32>(
        &self,
        local_socket: i64,
        remote_address: &InetAddress,
        data: Buffer,
        engine_packet: F,
    ) -> (r: ResultCode)
        requires
            engine_packet.requires((self.clock(), local_socket, *remote_address, data)),
        ensures
            exists|rc: i32|
                engine_packet.ensures((self.clock(), local_socket, *remote_address, data), rc) && r
                    == ResultCode::of_engine(rc as int),
    {
        let current_time = self.now;
        ResultCode::from_engine(engine_packet(current_time, local_socket, *remote_address, data))
    }

    /// Hands a frame from a virtual network to the engine, with the time
    /// that the engine was last told. The buffer goes to the engine
    /// whatever the result is.
    pub fn process_virtual_network_frame<F: FnOnce(i64, u64, u64, u64, u16, u16, Buffer) -> i32>(
        &self,
        nwid: &NetworkId,
        source_mac: &MAC,
        dest_mac: &MAC,
        ethertype: u16,
        vlan_id: u16,
        data: Buffer,
        engine_frame: F,
    ) -> (r: ResultCode)
        requires
            engine_frame.requires(
                (self.clock(), nwid.0, source_mac.0, dest_mac.0, ethertype, vlan_id, data),
            ),
        ensures
            exists|rc: i32|
                engine_frame.ensures(
                    (self.clock(), nwid.0, source_mac.0, dest_mac.0, ethertype, vlan_id, data),
                    rc,
                ) && r == ResultCode::of_engine(rc as int),
    {
        let current_time = self.now;
        ResultCode::from_engine(
            engine_frame(current_time, nwid.0, source_mac.0, dest_mac.0, ethertype, vlan_id, data),
        )
    }

    /// Subscribes a network to a multicast group.
    pub fn multicast_subscribe<F: FnOnce(u64, u64, u32) -> i32>(
        &self,
        nwid: &NetworkId,
        multicast_group: &MAC,
        multicast_adi: u32,
        engine_subscribe: F,
    ) -> (r: ResultCode)
        requires
            engine_subscribe.requires((nwid.0, multicast_group.0, multicast_adi)),
        ensures
            exists|rc: i32|
                engine_subscribe.ensures((nwid.0, multicast_group.0, multicast_adi), rc) && r
                    == ResultCode::of_engine(rc as int),
    {
        ResultCode::from_engine(engine_subscribe(nwid.0, multicast_group.0, multicast_adi))
    }

    /// Ends the subscription of a network to a multicast group.
    pub fn multicast_unsubscribe<F: FnOnce(u64, u64, u32) -> i32>(
        &self,
        nwid: &NetworkId,
        multicast_group: &MAC,
        multicast_adi: u32,
        engine_unsubscribe: F,
    ) -> (r: ResultCode)
        requires
            engine_unsubscribe.requires((nwid.0, multicast_group.0, multicast_adi)),
        ensures
            exists|rc: i32|
                engine_unsubscribe.ensures((nwid.0, multicast_group.0, multicast_adi), rc) && r
                    == ResultCode::of_engine(rc as int),
    {
        ResultCode::from_engine(engine_unsubscribe(nwid.0, multicast_group.0, multicast_adi))
    }

    /// Ends the node. Every registered network is taken out of the registry
    /// first, and only then is the engine told to delete its instance: the
    /// engine may call back while it goes down, and must find no network
    /// whose object is already gone. The engine is told through
    /// `engine_delete`, which sees the node without networks. Each object
    /// is handed back once.
    pub fn destroy<F: FnOnce(&Node<T, N>) -> ()>(self, engine_delete: F) -> (released: Vec<
        (NetworkId, Arc<N>),
    >)
        requires
            forall|during: Node<T, N>|
                during.networks() == Map::<u64, Arc<N>>::empty()
                    ==> #[trigger] engine_delete.requires((&during,)),
        ensures
            exists|during: Node<T, N>|
                during.networks() == Map::<u64, Arc<N>>::empty() && during.clock() == self.clock()
                    && during.handler() == self.handler() && #[trigger] engine_delete.ensures(
                    (&during,),
                    (),
                ),
            released@.len() == self.networks().len(),
            forall|i: int|
                0 <= i < released@.len() ==> self.networks().contains_key(
                    (#[trigger] released@[i]).0.0,
                ) && released@[i].1 == self.networks()[released@[i].0.0],
            forall|i: int, j: int|
                0 <= i < j < released@.len() ==> (#[trigger] released@[i]).0 != (
                #[trigger] released@[j]).0,
            forall|id: u64|
                self.networks().contains_key(id) ==> exists|i: int|
                    0 <= i < released@.len() && (#[trigger] released@[i]).0.0 == id,
    {
        let mut node = self;
        let released = node.release_networks();
        engine_delete(&node);
        released
    }

    /// Takes every network out of the registry and hands back each object
    /// exactly once, with the identifier it was registered under. This is
    /// the first half of ending a node; the engine's instance may be
    /// deleted only afterwards.
    pub fn release_networks(&mut self) -> (released: Vec<(NetworkId, Arc<N>)>)
        ensures
            final(self).networks() == Map::<u64, Arc<N>>::empty(),
            final(self).clock() == old(self).clock(),
            final(self).handler() == old(self).handler(),
            released@.len() == old(self).networks().len(),
            forall|i: int|
                0 <= i < released@.len() ==> old(self).networks().contains_key(
                    (#[trigger] released@[i]).0.0,
                ) && released@[i].1 == old(self).networks()[released@[i].0.0],
            forall|i: int, j: int|
                0 <= i < j < released@.len() ==> (#[trigger] released@[i]).0 != (
                #[trigger] released@[j]).0,
            forall|id: u64|
                old(self).networks().contains_key(id) ==> exists|i: int|
                    0 <= i < released@.len() && (#[trigger] released@[i]).0.0 == id,
    {
        self.networks_by_id.drain()
    }
}

/// Makes another handle to the object that `obj` points to. The wrapped
/// call is `Arc::clone`, which hands back a pointer to the same allocation;
/// the two handles therefore stand for the same object.
#[verifier::external_body]
fn clone_handle<N>(obj: &Arc<N>) -> (handle: Arc<N>)
    ensures
        handle == *obj,
{
    Arc::clone(obj)
}

} // verus!
