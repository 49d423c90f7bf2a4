//! The entry points through which the engine reaches the host. Each one
//! decodes what the engine passed, in the engine's own numbers, and calls
//! the event handler of the node with what it means. The engine may be
//! newer than the host: a number that the host does not know is no error,
//! and the call is dropped.

use std::sync::Arc;
use vstd::prelude::*;

use crate::codes::{Event, StateObjectType, VirtualNetworkConfigOperation};
use crate::ident::{Address, Identity, NetworkId, MAC};
use crate::inet::{InetAddress, InetAddressFamily};
use crate::node::{Node, NodeEventHandler, VirtualNetworkConfig};

verus! {

/// What the engine is told when a path is or is not to be used, or when
/// an endpoint was or was not found.
pub open spec fn flag(yes: bool) -> int {
    if yes {
        1
    } else {
        0
    }
}

/// What the host answers to a request for a stored object, given what the
/// store returned: the object if the store has one that is not empty and
/// whose length the engine can count, and nothing else.
pub open spec fn loaded_object<E>(found: Result<Vec<u8>, E>) -> Option<Vec<u8>> {
    match found {
        Ok(data) => if 0 < data@.len() <= i32::MAX {
            Some(data)
        } else {
            None
        },
        Err(_) => None,
    }
}

/// The length that the engine is told for a loaded object: the number of
/// its bytes, or -1 if there is none or the engine cannot count so many.
pub open spec fn loaded_length(object: Option<Vec<u8>>) -> int {
    match object {
        Some(data) => if data@.len() <= i32::MAX {
            data@.len() as int
        } else {
            -1
        },
        None => -1,
    }
}

/// Decides what to answer to a request for a stored object, given what
/// the store returned. A missing object is no error: on a first run the
/// store is empty.
pub fn state_load_reply(found: std::io::Result<Vec<u8>>) -> (object: Option<Vec<u8>>)
    ensures
        object == loaded_object(found),
{
    match found {
        Ok(data) => {
            if data.len() > 0 && data.len() <= 0x7fff_ffff {
                Some(data)
            } else {
                None
            }
        },
        Err(_) => None,
    }
}

/// The length that the engine is told for a loaded object.
pub fn state_load_length(object: &Option<Vec<u8>>) -> (length: i32)
    ensures
        length as int == loaded_length(*object),
{
    match object {
        Some(data) => {
            if data.len() <= 0x7fff_ffff {
                data.len() as i32
            } else {
                -1
            }
        },
        None => -1,
    }
}

/// What the engine is told about whether a path may be used.
pub fn path_check_reply(allowed: bool) -> (rc: i32)
    ensures
        rc as int == flag(allowed),
{
    if allowed {
        1
    } else {
        0
    }
}

/// What the engine is told about whether an endpoint was found.
pub fn path_lookup_reply(found: &Option<InetAddress>) -> (rc: i32)
    ensures
        rc as int == flag(found is Some),
{
    if found.is_some() {
        1
    } else {
        0
    }
}

/// The engine has a new state of a network's configuration. The handler
/// is called if the operation is one that the host knows and the network
/// is registered; `conf` is absent when the configuration is no longer
/// available. Returns whether the handler was called.
pub fn network_config_changed<T: NodeEventHandler<N>, N>(
    node: &Node<T, N>,
    nwid: u64,
    op: i32,
    conf: Option<&VirtualNetworkConfig>,
) -> (dispatched: bool)
    ensures
        dispatched == (VirtualNetworkConfigOperation::is_known(op as int)
            && node.networks().contains_key(nwid)),
        dispatched ==> exists|operation: VirtualNetworkConfigOperation|
            operation.code() == op && call_ensures(
                T::virtual_network_config,
                (&node.handler(), NetworkId(nwid), &node.networks()[nwid], operation, conf),
                (),
            ),
{
    match VirtualNetworkConfigOperation::from_i32(op) {
        Some(operation) => {
            match node.network(NetworkId(nwid)) {
                Some(network_obj) => {
                    node.event_handler().virtual_network_config(
                        NetworkId(nwid),
                        network_obj,
                        operation,
                        conf,
                    );
                    true
                },
                None => false,
            }
        },
        None => false,
    }
}

/// The engine has a frame for a virtual network. The handler is called if
/// the network is registered; a frame for a network that is not, because
/// it has just been left, is dropped. Returns whether the handler was
/// called. Of the frame type and the VLAN only the low sixteen bits count.
pub fn frame_to_inject<T: NodeEventHandler<N>, N>(
    node: &Node<T, N>,
    nwid: u64,
    source_mac: u64,
    dest_mac: u64,
    ethertype: u32,
    vlan_id: u32,
    data: &[u8],
) -> (dispatched: bool)
    ensures
        dispatched == node.networks().contains_key(nwid),
        dispatched ==> call_ensures(
            T::virtual_network_frame,
            (
                &node.handler(),
                NetworkId(nwid),
                &node.networks()[nwid],
                MAC(source_mac),
                MAC(dest_mac),
                (ethertype % 0x1_0000) as u16,
                (vlan_id % 0x1_0000) as u16,
                data,
            ),
            (),
        ),
{
    match node.network(NetworkId(nwid)) {
        Some(network_obj) => {
            node.event_handler().virtual_network_frame(
                NetworkId(nwid),
                network_obj,
                MAC(source_mac),
                MAC(dest_mac),
                (ethertype % 0x1_0000) as u16,
                (vlan_id % 0x1_0000) as u16,
                data,
            );
            true
        },
        None => false,
    }
}

/// The engine reports an event. The handler is called if the event is one
/// that the host knows, with the payload, or with no bytes if there is no
/// payload. Returns whether the handler was called.
pub fn node_event<T: NodeEventHandler<N>, N>(handler: &T, ev: i32, data: Option<&[u8]>) -> (dispatched:
    bool)
    ensures
        dispatched == Event::is_known(ev as int),
        dispatched ==> exists|event: Event, payload: &[u8]|
            event.code() == ev && payload@ == (match data {
                Some(d) => d@,
                None => Seq::<u8>::empty(),
            }) && call_ensures(T::event, (handler, event, payload), ()),
{
    match Event::from_i32(ev) {
        Some(event) => {
            match data {
                Some(payload) => {
                    handler.event(event, payload);
                },
                None => {
                    let nothing: Vec<u8> = Vec::new();
                    handler.event(event, nothing.as_slice());
                },
            }
            true
        },
        None => false,
    }
}

/// The engine has an object to keep. The handler is called if the
/// category is one that the host knows. Returns whether the object was
/// stored; the engine is not told, and goes on either way.
pub fn state_store<T: NodeEventHandler<N>, N>(
    handler: &T,
    obj_type: i32,
    obj_id: &[u64],
    obj_data: &[u8],
) -> (stored: bool)
    ensures
        !StateObjectType::is_known(obj_type as int) ==> !stored,
        StateObjectType::is_known(obj_type as int) ==> exists|
            category: StateObjectType,
            outcome: std::io::Result<()>,
        |
            category.code() == obj_type && call_ensures(
                T::state_put,
                (handler, category, obj_id, obj_data),
                outcome,
            ) && stored == (outcome is Ok),
{
    match StateObjectType::from_i32(obj_type) {
        Some(category) => {
            let outcome = handler.state_put(category, obj_id, obj_data);
            outcome.is_ok()
        },
        None => false,
    }
}

/// The engine asks for a stored object. The handler is called if the
/// category is one that the host knows. Returns the object, or nothing if
/// the category is unknown, the store has no such object or the object is
/// empty.
pub fn state_load<T: NodeEventHandler<N>, N>(handler: &T, obj_type: i32, obj_id: &[u64]) -> (object:
    Option<Vec<u8>>)
    ensures
        !StateObjectType::is_known(obj_type as int) ==> object is None,
        StateObjectType::is_known(obj_type as int) ==> exists|
            category: StateObjectType,
            found: std::io::Result<Vec<u8>>,
        |
            category.code() == obj_type && call_ensures(
                T::state_get,
                (handler, category, obj_id),
                found,
            ) && object == loaded_object(found),
        object matches Some(data) ==> 0 < data@.len() <= i32::MAX,
{
    match StateObjectType::from_i32(obj_type) {
        Some(category) => {
            let found = handler.state_get(category, obj_id);
            state_load_reply(found)
        },
        None => None,
    }
}

/// The engine has a packet to send over the physical network. Returns
/// what the handler returns: the number of bytes sent, or a negative
/// number on failure.
pub fn send_wire_packet<T: NodeEventHandler<N>, N>(
    handler: &T,
    local_socket: i64,
    sock_addr: &InetAddress,
    data: &[u8],
    packet_ttl: u32,
) -> (sent: i32)
    ensures
        call_ensures(
            T::wire_packet_send,
            (handler, local_socket, sock_addr, data, packet_ttl),
            sent,
        ),
{
    handler.wire_packet_send(local_socket, sock_addr, data, packet_ttl)
}

/// The engine asks whether a physical address may be used to reach a
/// node. Returns one if the handler allows it and zero if not.
pub fn path_check<T: NodeEventHandler<N>, N>(
    handler: &T,
    address: u64,
    identity: &Identity,
    local_socket: i64,
    sock_addr: &InetAddress,
) -> (rc: i32)
    ensures
        exists|allowed: bool|
            call_ensures(
                T::path_check,
                (handler, Address(address), identity, local_socket, sock_addr),
                allowed,
            ) && rc as int == flag(allowed),
{
    let allowed = handler.path_check(Address(address), identity, local_socket, sock_addr);
    path_check_reply(allowed)
}

/// The engine asks for a physical address at which to try a node. The
/// family that the engine wants comes as the platform's number, and
/// `af_inet` and `af_inet6` are the platform's numbers for the two
/// families. The handler is called if the number is one of the two.
/// Returns the endpoint that the handler gives, or nothing.
pub fn path_lookup<T: NodeEventHandler<N>, N>(
    handler: &T,
    address: u64,
    identity: &Identity,
    sock_family: i32,
    af_inet: i32,
    af_inet6: i32,
) -> (endpoint: Option<InetAddress>)
    ensures
        sock_family != af_inet && sock_family != af_inet6 ==> endpoint is None,
        sock_family == af_inet ==> call_ensures(
            T::path_lookup,
            (handler, Address(address), identity, InetAddressFamily::IPv4),
            endpoint,
        ),
        sock_family != af_inet && sock_family == af_inet6 ==> call_ensures(
            T::path_lookup,
            (handler, Address(address), identity, InetAddressFamily::IPv6),
            endpoint,
        ),
{
    match InetAddressFamily::from_platform(sock_family, af_inet, af_inet6) {
        Some(family) => handler.path_lookup(Address(address), identity, family),
        None => None,
    }
}

} // verus!
