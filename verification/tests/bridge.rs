use std::cell::RefCell;
use std::sync::Arc;

use zerotier_service::bridge::{
    frame_to_inject, network_config_changed, node_event, path_check, path_check_reply, path_lookup,
    path_lookup_reply, send_wire_packet, state_load, state_load_length, state_load_reply,
    state_store,
};
use zerotier_service::codes::{Event, StateObjectType, VirtualNetworkConfigOperation};
use zerotier_service::ident::{Address, Identity, NetworkId, MAC};
use zerotier_service::inet::{InetAddress, InetAddressFamily};
use zerotier_service::node::{Node, NodeEventHandler, VirtualNetworkConfig};

struct Recorder {
    log: RefCell<Vec<String>>,
    stored: RefCell<Vec<u8>>,
    allow: bool,
    fallback: Option<InetAddress>,
}

fn recorder() -> Recorder {
    Recorder { log: RefCell::new(Vec::new()), stored: RefCell::new(Vec::new()), allow: true, fallback: None }
}

impl NodeEventHandler<u32> for Recorder {
    fn virtual_network_config(
        &self,
        network_id: NetworkId,
        network_obj: &Arc<u32>,
        config_op: VirtualNetworkConfigOperation,
        config: Option<&VirtualNetworkConfig>,
    ) {
        self.log.borrow_mut().push(format!(
            "config {:x} {} {:?} {:?}",
            network_id.0,
            **network_obj,
            config_op,
            config.map(|c| c.mtu)
        ));
    }

    fn virtual_network_frame(
        &self,
        network_id: NetworkId,
        network_obj: &Arc<u32>,
        source_mac: MAC,
        dest_mac: MAC,
        ethertype: u16,
        vlan_id: u16,
        data: &[u8],
    ) {
        self.log.borrow_mut().push(format!(
            "frame {:x} {} {:x} {:x} {:x} {} {:?}",
            network_id.0, **network_obj, source_mac.0, dest_mac.0, ethertype, vlan_id, data
        ));
    }

    fn event(&self, event: Event, event_data: &[u8]) {
        self.log.borrow_mut().push(format!("event {:?} {:?}", event, event_data));
    }

    fn state_put(&self, obj_type: StateObjectType, obj_id: &[u64], obj_data: &[u8]) -> std::io::Result<()> {
        self.log.borrow_mut().push(format!("put {:?} {:?} {:?}", obj_type, obj_id, obj_data));
        if obj_type == StateObjectType::Peer {
            return Err(std::io::Error::new(std::io::ErrorKind::Other, "store is full"));
        }
        *self.stored.borrow_mut() = obj_data.to_vec();
        Ok(())
    }

    fn state_get(&self, obj_type: StateObjectType, obj_id: &[u64]) -> std::io::Result<Vec<u8>> {
        self.log.borrow_mut().push(format!("get {:?} {:?}", obj_type, obj_id));
        if obj_type == StateObjectType::Peer {
            return Err(std::io::Error::new(std::io::ErrorKind::NotFound, "no such object"));
        }
        Ok(self.stored.borrow().clone())
    }

    fn wire_packet_send(&self, local_socket: i64, sock_addr: &InetAddress, data: &[u8], packet_ttl: u32) -> i32 {
        self.log.borrow_mut().push(format!("send {} {:?} {:?} {}", local_socket, sock_addr, data, packet_ttl));
        if data.is_empty() {
            -1
        } else {
            data.len() as i32
        }
    }

    fn path_check(&self, address: Address, _id: &Identity, local_socket: i64, sock_addr: &InetAddress) -> bool {
        self.log.borrow_mut().push(format!("check {:x} {} {:?}", address.0, local_socket, sock_addr));
        self.allow
    }

    fn path_lookup(&self, address: Address, _id: &Identity, desired_family: InetAddressFamily) -> Option<InetAddress> {
        self.log.borrow_mut().push(format!("lookup {:x} {:?}", address.0, desired_family));
        self.fallback
    }
}

fn node_with(handler: Recorder) -> Node<Recorder, u32> {
    let mut node = match Node::new(handler, 0, 0, true) {
        Ok(n) => n,
        Err(e) => panic!("node was not created: {:?}", e),
    };
    node.join(NetworkId(0x11), None, &Arc::new(77u32), |_node, _id, _fp| 0);
    node
}

fn log_of(node: &Node<Recorder, u32>) -> Vec<String> {
    node.event_handler().log.borrow().clone()
}

fn some_identity() -> Identity {
    Identity { address: Address(0xaa), public: String::from("aa:0:01"), secret: None }
}

fn some_config() -> VirtualNetworkConfig {
    VirtualNetworkConfig {
        nwid: NetworkId(0x11),
        mac: MAC(1),
        name: String::from("net"),
        mtu: 2800,
        bridge: false,
        broadcast_enabled: true,
        assigned_addresses: Vec::new(),
    }
}

#[test]
fn config_change_reaches_the_handler_with_the_registered_object() {
    let node = node_with(recorder());
    let conf = some_config();
    assert!(network_config_changed(&node, 0x11, 2, Some(&conf)));
    assert!(network_config_changed(&node, 0x11, 4, None));
    assert_eq!(
        log_of(&node),
        vec![
            String::from("config 11 77 ConfigUpdate Some(2800)"),
            String::from("config 11 77 Destroy None"),
        ]
    );
}

#[test]
fn config_change_with_unknown_operation_is_ignored() {
    let node = node_with(recorder());
    assert!(!network_config_changed(&node, 0x11, 0, None));
    assert!(!network_config_changed(&node, 0x11, 5, None));
    assert!(!network_config_changed(&node, 0x11, -1, Some(&some_config())));
    assert!(log_of(&node).is_empty());
}

#[test]
fn config_change_for_an_unregistered_network_is_dropped() {
    let node = node_with(recorder());
    assert!(!network_config_changed(&node, 0x12, 1, None));
    assert!(log_of(&node).is_empty());
}

#[test]
fn frame_reaches_the_handler_of_a_registered_network() {
    let node = node_with(recorder());
    assert!(frame_to_inject(&node, 0x11, 0xa, 0xb, 0x0800, 7, &[1, 2]));
    assert!(frame_to_inject(&node, 0x11, 0xa, 0xb, 0x1_86dd, 0x2_0001, &[]));
    assert_eq!(
        log_of(&node),
        vec![String::from("frame 11 77 a b 800 7 [1, 2]"), String::from("frame 11 77 a b 86dd 1 []")]
    );
}

#[test]
fn frame_for_a_network_that_was_left_is_dropped() {
    let mut node = node_with(recorder());
    assert!(!frame_to_inject(&node, 0x12, 0xa, 0xb, 0x0800, 0, &[1, 2]));
    node.leave(NetworkId(0x11), |_node, _id| 0);
    assert!(!frame_to_inject(&node, 0x11, 0xa, 0xb, 0x0800, 0, &[1, 2]));
    assert!(log_of(&node).is_empty());
}

#[test]
fn event_reaches_the_handler_with_or_without_payload() {
    let node = node_with(recorder());
    assert!(node_event(node.event_handler(), 2, None));
    assert!(node_event(node.event_handler(), 5, Some(&[1, 2, 3])));
    assert!(node_event(node.event_handler(), 3, Some(&[])));
    assert_eq!(
        log_of(&node),
        vec![
            String::from("event Online []"),
            String::from("event Trace [1, 2, 3]"),
            String::from("event Down []"),
        ]
    );
}

#[test]
fn unknown_event_is_ignored() {
    let node = node_with(recorder());
    assert!(!node_event(node.event_handler(), 4, None));
    assert!(!node_event(node.event_handler(), 7, Some(&[1])));
    assert!(!node_event(node.event_handler(), -1, None));
    assert!(log_of(&node).is_empty());
}

#[test]
fn state_store_reports_what_the_handler_reports() {
    let node = node_with(recorder());
    assert!(state_store(node.event_handler(), 1, &[5, 6], &[9, 9]));
    assert!(!state_store(node.event_handler(), 5, &[5], &[1]));
    assert!(!state_store(node.event_handler(), 4, &[5], &[1]));
    assert!(!state_store(node.event_handler(), 0, &[], &[]));
    assert_eq!(
        log_of(&node),
        vec![String::from("put IdentityPublic [5, 6] [9, 9]"), String::from("put Peer [5] [1]")]
    );
}

#[test]
fn state_load_gives_the_object_or_nothing() {
    let node = node_with(recorder());
    assert_eq!(state_load(node.event_handler(), 2, &[1]), None);
    assert!(state_store(node.event_handler(), 2, &[1], &[4, 5, 6]));
    let found = state_load(node.event_handler(), 2, &[1]);
    assert_eq!(found, Some(vec![4, 5, 6]));
    assert_eq!(state_load_length(&found), 3);
    assert_eq!(state_load(node.event_handler(), 5, &[1]), None);
    assert_eq!(state_load(node.event_handler(), 4, &[1]), None);
    assert_eq!(state_load(node.event_handler(), 99, &[1]), None);
    assert_eq!(
        log_of(&node),
        vec![
            String::from("get IdentitySecret [1]"),
            String::from("put IdentitySecret [1] [4, 5, 6]"),
            String::from("get IdentitySecret [1]"),
            String::from("get Peer [1]"),
        ]
    );
}

#[test]
fn state_load_reply_treats_empty_and_failed_as_absent() {
    assert_eq!(state_load_reply(Ok(vec![1])), Some(vec![1]));
    assert_eq!(state_load_reply(Ok(Vec::new())), None);
    assert_eq!(
        state_load_reply(Err(std::io::Error::new(std::io::ErrorKind::NotFound, "absent"))),
        None
    );
    assert_eq!(state_load_length(&None), -1);
    assert_eq!(state_load_length(&Some(vec![0; 300])), 300);
    assert_eq!(state_load_length(&Some(Vec::new())), 0);
}

#[test]
fn wire_packet_send_returns_what_the_handler_returns() {
    let node = node_with(recorder());
    let to = InetAddress::from_ipv4(&[1, 2, 3, 4], 9993);
    assert_eq!(send_wire_packet(node.event_handler(), 3, &to, &[1, 2, 3, 4, 5], 64), 5);
    assert_eq!(send_wire_packet(node.event_handler(), 3, &to, &[], 0), -1);
    assert_eq!(
        log_of(&node),
        vec![
            String::from("send 3 V4 { port: 9993, ip: 16909060 } [1, 2, 3, 4, 5] 64"),
            String::from("send 3 V4 { port: 9993, ip: 16909060 } [] 0"),
        ]
    );
}

#[test]
fn path_check_turns_the_answer_into_a_flag() {
    let to = InetAddress::from_ipv4(&[1, 2, 3, 4], 9993);
    let node = node_with(recorder());
    assert_eq!(path_check(node.event_handler(), 0xaa, &some_identity(), 3, &to), 1);
    assert_eq!(log_of(&node), vec![String::from("check aa 3 V4 { port: 9993, ip: 16909060 }")]);
    let mut strict = recorder();
    strict.allow = false;
    let node = node_with(strict);
    assert_eq!(path_check(node.event_handler(), 0xaa, &some_identity(), 3, &to), 0);
    assert_eq!(path_check_reply(true), 1);
    assert_eq!(path_check_reply(false), 0);
}

#[test]
fn path_lookup_decodes_the_family() {
    let mut knowing = recorder();
    knowing.fallback = Some(InetAddress::from_ipv4(&[9, 9, 9, 9], 9993));
    let node = node_with(knowing);
    let id = some_identity();
    assert_eq!(path_lookup(node.event_handler(), 0xaa, &id, 2, 2, 10), Some(InetAddress::from_ipv4(&[9, 9, 9, 9], 9993)));
    assert_eq!(path_lookup(node.event_handler(), 0xaa, &id, 10, 2, 10), Some(InetAddress::from_ipv4(&[9, 9, 9, 9], 9993)));
    assert_eq!(path_lookup(node.event_handler(), 0xaa, &id, 0, 2, 10), None);
    assert_eq!(path_lookup(node.event_handler(), 0xaa, &id, 30, 2, 10), None);
    assert_eq!(log_of(&node), vec![String::from("lookup aa IPv4"), String::from("lookup aa IPv6")]);
    let node = node_with(recorder());
    assert_eq!(path_lookup(node.event_handler(), 0xaa, &id, 2, 2, 10), None);
    assert_eq!(path_lookup_reply(&None), 0);
    assert_eq!(path_lookup_reply(&Some(InetAddress::Nil)), 1);
}
