use zerotier_service::config::LocalConfigSettings;
use zerotier_service::endpoints::{Endpoint, EndpointMap};
use zerotier_service::inet::{InetAddress, IpScope};
use zerotier_service::reconcile::{
    desired_endpoints, InterfaceAddress, PortHealth, ReconcilePlan, SocketSet,
};

fn settings(primary: u16, secondary: Option<u16>, blacklist: &[&str]) -> LocalConfigSettings {
    LocalConfigSettings {
        primary_port: primary,
        secondary_port: secondary,
        auto_port_search: false,
        log_size_max: 1048576,
        log_to_stderr: false,
        interface_blacklist: blacklist.iter().map(|s| String::from(*s)).collect(),
    }
}

fn iface(address: InetAddress, scope: IpScope, device: &str) -> InterfaceAddress {
    InterfaceAddress { address, scope, device: String::from(device) }
}

fn private_v4(prefix: u16) -> InetAddress {
    InetAddress::from_ipv4(&[10, 0, 0, 5], prefix)
}

fn link_local_v6(prefix: u16) -> InetAddress {
    let mut o = [0u8; 16];
    o[0] = 0xfe;
    o[1] = 0x80;
    o[15] = 1;
    InetAddress::from_ipv6(&o, prefix)
}

fn entries(m: &EndpointMap) -> Vec<Endpoint> {
    let mut v = Vec::new();
    let mut i = 0;
    while let Some(e) = m.get(i) {
        v.push(e.clone());
        i += 1;
    }
    v
}

fn bound(s: &SocketSet) -> Vec<Endpoint> {
    let mut v = Vec::new();
    let mut i = 0;
    while let Some(e) = s.get(i) {
        v.push(e.clone());
        i += 1;
    }
    v
}

fn ep(address: InetAddress, device: &str) -> Endpoint {
    Endpoint { address, device: String::from(device) }
}

#[test]
fn link_local_address_is_not_desired() {
    let interfaces = vec![
        iface(private_v4(24), IpScope::Private, "eth0"),
        iface(link_local_v6(64), IpScope::LinkLocal, "eth0"),
    ];
    let desired = desired_endpoints(&interfaces, &settings(9993, None, &[]));
    assert_eq!(entries(&desired), vec![ep(private_v4(9993), "eth0")]);
}

#[test]
fn blacklisting_the_device_empties_the_desired_set_and_closes_the_socket() {
    let interfaces = vec![
        iface(private_v4(24), IpScope::Private, "eth0"),
        iface(link_local_v6(64), IpScope::LinkLocal, "eth0"),
    ];
    let open_settings = settings(9993, None, &[]);
    let mut sockets = SocketSet::new();
    let plan = sockets.begin_pass(&interfaces, &open_settings);
    assert_eq!(plan.close, Vec::<InetAddress>::new());
    assert_eq!(plan.open, vec![ep(private_v4(9993), "eth0")]);
    let health = sockets.finish_pass(&plan, &vec![true], &open_settings);
    assert_eq!(
        health,
        PortHealth { primary_port_bind_failure: false, secondary_port_bind_failure: false }
    );
    assert_eq!(bound(&sockets), vec![ep(private_v4(9993), "eth0")]);

    let closed_settings = settings(9993, None, &["eth0"]);
    let desired = desired_endpoints(&interfaces, &closed_settings);
    assert!(desired.is_empty());
    let plan = sockets.plan(&desired);
    assert_eq!(plan.close, vec![private_v4(9993)]);
    assert_eq!(plan.open, Vec::<Endpoint>::new());
    let health = sockets.finish_pass(&plan, &vec![], &closed_settings);
    assert_eq!(sockets.len(), 0);
    assert_eq!(
        health,
        PortHealth { primary_port_bind_failure: true, secondary_port_bind_failure: false }
    );
}

#[test]
fn only_the_named_device_is_blacklisted() {
    let interfaces = vec![
        iface(InetAddress::from_ipv4(&[10, 0, 0, 5], 24), IpScope::Private, "eth0"),
        iface(InetAddress::from_ipv4(&[10, 0, 0, 6], 24), IpScope::Private, "eth00"),
        iface(InetAddress::from_ipv4(&[10, 0, 0, 7], 24), IpScope::Private, "eth"),
    ];
    let s = settings(9993, None, &["eth0", "lo"]);
    assert!(s.is_interface_blacklisted("eth0"));
    assert!(s.is_interface_blacklisted("lo"));
    assert!(!s.is_interface_blacklisted("eth00"));
    assert!(!s.is_interface_blacklisted("eth"));
    assert!(!s.is_interface_blacklisted(""));
    let desired = desired_endpoints(&interfaces, &s);
    assert_eq!(
        entries(&desired),
        vec![
            ep(InetAddress::from_ipv4(&[10, 0, 0, 6], 9993), "eth00"),
            ep(InetAddress::from_ipv4(&[10, 0, 0, 7], 9993), "eth"),
        ]
    );
}

#[test]
fn secondary_port_doubles_the_desired_endpoints() {
    let interfaces = vec![
        iface(InetAddress::from_ipv4(&[10, 0, 0, 5], 24), IpScope::Private, "eth0"),
        iface(InetAddress::from_ipv4(&[8, 8, 8, 8], 24), IpScope::Global, "eth1"),
        iface(InetAddress::from_ipv4(&[127, 0, 0, 1], 8), IpScope::Loopback, "lo"),
        iface(InetAddress::from_ipv4(&[100, 64, 0, 1], 10), IpScope::Shared, "eth2"),
        iface(InetAddress::from_ipv4(&[25, 0, 0, 1], 8), IpScope::PseudoPrivate, "eth3"),
        iface(InetAddress::from_ipv4(&[224, 0, 0, 1], 4), IpScope::Multicast, "eth4"),
        iface(InetAddress::from_ipv4(&[0, 0, 0, 0], 0), IpScope::Unspecified, "eth5"),
    ];
    let desired = desired_endpoints(&interfaces, &settings(9993, Some(293), &[]));
    assert_eq!(
        entries(&desired),
        vec![
            ep(InetAddress::from_ipv4(&[8, 8, 8, 8], 293), "eth1"),
            ep(InetAddress::from_ipv4(&[10, 0, 0, 5], 293), "eth0"),
            ep(InetAddress::from_ipv4(&[25, 0, 0, 1], 293), "eth3"),
            ep(InetAddress::from_ipv4(&[100, 64, 0, 1], 293), "eth2"),
            ep(InetAddress::from_ipv4(&[8, 8, 8, 8], 9993), "eth1"),
            ep(InetAddress::from_ipv4(&[10, 0, 0, 5], 9993), "eth0"),
            ep(InetAddress::from_ipv4(&[25, 0, 0, 1], 9993), "eth3"),
            ep(InetAddress::from_ipv4(&[100, 64, 0, 1], 9993), "eth2"),
        ]
    );
}

#[test]
fn same_address_on_two_devices_keeps_the_last_device() {
    let interfaces = vec![
        iface(InetAddress::from_ipv4(&[10, 0, 0, 5], 24), IpScope::Private, "eth0"),
        iface(InetAddress::from_ipv4(&[10, 0, 0, 5], 16), IpScope::Private, "br0"),
    ];
    let desired = desired_endpoints(&interfaces, &settings(9993, None, &[]));
    assert_eq!(entries(&desired), vec![ep(InetAddress::from_ipv4(&[10, 0, 0, 5], 9993), "br0")]);
}

#[test]
fn equal_primary_and_secondary_port_give_one_endpoint() {
    let interfaces = vec![iface(private_v4(24), IpScope::Private, "eth0")];
    let s = settings(9993, Some(9993), &[]);
    let desired = desired_endpoints(&interfaces, &s);
    assert_eq!(entries(&desired), vec![ep(private_v4(9993), "eth0")]);
    let mut sockets = SocketSet::new();
    let plan = sockets.plan(&desired);
    let health = sockets.finish_pass(&plan, &vec![true], &s);
    assert_eq!(
        health,
        PortHealth { primary_port_bind_failure: false, secondary_port_bind_failure: false }
    );
}

#[test]
fn no_interfaces_no_endpoints() {
    let desired = desired_endpoints(&Vec::new(), &settings(9993, Some(293), &[]));
    assert!(desired.is_empty());
    let sockets = SocketSet::new();
    let plan = sockets.plan(&desired);
    assert_eq!(plan, ReconcilePlan { close: vec![], open: vec![] });
    assert_eq!(
        sockets.port_health(&settings(9993, Some(293), &[])),
        PortHealth { primary_port_bind_failure: true, secondary_port_bind_failure: true }
    );
    assert_eq!(
        sockets.port_health(&settings(9993, None, &[])),
        PortHealth { primary_port_bind_failure: true, secondary_port_bind_failure: false }
    );
}

#[test]
fn second_pass_with_unchanged_inputs_does_nothing() {
    let interfaces = vec![
        iface(InetAddress::from_ipv4(&[10, 0, 0, 5], 24), IpScope::Private, "eth0"),
        iface(InetAddress::from_ipv4(&[8, 8, 8, 8], 24), IpScope::Global, "eth1"),
        iface(link_local_v6(64), IpScope::LinkLocal, "eth0"),
    ];
    let s = settings(9993, Some(293), &[]);
    let mut sockets = SocketSet::new();
    let first = sockets.begin_pass(&interfaces, &s);
    assert_eq!(first.open.len(), 4);
    assert_eq!(first.close.len(), 0);
    sockets.apply(&first, &vec![true, true, true, true]);
    assert_eq!(sockets.len(), 4);
    let before = bound(&sockets);
    let second = sockets.begin_pass(&interfaces, &s);
    assert_eq!(second, ReconcilePlan { close: vec![], open: vec![] });
    sockets.apply(&second, &vec![]);
    assert_eq!(bound(&sockets), before);
}

#[test]
fn failed_opening_is_left_out_and_planned_again() {
    let interfaces = vec![
        iface(InetAddress::from_ipv4(&[10, 0, 0, 5], 24), IpScope::Private, "eth0"),
        iface(InetAddress::from_ipv4(&[10, 0, 0, 6], 24), IpScope::Private, "eth1"),
    ];
    let s = settings(9993, Some(293), &[]);
    let mut sockets = SocketSet::new();
    let plan = sockets.begin_pass(&interfaces, &s);
    assert_eq!(
        plan.open,
        vec![
            ep(InetAddress::from_ipv4(&[10, 0, 0, 5], 293), "eth0"),
            ep(InetAddress::from_ipv4(&[10, 0, 0, 6], 293), "eth1"),
            ep(InetAddress::from_ipv4(&[10, 0, 0, 5], 9993), "eth0"),
            ep(InetAddress::from_ipv4(&[10, 0, 0, 6], 9993), "eth1"),
        ]
    );
    let health = sockets.finish_pass(&plan, &vec![true, false, false], &s);
    assert_eq!(bound(&sockets), vec![ep(InetAddress::from_ipv4(&[10, 0, 0, 5], 293), "eth0")]);
    assert_eq!(
        health,
        PortHealth { primary_port_bind_failure: true, secondary_port_bind_failure: false }
    );
    assert!(health.is_fatal(false));
    assert!(!health.is_fatal(true));
    let again = sockets.begin_pass(&interfaces, &s);
    assert_eq!(again.close, Vec::<InetAddress>::new());
    assert_eq!(
        again.open,
        vec![
            ep(InetAddress::from_ipv4(&[10, 0, 0, 6], 293), "eth1"),
            ep(InetAddress::from_ipv4(&[10, 0, 0, 5], 9993), "eth0"),
            ep(InetAddress::from_ipv4(&[10, 0, 0, 6], 9993), "eth1"),
        ]
    );
    let health = sockets.finish_pass(&again, &vec![false, true, true], &s);
    assert_eq!(sockets.len(), 3);
    assert_eq!(
        health,
        PortHealth { primary_port_bind_failure: false, secondary_port_bind_failure: false }
    );
}

#[test]
fn removed_interface_closes_its_sockets_only() {
    let s = settings(9993, None, &[]);
    let both = vec![
        iface(InetAddress::from_ipv4(&[10, 0, 0, 5], 24), IpScope::Private, "eth0"),
        iface(InetAddress::from_ipv4(&[10, 0, 0, 6], 24), IpScope::Private, "eth1"),
    ];
    let mut sockets = SocketSet::new();
    let plan = sockets.begin_pass(&both, &s);
    sockets.apply(&plan, &vec![true, true]);
    let one = vec![
        iface(InetAddress::from_ipv4(&[10, 0, 0, 6], 24), IpScope::Private, "eth1"),
        iface(InetAddress::from_ipv4(&[10, 0, 0, 7], 24), IpScope::Private, "eth2"),
    ];
    let plan = sockets.begin_pass(&one, &s);
    assert_eq!(plan.close, vec![InetAddress::from_ipv4(&[10, 0, 0, 5], 9993)]);
    assert_eq!(plan.open, vec![ep(InetAddress::from_ipv4(&[10, 0, 0, 7], 9993), "eth2")]);
    sockets.apply(&plan, &vec![true]);
    assert_eq!(
        bound(&sockets),
        vec![
            ep(InetAddress::from_ipv4(&[10, 0, 0, 6], 9993), "eth1"),
            ep(InetAddress::from_ipv4(&[10, 0, 0, 7], 9993), "eth2"),
        ]
    );
    assert!(sockets.contains(&InetAddress::from_ipv4(&[10, 0, 0, 6], 9993)));
    assert!(!sockets.contains(&InetAddress::from_ipv4(&[10, 0, 0, 5], 9993)));
}

#[test]
fn secondary_port_failure_is_reported_and_not_fatal() {
    let interfaces = vec![iface(private_v4(24), IpScope::Private, "eth0")];
    let s = settings(9993, Some(293), &[]);
    let mut sockets = SocketSet::new();
    let plan = sockets.begin_pass(&interfaces, &s);
    assert_eq!(plan.open, vec![ep(private_v4(293), "eth0"), ep(private_v4(9993), "eth0")]);
    let health = sockets.finish_pass(&plan, &vec![false, true], &s);
    assert_eq!(
        health,
        PortHealth { primary_port_bind_failure: false, secondary_port_bind_failure: true }
    );
    assert!(!health.is_fatal(false));
    assert!(!health.is_fatal(true));
}

#[test]
fn outcomes_beyond_the_plan_are_ignored() {
    let interfaces = vec![iface(private_v4(24), IpScope::Private, "eth0")];
    let s = settings(9993, None, &[]);
    let mut sockets = SocketSet::new();
    let plan = sockets.begin_pass(&interfaces, &s);
    sockets.apply(&plan, &vec![true, true, true]);
    assert_eq!(bound(&sockets), vec![ep(private_v4(9993), "eth0")]);
}

#[test]
fn port_search_is_called_for_only_where_it_is_allowed() {
    let none = PortHealth { primary_port_bind_failure: false, secondary_port_bind_failure: false };
    let primary = PortHealth { primary_port_bind_failure: true, secondary_port_bind_failure: false };
    let secondary = PortHealth { primary_port_bind_failure: false, secondary_port_bind_failure: true };
    assert!(!none.calls_for_port_search(true));
    assert!(!none.calls_for_port_search(false));
    assert!(primary.calls_for_port_search(true));
    assert!(!primary.calls_for_port_search(false));
    assert!(secondary.calls_for_port_search(true));
    assert!(!secondary.calls_for_port_search(false));
    assert!(primary.is_fatal(false));
    assert!(!primary.is_fatal(true));
    assert!(!secondary.is_fatal(false));
    assert!(!none.is_fatal(false));
}
