use zerotier_service::ifaddrs::{
    endpoint_of, for_each_address, netmask_bits_v4, netmask_bits_v6, s6_addr_as_ptr,
    InterfaceRecord, SocketAddress,
};
use zerotier_service::inet::InetAddress;

#[test]
fn reference_reaches_the_same_structure() {
    let octets = [1u8, 2, 3, 4];
    let p = s6_addr_as_ptr(&octets);
    assert!(std::ptr::eq(p, &octets));
    assert_eq!(*p, [1, 2, 3, 4]);
    let text = String::from("x");
    assert_eq!(s6_addr_as_ptr(&text), "x");
}

#[test]
fn ipv4_netmask_gives_its_prefix_length() {
    assert_eq!(netmask_bits_v4(&[255, 255, 255, 0]), 24);
    assert_eq!(netmask_bits_v4(&[255, 255, 255, 255]), 32);
    assert_eq!(netmask_bits_v4(&[0, 0, 0, 0]), 0);
    assert_eq!(netmask_bits_v4(&[255, 0, 0, 0]), 8);
    assert_eq!(netmask_bits_v4(&[255, 255, 240, 0]), 20);
    assert_eq!(netmask_bits_v4(&[255, 192, 0, 0]), 10);
    assert_eq!(netmask_bits_v4(&[128, 0, 0, 0]), 1);
    assert_eq!(netmask_bits_v4(&[255, 255, 255, 254]), 31);
}

#[test]
fn counting_stops_at_the_first_zero_bit() {
    assert_eq!(netmask_bits_v4(&[255, 0, 255, 255]), 8);
    assert_eq!(netmask_bits_v4(&[254, 255, 255, 255]), 7);
    assert_eq!(netmask_bits_v4(&[0, 255, 255, 255]), 0);
    assert_eq!(netmask_bits_v4(&[255, 253, 255, 0]), 14);
    assert_eq!(netmask_bits_v4(&[127, 255, 255, 255]), 0);
}

#[test]
fn ipv6_netmask_gives_its_prefix_length() {
    let mut m = [0u8; 16];
    assert_eq!(netmask_bits_v6(&m), 0);
    for i in 0..8 {
        m[i] = 0xff;
    }
    assert_eq!(netmask_bits_v6(&m), 64);
    m[8] = 0xf0;
    assert_eq!(netmask_bits_v6(&m), 68);
    m[8] = 0xff;
    m[9] = 0x80;
    assert_eq!(netmask_bits_v6(&m), 73);
    assert_eq!(netmask_bits_v6(&[0xff; 16]), 128);
    let mut n = [0xffu8; 16];
    n[15] = 0xfe;
    assert_eq!(netmask_bits_v6(&n), 127);
}

fn v4_record(octets: [u8; 4], mask: Option<[u8; 4]>, name: Option<&str>) -> InterfaceRecord {
    InterfaceRecord {
        address: Some(SocketAddress::Inet { octets }),
        netmask: mask.map(|m| SocketAddress::Inet { octets: m }),
        name: name.map(String::from),
    }
}

#[test]
fn entry_gives_its_address_with_the_prefix_length_as_port() {
    let r = v4_record([10, 0, 0, 5], Some([255, 255, 255, 0]), Some("eth0"));
    assert_eq!(endpoint_of(&r), Some(InetAddress::from_ipv4(&[10, 0, 0, 5], 24)));
    let r = v4_record([10, 0, 0, 5], None, Some("eth0"));
    assert_eq!(endpoint_of(&r), Some(InetAddress::from_ipv4(&[10, 0, 0, 5], 0)));
    let mut o = [0u8; 16];
    o[0] = 0xfe;
    o[1] = 0x80;
    o[15] = 1;
    let mut mask = [0u8; 16];
    for i in 0..8 {
        mask[i] = 0xff;
    }
    let r = InterfaceRecord {
        address: Some(SocketAddress::Inet6 { octets: o }),
        netmask: Some(SocketAddress::Inet6 { octets: mask }),
        name: Some(String::from("eth0")),
    };
    assert_eq!(endpoint_of(&r), Some(InetAddress::from_ipv6(&o, 64)));
}

#[test]
fn netmask_of_another_family_counts_as_missing() {
    let r = InterfaceRecord {
        address: Some(SocketAddress::Inet { octets: [10, 0, 0, 5] }),
        netmask: Some(SocketAddress::Inet6 { octets: [0xff; 16] }),
        name: Some(String::from("eth0")),
    };
    assert_eq!(endpoint_of(&r), Some(InetAddress::from_ipv4(&[10, 0, 0, 5], 0)));
    let r = InterfaceRecord {
        address: Some(SocketAddress::Inet6 { octets: [1; 16] }),
        netmask: Some(SocketAddress::Other),
        name: Some(String::from("eth0")),
    };
    assert_eq!(endpoint_of(&r), Some(InetAddress::from_ipv6(&[1; 16], 0)));
}

#[test]
fn entries_without_address_or_name_are_passed_over() {
    let records = vec![
        v4_record([10, 0, 0, 5], Some([255, 255, 255, 0]), Some("eth0")),
        InterfaceRecord { address: None, netmask: None, name: Some(String::from("tun0")) },
        InterfaceRecord {
            address: Some(SocketAddress::Other),
            netmask: Some(SocketAddress::Other),
            name: Some(String::from("eth0")),
        },
        v4_record([10, 0, 0, 6], Some([255, 255, 0, 0]), None),
        v4_record([192, 168, 1, 1], Some([255, 255, 255, 255]), Some("wlan0")),
        v4_record([10, 0, 0, 5], Some([255, 0, 0, 0]), Some("eth0")),
    ];
    assert_eq!(
        for_each_address(&records),
        vec![
            (InetAddress::from_ipv4(&[10, 0, 0, 5], 24), String::from("eth0")),
            (InetAddress::from_ipv4(&[192, 168, 1, 1], 32), String::from("wlan0")),
            (InetAddress::from_ipv4(&[10, 0, 0, 5], 8), String::from("eth0")),
        ]
    );
    assert_eq!(for_each_address(&Vec::new()), Vec::new());
}
