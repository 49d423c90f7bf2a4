use zerotier_service::ident::{MulticastGroup, MAC};
use zerotier_service::vnic::multicast_group_of;

#[test]
fn entry_of_the_device_gives_its_group() {
    let g = multicast_group_of(b"en0", b"en0", &[0x01, 0x00, 0x5e, 0x00, 0x00, 0xfb]);
    assert_eq!(g, Some(MulticastGroup { mac: MAC(0x0100_5e00_00fb), adi: 0 }));
    let g = multicast_group_of(b"en0", b"en", &[0x33, 0x33, 0, 0, 0, 1]);
    assert_eq!(g, Some(MulticastGroup { mac: MAC(0x3333_0000_0001), adi: 0 }));
    let g = multicast_group_of(b"en0", b"", &[0xff; 6]);
    assert_eq!(g, Some(MulticastGroup { mac: MAC(0xffff_ffff_ffff), adi: 0 }));
}

#[test]
fn entry_of_another_device_gives_nothing() {
    assert_eq!(multicast_group_of(b"en0", b"en1", &[1, 2, 3, 4, 5, 6]), None);
    assert_eq!(multicast_group_of(b"en0", b"en00", &[1, 2, 3, 4, 5, 6]), None);
    assert_eq!(multicast_group_of(b"", b"e", &[1, 2, 3, 4, 5, 6]), None);
}

#[test]
fn entry_without_a_six_octet_address_gives_nothing() {
    assert_eq!(multicast_group_of(b"en0", b"en0", &[1, 2, 3, 4, 5]), None);
    assert_eq!(multicast_group_of(b"en0", b"en0", &[1, 2, 3, 4, 5, 6, 7]), None);
    assert_eq!(multicast_group_of(b"en0", b"en0", &[]), None);
}
