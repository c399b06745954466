//! Tests of the address and link-layer decoders.

use netifaces::{decode_mac, if_addr_v4, if_addr_v6, mac_to_string};

#[test]
fn test_v4_byte_order_round_trip() {
    // Network-order stored bytes [127, 0, 0, 1] decode to the host
    // value of 127.0.0.1.
    let a = if_addr_v4(&[127, 0, 0, 1], &None, &None, false);
    assert_eq!(a.ip, 0x7f00_0001);
    assert_eq!(a.netmask, None);
    assert_eq!(a.broadcast, None);
}

#[test]
fn test_v4_netmask_and_broadcast() {
    let a = if_addr_v4(
        &[192, 168, 1, 10],
        &Some([255, 255, 255, 0]),
        &Some([192, 168, 1, 255]),
        true,
    );
    assert_eq!(a.ip, 0xc0a8_010a);
    assert_eq!(a.netmask, Some(0xffff_ff00));
    assert_eq!(a.broadcast, Some(0xc0a8_01ff));
}

#[test]
fn test_v4_broadcast_needs_capability() {
    // A broadcast payload is dropped when the interface is not
    // broadcast-capable, and absent when the record exposed none.
    let a = if_addr_v4(&[10, 0, 0, 2], &None, &Some([10, 0, 0, 255]), false);
    assert_eq!(a.broadcast, None);
    let b = if_addr_v4(&[10, 0, 0, 2], &None, &None, true);
    assert_eq!(b.broadcast, None);
}

#[test]
fn test_v6_decode() {
    let mut loopback = [0u8; 16];
    loopback[15] = 1;
    let a = if_addr_v6(&loopback, &None);
    assert_eq!(a.ip, 1u128);
    assert_eq!(a.netmask, None);

    let full = [0xffu8; 16];
    let b = if_addr_v6(&loopback, &Some(full));
    assert_eq!(b.netmask, Some(u128::MAX));
}

#[test]
fn test_v6_network_order() {
    let mut bytes = [0u8; 16];
    bytes[0] = 0x20;
    bytes[1] = 0x01;
    bytes[2] = 0x0d;
    bytes[3] = 0xb8;
    bytes[15] = 0x01;
    let a = if_addr_v6(&bytes, &None);
    assert_eq!(a.ip, 0x2001_0db8_0000_0000_0000_0000_0000_0001u128);
}

#[test]
fn test_mac_to_string_canonical() {
    let s = mac_to_string(&[0xaa, 0xbb, 0xcc, 0xdd, 0xee, 0xff]);
    assert_eq!(s, "aa:bb:cc:dd:ee:ff");
}

#[test]
fn test_mac_to_string_ignores_trailing_bytes() {
    // Only the first six bytes are rendered, as with a raw
    // eight-byte hardware address field.
    let s = mac_to_string(&[0x01, 0x02, 0x03, 0x04, 0x05, 0x06, 0x99, 0x99]);
    assert_eq!(s, "01:02:03:04:05:06");
}

#[test]
fn test_decode_mac_requires_length_six() {
    // Any declared hardware length other than six yields nothing,
    // never a malformed string.
    let hw = [0x01, 0x02, 0x03, 0x04, 0x05, 0x06, 0x07, 0x08];
    assert_eq!(decode_mac(0, &hw), None);
    assert_eq!(decode_mac(5, &hw), None);
    assert_eq!(decode_mac(7, &hw), None);
    assert_eq!(decode_mac(8, &hw), None);
    assert_eq!(decode_mac(6, &hw), Some(String::from("01:02:03:04:05:06")));
}
