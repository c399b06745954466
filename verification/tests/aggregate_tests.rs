//! Tests of the aggregator: merging, ordering, flags, and the
//! two-interface scenario.

use netifaces::{aggregate, Flags, Addr, RawData, RawRecord};

const UP: u32 = 0x1;
const BROADCAST: u32 = 0x2;
const LOOPBACK: u32 = 0x8;
const RUNNING: u32 = 0x40;
const MULTICAST: u32 = 0x1000;

fn lo_v4() -> RawRecord {
    RawRecord {
        name: String::from("lo"),
        index: 1,
        flag_bits: UP | LOOPBACK | RUNNING,
        data: Some(RawData::V4 {
            addr: [127, 0, 0, 1],
            netmask: Some([255, 0, 0, 0]),
            broadcast: None,
        }),
    }
}

fn lo_v6() -> RawRecord {
    let mut ip = [0u8; 16];
    ip[15] = 1;
    RawRecord {
        name: String::from("lo"),
        index: 1,
        flag_bits: UP | LOOPBACK | RUNNING,
        data: Some(RawData::V6 { addr: ip, netmask: Some([0xff; 16]) }),
    }
}

fn eth0_v4() -> RawRecord {
    RawRecord {
        name: String::from("eth0"),
        index: 2,
        flag_bits: UP | RUNNING | MULTICAST | BROADCAST,
        data: Some(RawData::V4 {
            addr: [192, 168, 1, 10],
            netmask: Some([255, 255, 255, 0]),
            broadcast: Some([192, 168, 1, 255]),
        }),
    }
}

fn eth0_link() -> RawRecord {
    RawRecord {
        name: String::from("eth0"),
        index: 2,
        flag_bits: UP | RUNNING | MULTICAST | BROADCAST,
        data: Some(RawData::Link {
            hw_len: 6,
            hw: [0xaa, 0xbb, 0xcc, 0xdd, 0xee, 0xff, 0, 0],
        }),
    }
}

#[test]
fn test_two_families_merge_into_one_entry() {
    // An interface with both an IPv4 and an IPv6 raw record merges
    // into exactly one entry whose address list has length two.
    let out = aggregate(&vec![lo_v4(), lo_v6()]);
    assert_eq!(out.len(), 1);
    assert_eq!(out[0].index, 1);
    assert_eq!(out[0].addr.len(), 2);
    assert!(matches!(out[0].addr[0], Addr::IPv4(_)));
    assert!(matches!(out[0].addr[1], Addr::IPv6(_)));
}

#[test]
fn test_flags_from_bits() {
    let f = Flags::from_bits(UP | LOOPBACK | RUNNING);
    assert!(f.up && f.loopback && f.running);
    assert!(!f.multicast && !f.broadcast);
    let g = Flags::from_bits(UP | RUNNING | MULTICAST | BROADCAST);
    assert!(g.up && g.running && g.multicast && g.broadcast);
    assert!(!g.loopback);
    let z = Flags::from_bits(0);
    assert!(!z.up && !z.loopback && !z.running && !z.multicast && !z.broadcast);
}

#[test]
fn test_scenario_two_interfaces() {
    // Records arrive interleaved; the result is one entry per
    // interface, ascending by index.
    let records = vec![eth0_v4(), lo_v4(), eth0_link(), lo_v6()];
    let out = aggregate(&records);
    assert_eq!(out.len(), 2);

    assert_eq!(out[0].index, 1);
    assert_eq!(out[0].name, "lo");
    assert!(out[0].flags.loopback && out[0].flags.up && out[0].flags.running);
    assert_eq!(out[0].addr.len(), 2);
    match out[0].addr[0] {
        Addr::IPv4(a) => {
            assert_eq!(a.ip, 0x7f00_0001);
            assert_eq!(a.netmask, Some(0xff00_0000));
            assert_eq!(a.broadcast, None);
        },
        _ => panic!("loopback's first address should be IPv4"),
    }
    match out[0].addr[1] {
        Addr::IPv6(a) => {
            assert_eq!(a.ip, 1u128);
            assert_eq!(a.netmask, Some(u128::MAX));
        },
        _ => panic!("loopback's second address should be IPv6"),
    }
    assert_eq!(out[0].mac_addr, None);

    assert_eq!(out[1].index, 2);
    assert_eq!(out[1].name, "eth0");
    assert!(out[1].flags.broadcast && out[1].flags.multicast);
    assert!(!out[1].flags.loopback);
    assert_eq!(out[1].addr.len(), 1);
    match out[1].addr[0] {
        Addr::IPv4(a) => {
            assert_eq!(a.ip, 0xc0a8_010a);
            assert_eq!(a.netmask, Some(0xffff_ff00));
            assert_eq!(a.broadcast, Some(0xc0a8_01ff));
        },
        _ => panic!("eth0's address should be IPv4"),
    }
    assert_eq!(out[1].mac_addr, Some(String::from("aa:bb:cc:dd:ee:ff")));
}

#[test]
fn test_membership_idempotent() {
    // Two walks over the same records yield the same (index, name)
    // pairs.
    let records = vec![lo_v4(), eth0_v4(), lo_v6(), eth0_link()];
    let first = aggregate(&records);
    let second = aggregate(&records);
    let pairs1: Vec<(u32, String)> = first.iter().map(|n| (n.index, n.name.clone())).collect();
    let pairs2: Vec<(u32, String)> = second.iter().map(|n| (n.index, n.name.clone())).collect();
    assert_eq!(pairs1, pairs2);
}

#[test]
fn test_mac_last_write_wins() {
    // A later record of a non-internet family overwrites the MAC,
    // possibly with nothing.
    let other = RawRecord {
        name: String::from("eth0"),
        index: 2,
        flag_bits: UP,
        data: Some(RawData::Other),
    };
    let out = aggregate(&vec![eth0_v4(), eth0_link(), other]);
    assert_eq!(out.len(), 1);
    assert_eq!(out[0].mac_addr, None);
    assert_eq!(out[0].addr.len(), 1);
}

#[test]
fn test_record_without_payload_is_skipped() {
    let bare = RawRecord {
        name: String::from("dummy0"),
        index: 7,
        flag_bits: UP,
        data: None,
    };
    let out = aggregate(&vec![bare]);
    assert_eq!(out.len(), 0);
}

#[test]
fn test_zero_index_is_tolerated() {
    // An interface that vanished mid-walk resolves to index 0 and is
    // still reported, first in the order.
    let ghosted = RawRecord {
        name: String::from("gone0"),
        index: 0,
        flag_bits: UP,
        data: Some(RawData::V4 { addr: [10, 0, 0, 9], netmask: None, broadcast: None }),
    };
    let out = aggregate(&vec![lo_v4(), ghosted]);
    assert_eq!(out.len(), 2);
    assert_eq!(out[0].index, 0);
    assert_eq!(out[0].name, "gone0");
    assert_eq!(out[1].index, 1);
}

#[test]
fn test_link_record_creates_entry() {
    // A link-layer record alone announces the interface: an entry
    // with a MAC and no addresses.
    let out = aggregate(&vec![eth0_link()]);
    assert_eq!(out.len(), 1);
    assert_eq!(out[0].addr.len(), 0);
    assert_eq!(out[0].mac_addr, Some(String::from("aa:bb:cc:dd:ee:ff")));
}
