//! Tests of the derived queries, the hostname trim, and the error
//! message.

use netifaces::{
    aggregate, hostname_from_buffer, is_unicast_link_local, local_ipv4_addresses,
    local_ipv6_addresses, Error, RawData, RawRecord,
};

const UP: u32 = 0x1;
const LOOPBACK: u32 = 0x8;

fn v4_record(name: &str, index: u32, flag_bits: u32, octets: [u8; 4]) -> RawRecord {
    RawRecord {
        name: String::from(name),
        index,
        flag_bits,
        data: Some(RawData::V4 { addr: octets, netmask: None, broadcast: None }),
    }
}

fn v6_record(name: &str, index: u32, flag_bits: u32, octets: [u8; 16]) -> RawRecord {
    RawRecord {
        name: String::from(name),
        index,
        flag_bits,
        data: Some(RawData::V6 { addr: octets, netmask: None }),
    }
}

#[test]
fn test_is_unicast_link_local_range() {
    // fe80::/10 spans fe80:: up to febf:ffff:...
    assert!(is_unicast_link_local(0xfe80_0000_0000_0000_0000_0000_0000_0001u128));
    assert!(is_unicast_link_local(0xfebf_ffff_ffff_ffff_ffff_ffff_ffff_ffffu128));
    assert!(!is_unicast_link_local(0xfec0_0000_0000_0000_0000_0000_0000_0001u128));
    assert!(!is_unicast_link_local(1u128));
    assert!(!is_unicast_link_local(0x2001_0db8_0000_0000_0000_0000_0000_0001u128));
}

#[test]
fn test_local_ipv4_skips_loopback() {
    let out = aggregate(&vec![
        v4_record("lo", 1, UP | LOOPBACK, [127, 0, 0, 1]),
        v4_record("eth0", 2, UP, [192, 168, 1, 10]),
    ]);
    let ips = local_ipv4_addresses(&out);
    assert_eq!(ips, vec![0xc0a8_010au32]);
}

#[test]
fn test_local_ipv4_takes_first_address() {
    let out = aggregate(&vec![
        v4_record("eth0", 2, UP, [192, 168, 1, 10]),
        v4_record("eth0", 2, UP, [192, 168, 1, 11]),
    ]);
    let ips = local_ipv4_addresses(&out);
    assert_eq!(ips, vec![0xc0a8_010au32]);
}

#[test]
fn test_local_ipv6_skips_link_local() {
    let mut link_local = [0u8; 16];
    link_local[0] = 0xfe;
    link_local[1] = 0x80;
    link_local[15] = 1;
    let mut global = [0u8; 16];
    global[0] = 0x20;
    global[1] = 0x01;
    global[15] = 2;

    // The first IPv6 address is link-local: the next one is taken.
    let out = aggregate(&vec![
        v6_record("eth0", 2, UP, link_local),
        v6_record("eth0", 2, UP, global),
    ]);
    let ips = local_ipv6_addresses(&out);
    assert_eq!(ips, vec![0x2001_0000_0000_0000_0000_0000_0000_0002u128]);

    // Only a link-local address: the interface contributes nothing.
    let out2 = aggregate(&vec![v6_record("eth1", 3, UP, link_local)]);
    assert_eq!(local_ipv6_addresses(&out2), Vec::<u128>::new());
}

#[test]
fn test_local_ipv6_skips_loopback() {
    let mut lo6 = [0u8; 16];
    lo6[15] = 1;
    let out = aggregate(&vec![v6_record("lo", 1, UP | LOOPBACK, lo6)]);
    assert_eq!(local_ipv6_addresses(&out), Vec::<u128>::new());
}

#[test]
fn test_hostname_from_buffer_trims_at_nul() {
    let mut buf = Vec::new();
    buf.extend_from_slice(b"myhost");
    buf.push(0);
    buf.extend_from_slice(b"garbage");
    assert_eq!(hostname_from_buffer(&buf), b"myhost".to_vec());
}

#[test]
fn test_hostname_from_buffer_without_nul() {
    let buf = b"fullbuffer".to_vec();
    assert_eq!(hostname_from_buffer(&buf), b"fullbuffer".to_vec());
    assert_eq!(hostname_from_buffer(&Vec::new()), Vec::<u8>::new());
}

#[test]
fn test_error_message() {
    let e = Error::FailedToGetResource(String::from("getifaddrs returned -1"));
    assert_eq!(e.message(), "Could not get resource: getifaddrs returned -1");
}
