//! Address decoding: from the raw network-order byte payload of a
//! record to the typed per-family address values.

use vstd::prelude::*;
use vstd::arithmetic::power::{pow, lemma_pow0, lemma_pow1, lemma_pow_adds, lemma_pow_increases};

use crate::model::{IfAddrV4, IfAddrV6};

verus! {

/// The integer a byte sequence denotes when read in network (big
/// endian) order: the first byte is the most significant.
pub open spec fn be_bytes(s: Seq<u8>) -> int
    decreases s.len(),
{
    if s.len() == 0 {
        0
    } else {
        be_bytes(s.drop_last()) * 256 + s.last()
    }
}

/// A byte sequence read in network order is non-negative and below
/// `256^len`.
pub proof fn lemma_be_bytes_bound(s: Seq<u8>)
    ensures
        0 <= be_bytes(s) < pow(256, s.len()),
    decreases s.len(),
{
    if s.len() == 0 {
        lemma_pow0(256);
    } else {
        lemma_be_bytes_bound(s.drop_last());
        lemma_pow1(256);
        lemma_pow_adds(256, (s.len() - 1) as nat, 1);
        assert(be_bytes(s) == be_bytes(s.drop_last()) * 256 + s.last());
        assert(pow(256, s.len()) == pow(256, (s.len() - 1) as nat) * 256);
        assert(be_bytes(s.drop_last()) * 256 <= (pow(256, (s.len() - 1) as nat) - 1) * 256);
    }
}

/// Concrete powers of 256 up to the 128-bit range.
proof fn lemma_pow256_values()
    ensures
        pow(256, 4) == 0x1_0000_0000,
        pow(256, 16) == 0x1_0000_0000_0000_0000_0000_0000_0000_0000,
        pow(256, 16) == pow(256, 15) * 256,
{
    lemma_pow1(256);
    lemma_pow_adds(256, 1, 1);
    assert(pow(256, 2) == 0x1_0000);
    lemma_pow_adds(256, 2, 2);
    assert(pow(256, 4) == 0x1_0000_0000);
    lemma_pow_adds(256, 4, 4);
    assert(pow(256, 8) == 0x1_0000_0000_0000_0000);
    lemma_pow_adds(256, 8, 8);
    assert(pow(256, 16) == 0x1_0000_0000_0000_0000_0000_0000_0000_0000);
    lemma_pow_adds(256, 15, 1);
}

/// Network-to-host correction for a 32-bit value stored as four bytes
/// in network order.
pub fn be_u32(b: &[u8; 4]) -> (r: u32)
    ensures
        r == be_bytes(b@),
{
    let r = (b[0] as u32) * 0x100_0000 + (b[1] as u32) * 0x1_0000 + (b[2] as u32) * 0x100 + (
    b[3] as u32);
    proof {
        let s = b@;
        let d3 = s.drop_last();
        let d2 = d3.drop_last();
        let d1 = d2.drop_last();
        let d0 = d1.drop_last();
        assert(d3.len() == 3 && d2.len() == 2 && d1.len() == 1 && d0.len() == 0);
        assert(d1.last() == s[0] && d2.last() == s[1] && d3.last() == s[2] && s.last() == s[3]);
        assert(be_bytes(d0) == 0);
        assert(be_bytes(d1) == be_bytes(d0) * 256 + s[0]);
        assert(be_bytes(d2) == be_bytes(d1) * 256 + s[1]);
        assert(be_bytes(d3) == be_bytes(d2) * 256 + s[2]);
        assert(be_bytes(s) == be_bytes(d3) * 256 + s[3]);
    }
    r
}

/// Value of a 128-bit quantity stored as sixteen bytes in network
/// order.
pub fn be_u128(b: &[u8; 16]) -> (r: u128)
    ensures
        r == be_bytes(b@),
{
    let mut acc: u128 = 0;
    let mut i: usize = 0;
    while i < 16
        invariant
            0 <= i <= 16,
            acc == be_bytes(b@.take(i as int)),
        decreases 16 - i,
    {
        proof {
            lemma_be_bytes_bound(b@.take(i as int));
            lemma_pow_increases(256, i as nat, 15);
            lemma_pow256_values();
        }
        acc = acc * 256 + (b[i] as u128);
        proof {
            let t = b@.take(i as int + 1);
            assert(t.drop_last() =~= b@.take(i as int));
            assert(t.last() == b@[i as int]);
            assert(be_bytes(t) == be_bytes(t.drop_last()) * 256 + t.last());
        }
        i = i + 1;
    }
    proof {
        assert(b@.take(16) =~= b@);
    }
    acc
}

/// The typed IPv4 binding a raw IPv4 record denotes.  The address and
/// the optional netmask are the network-order readings of their bytes;
/// the broadcast address is retained only when the interface is
/// broadcast-capable and the record exposed one.
pub open spec fn if_addr_v4_spec(
    addr: [u8; 4],
    netmask: Option<[u8; 4]>,
    broadcast: Option<[u8; 4]>,
    broadcast_capable: bool,
) -> IfAddrV4 {
    IfAddrV4 {
        ip: be_bytes(addr@) as u32,
        netmask: match netmask {
            Some(m) => Some(be_bytes(m@) as u32),
            None => None,
        },
        broadcast: if broadcast_capable {
            match broadcast {
                Some(b) => Some(be_bytes(b@) as u32),
                None => None,
            }
        } else {
            None
        },
    }
}

/// The typed IPv6 binding a raw IPv6 record denotes: the sixteen
/// address octets read in network order, likewise for the optional
/// netmask.
pub open spec fn if_addr_v6_spec(addr: [u8; 16], netmask: Option<[u8; 16]>) -> IfAddrV6 {
    IfAddrV6 {
        ip: be_bytes(addr@) as u128,
        netmask: match netmask {
            Some(m) => Some(be_bytes(m@) as u128),
            None => None,
        },
    }
}

/// Decodes a raw IPv4 record into its typed binding.
pub fn if_addr_v4(
    addr: &[u8; 4],
    netmask: &Option<[u8; 4]>,
    broadcast: &Option<[u8; 4]>,
    broadcast_capable: bool,
) -> (r: IfAddrV4)
    ensures
        r == if_addr_v4_spec(*addr, *netmask, *broadcast, broadcast_capable),
{
    proof {
        lemma_be_bytes_bound(addr@);
        lemma_pow256_values();
    }
    let ip = be_u32(addr);
    let netmask_out: Option<u32> = match netmask {
        Some(m) => {
            proof {
                lemma_be_bytes_bound(m@);
            }
            Some(be_u32(m))
        },
        None => None,
    };
    let broadcast_out: Option<u32> = if broadcast_capable {
        match broadcast {
            Some(b) => {
                proof {
                    lemma_be_bytes_bound(b@);
                }
                Some(be_u32(b))
            },
            None => None,
        }
    } else {
        None
    };
    IfAddrV4 { ip, netmask: netmask_out, broadcast: broadcast_out }
}

/// Decodes a raw IPv6 record into its typed binding.
pub fn if_addr_v6(addr: &[u8; 16], netmask: &Option<[u8; 16]>) -> (r: IfAddrV6)
    ensures
        r == if_addr_v6_spec(*addr, *netmask),
{
    proof {
        lemma_be_bytes_bound(addr@);
        lemma_pow256_values();
    }
    let ip = be_u128(addr);
    let netmask_out: Option<u128> = match netmask {
        Some(m) => {
            proof {
                lemma_be_bytes_bound(m@);
            }
            Some(be_u128(m))
        },
        None => None,
    };
    IfAddrV6 { ip, netmask: netmask_out }
}

} // verus!
