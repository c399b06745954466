//! Derived queries: pure projections of the aggregated collection
//! into plain address lists.

use vstd::prelude::*;

use crate::model::{iface_views, Addr, IfaceView, NetworkInterface};

verus! {

/// Whether an IPv6 address is unicast link-local: the `fe80::/10`
/// range, i.e. the top ten bits of the address are `1111111010`.
pub open spec fn is_ull_spec(ip: u128) -> bool {
    (ip >> 112) & 0xffc0 == 0xfe80
}

/// Tests whether an IPv6 address is unicast link-local.
pub fn is_unicast_link_local(ip: u128) -> (r: bool)
    ensures
        r == is_ull_spec(ip),
{
    ((ip >> 112) & 0xffc0) == 0xfe80
}

/// The first IPv4 address in an interface's address list, if any.
pub open spec fn first_v4(addrs: Seq<Addr>) -> Option<u32>
    decreases addrs.len(),
{
    if addrs.len() == 0 {
        None
    } else {
        match addrs[0] {
            Addr::IPv4(a) => Some(a.ip),
            _ => first_v4(addrs.drop_first()),
        }
    }
}

/// The first IPv6 address in an interface's address list that is not
/// unicast link-local, if any.
pub open spec fn first_v6(addrs: Seq<Addr>) -> Option<u128>
    decreases addrs.len(),
{
    if addrs.len() == 0 {
        None
    } else {
        match addrs[0] {
            Addr::IPv6(a) => if !is_ull_spec(a.ip) {
                Some(a.ip)
            } else {
                first_v6(addrs.drop_first())
            },
            _ => first_v6(addrs.drop_first()),
        }
    }
}

/// What one interface contributes to the IPv4 projection: its first
/// IPv4 address, unless the interface is loopback or has none.
pub open spec fn contrib_v4(n: IfaceView) -> Seq<u32> {
    if !n.flags.loopback {
        match first_v4(n.addr) {
            Some(ip) => seq![ip],
            None => Seq::empty(),
        }
    } else {
        Seq::empty()
    }
}

/// What one interface contributes to the IPv6 projection: its first
/// non-link-local IPv6 address, unless the interface is loopback or
/// has none.
pub open spec fn contrib_v6(n: IfaceView) -> Seq<u128> {
    if !n.flags.loopback {
        match first_v6(n.addr) {
            Some(ip) => seq![ip],
            None => Seq::empty(),
        }
    } else {
        Seq::empty()
    }
}

/// The IPv4 projection of a whole collection, in collection order.
pub open spec fn v4_of(s: Seq<IfaceView>) -> Seq<u32>
    decreases s.len(),
{
    if s.len() == 0 {
        Seq::empty()
    } else {
        v4_of(s.drop_last()) + contrib_v4(s.last())
    }
}

/// The IPv6 projection of a whole collection, in collection order.
pub open spec fn v6_of(s: Seq<IfaceView>) -> Seq<u128>
    decreases s.len(),
{
    if s.len() == 0 {
        Seq::empty()
    } else {
        v6_of(s.drop_last()) + contrib_v6(s.last())
    }
}

/// The first IPv4 address held by an address list.
fn first_v4_exec(addrs: &Vec<Addr>) -> (r: Option<u32>)
    ensures
        r == first_v4(addrs@),
{
    let mut j: usize = 0;
    proof {
        assert(addrs@.skip(0) =~= addrs@);
    }
    while j < addrs.len()
        invariant
            0 <= j <= addrs@.len(),
            first_v4(addrs@) == first_v4(addrs@.skip(j as int)),
        decreases addrs@.len() - j,
    {
        proof {
            assert(addrs@.skip(j as int)[0] == addrs@[j as int]);
        }
        match addrs[j] {
            Addr::IPv4(a) => {
                return Some(a.ip);
            },
            _ => {},
        }
        proof {
            assert(addrs@.skip(j as int).drop_first() =~= addrs@.skip(j as int + 1));
        }
        j = j + 1;
    }
    proof {
        assert(addrs@.skip(addrs@.len() as int).len() == 0);
    }
    None
}

/// The first non-link-local IPv6 address held by an address list.
fn first_v6_exec(addrs: &Vec<Addr>) -> (r: Option<u128>)
    ensures
        r == first_v6(addrs@),
{
    let mut j: usize = 0;
    proof {
        assert(addrs@.skip(0) =~= addrs@);
    }
    while j < addrs.len()
        invariant
            0 <= j <= addrs@.len(),
            first_v6(addrs@) == first_v6(addrs@.skip(j as int)),
        decreases addrs@.len() - j,
    {
        proof {
            assert(addrs@.skip(j as int)[0] == addrs@[j as int]);
            assert(addrs@.skip(j as int).drop_first() =~= addrs@.skip(j as int + 1));
        }
        match addrs[j] {
            Addr::IPv6(a) => {
                if !is_unicast_link_local(a.ip) {
                    return Some(a.ip);
                }
            },
            _ => {},
        }
        j = j + 1;
    }
    proof {
        assert(addrs@.skip(addrs@.len() as int).len() == 0);
    }
    None
}

/// All local IPv4 addresses of non-loopback interfaces: the first
/// IPv4 address of each, in collection order.
pub fn local_ipv4_addresses(interfaces: &Vec<NetworkInterface>) -> (r: Vec<u32>)
    ensures
        r@ == v4_of(iface_views(interfaces@)),
{
    let ghost s = iface_views(interfaces@);
    let mut r: Vec<u32> = Vec::new();
    let mut i: usize = 0;
    while i < interfaces.len()
        invariant
            0 <= i <= interfaces@.len(),
            s == iface_views(interfaces@),
            r@ == v4_of(s.take(i as int)),
        decreases interfaces@.len() - i,
    {
        let n = &interfaces[i];
        if !n.flags.loopback {
            match first_v4_exec(&n.addr) {
                Some(ip) => r.push(ip),
                None => {},
            }
        }
        proof {
            assert(s.take(i as int + 1).drop_last() =~= s.take(i as int));
            assert(s.take(i as int + 1).last() == s[i as int]);
            assert(s[i as int] == interfaces@[i as int]@);
        }
        i = i + 1;
    }
    proof {
        assert(s.take(interfaces@.len() as int) =~= s);
    }
    r
}

/// All local IPv6 addresses of non-loopback interfaces that are not
/// unicast link-local: the first such address of each, in collection
/// order.
pub fn local_ipv6_addresses(interfaces: &Vec<NetworkInterface>) -> (r: Vec<u128>)
    ensures
        r@ == v6_of(iface_views(interfaces@)),
{
    let ghost s = iface_views(interfaces@);
    let mut r: Vec<u128> = Vec::new();
    let mut i: usize = 0;
    while i < interfaces.len()
        invariant
            0 <= i <= interfaces@.len(),
            s == iface_views(interfaces@),
            r@ == v6_of(s.take(i as int)),
        decreases interfaces@.len() - i,
    {
        let n = &interfaces[i];
        if !n.flags.loopback {
            match first_v6_exec(&n.addr) {
                Some(ip) => r.push(ip),
                None => {},
            }
        }
        proof {
            assert(s.take(i as int + 1).drop_last() =~= s.take(i as int));
            assert(s.take(i as int + 1).last() == s[i as int]);
            assert(s[i as int] == interfaces@[i as int]@);
        }
        i = i + 1;
    }
    proof {
        assert(s.take(interfaces@.len() as int) =~= s);
    }
    r
}

} // verus!
