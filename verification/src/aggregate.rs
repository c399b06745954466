//! The interface aggregator: a single walk over the raw records,
//! merging every record into one entry per logical interface, keyed
//! and ordered by interface index.

use vstd::prelude::*;

use crate::decode::{if_addr_v4, if_addr_v4_spec, if_addr_v6, if_addr_v6_spec};
use crate::mac::{decode_mac, mac_of_link};
use crate::model::{
    flags_spec, iface_views, mac_view, wf_ifaces, Addr, Flags, IfaceView, NetworkInterface,
};
use crate::raw::{raw_views, RawData, RawRecord, RawView};

verus! {

/// Position of the entry carrying index `x`, or `s.len()` when none
/// does.
pub open spec fn idx_of(s: Seq<IfaceView>, x: u32) -> int
    decreases s.len(),
{
    if s.len() == 0 {
        0
    } else if s[0].index == x {
        0
    } else {
        1 + idx_of(s.drop_first(), x)
    }
}

/// `idx_of` finds the first entry carrying `x`, and equals the length
/// exactly when no entry carries it.
pub proof fn lemma_idx_of(s: Seq<IfaceView>, x: u32)
    ensures
        0 <= idx_of(s, x) <= s.len(),
        idx_of(s, x) < s.len() ==> s[idx_of(s, x)].index == x,
        forall|k: int| 0 <= k < idx_of(s, x) ==> s[k].index != x,
    decreases s.len(),
{
    if s.len() == 0 {
    } else if s[0].index == x {
    } else {
        lemma_idx_of(s.drop_first(), x);
        assert forall|k: int| 0 <= k < idx_of(s, x) implies s[k].index != x by {
            if k > 0 {
                assert(s.drop_first()[k - 1] == s[k]);
            }
        }
        if idx_of(s, x) < s.len() {
            assert(s.drop_first()[idx_of(s, x) - 1] == s[idx_of(s, x)]);
        }
    }
}

/// Position where an entry carrying index `x` belongs: just past the
/// entries whose index is below `x`.
pub open spec fn ins_pos(s: Seq<IfaceView>, x: u32) -> int
    decreases s.len(),
{
    if s.len() == 0 {
        0
    } else if s[0].index < x {
        1 + ins_pos(s.drop_first(), x)
    } else {
        0
    }
}

/// `ins_pos` always lands inside the collection's bounds.
pub proof fn lemma_ins_pos_bounds(s: Seq<IfaceView>, x: u32)
    ensures
        0 <= ins_pos(s, x) <= s.len(),
    decreases s.len(),
{
    if s.len() > 0 && s[0].index < x {
        lemma_ins_pos_bounds(s.drop_first(), x);
    }
}

/// A scan that stops at the first entry whose index is not below `x`
/// lands exactly on `ins_pos`, and settles whether `x` is present.
pub proof fn lemma_scan(s: Seq<IfaceView>, x: u32, k: int)
    requires
        wf_ifaces(s),
        0 <= k <= s.len(),
        forall|j: int| 0 <= j < k ==> s[j].index < x,
        k < s.len() ==> s[k].index >= x,
    ensures
        ins_pos(s, x) == k,
        (k < s.len() && s[k].index == x) ==> idx_of(s, x) == k,
        (k == s.len() || s[k].index > x) ==> idx_of(s, x) == s.len(),
    decreases s.len(),
{
    lemma_idx_of(s, x);
    if k == 0 {
        if s.len() > 0 && s[0].index != x {
            // every entry sits at or above s[0], hence strictly above x
            assert forall|j: int| 0 <= j < s.len() implies s[j].index != x by {
                if j > 0 {
                    assert(s[0].index < s[j].index);
                }
            }
            if idx_of(s, x) < s.len() {
                assert(s[idx_of(s, x)].index == x);
            }
        }
    } else {
        let t = s.drop_first();
        assert(forall|i: int, j: int| 0 <= i < j < t.len() ==> t[i].index < t[j].index);
        assert(forall|j: int| 0 <= j < k - 1 ==> t[j].index < x);
        assert(k - 1 < t.len() ==> t[k - 1] == s[k]);
        lemma_scan(t, x, k - 1);
        if k < s.len() && s[k].index == x {
            assert(idx_of(s, x) == 1 + idx_of(t, x));
        }
    }
}

/// Merge of one typed address into the collection: appended to the
/// entry already carrying the record's index, or carried by a fresh
/// entry (with the record's name and decoded flags) placed at its
/// ordered position.
pub open spec fn upd_addr(
    s: Seq<IfaceView>,
    x: u32,
    name: Seq<char>,
    f: Flags,
    a: Addr,
) -> Seq<IfaceView> {
    let i = idx_of(s, x);
    if i < s.len() {
        s.update(i, IfaceView { addr: s[i].addr.push(a), ..s[i] })
    } else {
        s.insert(
            ins_pos(s, x),
            IfaceView { index: x, name: name, addr: seq![a], mac_addr: None, flags: f },
        )
    }
}

/// Merge of a (possibly absent) MAC string into the collection:
/// overwriting the MAC of the entry already carrying the record's
/// index, or carried by a fresh entry placed at its ordered position.
pub open spec fn upd_mac(
    s: Seq<IfaceView>,
    x: u32,
    name: Seq<char>,
    f: Flags,
    m: Option<Seq<char>>,
) -> Seq<IfaceView> {
    let i = idx_of(s, x);
    if i < s.len() {
        s.update(i, IfaceView { mac_addr: m, ..s[i] })
    } else {
        s.insert(
            ins_pos(s, x),
            IfaceView { index: x, name: name, addr: Seq::empty(), mac_addr: m, flags: f },
        )
    }
}

/// What one raw record does to the collection: nothing when it
/// carries no payload; an address merge for the two internet
/// families; a MAC merge for every other family.
pub open spec fn step(s: Seq<IfaceView>, r: RawView) -> Seq<IfaceView> {
    match r.data {
        None => s,
        Some(d) => {
            let f = flags_spec(r.flag_bits);
            match d {
                RawData::V4 { addr, netmask, broadcast } => upd_addr(
                    s,
                    r.index,
                    r.name,
                    f,
                    Addr::IPv4(if_addr_v4_spec(addr, netmask, broadcast, f.broadcast)),
                ),
                RawData::V6 { addr, netmask } => upd_addr(
                    s,
                    r.index,
                    r.name,
                    f,
                    Addr::IPv6(if_addr_v6_spec(addr, netmask)),
                ),
                RawData::Link { hw_len, hw } => upd_mac(
                    s,
                    r.index,
                    r.name,
                    f,
                    mac_of_link(hw_len, hw),
                ),
                RawData::Other => upd_mac(s, r.index, r.name, f, None),
            }
        },
    }
}

/// The collection a whole walk produces: every record merged in
/// order, starting from the empty collection.
pub open spec fn aggregate_spec(rs: Seq<RawView>) -> Seq<IfaceView>
    decreases rs.len(),
{
    if rs.len() == 0 {
        Seq::empty()
    } else {
        step(aggregate_spec(rs.drop_last()), rs.last())
    }
}

/// First position whose entry's index is not below `x`.
fn find_slot(interfaces: &Vec<NetworkInterface>, x: u32) -> (k: usize)
    ensures
        0 <= k <= interfaces@.len(),
        forall|j: int| 0 <= j < k ==> iface_views(interfaces@)[j].index < x,
        k < interfaces@.len() ==> iface_views(interfaces@)[k as int].index >= x,
{
    let mut k: usize = 0;
    while k < interfaces.len()
        invariant
            0 <= k <= interfaces@.len(),
            forall|j: int| 0 <= j < k ==> iface_views(interfaces@)[j].index < x,
        decreases interfaces@.len() - k,
    {
        if interfaces[k].index >= x {
            return k;
        }
        k = k + 1;
    }
    k
}

/// Inserts a new `NetworkInterface` into the ordered collection, or
/// appends another address to the entry already carrying this index.
pub fn update_interfaces(
    index: u32,
    name: String,
    addr: Addr,
    flags: Flags,
    interfaces: &mut Vec<NetworkInterface>,
)
    requires
        wf_ifaces(iface_views(old(interfaces)@)),
    ensures
        iface_views(final(interfaces)@) == upd_addr(
            iface_views(old(interfaces)@),
            index,
            name@,
            flags,
            addr,
        ),
        wf_ifaces(iface_views(final(interfaces)@)),
{
    let ghost s = iface_views(old(interfaces)@);
    let k = find_slot(interfaces, index);
    proof {
        lemma_scan(s, index, k as int);
    }
    if k < interfaces.len() && interfaces[k].index == index {
        let mut e = interfaces.remove(k);
        e.addr.push(addr);
        interfaces.insert(k, e);
        proof {
            old(interfaces)@.remove_ensures(k as int);
            old(interfaces)@.remove(k as int).insert_ensures(k as int, e);
            assert(iface_views(interfaces@) =~= upd_addr(s, index, name@, flags, addr));
            assert forall|i: int, j: int|
                0 <= i < j < iface_views(interfaces@).len() implies iface_views(interfaces@)[i].index
                < iface_views(interfaces@)[j].index by {
                assert(iface_views(interfaces@)[i].index == s[i].index);
                assert(iface_views(interfaces@)[j].index == s[j].index);
            }
        }
    } else {
        let mut fresh_addr: Vec<Addr> = Vec::new();
        fresh_addr.push(addr);
        let entry = NetworkInterface { index, name, addr: fresh_addr, mac_addr: None, flags };
        interfaces.insert(k, entry);
        proof {
            lemma_idx_of(s, index);
            assert(entry@.addr =~= seq![addr]);
            assert(entry@ == IfaceView {
                index,
                name: entry.name@,
                addr: seq![addr],
                mac_addr: None,
                flags,
            });
            old(interfaces)@.insert_ensures(k as int, entry);
            s.insert_ensures(k as int, entry@);
            assert(iface_views(interfaces@) =~= upd_addr(s, index, name@, flags, addr));
            lemma_insert_wf(s, index, k as int, entry@);
        }
    }
}

/// Inserts a new `NetworkInterface` into the ordered collection, or
/// overwrites the MAC string of the entry already carrying this index.
pub fn update_interfaces_with_mac(
    index: u32,
    name: String,
    mac_addr: Option<String>,
    flags: Flags,
    interfaces: &mut Vec<NetworkInterface>,
)
    requires
        wf_ifaces(iface_views(old(interfaces)@)),
    ensures
        iface_views(final(interfaces)@) == upd_mac(
            iface_views(old(interfaces)@),
            index,
            name@,
            flags,
            mac_view(mac_addr),
        ),
        wf_ifaces(iface_views(final(interfaces)@)),
{
    let ghost s = iface_views(old(interfaces)@);
    let ghost m = mac_view(mac_addr);
    let k = find_slot(interfaces, index);
    proof {
        lemma_scan(s, index, k as int);
    }
    if k < interfaces.len() && interfaces[k].index == index {
        let mut e = interfaces.remove(k);
        e.mac_addr = mac_addr;
        interfaces.insert(k, e);
        proof {
            old(interfaces)@.remove_ensures(k as int);
            old(interfaces)@.remove(k as int).insert_ensures(k as int, e);
            assert(iface_views(interfaces@) =~= upd_mac(s, index, name@, flags, m));
            assert forall|i: int, j: int|
                0 <= i < j < iface_views(interfaces@).len() implies iface_views(interfaces@)[i].index
                < iface_views(interfaces@)[j].index by {
                assert(iface_views(interfaces@)[i].index == s[i].index);
                assert(iface_views(interfaces@)[j].index == s[j].index);
            }
        }
    } else {
        let entry = NetworkInterface { index, name, addr: Vec::new(), mac_addr, flags };
        interfaces.insert(k, entry);
        proof {
            lemma_idx_of(s, index);
            assert(entry@.addr =~= Seq::<Addr>::empty());
            old(interfaces)@.insert_ensures(k as int, entry);
            s.insert_ensures(k as int, entry@);
            assert(iface_views(interfaces@) =~= upd_mac(s, index, name@, flags, m));
            lemma_insert_wf(s, index, k as int, entry@);
        }
    }
}

/// Inserting a fresh index at its ordered position keeps the
/// collection strictly ascending.
proof fn lemma_insert_wf(s: Seq<IfaceView>, x: u32, k: int, e: IfaceView)
    requires
        wf_ifaces(s),
        0 <= k <= s.len(),
        e.index == x,
        forall|j: int| 0 <= j < k ==> s[j].index < x,
        k < s.len() ==> s[k].index > x,
    ensures
        wf_ifaces(s.insert(k, e)),
{
    s.insert_ensures(k, e);
    let t = s.insert(k, e);
    assert forall|i: int, j: int| 0 <= i < j < t.len() implies t[i].index < t[j].index by {
        if i < k && j == k {
        } else if i == k && j > k {
            assert(t[j] == s[j - 1]);
            assert(s[k].index <= s[j - 1].index);
        } else if i < k && j > k {
            assert(t[j] == s[j - 1]);
        } else if i > k && j > k {
            assert(t[i] == s[i - 1] && t[j] == s[j - 1]);
        }
    }
}

/// Walks the raw records once and merges them into the final ordered
/// collection: one entry per logical interface, ascending by index.
pub fn aggregate(records: &Vec<RawRecord>) -> (out: Vec<NetworkInterface>)
    ensures
        iface_views(out@) == aggregate_spec(raw_views(records@)),
        wf_ifaces(iface_views(out@)),
{
    let mut out: Vec<NetworkInterface> = Vec::new();
    proof {
        assert(iface_views(out@) =~= Seq::<IfaceView>::empty());
    }
    let mut i: usize = 0;
    while i < records.len()
        invariant
            0 <= i <= records@.len(),
            iface_views(out@) == aggregate_spec(raw_views(records@).take(i as int)),
            wf_ifaces(iface_views(out@)),
        decreases records@.len() - i,
    {
        let ghost prev = iface_views(out@);
        let ghost rv = raw_views(records@)[i as int];
        let r = &records[i];
        let flags = Flags::from_bits(r.flag_bits);
        match &r.data {
            None => {},
            Some(d) => match d {
                RawData::V4 { addr, netmask, broadcast } => {
                    let a = Addr::IPv4(if_addr_v4(addr, netmask, broadcast, flags.broadcast));
                    update_interfaces(r.index, r.name.clone(), a, flags, &mut out);
                },
                RawData::V6 { addr, netmask } => {
                    let a = Addr::IPv6(if_addr_v6(addr, netmask));
                    update_interfaces(r.index, r.name.clone(), a, flags, &mut out);
                },
                RawData::Link { hw_len, hw } => {
                    let m = decode_mac(*hw_len, hw);
                    proof {
                        assert(mac_view(m) == mac_of_link(*hw_len, *hw));
                    }
                    update_interfaces_with_mac(r.index, r.name.clone(), m, flags, &mut out);
                },
                RawData::Other => {
                    update_interfaces_with_mac(r.index, r.name.clone(), None, flags, &mut out);
                },
            },
        }
        proof {
            let rvs = raw_views(records@);
            assert(rvs.take(i as int + 1).drop_last() =~= rvs.take(i as int));
            assert(rvs.take(i as int + 1).last() == rv);
            assert(iface_views(out@) == step(prev, rv));
        }
        i = i + 1;
    }
    proof {
        assert(raw_views(records@).take(records@.len() as int) =~= raw_views(records@));
    }
    out
}

} // verus!
