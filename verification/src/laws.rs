//! Laws of the enumeration as a whole: properties that relate the
//! aggregator and the derived queries across all inputs.

use vstd::prelude::*;

use crate::aggregate::{
    aggregate_spec, idx_of, ins_pos, lemma_idx_of, lemma_ins_pos_bounds, step, upd_addr, upd_mac,
};
use crate::decode::{if_addr_v4_spec, if_addr_v6_spec};
use crate::mac::mac_of_link;
use crate::model::{flags_spec, Addr, Flags, IfaceView};
use crate::query::{first_v4, first_v6, is_ull_spec, v4_of, v6_of};
use crate::raw::{RawData, RawView};

verus! {

/// Whether a raw record carries an address payload of one of the two
/// internet families, and hence contributes a typed address.
pub open spec fn contributes_addr(r: RawView) -> bool {
    match r.data {
        Some(RawData::V4 { .. }) => true,
        Some(RawData::V6 { .. }) => true,
        _ => false,
    }
}

/// An entry survives an address merge with its index, name and flags
/// unchanged and its address list no shorter; returns its position
/// afterwards.
proof fn lemma_upd_addr_keeps(
    s: Seq<IfaceView>,
    x0: u32,
    name: Seq<char>,
    f: Flags,
    a: Addr,
    i: int,
) -> (w: int)
    requires
        0 <= i < s.len(),
    ensures
        0 <= w < upd_addr(s, x0, name, f, a).len(),
        upd_addr(s, x0, name, f, a)[w].index == s[i].index,
        upd_addr(s, x0, name, f, a)[w].name == s[i].name,
        upd_addr(s, x0, name, f, a)[w].flags == s[i].flags,
        upd_addr(s, x0, name, f, a)[w].addr.len() >= s[i].addr.len(),
{
    let t = upd_addr(s, x0, name, f, a);
    let i0 = idx_of(s, x0);
    lemma_idx_of(s, x0);
    if i0 < s.len() {
        assert(t[i] == if i == i0 {
            IfaceView { addr: s[i0].addr.push(a), ..s[i0] }
        } else {
            s[i]
        });
        i
    } else {
        let p = ins_pos(s, x0);
        lemma_ins_pos_bounds(s, x0);
        s.insert_ensures(p, IfaceView { index: x0, name: name, addr: seq![a], mac_addr: None, flags: f });
        if i < p {
            assert(t[i] == s[i]);
            i
        } else {
            assert(t[i + 1] == s[i]);
            i + 1
        }
    }
}

/// An entry survives a MAC merge with its index, name and flags
/// unchanged and its address list no shorter; returns its position
/// afterwards.
proof fn lemma_upd_mac_keeps(
    s: Seq<IfaceView>,
    x0: u32,
    name: Seq<char>,
    f: Flags,
    m: Option<Seq<char>>,
    i: int,
) -> (w: int)
    requires
        0 <= i < s.len(),
    ensures
        0 <= w < upd_mac(s, x0, name, f, m).len(),
        upd_mac(s, x0, name, f, m)[w].index == s[i].index,
        upd_mac(s, x0, name, f, m)[w].name == s[i].name,
        upd_mac(s, x0, name, f, m)[w].flags == s[i].flags,
        upd_mac(s, x0, name, f, m)[w].addr.len() >= s[i].addr.len(),
{
    let t = upd_mac(s, x0, name, f, m);
    let i0 = idx_of(s, x0);
    lemma_idx_of(s, x0);
    if i0 < s.len() {
        assert(t[i] == if i == i0 {
            IfaceView { mac_addr: m, ..s[i0] }
        } else {
            s[i]
        });
        i
    } else {
        let p = ins_pos(s, x0);
        lemma_ins_pos_bounds(s, x0);
        s.insert_ensures(p, IfaceView { index: x0, name: name, addr: Seq::empty(), mac_addr: m, flags: f });
        if i < p {
            assert(t[i] == s[i]);
            i
        } else {
            assert(t[i + 1] == s[i]);
            i + 1
        }
    }
}

/// A merge step never loses an entry: its index, name and flags stay,
/// and its address list never shrinks; returns the entry's position
/// after the step.
proof fn lemma_step_keeps(s: Seq<IfaceView>, r: RawView, i: int) -> (w: int)
    requires
        0 <= i < s.len(),
    ensures
        0 <= w < step(s, r).len(),
        step(s, r)[w].index == s[i].index,
        step(s, r)[w].name == s[i].name,
        step(s, r)[w].flags == s[i].flags,
        step(s, r)[w].addr.len() >= s[i].addr.len(),
{
    match r.data {
        None => i,
        Some(d) => {
            let f = flags_spec(r.flag_bits);
            match d {
                RawData::V4 { addr, netmask, broadcast } => lemma_upd_addr_keeps(
                    s,
                    r.index,
                    r.name,
                    f,
                    Addr::IPv4(
                        if_addr_v4_spec(addr, netmask, broadcast, f.broadcast),
                    ),
                    i,
                ),
                RawData::V6 { addr, netmask } => lemma_upd_addr_keeps(
                    s,
                    r.index,
                    r.name,
                    f,
                    Addr::IPv6(if_addr_v6_spec(addr, netmask)),
                    i,
                ),
                RawData::Link { hw_len, hw } => lemma_upd_mac_keeps(
                    s,
                    r.index,
                    r.name,
                    f,
                    mac_of_link(hw_len, hw),
                    i,
                ),
                RawData::Other => lemma_upd_mac_keeps(s, r.index, r.name, f, None, i),
            }
        },
    }
}

/// A merge of an address under index `x` leaves an entry carrying `x`
/// with at least one address; returns its position.
proof fn lemma_upd_addr_present(
    s: Seq<IfaceView>,
    x0: u32,
    name: Seq<char>,
    f: Flags,
    a: Addr,
) -> (w: int)
    ensures
        0 <= w < upd_addr(s, x0, name, f, a).len(),
        upd_addr(s, x0, name, f, a)[w].index == x0,
        upd_addr(s, x0, name, f, a)[w].addr.len() >= 1,
{
    let t = upd_addr(s, x0, name, f, a);
    let i0 = idx_of(s, x0);
    lemma_idx_of(s, x0);
    if i0 < s.len() {
        assert(t[i0].index == x0 && t[i0].addr.len() >= 1);
        i0
    } else {
        let p = ins_pos(s, x0);
        lemma_ins_pos_bounds(s, x0);
        s.insert_ensures(p, IfaceView { index: x0, name: name, addr: seq![a], mac_addr: None, flags: f });
        assert(t[p].index == x0 && t[p].addr.len() >= 1);
        p
    }
}

/// Every raw record carrying an address payload is represented in the
/// final collection: some entry carries the record's index and a
/// non-empty address list.  In particular, when the loopback device
/// reports an address, the final collection holds its interface with
/// at least that address.
pub proof fn law_contributing_record_present(rs: Seq<RawView>, j: int)
    requires
        0 <= j < rs.len(),
        contributes_addr(rs[j]),
    ensures
        exists|i: int|
            0 <= i < aggregate_spec(rs).len() && #[trigger] aggregate_spec(rs)[i].index
                == rs[j].index && aggregate_spec(rs)[i].addr.len() >= 1,
    decreases rs.len(),
{
    let s = aggregate_spec(rs.drop_last());
    let r = rs.last();
    assert(aggregate_spec(rs) == step(s, r));
    if j == rs.len() - 1 {
        let f = flags_spec(r.flag_bits);
        match r.data {
            Some(d) => match d {
                RawData::V4 { addr, netmask, broadcast } => {
                    let w = lemma_upd_addr_present(
                        s,
                        r.index,
                        r.name,
                        f,
                        Addr::IPv4(
                            if_addr_v4_spec(addr, netmask, broadcast, f.broadcast),
                        ),
                    );
                    assert(aggregate_spec(rs)[w].index == rs[j].index && aggregate_spec(
                        rs,
                    )[w].addr.len() >= 1);
                },
                RawData::V6 { addr, netmask } => {
                    let w = lemma_upd_addr_present(
                        s,
                        r.index,
                        r.name,
                        f,
                        Addr::IPv6(if_addr_v6_spec(addr, netmask)),
                    );
                    assert(aggregate_spec(rs)[w].index == rs[j].index && aggregate_spec(
                        rs,
                    )[w].addr.len() >= 1);
                },
                _ => {},
            },
            None => {},
        }
    } else {
        assert(rs.drop_last()[j] == rs[j]);
        law_contributing_record_present(rs.drop_last(), j);
        let i = choose|i: int|
            0 <= i < s.len() && #[trigger] s[i].index == rs[j].index && s[i].addr.len() >= 1;
        let w = lemma_step_keeps(s, r, i);
        assert(aggregate_spec(rs)[w].index == rs[j].index && aggregate_spec(rs)[w].addr.len()
            >= 1);
    }
}

/// The (index, name) pairs of a collection, as a set.
pub open spec fn pair_set(s: Seq<IfaceView>) -> Set<(u32, Seq<char>)> {
    s.map_values(|n: IfaceView| (n.index, n.name)).to_set()
}

/// Enumeration is idempotent in membership: two walks over the same
/// raw records yield the same set of (index, name) pairs — the result
/// depends on the records alone.
pub proof fn law_membership_idempotent(rs1: Seq<RawView>, rs2: Seq<RawView>)
    requires
        rs1 == rs2,
    ensures
        pair_set(aggregate_spec(rs1)) == pair_set(aggregate_spec(rs2)),
{
}

/// An interface reported through both an IPv4 and an IPv6 raw record
/// merges into exactly one entry holding both addresses, never two
/// entries.
pub proof fn law_two_families_one_entry(r1: RawView, r2: RawView)
    requires
        r1.index == r2.index,
        r1.data matches Some(RawData::V4 { .. }),
        r2.data matches Some(RawData::V6 { .. }),
    ensures
        aggregate_spec(seq![r1, r2]).len() == 1,
        aggregate_spec(seq![r1, r2])[0].addr.len() == 2,
{
    let rs = seq![r1, r2];
    assert(rs.drop_last() =~= seq![r1]);
    assert(seq![r1].drop_last() =~= Seq::<RawView>::empty());
    assert(aggregate_spec(Seq::<RawView>::empty()) =~= Seq::<IfaceView>::empty());
    let s0 = Seq::<IfaceView>::empty();
    let s1 = aggregate_spec(seq![r1]);
    assert(s1 == step(s0, r1));
    match r1.data {
        Some(RawData::V4 { addr, netmask, broadcast }) => {
            let f = flags_spec(r1.flag_bits);
            let a = Addr::IPv4(
                if_addr_v4_spec(addr, netmask, broadcast, f.broadcast),
            );
            let e = IfaceView { index: r1.index, name: r1.name, addr: seq![a], mac_addr: None, flags: f };
            assert(idx_of(s0, r1.index) == 0);
            assert(ins_pos(s0, r1.index) == 0);
            s0.insert_ensures(0, e);
            assert(s1 =~= seq![e]);
        },
        _ => {},
    }
    assert(s1.len() == 1 && s1[0].index == r1.index && s1[0].addr.len() == 1);
    let s2 = aggregate_spec(rs);
    assert(s2 == step(s1, r2));
    match r2.data {
        Some(RawData::V6 { addr, netmask }) => {
            assert(idx_of(s1, r2.index) == 0);
            assert(s2 == s1.update(
                0,
                IfaceView {
                    addr: s1[0].addr.push(
                        Addr::IPv6(if_addr_v6_spec(addr, netmask)),
                    ),
                    ..s1[0]
                },
            ));
        },
        _ => {},
    }
}

/// Every address the IPv4 projection reports is the first IPv4
/// address of some non-loopback interface; in particular, no address
/// of a loopback interface is ever included.
pub proof fn law_v4_never_loopback(s: Seq<IfaceView>, k: int)
    requires
        0 <= k < v4_of(s).len(),
    ensures
        exists|i: int|
            0 <= i < s.len() && !(#[trigger] s[i]).flags.loopback && first_v4(s[i].addr) == Some(
                v4_of(s)[k],
            ),
    decreases s.len(),
{
    if s.len() == 0 {
    } else {
        let t = s.drop_last();
        if k < v4_of(t).len() {
            law_v4_never_loopback(t, k);
            let i = choose|i: int|
                0 <= i < t.len() && !(#[trigger] t[i]).flags.loopback && first_v4(t[i].addr)
                    == Some(v4_of(t)[k]);
            assert(s[i] == t[i]);
        } else {
            assert(!s.last().flags.loopback && first_v4(s.last().addr) == Some(v4_of(s)[k]));
            assert(s[s.len() - 1] == s.last());
        }
    }
}

/// The first reported IPv6 address of an address list is never
/// unicast link-local.
proof fn lemma_first_v6_not_ull(addrs: Seq<Addr>)
    ensures
        first_v6(addrs) matches Some(ip) ==> !is_ull_spec(ip),
    decreases addrs.len(),
{
    if addrs.len() > 0 {
        lemma_first_v6_not_ull(addrs.drop_first());
    }
}

/// No address the IPv6 projection reports is unicast link-local.
pub proof fn law_v6_never_link_local(s: Seq<IfaceView>, k: int)
    requires
        0 <= k < v6_of(s).len(),
    ensures
        !is_ull_spec(v6_of(s)[k]),
    decreases s.len(),
{
    if s.len() == 0 {
    } else {
        let t = s.drop_last();
        if k < v6_of(t).len() {
            law_v6_never_link_local(t, k);
        } else {
            lemma_first_v6_not_ull(s.last().addr);
        }
    }
}


/// Every entry of the final collection stems from some raw record: a
/// record carrying the entry's index and some payload; returns that
/// record's position.
pub proof fn lemma_entry_from_record(rs: Seq<RawView>, i: int) -> (j: int)
    requires
        0 <= i < aggregate_spec(rs).len(),
    ensures
        0 <= j < rs.len(),
        rs[j].index == aggregate_spec(rs)[i].index,
        rs[j].data is Some,
    decreases rs.len(),
{
    let s = aggregate_spec(rs.drop_last());
    let r = rs.last();
    assert(aggregate_spec(rs) == step(s, r));
    match r.data {
        None => {
            let j = lemma_entry_from_record(rs.drop_last(), i);
            assert(rs.drop_last()[j] == rs[j]);
            j
        },
        Some(d) => {
            let i0 = idx_of(s, r.index);
            lemma_idx_of(s, r.index);
            if i0 < s.len() {
                // update in place: every position holds an entry of s
                let j = lemma_entry_from_record(rs.drop_last(), i);
                assert(rs.drop_last()[j] == rs[j]);
                assert(aggregate_spec(rs)[i].index == s[i].index);
                j
            } else {
                let p = ins_pos(s, r.index);
                lemma_ins_pos_bounds(s, r.index);
                let f = flags_spec(r.flag_bits);
                let e = match d {
                    RawData::V4 { addr, netmask, broadcast } => IfaceView {
                        index: r.index,
                        name: r.name,
                        addr: seq![
                            Addr::IPv4(
                                if_addr_v4_spec(addr, netmask, broadcast, f.broadcast),
                            ),
                        ],
                        mac_addr: None,
                        flags: f,
                    },
                    RawData::V6 { addr, netmask } => IfaceView {
                        index: r.index,
                        name: r.name,
                        addr: seq![
                            Addr::IPv6(if_addr_v6_spec(addr, netmask)),
                        ],
                        mac_addr: None,
                        flags: f,
                    },
                    RawData::Link { hw_len, hw } => IfaceView {
                        index: r.index,
                        name: r.name,
                        addr: Seq::empty(),
                        mac_addr: mac_of_link(hw_len, hw),
                        flags: f,
                    },
                    RawData::Other => IfaceView {
                        index: r.index,
                        name: r.name,
                        addr: Seq::empty(),
                        mac_addr: None,
                        flags: f,
                    },
                };
                assert(aggregate_spec(rs) == s.insert(p, e));
                s.insert_ensures(p, e);
                if i == p {
                    rs.len() - 1
                } else {
                    let i_old: int = if i < p {
                        i
                    } else {
                        i - 1
                    };
                    assert(aggregate_spec(rs)[i] == s[i_old]);
                    let j = lemma_entry_from_record(rs.drop_last(), i_old);
                    assert(rs.drop_last()[j] == rs[j]);
                    j
                }
            }
        },
    }
}

/// A map slot is created with the record's own name and flags, and a
/// later merge never overwrites them: the entry for an index carries
/// the name and the decoded flags of the first payload-carrying
/// record with that index.  Together with the address law this makes
/// the loopback interface's entry carry the loopback flag whenever
/// the loopback device's records do.  Returns the entry's position.
pub proof fn law_first_record_names_entry(rs: Seq<RawView>, j: int) -> (w: int)
    requires
        0 <= j < rs.len(),
        rs[j].data is Some,
        forall|k: int|
            0 <= k < j && (#[trigger] rs[k].index) == rs[j].index ==> rs[k].data is None,
    ensures
        0 <= w < aggregate_spec(rs).len(),
        aggregate_spec(rs)[w].index == rs[j].index,
        aggregate_spec(rs)[w].name == rs[j].name,
        aggregate_spec(rs)[w].flags == flags_spec(rs[j].flag_bits),
    decreases rs.len(),
{
    let s = aggregate_spec(rs.drop_last());
    let r = rs.last();
    assert(aggregate_spec(rs) == step(s, r));
    if j == rs.len() - 1 {
        let x = rs[j].index;
        lemma_idx_of(s, x);
        if idx_of(s, x) < s.len() {
            // an entry with this index would stem from an earlier
            // payload-carrying record, which the premise rules out
            let k = lemma_entry_from_record(rs.drop_last(), idx_of(s, x));
            assert(rs.drop_last()[k] == rs[k]);
            assert(false);
        }
        let p = ins_pos(s, x);
        lemma_ins_pos_bounds(s, x);
        let f = flags_spec(r.flag_bits);
        match r.data {
            Some(d) => match d {
                RawData::V4 { addr, netmask, broadcast } => {
                    s.insert_ensures(p, IfaceView {
                        index: x,
                        name: r.name,
                        addr: seq![
                            Addr::IPv4(
                                if_addr_v4_spec(addr, netmask, broadcast, f.broadcast),
                            ),
                        ],
                        mac_addr: None,
                        flags: f,
                    });
                },
                RawData::V6 { addr, netmask } => {
                    s.insert_ensures(p, IfaceView {
                        index: x,
                        name: r.name,
                        addr: seq![
                            Addr::IPv6(if_addr_v6_spec(addr, netmask)),
                        ],
                        mac_addr: None,
                        flags: f,
                    });
                },
                RawData::Link { hw_len, hw } => {
                    s.insert_ensures(p, IfaceView {
                        index: x,
                        name: r.name,
                        addr: Seq::empty(),
                        mac_addr: mac_of_link(hw_len, hw),
                        flags: f,
                    });
                },
                RawData::Other => {
                    s.insert_ensures(p, IfaceView {
                        index: x,
                        name: r.name,
                        addr: Seq::empty(),
                        mac_addr: None,
                        flags: f,
                    });
                },
            },
            None => {},
        }
        p
    } else {
        assert(rs.drop_last()[j] == rs[j]);
        assert(forall|k: int|
            0 <= k < j && (#[trigger] rs.drop_last()[k].index) == rs.drop_last()[j].index
                ==> rs.drop_last()[k].data is None);
        let w0 = law_first_record_names_entry(rs.drop_last(), j);
        lemma_step_keeps(s, r, w0)
    }
}

} // verus!
