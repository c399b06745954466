//! The plain-value form of one raw interface record.
//!
//! The operating system hands interfaces over as a linked list of raw
//! records, one per address-family binding, whose address payload is a
//! type-erased blob read through a runtime discriminant.  The
//! surrounding program walks that list and reduces each node to a
//! `RawRecord`: the name, the resolved index, the raw flag mask, and
//! the already-discriminated byte payload.  Everything downstream of
//! that reduction is verified.

use vstd::prelude::*;

verus! {

/// The discriminated byte payload of one raw record, exactly as stored
/// by the operating system (addresses in network byte order).
#[derive(Clone, Copy, PartialEq, Eq, Hash, Debug)]
pub enum RawData {
    /// An IPv4 record: the four address octets, and the octets of the
    /// netmask and of the broadcast/destination field where the
    /// corresponding raw pointer was non-null.
    V4 { addr: [u8; 4], netmask: Option<[u8; 4]>, broadcast: Option<[u8; 4]> },
    /// An IPv6 record: the sixteen address octets, and the octets of
    /// the netmask where its raw pointer was non-null.
    V6 { addr: [u8; 16], netmask: Option<[u8; 16]> },
    /// A link-layer record: the declared hardware address length and
    /// the inline hardware address bytes.
    Link { hw_len: u8, hw: [u8; 8] },
    /// A record of any other address family.  It still reaches the
    /// aggregator (it merges an absent MAC), but carries no payload
    /// this crate reads.
    Other,
}

/// One raw interface record, reduced to plain values.
#[derive(Clone, PartialEq, Eq, Hash, Debug)]
pub struct RawRecord {
    /// Interface name as reported in the record
    pub name: String,
    /// Interface index resolved from the name (0 when resolution
    /// failed because the interface vanished mid-walk)
    pub index: u32,
    /// Raw flag bitmask
    pub flag_bits: u32,
    /// Discriminated payload; `None` when the record carried a null
    /// address pointer and thus announces no binding at all
    pub data: Option<RawData>,
}

/// Mathematical image of a [`RawRecord`].
pub ghost struct RawView {
    /// Characters of the interface name
    pub name: Seq<char>,
    /// Resolved interface index
    pub index: u32,
    /// Raw flag bitmask
    pub flag_bits: u32,
    /// Discriminated payload
    pub data: Option<RawData>,
}

impl View for RawRecord {
    type V = RawView;

    open spec fn view(&self) -> RawView {
        RawView { name: self.name@, index: self.index, flag_bits: self.flag_bits, data: self.data }
    }
}

/// The views of a sequence of raw records, element by element.
pub open spec fn raw_views(s: Seq<RawRecord>) -> Seq<RawView> {
    s.map_values(|r: RawRecord| r@)
}

} // verus!
