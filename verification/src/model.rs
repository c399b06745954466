//! The typed, per-interface data model: flags, addresses, and the
//! merged `NetworkInterface` aggregate.

use vstd::prelude::*;

verus! {

/// Bit for an administratively up interface in the raw flag mask.
pub const FLAG_UP: u32 = 0x1;
/// Bit for a broadcast-capable interface in the raw flag mask.
pub const FLAG_BROADCAST: u32 = 0x2;
/// Bit for a loopback device in the raw flag mask.
pub const FLAG_LOOPBACK: u32 = 0x8;
/// Bit for an operationally running interface in the raw flag mask.
pub const FLAG_RUNNING: u32 = 0x40;
/// Bit for a multicast-capable interface in the raw flag mask.
pub const FLAG_MULTICAST: u32 = 0x1000;

/// Interface flags: five independent booleans read off the raw
/// bitmask an interface record carries.
#[derive(Clone, Copy, PartialEq, Eq, Hash, Debug)]
pub struct Flags {
    /// Interface is administratively up
    pub up: bool,
    /// Interface is a loopback device
    pub loopback: bool,
    /// Interface has resources allocated (operational)
    pub running: bool,
    /// Interface supports multicasting
    pub multicast: bool,
    /// Interface supports broadcast
    pub broadcast: bool,
}

/// The five bit tests that turn a raw flag mask into booleans.
pub open spec fn flags_spec(bits: u32) -> Flags {
    Flags {
        up: bits & FLAG_UP != 0,
        loopback: bits & FLAG_LOOPBACK != 0,
        running: bits & FLAG_RUNNING != 0,
        multicast: bits & FLAG_MULTICAST != 0,
        broadcast: bits & FLAG_BROADCAST != 0,
    }
}

impl Flags {
    /// Turns a raw flag bitmask into the five named booleans.
    pub fn from_bits(bits: u32) -> (r: Flags)
        ensures
            r == flags_spec(bits),
    {
        Flags {
            up: bits & FLAG_UP != 0,
            loopback: bits & FLAG_LOOPBACK != 0,
            running: bits & FLAG_RUNNING != 0,
            multicast: bits & FLAG_MULTICAST != 0,
            broadcast: bits & FLAG_BROADCAST != 0,
        }
    }
}

/// IPv4 binding of an interface.  The address values are held as the
/// conventional host-order numeric form of the four octets, so the
/// address `a.b.c.d` is the value `a * 2^24 + b * 2^16 + c * 2^8 + d`.
#[derive(Clone, Copy, PartialEq, Eq, Hash, Debug)]
pub struct IfAddrV4 {
    /// The IP address for this network interface
    pub ip: u32,
    /// The netmask for this interface
    pub netmask: Option<u32>,
    /// The broadcast address for this interface
    pub broadcast: Option<u32>,
}

/// IPv6 binding of an interface.  The address values are held as the
/// numeric form of the sixteen octets read in network order, matching
/// the conventional textual grouping into eight 16-bit segments.
#[derive(Clone, Copy, PartialEq, Eq, Hash, Debug)]
pub struct IfAddrV6 {
    /// The IP address for this network interface
    pub ip: u128,
    /// The netmask for this interface
    pub netmask: Option<u128>,
}

/// One typed address of an interface: exactly the two internet address
/// families are represented.  Link-layer records contribute only a MAC
/// string to the owning interface, never an `Addr`.
#[derive(Clone, Copy, PartialEq, Eq, Hash, Debug)]
pub enum Addr {
    /// IPv4 address binding
    IPv4(IfAddrV4),
    /// IPv6 address binding
    IPv6(IfAddrV6),
}

/// One logical network interface: all raw records sharing an index
/// merge into a single value of this type.
#[derive(Clone, PartialEq, Eq, Hash, Debug)]
pub struct NetworkInterface {
    /// Index assigned by the operating system (0 when resolution failed)
    pub index: u32,
    /// Display name, e.g. "eth0"
    pub name: String,
    /// Addresses in discovery order, one per address-family binding
    pub addr: Vec<Addr>,
    /// MAC address rendered as lowercase colon-separated hex pairs
    pub mac_addr: Option<String>,
    /// Interface flags
    pub flags: Flags,
}

/// Mathematical image of a [`NetworkInterface`]: the heap-backed fields
/// are replaced by their sequence views.
pub ghost struct IfaceView {
    /// Index assigned by the operating system
    pub index: u32,
    /// Characters of the display name
    pub name: Seq<char>,
    /// Addresses in discovery order
    pub addr: Seq<Addr>,
    /// Characters of the MAC string, when one was decoded
    pub mac_addr: Option<Seq<char>>,
    /// Interface flags
    pub flags: Flags,
}

/// The character-sequence view of an optional string.
pub open spec fn mac_view(m: Option<String>) -> Option<Seq<char>> {
    match m {
        Some(s) => Some(s@),
        None => None,
    }
}

impl View for NetworkInterface {
    type V = IfaceView;

    open spec fn view(&self) -> IfaceView {
        IfaceView {
            index: self.index,
            name: self.name@,
            addr: self.addr@,
            mac_addr: mac_view(self.mac_addr),
            flags: self.flags,
        }
    }
}

/// The views of a sequence of interfaces, element by element.
pub open spec fn iface_views(s: Seq<NetworkInterface>) -> Seq<IfaceView> {
    s.map_values(|n: NetworkInterface| n@)
}

/// Well-formed interface collection: strictly ascending by index, which
/// also makes the indices pairwise distinct.
pub open spec fn wf_ifaces(s: Seq<IfaceView>) -> bool {
    forall|i: int, j: int| 0 <= i < j < s.len() ==> s[i].index < s[j].index
}

} // verus!
