//! Enumeration model for the network interfaces of the local host.
//!
//! The operating system reports interfaces as a flat list of raw records,
//! one per address-family binding.  This crate holds the verified core
//! of the enumeration: it decodes each raw record's byte payload into a
//! typed address, reads the flag bitmask into named booleans, merges the
//! records into one entry per logical interface (keyed and ordered by
//! interface index), and derives the usual address projections.  Talking to the
//! operating system itself is left to the surrounding program, which
//! hands the raw records over as plain values.

pub mod aggregate;
pub mod decode;
pub mod error;
pub mod hostname;
pub mod laws;
pub mod mac;
pub mod model;
pub mod query;
pub mod raw;

pub use aggregate::{aggregate, update_interfaces, update_interfaces_with_mac};
pub use decode::{if_addr_v4, if_addr_v6};
pub use error::Error;
pub use hostname::hostname_from_buffer;
pub use mac::{decode_mac, mac_to_string};
pub use model::{Addr, Flags, IfAddrV4, IfAddrV6, NetworkInterface};
pub use query::{is_unicast_link_local, local_ipv4_addresses, local_ipv6_addresses};
pub use raw::{RawData, RawRecord};
