//! Decoders and decision tables that turn what each operating system reports
//! into the network model: hardware addresses, link types, routing-socket
//! messages, the macOS service order, Windows interface and route rows, the
//! Linux socket table, and which listener holds a port.
//!
//! Each takes the bytes or values a backend gathered; gathering them is the
//! backend's business.

pub mod adapters;
pub mod bytes;
pub mod change;
pub mod holder;
pub mod hwaddr;
pub mod ifaddrs;
pub mod iftable;
pub mod linktype;
pub mod netlink;
pub mod winparse;
pub mod winroute;
pub mod portmatch;
pub mod portowner;
pub mod procnet;
pub mod rtparse;
pub mod servicerank;
pub mod sysfs;
pub mod tcptable;
pub mod wintype;
