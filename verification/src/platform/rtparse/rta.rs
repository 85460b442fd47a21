//! Which sockaddrs a routing message carries, as a bitmask in `rtm_addrs`.
//! The order of the bits is the order the sockaddrs appear in the buffer.

use vstd::prelude::*;

verus! {

/// The destination network.
pub const DST: i32 = 0x1;

/// The next hop.
pub const GATEWAY: i32 = 0x2;

/// The netmask, very often truncated.
pub const NETMASK: i32 = 0x4;

/// A cloning mask. Unused by AutoNet, but it occupies a slot.
pub const GENMASK: i32 = 0x8;

/// The interface, as a `sockaddr_dl`.
pub const IFP: i32 = 0x10;

/// The interface address: the source address for this route.
pub const IFA: i32 = 0x20;

/// The author of a redirect. Occupies a slot.
pub const AUTHOR: i32 = 0x40;

/// The broadcast or point-to-point destination. Occupies a slot.
pub const BRD: i32 = 0x80;

/// How many slots the bitmask can describe.
pub const SLOTS: u32 = 8;

} // verus!
