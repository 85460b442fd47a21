//! Route flags, from `<net/route.h>`.

use vstd::prelude::*;

verus! {

/// The route is usable.
pub const UP: i32 = 0x1;

/// The route has a real next hop rather than being on-link.
pub const GATEWAY: i32 = 0x2;

/// A host route: the destination is a single address.
pub const HOST: i32 = 0x4;

/// Traffic is silently discarded.
pub const BLACKHOLE: i32 = 0x1000;

/// Traffic is rejected with an error.
pub const REJECT: i32 = 0x8;

/// An ARP or neighbour-discovery cache entry.
pub const LLINFO: i32 = 0x400;

/// A multicast route.
pub const MULTICAST: i32 = 0x0080_0000;

/// Generated from a parent route by cloning: the other half of the caches.
pub const WASCLONED: i32 = 0x20000;

} // verus!
