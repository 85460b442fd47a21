//! `NET_IF_ACCESS_TYPE` values.

use vstd::prelude::*;

verus! {

/// The loopback adapter.
pub const LOOPBACK: i32 = 1;

/// A broadcast-capable medium: the ordinary LAN case.
pub const BROADCAST: i32 = 2;

/// A point-to-point link: tunnels and PPP.
pub const POINT_TO_POINT: i32 = 3;

/// Point-to-multipoint.
pub const POINT_TO_MULTI_POINT: i32 = 4;

} // verus!
