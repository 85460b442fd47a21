//! `IF_OPER_STATUS`, the RFC 2863 operational states: the same enumeration
//! Linux's `IF_OPER_*` implements.

use vstd::prelude::*;

verus! {

/// Up and able to pass packets.
pub const UP: i32 = 1;

/// Down and not in a condition to pass packets.
pub const DOWN: i32 = 2;

/// In testing mode.
pub const TESTING: i32 = 3;

/// The operational status is not known.
pub const UNKNOWN: i32 = 4;

/// Not up, but waiting on an external event.
pub const DORMANT: i32 = 5;

/// Down because a component, typically hardware, is absent.
pub const NOT_PRESENT: i32 = 6;

/// Down because an interface underneath it is down.
pub const LOWER_LAYER_DOWN: i32 = 7;

} // verus!
