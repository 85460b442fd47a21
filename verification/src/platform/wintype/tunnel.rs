//! `TUNNEL_TYPE` values.

use vstd::prelude::*;

verus! {

/// Not a tunnel.
pub const NONE: i32 = 0;

/// A tunnel of some other kind.
pub const OTHER: i32 = 1;

/// Packets encapsulated directly in IP.
pub const DIRECT: i32 = 2;

/// 6to4.
pub const SIX_TO_FOUR: i32 = 11;

/// ISATAP.
pub const ISATAP: i32 = 13;

/// Teredo.
pub const TEREDO: i32 = 14;

/// IP over HTTPS.
pub const IPHTTPS: i32 = 15;

} // verus!
