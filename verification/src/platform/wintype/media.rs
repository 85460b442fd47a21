//! `NDIS_MEDIUM` values: the framing a driver presents.

use vstd::prelude::*;

verus! {

/// 802.3 framing.
pub const ETHERNET_802_3: i32 = 0;

/// A tunnel.
pub const TUNNEL: i32 = 15;

/// Native 802.11 framing.
pub const NATIVE_802_11: i32 = 16;

/// The loopback adapter.
pub const LOOPBACK: i32 = 17;

} // verus!
