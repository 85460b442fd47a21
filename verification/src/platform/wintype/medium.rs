//! `NDIS_PHYSICAL_MEDIUM` values.

use vstd::prelude::*;

verus! {

/// Not reported.
pub const UNSPECIFIED: i32 = 0;

/// A wireless LAN.
pub const WIRELESS_LAN: i32 = 1;

/// Native 802.11.
pub const NATIVE_802_11: i32 = 9;

/// 802.3 Ethernet.
pub const ETHERNET_802_3: i32 = 14;

} // verus!
