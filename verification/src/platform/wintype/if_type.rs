//! `IF_TYPE_*` values from `ipifcons.h`, the IANA `ifType` registry.

use vstd::prelude::*;

verus! {

/// None of the below.
pub const OTHER: u32 = 1;

/// Ethernet.
pub const ETHERNET_CSMACD: u32 = 6;

/// Point-to-point protocol.
pub const PPP: u32 = 23;

/// The loopback adapter.
pub const SOFTWARE_LOOPBACK: u32 = 24;

/// Wi-Fi.
pub const IEEE80211: u32 = 71;

/// A tunnel encapsulation.
pub const TUNNEL: u32 = 131;

/// FireWire networking.
pub const IEEE1394: u32 = 144;

/// An 802.3ad link aggregate.
pub const IEEE8023AD_LAG: u32 = 161;

/// WiMAX.
pub const IEEE80216_WMAN: u32 = 237;

/// Mobile broadband, GSM.
pub const WWANPP: u32 = 243;

/// Mobile broadband, CDMA.
pub const WWANPP2: u32 = 244;

} // verus!
