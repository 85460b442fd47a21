//! Link types from Apple's `<net/if_types.h>`, written out because `libc`
//! defines no `IFT_*` constants for any BSD. Most are IANA `ifType`
//! assignments, so the numbers are stable.

use vstd::prelude::*;

verus! {

/// Assigned when nothing more specific fits. `utun` devices report this.
pub const OTHER: u8 = 0x01;

/// Ethernet, *and Wi-Fi*, which is the whole problem.
pub const ETHER: u8 = 0x06;

/// Point-to-point protocol, as used by older dial-up style VPNs.
pub const PPP: u8 = 0x17;

/// The loopback device.
pub const LOOP: u8 = 0x18;

/// Generic tunnel interface (`gif`).
pub const GIF: u8 = 0x37;

/// 6to4 tunnel interface (`stf`).
pub const STF: u8 = 0x39;

/// A VLAN-tagged pseudo-interface.
pub const L2VLAN: u8 = 0x87;

/// An 802.3ad link aggregate: a bond.
pub const IEEE8023ADLAG: u8 = 0x88;

/// A bridge pseudo-interface.
pub const BRIDGE: u8 = 0xd1;

/// Apple-specific: the cellular data interface.
pub const CELLULAR: u8 = 0xff;

} // verus!
