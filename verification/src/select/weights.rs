//! Scoring weights, public so that tests and `autonet doctor` can refer to
//! them by name instead of restating numbers that would drift out of sync.

use vstd::prelude::*;

verus! {

/// The interface owns the default route for the requested family: the
/// strongest available signal that traffic actually leaves this way.
pub const DEFAULT_ROUTE_SAME_FAMILY: i32 = 1000;

/// The interface owns a default route, but for the other family.
pub const DEFAULT_ROUTE_OTHER_FAMILY: i32 = 400;

/// A wired NIC.
pub const KIND_ETHERNET: i32 = 250;

/// A Wi-Fi NIC.
pub const KIND_WIRELESS: i32 = 200;

/// A user-created bridge.
pub const KIND_BRIDGE: i32 = 150;

/// A container or virtualisation device.
pub const KIND_SYNTHETIC: i32 = -800;

/// A VPN or tunnel device, when not explicitly allowed.
pub const KIND_VPN: i32 = -300;

/// A VPN or tunnel device, when the user asked for one.
pub const KIND_VPN_ALLOWED: i32 = 50;

/// The address is of the preferred family.
pub const FAMILY_MATCH: i32 = 150;

/// RFC 1918 or IPv6 unique-local: the ordinary LAN case.
pub const SCOPE_PRIVATE: i32 = 100;

/// Globally routable.
pub const SCOPE_GLOBAL: i32 = 60;

/// Carrier-grade NAT: rarely reachable by the peer who wants it.
pub const SCOPE_CGNAT: i32 = -200;

/// The interface has a gateway for this family.
pub const HAS_GATEWAY: i32 = 25;

/// An IPv6 privacy-extension temporary address; the stable one is a better
/// thing to hand out, since temporaries are rotated out from under you.
pub const TEMPORARY_ADDRESS: i32 = -20;

/// The interface was named in `prefer_interfaces`. Large enough to dominate
/// every other rule, because it is an explicit instruction from the user.
pub const PREFERRED_INTERFACE: i32 = 2000;

/// Divisor applied to the route metric before subtracting it, so a metric of
/// 600 costs 60 points: enough to break ties between similar links, never
/// enough to overturn a category difference.
pub const METRIC_DIVISOR: u32 = 10;

/// Ceiling on the metric penalty, so an absurd metric cannot dominate.
pub const METRIC_CAP: u32 = 1000;

} // verus!
