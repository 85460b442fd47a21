//! What sort of device an interface is, on Windows: a decision over numeric
//! fields NDIS filled in, never over names or descriptions.
//!
//! `IfType` answers Wi-Fi versus Ethernet. What it cannot answer is Ethernet
//! versus a virtual adapter presenting as Ethernet (a TAP-mode VPN, a
//! Hyper-V or WSL switch); `GetIfTable2`'s access type, medium and hardware
//! bit supply the rest.

pub mod access;
pub mod if_type;
pub mod media;
pub mod medium;
pub mod tunnel;

use vstd::prelude::*;

use crate::model::{InterfaceKind, KindView};
use crate::platform::linktype::UNCLASSIFIED;

verus! {

/// What `kind` says for an Ethernet-typed adapter that is not real hardware.
/// Deliberately `Other`, which scores zero: not `Virtual`, since on a
/// Hyper-V host the genuine connectivity runs through such an adapter, and
/// not `Ethernet`, which is the mistake being avoided.
pub const VIRTUAL_ETHERNET: &'static str = "virtual-ethernet";

/// Everything `GetIfTable2` adds, for one interface. Optional inside
/// [`Evidence`] because the join can miss.
#[derive(Debug, Clone, Copy, PartialEq, Eq, Structural)]
pub struct Ndis {
    /// `MIB_IF_ROW2::AccessType`.
    pub access_type: i32,
    /// `MIB_IF_ROW2::PhysicalMediumType`.
    pub physical_medium: i32,
    /// `MIB_IF_ROW2::MediaType`.
    pub media_type: i32,
    /// The `HardwareInterface` bit, or `None` when it could not be trusted.
    pub hardware_interface: Option<bool>,
}

/// Everything known about an interface that bears on what kind it is.
#[derive(Debug, Clone, Copy, PartialEq, Eq, Structural)]
pub struct Evidence {
    /// `IP_ADAPTER_ADDRESSES_LH::IfType`.
    pub if_type: u32,
    /// `IP_ADAPTER_ADDRESSES_LH::TunnelType`.
    pub tunnel_type: i32,
    /// What `GetIfTable2` added, when the join found a row.
    pub ndis: Option<Ndis>,
}

/// Whether NDIS describes a radio, by the hardware's medium or by the
/// framing the driver presents.
pub open spec fn ndis_wireless(n: Ndis) -> bool {
    n.physical_medium == medium::NATIVE_802_11 || n.physical_medium == medium::WIRELESS_LAN
        || n.media_type == media::NATIVE_802_11
}

/// Whether `TunnelType` names an encapsulation Microsoft enumerates: an
/// allow-list, not "anything but none".
pub open spec fn declared_tunnel(t: i32) -> bool {
    t == tunnel::OTHER || t == tunnel::DIRECT || t == tunnel::SIX_TO_FOUR || t == tunnel::ISATAP
        || t == tunnel::TEREDO || t == tunnel::IPHTTPS
}

/// Whether this `IfType` carries Ethernet frames: Ethernet, aggregates and
/// FireWire.
pub open spec fn ethernet_family(t: u32) -> bool {
    t == if_type::ETHERNET_CSMACD || t == if_type::IEEE8023AD_LAG || t == if_type::IEEE1394
}

/// The kind of device, most trustworthy source first: loopback from any of
/// three fields; Wi-Fi; declared tunnels; mobile broadband and WiMAX (before
/// the point-to-point rule, so a modem is not filed as a VPN); the Ethernet
/// family, where access type and the hardware bit decide; point-to-point.
pub open spec fn windows_kind(e: Evidence) -> KindView {
    let nd = e.ndis;
    if e.if_type == if_type::SOFTWARE_LOOPBACK || (nd matches Some(n) && (n.media_type
        == media::LOOPBACK || n.access_type == access::LOOPBACK)) {
        KindView::Loopback
    } else if e.if_type == if_type::IEEE80211 || (nd matches Some(n) && ndis_wireless(n)) {
        KindView::Wireless
    } else if e.if_type == if_type::TUNNEL || e.if_type == if_type::PPP || declared_tunnel(
        e.tunnel_type,
    ) || (nd matches Some(n) && n.media_type == media::TUNNEL) {
        KindView::Vpn
    } else if e.if_type == if_type::WWANPP || e.if_type == if_type::WWANPP2 {
        KindView::Other("wwan"@)
    } else if e.if_type == if_type::IEEE80216_WMAN {
        KindView::Other("wimax"@)
    } else if ethernet_family(e.if_type) {
        if nd matches Some(n) && n.access_type == access::POINT_TO_POINT {
            KindView::Vpn
        } else if nd matches Some(n) && n.hardware_interface == Some(false) {
            KindView::Other("virtual-ethernet"@)
        } else {
            KindView::Ethernet
        }
    } else if nd matches Some(n) && n.access_type == access::POINT_TO_POINT {
        KindView::Vpn
    } else {
        KindView::Other("unclassified"@)
    }
}

/// Whether NDIS describes a radio.
pub fn is_wireless(ndis: Ndis) -> (b: bool)
    ensures
        b == ndis_wireless(ndis),
{
    ndis.physical_medium == medium::NATIVE_802_11 || ndis.physical_medium == medium::WIRELESS_LAN
        || ndis.media_type == media::NATIVE_802_11
}

/// Whether `TunnelType` names an encapsulation Microsoft enumerates.
pub fn is_declared_tunnel(tunnel_type: i32) -> (b: bool)
    ensures
        b == declared_tunnel(tunnel_type),
{
    tunnel_type == tunnel::OTHER || tunnel_type == tunnel::DIRECT || tunnel_type
        == tunnel::SIX_TO_FOUR || tunnel_type == tunnel::ISATAP || tunnel_type == tunnel::TEREDO
        || tunnel_type == tunnel::IPHTTPS
}

/// Whether this `IfType` describes a device that carries Ethernet frames.
pub fn is_ethernet_family(t: u32) -> (b: bool)
    ensures
        b == ethernet_family(t),
{
    t == if_type::ETHERNET_CSMACD || t == if_type::IEEE8023AD_LAG || t == if_type::IEEE1394
}

/// Whether the link is a shared broadcast medium, for `InterfaceFlags`.
pub fn is_broadcast(access_type: i32) -> (b: bool)
    ensures
        b == (access_type == access::BROADCAST),
{
    access_type == access::BROADCAST
}

/// Whether the link has exactly one peer, for `InterfaceFlags`.
pub fn is_point_to_point(access_type: i32) -> (b: bool)
    ensures
        b == (access_type == access::POINT_TO_POINT),
{
    access_type == access::POINT_TO_POINT
}

/// Decide what kind of device an interface is.
pub fn classify(evidence: Evidence) -> (k: InterfaceKind)
    ensures
        k@ == windows_kind(evidence),
{
    let t = evidence.if_type;
    let (loopback, wireless, tunnel_media, p2p, software) = match evidence.ndis {
        Some(n) => (
            n.media_type == media::LOOPBACK || n.access_type == access::LOOPBACK,
            is_wireless(n),
            n.media_type == media::TUNNEL,
            n.access_type == access::POINT_TO_POINT,
            n.hardware_interface == Some(false),
        ),
        None => (false, false, false, false, false),
    };
    if t == if_type::SOFTWARE_LOOPBACK || loopback {
        return InterfaceKind::Loopback;
    }
    if t == if_type::IEEE80211 || wireless {
        return InterfaceKind::Wireless;
    }
    if t == if_type::TUNNEL || t == if_type::PPP || is_declared_tunnel(evidence.tunnel_type)
        || tunnel_media {
        return InterfaceKind::Vpn;
    }
    if t == if_type::WWANPP || t == if_type::WWANPP2 {
        return InterfaceKind::other("wwan");
    }
    if t == if_type::IEEE80216_WMAN {
        return InterfaceKind::other("wimax");
    }
    if is_ethernet_family(t) {
        if p2p {
            return InterfaceKind::Vpn;
        }
        if software {
            return InterfaceKind::other(VIRTUAL_ETHERNET);
        }
        return InterfaceKind::Ethernet;
    }
    if p2p {
        return InterfaceKind::Vpn;
    }
    InterfaceKind::other(UNCLASSIFIED)
}

} // verus!
