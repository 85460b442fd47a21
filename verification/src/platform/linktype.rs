//! What sort of device an interface is, on macOS: a decision over evidence
//! already gathered.
//!
//! SystemConfiguration leads and `ifi_type` follows, because `ifi_type`
//! cannot tell Wi-Fi from Ethernet: a Mac's Wi-Fi card reports `IFT_ETHER`.
//! `ifi_type` still earns its place: it describes devices SystemConfiguration
//! does not enumerate at all, which is where the interesting tunnels live.

pub mod ift;

use vstd::prelude::*;

use crate::model::{InterfaceKind, KindView};
use crate::text::owned;

verus! {

/// What to pass as `ifi_type` when the link layer said nothing: the header's
/// own "unspecified".
pub const IFI_TYPE_UNSPECIFIED: u8 = ift::OTHER;

/// What `kind` says when no source could identify the device. Reported
/// rather than guessed: `Other` scores zero, neither preferred nor penalised.
pub const UNCLASSIFIED: &'static str = "unclassified";

/// The interface types SystemConfiguration reports.
#[derive(Debug, Clone, Copy, PartialEq, Eq, Structural)]
pub enum ScType {
    /// Wired Ethernet.
    Ethernet,
    /// Wi-Fi.
    IEEE80211,
    /// A bridge.
    Bridge,
    /// An Ethernet bond.
    Bond,
    /// A VLAN-tagged interface.
    Vlan,
    /// FireWire networking.
    FireWire,
    /// A 6to4 tunnel.
    SixToFour,
    /// An IPSec VPN configured in Network preferences.
    IpSec,
    /// An L2TP VPN.
    L2tp,
    /// A PPP link.
    Ppp,
    /// A PPTP VPN.
    Pptp,
    /// A dial-up modem.
    Modem,
    /// A serial link.
    Serial,
    /// Cellular / mobile broadband.
    Wwan,
    /// Bluetooth PAN.
    Bluetooth,
    /// Infrared.
    IrDa,
    /// A pseudo-type for IPv4 configuration; it says nothing about the
    /// hardware, so the table falls through past it.
    Ipv4,
}

/// Everything known about an interface that bears on what kind it is. There
/// is no name: `en0` is Wi-Fi on a laptop and Ethernet on a Mac Pro.
#[derive(Debug, Clone, Copy)]
pub struct Evidence {
    /// The `IFF_LOOPBACK` flag.
    pub loopback: bool,
    /// The `IFF_POINTOPOINT` flag.
    pub point_to_point: bool,
    /// What SystemConfiguration calls this device, if it enumerates it.
    pub sc: Option<ScType>,
    /// `if_data.ifi_type` from the `AF_LINK` record.
    pub ifi_type: u8,
}

/// SystemConfiguration's answer in AutoNet's vocabulary; nothing for the
/// `Ipv4` pseudo-type. Bonds and VLANs are Ethernet, as on Linux; the
/// old-style VPN types and 6to4 are tunnels; devices AutoNet has no opinion
/// about keep the source's own word.
pub open spec fn kind_from_sc(sc: ScType) -> Option<KindView> {
    match sc {
        ScType::Ethernet | ScType::Bond | ScType::Vlan | ScType::FireWire => Some(
            KindView::Ethernet,
        ),
        ScType::IEEE80211 => Some(KindView::Wireless),
        ScType::Bridge => Some(KindView::Bridge),
        ScType::IpSec | ScType::L2tp | ScType::Ppp | ScType::Pptp | ScType::SixToFour => Some(
            KindView::Vpn,
        ),
        ScType::Wwan => Some(KindView::Other("wwan"@)),
        ScType::Bluetooth => Some(KindView::Other("bluetooth"@)),
        ScType::Modem => Some(KindView::Other("modem"@)),
        ScType::Serial => Some(KindView::Other("serial"@)),
        ScType::IrDa => Some(KindView::Other("irda"@)),
        ScType::Ipv4 => None,
    }
}

/// `ifi_type` in AutoNet's vocabulary; nothing for `IFT_OTHER` and anything
/// unrecognised.
pub open spec fn kind_from_ifi_type(t: u8) -> Option<KindView> {
    if t == ift::LOOP {
        Some(KindView::Loopback)
    } else if t == ift::BRIDGE {
        Some(KindView::Bridge)
    } else if t == ift::L2VLAN || t == ift::IEEE8023ADLAG || t == ift::ETHER {
        Some(KindView::Ethernet)
    } else if t == ift::PPP || t == ift::GIF || t == ift::STF {
        Some(KindView::Vpn)
    } else if t == ift::CELLULAR {
        Some(KindView::Other("cellular"@))
    } else {
        None
    }
}

/// The kind of device, sources consulted most trustworthy first: the
/// loopback flag, SystemConfiguration, `ifi_type`, then the point-to-point
/// flag (which catches the `utun` VPNs nothing else names).
pub open spec fn kind_from_evidence(e: Evidence) -> KindView {
    if e.loopback {
        KindView::Loopback
    } else if e.sc matches Some(sc) && kind_from_sc(sc) is Some {
        kind_from_sc(e.sc->0)->0
    } else if kind_from_ifi_type(e.ifi_type) is Some {
        kind_from_ifi_type(e.ifi_type)->0
    } else if e.point_to_point {
        KindView::Vpn
    } else {
        KindView::Other("unclassified"@)
    }
}

/// Map SystemConfiguration's answer onto AutoNet's vocabulary.
pub fn from_sc(sc: ScType) -> (k: Option<InterfaceKind>)
    ensures
        match k {
            Some(k) => kind_from_sc(sc) == Some(k@),
            None => kind_from_sc(sc) is None,
        },
{
    match sc {
        ScType::Ethernet | ScType::Bond | ScType::Vlan | ScType::FireWire => Some(
            InterfaceKind::Ethernet,
        ),
        ScType::IEEE80211 => Some(InterfaceKind::Wireless),
        ScType::Bridge => Some(InterfaceKind::Bridge),
        ScType::IpSec | ScType::L2tp | ScType::Ppp | ScType::Pptp | ScType::SixToFour => Some(
            InterfaceKind::Vpn,
        ),
        ScType::Wwan => Some(InterfaceKind::other("wwan")),
        ScType::Bluetooth => Some(InterfaceKind::other("bluetooth")),
        ScType::Modem => Some(InterfaceKind::other("modem")),
        ScType::Serial => Some(InterfaceKind::other("serial")),
        ScType::IrDa => Some(InterfaceKind::other("irda")),
        ScType::Ipv4 => None,
    }
}

/// Map `if_data.ifi_type` onto AutoNet's vocabulary.
pub fn from_ifi_type(ifi_type: u8) -> (k: Option<InterfaceKind>)
    ensures
        match k {
            Some(k) => kind_from_ifi_type(ifi_type) == Some(k@),
            None => kind_from_ifi_type(ifi_type) is None,
        },
{
    if ifi_type == ift::LOOP {
        Some(InterfaceKind::Loopback)
    } else if ifi_type == ift::BRIDGE {
        Some(InterfaceKind::Bridge)
    } else if ifi_type == ift::L2VLAN || ifi_type == ift::IEEE8023ADLAG || ifi_type == ift::ETHER {
        Some(InterfaceKind::Ethernet)
    } else if ifi_type == ift::PPP || ifi_type == ift::GIF || ifi_type == ift::STF {
        Some(InterfaceKind::Vpn)
    } else if ifi_type == ift::CELLULAR {
        Some(InterfaceKind::other("cellular"))
    } else {
        None
    }
}

/// Decide what kind of device an interface is.
pub fn classify(evidence: Evidence) -> (k: InterfaceKind)
    ensures
        k@ == kind_from_evidence(evidence),
{
    if evidence.loopback {
        return InterfaceKind::Loopback;
    }
    if let Some(sc) = evidence.sc {
        if let Some(kind) = from_sc(sc) {
            return kind;
        }
    }
    if let Some(kind) = from_ifi_type(evidence.ifi_type) {
        return kind;
    }
    if evidence.point_to_point {
        return InterfaceKind::Vpn;
    }
    InterfaceKind::other(UNCLASSIFIED)
}

} // verus!
