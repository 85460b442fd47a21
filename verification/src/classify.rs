//! Pure address and interface classification.

use vstd::prelude::*;

use crate::ip::{IpAddr, octets_of, segments_of, is_v4_mapped, mapped_v4, segments};
use crate::model::{AddressScope, InterfaceKind, KindView};
use crate::text::{starts_with, str_eq};

verus! {

/// The scope of an IPv4 address, given its octets.
pub open spec fn scope_of_v4(o: Seq<u8>) -> AddressScope {
    let unspecified = o[0] == 0 && o[1] == 0 && o[2] == 0 && o[3] == 0;
    let broadcast = o[0] == 255 && o[1] == 255 && o[2] == 255 && o[3] == 255;
    let multicast = 224 <= o[0] <= 239;
    if unspecified || broadcast || multicast {
        AddressScope::Special
    } else if o[0] == 127 {
        AddressScope::Loopback
    } else if o[0] == 169 && o[1] == 254 {
        AddressScope::LinkLocal
    } else if o[0] == 100 && 64 <= o[1] <= 127 {
        AddressScope::Cgnat
    } else if o[0] == 10 || (o[0] == 172 && 16 <= o[1] <= 31) || (o[0] == 192 && o[1] == 168) {
        AddressScope::Private
    } else if (o[0] == 192 && o[1] == 0 && o[2] == 2) || (o[0] == 198 && o[1] == 51 && o[2]
        == 100) || (o[0] == 203 && o[1] == 0 && o[2] == 113) || (o[0] == 198 && (o[1] == 18
        || o[1] == 19)) || o[0] >= 240 {
        // Documentation, benchmarking (198.18.0.0/15), and reserved ranges.
        AddressScope::Special
    } else if o[0] == 192 && o[1] == 0 && o[2] == 0 {
        // 192.0.0.0/24 — IETF protocol assignments.
        AddressScope::Special
    } else {
        AddressScope::Global
    }
}

/// The scope of an IPv6 address.
pub open spec fn scope_of_v6(x: u128) -> AddressScope {
    let s = segments_of(x);
    if x == 0 || s[0] >= 0xff00 {
        AddressScope::Special
    } else if x == 1 {
        AddressScope::Loopback
    } else if 0xfe80 <= s[0] <= 0xfebf {
        // fe80::/10 — link-local unicast.
        AddressScope::LinkLocal
    } else if 0xfc00 <= s[0] <= 0xfdff {
        // fc00::/7 — unique local.
        AddressScope::UniqueLocal
    } else if s[0] == 0x2001 && s[1] == 0x0db8 {
        // 2001:db8::/32 — documentation.
        AddressScope::Special
    } else if is_v4_mapped(x) {
        // ::ffff:0:0/96 — judged by the IPv4 address it carries.
        scope_of_v4(octets_of(mapped_v4(x)))
    } else if 0xfec0 <= s[0] <= 0xfeff {
        // fec0::/10 — deprecated site-local.
        AddressScope::Special
    } else {
        AddressScope::Global
    }
}

/// The scope of any address.
pub open spec fn scope_of(ip: IpAddr) -> AddressScope {
    match ip {
        IpAddr::V4(x) => scope_of_v4(octets_of(x)),
        IpAddr::V6(x) => scope_of_v6(x),
    }
}

/// Classify an IP address into the scope the selection engine reasons about.
pub fn classify_address(ip: &IpAddr) -> (s: AddressScope)
    ensures
        s == scope_of(*ip),
{
    match ip {
        IpAddr::V4(x) => classify_ipv4(*x),
        IpAddr::V6(x) => classify_ipv6(*x),
    }
}

/// Classify an IPv4 address, given as its 32-bit value.
pub fn classify_ipv4(x: u32) -> (s: AddressScope)
    ensures
        s == scope_of_v4(octets_of(x)),
{
    let a = (x >> 24u32) as u8;
    let b = ((x >> 16u32) & 0xff) as u8;
    let c = ((x >> 8u32) & 0xff) as u8;
    let d = (x & 0xff) as u8;
    if (a == 0 && b == 0 && c == 0 && d == 0) || (a == 255 && b == 255 && c == 255 && d == 255)
        || (224 <= a && a <= 239) {
        return AddressScope::Special;
    }
    if a == 127 {
        return AddressScope::Loopback;
    }
    if a == 169 && b == 254 {
        return AddressScope::LinkLocal;
    }
    if a == 100 && 64 <= b && b <= 127 {
        return AddressScope::Cgnat;
    }
    if a == 10 || (a == 172 && 16 <= b && b <= 31) || (a == 192 && b == 168) {
        return AddressScope::Private;
    }
    let documentation = (a == 192 && b == 0 && c == 2) || (a == 198 && b == 51 && c == 100) || (a
        == 203 && b == 0 && c == 113);
    assert((b & 0xfe) == 18 <==> (b == 18 || b == 19)) by (bit_vector);
    if documentation || (a == 198 && (b & 0xfe) == 18) || a >= 240 {
        return AddressScope::Special;
    }
    if a == 192 && b == 0 && c == 0 {
        return AddressScope::Special;
    }
    AddressScope::Global
}

/// Classify an IPv6 address, given as its 128-bit value.
pub fn classify_ipv6(x: u128) -> (s: AddressScope)
    ensures
        s == scope_of_v6(x),
{
    let g = segments(x);
    let g0: u16 = g[0];
    let g1: u16 = g[1];
    if x == 0 || g0 >= 0xff00 {
        return AddressScope::Special;
    }
    if x == 1 {
        return AddressScope::Loopback;
    }
    assert((g0 & 0xffc0) == 0xfe80 <==> (0xfe80 <= g0 <= 0xfebf)) by (bit_vector);
    if (g0 & 0xffc0) == 0xfe80 {
        return AddressScope::LinkLocal;
    }
    assert((g0 & 0xfe00) == 0xfc00 <==> (0xfc00 <= g0 <= 0xfdff)) by (bit_vector);
    if (g0 & 0xfe00) == 0xfc00 {
        return AddressScope::UniqueLocal;
    }
    if g0 == 0x2001 && g1 == 0x0db8 {
        return AddressScope::Special;
    }
    if let Some(v4) = IpAddr::V6(x).to_ipv4_mapped() {
        if let IpAddr::V4(y) = v4 {
            return classify_ipv4(y);
        }
    }
    assert((g0 & 0xffc0) == 0xfec0 <==> (0xfec0 <= g0 <= 0xfeff)) by (bit_vector);
    if (g0 & 0xffc0) == 0xfec0 {
        return AddressScope::Special;
    }
    AddressScope::Global
}

/// The interface kinds a name alone reveals.
pub open spec fn container_name(n: Seq<char>) -> bool {
    "docker"@.is_prefix_of(n) || "veth"@.is_prefix_of(n) || "cni"@.is_prefix_of(n)
        || "flannel"@.is_prefix_of(n) || "podman"@.is_prefix_of(n) || "cbr"@.is_prefix_of(n)
        || "kube"@.is_prefix_of(n) || "cali"@.is_prefix_of(n) || docker_bridge_name(n)
}

/// Whether a character is an ASCII hex digit.
pub open spec fn is_hex_digit(c: char) -> bool {
    ('0' <= c && c <= '9') || ('a' <= c && c <= 'f') || ('A' <= c && c <= 'F')
}

/// Docker's user-defined-network bridges: `br-` then twelve hex digits.
pub open spec fn docker_bridge_name(n: Seq<char>) -> bool {
    "br-"@.is_prefix_of(n) && n.len() == 15 && forall|i: int| 3 <= i < 15 ==> is_hex_digit(
        #[trigger] n[i],
    )
}

/// Hypervisor and virtualisation device names.
pub open spec fn virtual_name(n: Seq<char>) -> bool {
    "virbr"@.is_prefix_of(n) || "vboxnet"@.is_prefix_of(n) || "vmnet"@.is_prefix_of(n)
        || "vnet"@.is_prefix_of(n) || "dummy"@.is_prefix_of(n) || "ifb"@.is_prefix_of(n)
}

/// Tunnel and VPN device names.
pub open spec fn vpn_name(n: Seq<char>) -> bool {
    "tun"@.is_prefix_of(n) || "tap"@.is_prefix_of(n) || "wg"@.is_prefix_of(n)
        || "ppp"@.is_prefix_of(n) || "utun"@.is_prefix_of(n) || "ipsec"@.is_prefix_of(n)
        || "nordlynx"@.is_prefix_of(n) || "proton"@.is_prefix_of(n)
        || "tailscale"@.is_prefix_of(n) || "zt"@.is_prefix_of(n) || "mullvad"@.is_prefix_of(n)
        || "gpd"@.is_prefix_of(n)
}

/// Wi-Fi device names (`wlan0`, `wlo1`, `wlp3s0`).
pub open spec fn wireless_name(n: Seq<char>) -> bool {
    "wl"@.is_prefix_of(n) || "wifi"@.is_prefix_of(n) || "ath"@.is_prefix_of(n)
}

/// Wired NIC names, classic or predictable.
pub open spec fn ethernet_name(n: Seq<char>) -> bool {
    "eth"@.is_prefix_of(n) || "eno"@.is_prefix_of(n) || "ens"@.is_prefix_of(n)
        || "enp"@.is_prefix_of(n) || "enx"@.is_prefix_of(n) || "em"@.is_prefix_of(n)
}

/// What a name alone says about an interface, first match winning.
pub open spec fn kind_by_name(n: Seq<char>) -> Option<KindView> {
    if n == "lo"@ {
        Some(KindView::Loopback)
    } else if container_name(n) {
        Some(KindView::Container)
    } else if virtual_name(n) {
        Some(KindView::Virtual)
    } else if vpn_name(n) {
        Some(KindView::Vpn)
    } else if wireless_name(n) {
        Some(KindView::Wireless)
    } else if ethernet_name(n) {
        Some(KindView::Ethernet)
    } else {
        None
    }
}

/// The kernel link kinds that mean a tunnel.
pub open spec fn tunnel_link_kind(k: Seq<char>) -> bool {
    k == "tun"@ || k == "tap"@ || k == "wireguard"@ || k == "ppp"@ || k == "ipip"@ || k
        == "sit"@ || k == "gre"@ || k == "gretap"@ || k == "vti"@ || k == "vti6"@ || k
        == "xfrm"@ || k == "ip6tnl"@ || k == "wg"@
}

/// The decision `classify_interface` makes.
pub open spec fn interface_kind_of(
    name: Seq<char>,
    link_kind: Option<Seq<char>>,
    is_loopback: bool,
    is_wireless: bool,
) -> KindView {
    if is_loopback || name == "lo"@ {
        KindView::Loopback
    } else if is_wireless {
        KindView::Wireless
    } else {
        match link_kind {
            Some(k) => if k == "veth"@ {
                KindView::Container
            } else if k == "bridge"@ {
                if container_name(name) {
                    KindView::Container
                } else if virtual_name(name) {
                    KindView::Virtual
                } else {
                    KindView::Bridge
                }
            } else if tunnel_link_kind(k) {
                KindView::Vpn
            } else if k == "bond"@ || k == "vlan"@ || k == "macvlan"@ || k == "team"@ {
                KindView::Ethernet
            } else if k == "dummy"@ || k == "ifb"@ || k == "nlmon"@ {
                KindView::Virtual
            } else {
                match kind_by_name(name) {
                    Some(v) => v,
                    None => KindView::Other(k),
                }
            },
            None => match kind_by_name(name) {
                Some(v) => v,
                None => KindView::Ethernet,
            },
        }
    }
}

/// Decide what kind of device an interface is.
///
/// `link_kind` is the kernel's own link type (netlink's `IFLA_INFO_KIND`) and
/// is consulted first; names only disambiguate what the kernel reports
/// identically, such as a container runtime's bridge and a user's `br0`.
pub fn classify_interface(
    name: &str,
    link_kind: Option<&str>,
    is_loopback: bool,
    is_wireless: bool,
) -> (k: InterfaceKind)
    ensures
        k@ == interface_kind_of(
            name@,
            match link_kind {
                Some(k) => Some(k@),
                None => None,
            },
            is_loopback,
            is_wireless,
        ),
{
    if is_loopback || str_eq(name, "lo") {
        return InterfaceKind::Loopback;
    }
    if is_wireless {
        return InterfaceKind::Wireless;
    }
    match link_kind {
        Some(kind) => {
            if str_eq(kind, "veth") {
                return InterfaceKind::Container;
            }
            if str_eq(kind, "bridge") {
                return if is_container_name(name) {
                    InterfaceKind::Container
                } else if is_virtual_name(name) {
                    InterfaceKind::Virtual
                } else {
                    InterfaceKind::Bridge
                };
            }
            if str_eq(kind, "tun") || str_eq(kind, "tap") || str_eq(kind, "wireguard") || str_eq(
                kind,
                "ppp",
            ) || str_eq(kind, "ipip") || str_eq(kind, "sit") || str_eq(kind, "gre") || str_eq(
                kind,
                "gretap",
            ) || str_eq(kind, "vti") || str_eq(kind, "vti6") || str_eq(kind, "xfrm") || str_eq(
                kind,
                "ip6tnl",
            ) || str_eq(kind, "wg") {
                return InterfaceKind::Vpn;
            }
            if str_eq(kind, "bond") || str_eq(kind, "vlan") || str_eq(kind, "macvlan") || str_eq(
                kind,
                "team",
            ) {
                return InterfaceKind::Ethernet;
            }
            if str_eq(kind, "dummy") || str_eq(kind, "ifb") || str_eq(kind, "nlmon") {
                return InterfaceKind::Virtual;
            }
            match classify_by_name(name) {
                Some(by_name) => by_name,
                None => InterfaceKind::other(kind),
            }
        },
        None => match classify_by_name(name) {
            Some(by_name) => by_name,
            None => InterfaceKind::Ethernet,
        },
    }
}

/// Name-only classification, or `None` when the name says nothing useful.
pub fn classify_by_name(name: &str) -> (k: Option<InterfaceKind>)
    ensures
        match k {
            Some(k) => kind_by_name(name@) == Some(k@),
            None => kind_by_name(name@) is None,
        },
{
    if str_eq(name, "lo") {
        return Some(InterfaceKind::Loopback);
    }
    if is_container_name(name) {
        return Some(InterfaceKind::Container);
    }
    if is_virtual_name(name) {
        return Some(InterfaceKind::Virtual);
    }
    if is_vpn_name(name) {
        return Some(InterfaceKind::Vpn);
    }
    if is_wireless_name(name) {
        return Some(InterfaceKind::Wireless);
    }
    if is_ethernet_name(name) {
        return Some(InterfaceKind::Ethernet);
    }
    None
}

/// Whether a name belongs to a container runtime's networking.
pub fn is_container_name(name: &str) -> (b: bool)
    ensures
        b == container_name(name@),
{
    starts_with(name, "docker") || starts_with(name, "veth") || starts_with(name, "cni")
        || starts_with(name, "flannel") || starts_with(name, "podman") || starts_with(
        name,
        "cbr",
    ) || starts_with(name, "kube") || starts_with(name, "cali") || is_docker_bridge_name(name)
}

/// Whether a name matches Docker's `br-<12 hex>` user-defined-network bridges.
pub fn is_docker_bridge_name(name: &str) -> (b: bool)
    ensures
        b == docker_bridge_name(name@),
{
    if !starts_with(name, "br-") || name.unicode_len() != 15 {
        return false;
    }
    let mut i: usize = 3;
    while i < 15
        invariant
            3 <= i <= 15,
            name@.len() == 15,
            forall|j: int| 3 <= j < i ==> is_hex_digit(#[trigger] name@[j]),
        decreases 15 - i,
    {
        let c = name.get_char(i);
        if !(('0' <= c && c <= '9') || ('a' <= c && c <= 'f') || ('A' <= c && c <= 'F')) {
            return false;
        }
        i = i + 1;
    }
    true
}

/// Whether a name belongs to a hypervisor or virtualisation device.
pub fn is_virtual_name(name: &str) -> (b: bool)
    ensures
        b == virtual_name(name@),
{
    starts_with(name, "virbr") || starts_with(name, "vboxnet") || starts_with(name, "vmnet")
        || starts_with(name, "vnet") || starts_with(name, "dummy") || starts_with(name, "ifb")
}

/// Whether a name belongs to a tunnel or VPN device.
pub fn is_vpn_name(name: &str) -> (b: bool)
    ensures
        b == vpn_name(name@),
{
    starts_with(name, "tun") || starts_with(name, "tap") || starts_with(name, "wg") || starts_with(
        name,
        "ppp",
    ) || starts_with(name, "utun") || starts_with(name, "ipsec") || starts_with(name, "nordlynx")
        || starts_with(name, "proton") || starts_with(name, "tailscale") || starts_with(
        name,
        "zt",
    ) || starts_with(name, "mullvad") || starts_with(name, "gpd")
}

/// Whether a name looks like a Wi-Fi device.
pub fn is_wireless_name(name: &str) -> (b: bool)
    ensures
        b == wireless_name(name@),
{
    starts_with(name, "wl") || starts_with(name, "wifi") || starts_with(name, "ath")
}

/// Whether a name looks like a wired NIC.
pub fn is_ethernet_name(name: &str) -> (b: bool)
    ensures
        b == ethernet_name(name@),
{
    starts_with(name, "eth") || starts_with(name, "eno") || starts_with(name, "ens") || starts_with(
        name,
        "enp",
    ) || starts_with(name, "enx") || starts_with(name, "em")
}

} // verus!

verus! {

/// Names that container runtimes give their devices: Docker's (`docker0`,
/// and `br-` with a twelve-digit hex network id), veth pairs, CNI, Flannel,
/// Podman, `cbr`, Kubernetes and Calico.
pub open spec fn runtime_device_name(n: Seq<char>) -> bool {
    ||| "docker"@.is_prefix_of(n)
    ||| "veth"@.is_prefix_of(n)
    ||| "cni"@.is_prefix_of(n)
    ||| "flannel"@.is_prefix_of(n)
    ||| "podman"@.is_prefix_of(n)
    ||| "cbr"@.is_prefix_of(n)
    ||| "kube"@.is_prefix_of(n)
    ||| "cali"@.is_prefix_of(n)
    ||| ("br-"@.is_prefix_of(n) && n.len() == 15 && forall|i: int|
        3 <= i < 15 ==> is_hex_digit(#[trigger] n[i]))
}

/// A container runtime's device is a container interface: its name counts
/// as a container name, and a bridge or an unclassified link of that name
/// is classified `Container`, unless it is loopback or wireless.
pub proof fn law_runtime_devices_are_containers(n: Seq<char>)
    requires
        runtime_device_name(n),
    ensures
        container_name(n),
        interface_kind_of(n, Some("bridge"@), false, false) == KindView::Container,
        interface_kind_of(n, None, false, false) == KindView::Container,
{
    reveal_strlit("docker");
    reveal_strlit("veth");
    reveal_strlit("cni");
    reveal_strlit("flannel");
    reveal_strlit("podman");
    reveal_strlit("cbr");
    reveal_strlit("kube");
    reveal_strlit("cali");
    reveal_strlit("br-");
    reveal_strlit("lo");
    reveal_strlit("bridge");
    reveal_strlit("veth");
    assert(n.len() >= 3);
    assert(n != "lo"@);
    assert("bridge"@ != "veth"@) by {
        assert("bridge"@.len() != "veth"@.len());
    }
}

} // verus!
