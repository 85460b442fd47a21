use autonet::classify::{classify_interface, classify_ipv4, classify_ipv6, is_docker_bridge_name};
use autonet::model::{AddressScope, InterfaceKind};

/// The value of a dotted-quad IPv4 address.
fn ip4(s: &str) -> u32 {
    let parts: Vec<u32> = s.split('.').map(|p| p.parse::<u32>().unwrap()).collect();
    assert_eq!(parts.len(), 4, "{s}");
    (parts[0] << 24) | (parts[1] << 16) | (parts[2] << 8) | parts[3]
}

/// The value of an IPv6 address in its usual text form, `::` and an
/// embedded dotted quad included.
fn ip6(s: &str) -> u128 {
    fn groups(part: &str) -> Vec<u16> {
        if part.is_empty() {
            return Vec::new();
        }
        let mut out = Vec::new();
        for piece in part.split(':') {
            if piece.contains('.') {
                let v = ip4(piece);
                out.push((v >> 16) as u16);
                out.push((v & 0xffff) as u16);
            } else {
                out.push(u16::from_str_radix(piece, 16).unwrap());
            }
        }
        out
    }
    let all: Vec<u16> = match s.find("::") {
        Some(at) => {
            let head = groups(&s[..at]);
            let tail = groups(&s[at + 2..]);
            let mut v = head.clone();
            v.extend(std::iter::repeat(0).take(8 - head.len() - tail.len()));
            v.extend(tail);
            v
        }
        None => groups(s),
    };
    assert_eq!(all.len(), 8, "{s}");
    all.iter().fold(0u128, |acc, g| (acc << 16) | u128::from(*g))
}


#[test]
fn ipv4_loopback() {
    assert_eq!(classify_ipv4(ip4("127.0.0.1")), AddressScope::Loopback);
    assert_eq!(
        classify_ipv4(ip4("127.255.255.254")),
        AddressScope::Loopback
    );
}

#[test]
fn ipv4_link_local() {
    assert_eq!(classify_ipv4(ip4("169.254.0.1")), AddressScope::LinkLocal);
    assert_eq!(
        classify_ipv4(ip4("169.254.255.255")),
        AddressScope::LinkLocal
    );
    assert_eq!(classify_ipv4(ip4("169.253.255.255")), AddressScope::Global);
}

#[test]
fn ipv4_private_ranges() {
    for ip in [
        "10.0.0.1",
        "10.255.255.255",
        "172.16.0.1",
        "172.31.255.255",
        "192.168.1.101",
    ] {
        assert_eq!(classify_ipv4(ip4(ip)), AddressScope::Private, "{ip}");
    }
    for ip in ["172.17.0.1", "172.20.0.1", "172.24.0.1"] {
        assert_eq!(classify_ipv4(ip4(ip)), AddressScope::Private, "{ip}");
    }
}

#[test]
fn ipv4_private_boundaries_are_exact() {
    assert_eq!(classify_ipv4(ip4("172.15.255.255")), AddressScope::Global);
    assert_eq!(classify_ipv4(ip4("172.32.0.0")), AddressScope::Global);
    assert_eq!(classify_ipv4(ip4("192.167.255.255")), AddressScope::Global);
    assert_eq!(classify_ipv4(ip4("192.169.0.0")), AddressScope::Global);
}

#[test]
fn ipv4_cgnat() {
    assert_eq!(classify_ipv4(ip4("100.64.0.1")), AddressScope::Cgnat);
    assert_eq!(classify_ipv4(ip4("100.127.255.255")), AddressScope::Cgnat);
    assert_eq!(classify_ipv4(ip4("100.63.255.255")), AddressScope::Global);
    assert_eq!(classify_ipv4(ip4("100.128.0.0")), AddressScope::Global);
}

#[test]
fn ipv4_special() {
    assert_eq!(classify_ipv4(ip4("0.0.0.0")), AddressScope::Special);
    assert_eq!(classify_ipv4(ip4("255.255.255.255")), AddressScope::Special);
    assert_eq!(classify_ipv4(ip4("224.0.0.1")), AddressScope::Special);
    assert_eq!(classify_ipv4(ip4("192.0.2.1")), AddressScope::Special);
    assert_eq!(classify_ipv4(ip4("198.51.100.1")), AddressScope::Special);
    assert_eq!(classify_ipv4(ip4("203.0.113.1")), AddressScope::Special);
    assert_eq!(classify_ipv4(ip4("198.18.0.1")), AddressScope::Special);
    assert_eq!(classify_ipv4(ip4("240.0.0.1")), AddressScope::Special);
}

#[test]
fn ipv4_global() {
    assert_eq!(classify_ipv4(ip4("1.1.1.1")), AddressScope::Global);
    assert_eq!(classify_ipv4(ip4("8.8.8.8")), AddressScope::Global);
}

#[test]
fn ipv6_scopes() {
    assert_eq!(classify_ipv6(ip6("::1")), AddressScope::Loopback);
    assert_eq!(classify_ipv6(ip6("::")), AddressScope::Special);
    assert_eq!(classify_ipv6(ip6("ff02::1")), AddressScope::Special);
    assert_eq!(classify_ipv6(ip6("2001:db8::1")), AddressScope::Special);
    assert_eq!(classify_ipv6(ip6("fec0::1")), AddressScope::Special);
}

#[test]
fn ipv6_link_local_covers_the_whole_ten_bit_prefix() {
    for ip in ["fe80::1", "fe80::a00:27ff:fe4e:66a1", "feaf::1", "febf::1"] {
        assert_eq!(classify_ipv6(ip6(ip)), AddressScope::LinkLocal, "{ip}");
    }
    assert_ne!(classify_ipv6(ip6("fe7f::1")), AddressScope::LinkLocal);
    assert_ne!(classify_ipv6(ip6("fec0::1")), AddressScope::LinkLocal);
}

#[test]
fn ipv6_unique_local_covers_fc_and_fd() {
    assert_eq!(classify_ipv6(ip6("fc00::1")), AddressScope::UniqueLocal);
    assert_eq!(
        classify_ipv6(ip6("fd12:3456::1")),
        AddressScope::UniqueLocal
    );
    assert_eq!(classify_ipv6(ip6("fdff::1")), AddressScope::UniqueLocal);
}

#[test]
fn ipv6_global() {
    assert_eq!(
        classify_ipv6(ip6("2606:4700:4700::1111")),
        AddressScope::Global
    );
    assert_eq!(
        classify_ipv6(ip6("2a00:1450:4009:81f::200e")),
        AddressScope::Global
    );
}

#[test]
fn ipv4_mapped_is_judged_by_its_ipv4() {
    assert_eq!(
        classify_ipv6(ip6("::ffff:192.168.1.1")),
        AddressScope::Private
    );
    assert_eq!(classify_ipv6(ip6("::ffff:8.8.8.8")), AddressScope::Global);
}

#[test]
fn address_scope_reachability() {
    assert!(AddressScope::Private.is_reachable_by_peers());
    assert!(AddressScope::Global.is_reachable_by_peers());
    assert!(!AddressScope::Loopback.is_reachable_by_peers());
    assert!(!AddressScope::LinkLocal.is_reachable_by_peers());
    assert!(!AddressScope::Special.is_reachable_by_peers());
}

#[test]
fn kernel_link_kind_beats_the_name() {
    assert_eq!(
        classify_interface("lan0", Some("bridge"), false, false),
        InterfaceKind::Bridge
    );
    assert_eq!(
        classify_interface("enp0s1", Some("veth"), false, false),
        InterfaceKind::Container
    );
}

#[test]
fn docker_bridges_are_told_apart_from_user_bridges() {
    assert_eq!(
        classify_interface("br-18642d3532b2", Some("bridge"), false, false),
        InterfaceKind::Container
    );
    assert_eq!(
        classify_interface("br0", Some("bridge"), false, false),
        InterfaceKind::Bridge
    );
    assert_eq!(
        classify_interface("virbr0", Some("bridge"), false, false),
        InterfaceKind::Virtual
    );
}

#[test]
fn docker_bridge_name_pattern_is_strict() {
    assert!(is_docker_bridge_name("br-18642d3532b2"));
    assert!(is_docker_bridge_name("br-1c8141f6b1d9"));
    assert!(!is_docker_bridge_name("br0"));
    assert!(!is_docker_bridge_name("br-lan"));
    assert!(!is_docker_bridge_name("br-18642d3532"));
    assert!(!is_docker_bridge_name("br-18642d3532b2c"));
    assert!(!is_docker_bridge_name("br-zzzzzzzzzzzz"));
}

#[test]
fn wireless_wins_over_an_ethernet_looking_name() {
    assert_eq!(
        classify_interface("wlo1", None, false, true),
        InterfaceKind::Wireless
    );
    assert_eq!(
        classify_interface("wlp3s0", None, false, false),
        InterfaceKind::Wireless
    );
}

#[test]
fn physical_nics_without_a_link_kind_are_ethernet() {
    for name in ["eno2", "eth0", "enp0s31f6", "ens33", "em1"] {
        assert_eq!(
            classify_interface(name, None, false, false),
            InterfaceKind::Ethernet,
            "{name}"
        );
    }
}

#[test]
fn vpn_devices() {
    assert_eq!(
        classify_interface("wg0", Some("wireguard"), false, false),
        InterfaceKind::Vpn
    );
    assert_eq!(
        classify_interface("tun0", Some("tun"), false, false),
        InterfaceKind::Vpn
    );
    assert_eq!(
        classify_interface("tailscale0", None, false, false),
        InterfaceKind::Vpn
    );
}

#[test]
fn loopback_flag_wins_regardless_of_name() {
    assert_eq!(
        classify_interface("anything", None, true, false),
        InterfaceKind::Loopback
    );
    assert_eq!(
        classify_interface("lo", None, false, false),
        InterfaceKind::Loopback
    );
}

#[test]
fn bonds_and_vlans_count_as_the_real_network_path() {
    assert_eq!(
        classify_interface("bond0", Some("bond"), false, false),
        InterfaceKind::Ethernet
    );
    assert_eq!(
        classify_interface("eth0.100", Some("vlan"), false, false),
        InterfaceKind::Ethernet
    );
}

#[test]
fn unknown_kernel_kind_is_preserved() {
    assert_eq!(
        classify_interface("weird0", Some("batadv"), false, false),
        InterfaceKind::Other("batadv".to_string())
    );
}

#[test]
fn synthetic_kinds() {
    assert!(InterfaceKind::Container.is_synthetic());
    assert!(InterfaceKind::Virtual.is_synthetic());
    assert!(!InterfaceKind::Ethernet.is_synthetic());
    assert!(!InterfaceKind::Bridge.is_synthetic());
    assert!(!InterfaceKind::Vpn.is_synthetic());
}
