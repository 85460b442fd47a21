use autonet::ip::IpAddr;
use autonet::model::InterfaceState;
use autonet::platform::winparse::{af, interface_state, oper, prefix_len, sockaddr_ip, wide_to_string};

/// The value of a dotted-quad IPv4 address.
fn ip4(s: &str) -> u32 {
    let parts: Vec<u32> = s.split('.').map(|p| p.parse::<u32>().unwrap()).collect();
    assert_eq!(parts.len(), 4, "{s}");
    (parts[0] << 24) | (parts[1] << 16) | (parts[2] << 8) | parts[3]
}

/// The value of an IPv6 address in its usual text form, `::` and an
/// embedded dotted quad included.
fn ip6(s: &str) -> u128 {
    fn groups(part: &str) -> Vec<u16> {
        if part.is_empty() {
            return Vec::new();
        }
        let mut out = Vec::new();
        for piece in part.split(':') {
            if piece.contains('.') {
                let v = ip4(piece);
                out.push((v >> 16) as u16);
                out.push((v & 0xffff) as u16);
            } else {
                out.push(u16::from_str_radix(piece, 16).unwrap());
            }
        }
        out
    }
    let all: Vec<u16> = match s.find("::") {
        Some(at) => {
            let head = groups(&s[..at]);
            let tail = groups(&s[at + 2..]);
            let mut v = head.clone();
            v.extend(std::iter::repeat(0).take(8 - head.len() - tail.len()));
            v.extend(tail);
            v
        }
        None => groups(s),
    };
    assert_eq!(all.len(), 8, "{s}");
    all.iter().fold(0u128, |acc, g| (acc << 16) | u128::from(*g))
}

fn a4(s: &str) -> IpAddr {
    IpAddr::V4(ip4(s))
}

fn a6(s: &str) -> IpAddr {
    IpAddr::V6(ip6(s))
}

/// A Windows `sockaddr_in`: family, port, address, then eight zero bytes.
fn sockaddr_in(octets: [u8; 4]) -> Vec<u8> {
    let mut bytes = Vec::with_capacity(16);
    bytes.extend_from_slice(&af::INET.to_ne_bytes());
    bytes.extend_from_slice(&3000u16.to_be_bytes());
    bytes.extend_from_slice(&octets);
    bytes.extend_from_slice(&[0; 8]);
    bytes
}

/// A Windows `sockaddr_in6`: family, port, flowinfo, address, scope id.
fn sockaddr_in6(octets: [u8; 16], scope: u32) -> Vec<u8> {
    let mut bytes = Vec::with_capacity(28);
    bytes.extend_from_slice(&af::INET6.to_ne_bytes());
    bytes.extend_from_slice(&3000u16.to_be_bytes());
    bytes.extend_from_slice(&7u32.to_be_bytes());
    bytes.extend_from_slice(&octets);
    bytes.extend_from_slice(&scope.to_ne_bytes());
    bytes
}

#[test]
fn an_ipv4_sockaddr_decodes_past_the_port() {
    assert_eq!(
        sockaddr_ip(&sockaddr_in([192, 168, 1, 101])),
        Some(a4("192.168.1.101"))
    );
}

#[test]
fn an_ipv6_sockaddr_decodes_past_the_flow_label() {
    let octets = [
        0x20, 0x01, 0x0d, 0xb8, 0, 0, 0, 0, 0, 0, 0, 0, 0, 0, 0, 0x01,
    ];
    assert_eq!(
        sockaddr_ip(&sockaddr_in6(octets, 0)),
        Some(a6("2001:db8::1"))
    );
}

#[test]
fn a_link_local_address_ignores_its_scope_id() {
    let octets = [0xfe, 0x80, 0, 0, 0, 0, 0, 0, 0, 0, 0, 0, 0, 0, 0, 0x01];
    assert_eq!(
        sockaddr_ip(&sockaddr_in6(octets, 12)),
        Some(a6("fe80::1"))
    );
}

#[test]
fn a_truncated_sockaddr_yields_nothing_rather_than_a_short_address() {
    let full = sockaddr_in([10, 0, 0, 1]);
    for len in 0..full.len() {
        let truncated = &full[..len];
        if len < 8 {
            assert_eq!(sockaddr_ip(truncated), None, "{len} bytes should not parse");
        } else {
            assert!(sockaddr_ip(truncated).is_some(), "{len} bytes is enough");
        }
    }

    let full = sockaddr_in6([0; 16], 0);
    assert_eq!(sockaddr_ip(&full[..23]), None, "one byte short of an IPv6");
}

#[test]
fn an_unknown_family_is_not_guessed_at() {
    for family in [0u16, 1, 10, 17, 30, 32, 0xffff] {
        let mut bytes = family.to_ne_bytes().to_vec();
        bytes.extend_from_slice(&[0xab; 26]);
        assert_eq!(sockaddr_ip(&bytes), None, "family {family}");
    }
}

#[test]
fn operational_states_match_the_linux_mapping() {
    assert_eq!(interface_state(oper::UP), InterfaceState::Up);
    assert_eq!(interface_state(oper::DOWN), InterfaceState::Down);
    assert_eq!(interface_state(oper::NOT_PRESENT), InterfaceState::Down);
    assert_eq!(
        interface_state(oper::LOWER_LAYER_DOWN),
        InterfaceState::Down
    );
    assert_eq!(interface_state(oper::DORMANT), InterfaceState::Dormant);
    assert_eq!(interface_state(oper::TESTING), InterfaceState::Dormant);
    assert_eq!(interface_state(oper::UNKNOWN), InterfaceState::Unknown);
}

#[test]
fn an_unrecognised_state_stays_selectable() {
    assert_eq!(interface_state(99), InterfaceState::Unknown);
    assert_eq!(interface_state(-1), InterfaceState::Unknown);
    assert!(!interface_state(99).is_down());
}

#[test]
fn wide_strings_stop_at_the_terminator() {
    let units: Vec<u16> = "Wi-Fi\0Ethernet".encode_utf16().collect();
    assert_eq!(wide_to_string(&units), "Wi-Fi");
    assert_eq!(wide_to_string(&[]), "");
    assert_eq!(wide_to_string(&[0]), "");
}

#[test]
fn wide_strings_survive_non_ascii_and_bad_surrogates() {
    let units: Vec<u16> = "Ethernet 2 — Büro".encode_utf16().collect();
    assert_eq!(wide_to_string(&units), "Ethernet 2 — Büro");

    assert_eq!(wide_to_string(&[0x0041, 0xd800, 0x0042]), "A\u{fffd}B");
}

#[test]
fn prefix_lengths_are_clamped_to_their_family() {
    let v4: IpAddr = a4("192.168.1.1");
    let v6: IpAddr = a6("2001:db8::1");

    assert_eq!(prefix_len(24, &v4), 24);
    assert_eq!(prefix_len(64, &v6), 64);
    assert_eq!(prefix_len(255, &v4), 32, "observed on tunnel adapters");
    assert_eq!(prefix_len(255, &v6), 128);
    assert_eq!(prefix_len(0, &v4), 0, "a default route's prefix is legal");
}

#[test]
fn surrogate_pairs_decode_and_lone_surrogates_are_replaced() {
    let units = [0x0041, 0xD83D, 0xDE00, 0xD800, 0x0042, 0xDC00, 0, 0x0043];
    assert_eq!(wide_to_string(&units), "A\u{1F600}\u{FFFD}B\u{FFFD}");
}
