use autonet::model::{InterfaceKind, InterfaceState};
use autonet::platform::ifaddrs::{interface_state, orphan, IFF_RUNNING, IFF_UP};
use autonet::platform::linktype::UNCLASSIFIED;
use autonet::platform::rtparse::strip_embedded_scope_id;

/// The value of a dotted-quad IPv4 address.
fn ip4(s: &str) -> u32 {
    let parts: Vec<u32> = s.split('.').map(|p| p.parse::<u32>().unwrap()).collect();
    assert_eq!(parts.len(), 4, "{s}");
    (parts[0] << 24) | (parts[1] << 16) | (parts[2] << 8) | parts[3]
}

/// The value of an IPv6 address in its usual text form, `::` and an
/// embedded dotted quad included.
fn ip6(s: &str) -> u128 {
    fn groups(part: &str) -> Vec<u16> {
        if part.is_empty() {
            return Vec::new();
        }
        let mut out = Vec::new();
        for piece in part.split(':') {
            if piece.contains('.') {
                let v = ip4(piece);
                out.push((v >> 16) as u16);
                out.push((v & 0xffff) as u16);
            } else {
                out.push(u16::from_str_radix(piece, 16).unwrap());
            }
        }
        out
    }
    let all: Vec<u16> = match s.find("::") {
        Some(at) => {
            let head = groups(&s[..at]);
            let tail = groups(&s[at + 2..]);
            let mut v = head.clone();
            v.extend(std::iter::repeat(0).take(8 - head.len() - tail.len()));
            v.extend(tail);
            v
        }
        None => groups(s),
    };
    assert_eq!(all.len(), 8, "{s}");
    all.iter().fold(0u128, |acc, g| (acc << 16) | u128::from(*g))
}

#[test]
fn the_kame_scope_id_is_removed_from_link_local_addresses() {
    let embedded = ip6("fe80:5::1c4a:b2ff:fe3d:9e10");
    assert_eq!(
        strip_embedded_scope_id(embedded),
        ip6("fe80::1c4a:b2ff:fe3d:9e10")
    );
}

#[test]
fn an_address_without_the_hack_is_left_alone() {
    for address in [
        "fe80::1c4a:b2ff:fe3d:9e10", // already clean
        "2401:db8:1234::1",          // global
        "fd00:1234::1",              // unique local
        "::1",                       // loopback
    ] {
        let ip = ip6(address);
        assert_eq!(strip_embedded_scope_id(ip), ip, "{address}");
    }
}

#[test]
fn the_strip_covers_the_whole_of_fe80_slash_10() {
    let embedded = ip6("feb0:7::1");
    assert_eq!(
        strip_embedded_scope_id(embedded),
        ip6("feb0::1")
    );
}

#[test]
fn a_tunnel_that_is_up_but_not_running_stays_usable() {
    let flags = IFF_UP;
    assert_eq!(interface_state(flags), InterfaceState::Unknown);
}

#[test]
fn an_administratively_down_interface_is_down() {
    assert_eq!(interface_state(0), InterfaceState::Down);
}

#[test]
fn a_running_interface_is_up() {
    let flags = IFF_UP | IFF_RUNNING;
    assert_eq!(interface_state(flags), InterfaceState::Up);
}

#[test]
fn an_interface_the_link_walk_missed_is_not_guessed_at() {
    assert_eq!(
        orphan("en0", Some(4)).kind,
        InterfaceKind::Other(UNCLASSIFIED.to_owned())
    );
}
