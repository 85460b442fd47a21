use autonet::ip::IpAddr;
use autonet::model::IpNetwork;
use autonet::platform::winroute::{destination, effective_metric, gateway, is_reportable};

/// The value of a dotted-quad IPv4 address.
fn ip4(s: &str) -> u32 {
    let parts: Vec<u32> = s.split('.').map(|p| p.parse::<u32>().unwrap()).collect();
    assert_eq!(parts.len(), 4, "{s}");
    (parts[0] << 24) | (parts[1] << 16) | (parts[2] << 8) | parts[3]
}

/// The value of an IPv6 address in its usual text form, `::` and an
/// embedded dotted quad included.
fn ip6(s: &str) -> u128 {
    fn groups(part: &str) -> Vec<u16> {
        if part.is_empty() {
            return Vec::new();
        }
        let mut out = Vec::new();
        for piece in part.split(':') {
            if piece.contains('.') {
                let v = ip4(piece);
                out.push((v >> 16) as u16);
                out.push((v & 0xffff) as u16);
            } else {
                out.push(u16::from_str_radix(piece, 16).unwrap());
            }
        }
        out
    }
    let all: Vec<u16> = match s.find("::") {
        Some(at) => {
            let head = groups(&s[..at]);
            let tail = groups(&s[at + 2..]);
            let mut v = head.clone();
            v.extend(std::iter::repeat(0).take(8 - head.len() - tail.len()));
            v.extend(tail);
            v
        }
        None => groups(s),
    };
    assert_eq!(all.len(), 8, "{s}");
    all.iter().fold(0u128, |acc, g| (acc << 16) | u128::from(*g))
}

fn ip(text: &str) -> IpAddr {
    if text.contains(':') {
        IpAddr::V6(ip6(text))
    } else {
        IpAddr::V4(ip4(text))
    }
}

#[test]
fn a_default_destination_becomes_none_in_both_families() {
    assert_eq!(destination(ip("0.0.0.0"), 0), None);
    assert_eq!(destination(ip("::"), 0), None);
}

#[test]
fn a_real_destination_is_kept() {
    assert_eq!(
        destination(ip("192.168.1.0"), 24),
        Some(IpNetwork::new(ip("192.168.1.0"), 24))
    );
    assert_eq!(
        destination(ip("2001:db8::"), 32),
        Some(IpNetwork::new(ip("2001:db8::"), 32))
    );
}

#[test]
fn a_zero_prefix_on_a_named_network_is_not_a_default_route() {
    assert_eq!(
        destination(ip("10.0.0.0"), 0),
        Some(IpNetwork::new(ip("10.0.0.0"), 0))
    );
}

#[test]
fn an_over_long_prefix_is_clamped_rather_than_published() {
    assert_eq!(
        destination(ip("192.168.1.1"), 255),
        Some(IpNetwork::new(ip("192.168.1.1"), 32))
    );
    assert_eq!(
        destination(ip("2001:db8::1"), 255),
        Some(IpNetwork::new(ip("2001:db8::1"), 128))
    );
}

#[test]
fn an_on_link_next_hop_is_not_a_gateway() {
    assert_eq!(gateway(ip("0.0.0.0")), None);
    assert_eq!(gateway(ip("::")), None);
}

#[test]
fn a_real_next_hop_is_a_gateway() {
    assert_eq!(gateway(ip("192.168.1.1")), Some(ip("192.168.1.1")));
    assert_eq!(gateway(ip("fe80::1")), Some(ip("fe80::1")));
}

#[test]
fn the_effective_metric_is_the_documented_sum() {
    assert_eq!(effective_metric(0, 25), 25, "the common default-route case");
    assert_eq!(effective_metric(256, 25), 281);
}

#[test]
fn the_effective_metric_saturates_rather_than_wrapping() {
    assert_eq!(effective_metric(u32::MAX, 25), u32::MAX);
    assert_eq!(effective_metric(u32::MAX, u32::MAX), u32::MAX);
}

#[test]
fn loopback_and_multicast_rows_are_not_reported() {
    assert!(!is_reportable(true, ip("0.0.0.0")));
    assert!(!is_reportable(false, ip("224.0.0.251")));
    assert!(!is_reportable(false, ip("ff02::1")));
}

#[test]
fn ordinary_rows_are_reported() {
    assert!(is_reportable(false, ip("0.0.0.0")), "a default route");
    assert!(is_reportable(false, ip("::")), "a v6 default route");
    assert!(is_reportable(false, ip("192.168.1.0")));
    assert!(is_reportable(false, ip("169.254.0.0")));
    assert!(is_reportable(false, ip("fe80::")));
}
