use autonet::ip::IpAddr;
use autonet::platform::portmatch::collides;
use autonet::platform::procnet::Listener;

/// The value of a dotted-quad IPv4 address.
fn ip4(s: &str) -> u32 {
    let parts: Vec<u32> = s.split('.').map(|p| p.parse::<u32>().unwrap()).collect();
    assert_eq!(parts.len(), 4, "{s}");
    (parts[0] << 24) | (parts[1] << 16) | (parts[2] << 8) | parts[3]
}

/// The value of an IPv6 address in its usual text form, `::` and an
/// embedded dotted quad included.
fn ip6(s: &str) -> u128 {
    fn groups(part: &str) -> Vec<u16> {
        if part.is_empty() {
            return Vec::new();
        }
        let mut out = Vec::new();
        for piece in part.split(':') {
            if piece.contains('.') {
                let v = ip4(piece);
                out.push((v >> 16) as u16);
                out.push((v & 0xffff) as u16);
            } else {
                out.push(u16::from_str_radix(piece, 16).unwrap());
            }
        }
        out
    }
    let all: Vec<u16> = match s.find("::") {
        Some(at) => {
            let head = groups(&s[..at]);
            let tail = groups(&s[at + 2..]);
            let mut v = head.clone();
            v.extend(std::iter::repeat(0).take(8 - head.len() - tail.len()));
            v.extend(tail);
            v
        }
        None => groups(s),
    };
    assert_eq!(all.len(), 8, "{s}");
    all.iter().fold(0u128, |acc, g| (acc << 16) | u128::from(*g))
}

/// A listener with nothing behind it.
type Row = Listener;

fn parse_ip(text: &str) -> IpAddr {
    if text.contains(':') {
        IpAddr::V6(ip6(text))
    } else {
        IpAddr::V4(ip4(text))
    }
}

fn row(address: &str, port: u16) -> Row {
    Listener {
        address: parse_ip(address),
        port,
        uid: 0,
        inode: 0,
    }
}

fn wanted(address: &str) -> IpAddr {
    parse_ip(address)
}

#[test]
fn a_wildcard_listener_collides_with_a_specific_address() {
    let rows = vec![row("0.0.0.0", 3000)];
    assert_eq!(
        collides(&rows, wanted("192.168.1.20"), 3000),
        Some(&rows[0])
    );
}

#[test]
fn an_exact_match_wins_over_a_wildcard_whichever_comes_first() {
    let first = vec![row("0.0.0.0", 3000), row("192.168.1.20", 3000)];
    assert_eq!(
        collides(&first, wanted("192.168.1.20"), 3000),
        Some(&first[1])
    );

    let second = vec![row("192.168.1.20", 3000), row("0.0.0.0", 3000)];
    assert_eq!(
        collides(&second, wanted("192.168.1.20"), 3000),
        Some(&second[0])
    );
}

#[test]
fn a_listener_on_another_address_is_not_a_collision() {
    let rows = vec![row("127.0.0.1", 3000)];
    assert!(collides(&rows, wanted("192.168.1.20"), 3000).is_none());
}

#[test]
fn a_listener_on_another_port_is_ignored() {
    let rows = vec![row("0.0.0.0", 3001)];
    assert!(collides(&rows, wanted("192.168.1.20"), 3000).is_none());
}

#[test]
fn a_dual_stack_listener_holds_the_ipv4_port_too() {
    let rows = vec![row("::", 3000)];
    assert_eq!(
        collides(&rows, wanted("192.168.1.20"), 3000),
        Some(&rows[0])
    );
}

#[test]
fn a_v4_mapped_row_matches_the_plain_v4_address() {
    let rows = vec![row("::ffff:192.168.1.20", 3000)];
    assert_eq!(
        collides(&rows, wanted("192.168.1.20"), 3000),
        Some(&rows[0])
    );
}

#[test]
fn a_bind_to_the_wildcard_contends_with_a_listener_on_one_address() {
    let rows = vec![row("127.0.0.1", 3000)];
    assert_eq!(collides(&rows, wanted("0.0.0.0"), 3000), Some(&rows[0]));
}

#[test]
fn the_two_families_do_not_contend_through_an_ipv4_wildcard() {
    let v6 = vec![row("::1", 3000)];
    assert!(collides(&v6, wanted("0.0.0.0"), 3000).is_none());

    let v4 = vec![row("0.0.0.0", 3000)];
    assert!(collides(&v4, wanted("::1"), 3000).is_none());
}

#[test]
fn a_bind_to_the_ipv6_wildcard_contends_with_an_ipv4_listener() {
    let rows = vec![row("127.0.0.1", 3000)];
    assert_eq!(collides(&rows, wanted("::"), 3000), Some(&rows[0]));
}

#[test]
fn an_empty_table_yields_nothing_rather_than_a_guess() {
    let rows: Vec<Row> = Vec::new();
    assert!(collides(&rows, wanted("192.168.1.20"), 3000).is_none());
}
