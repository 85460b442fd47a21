use autonet::platform::rtparse::{dump_capacity, dump_length, RESIZE_ATTEMPTS};
use std::collections::HashMap;

use autonet::ip::IpAddr;
use autonet::model::{Family, IpNetwork};
use autonet::platform::bytes::machine_order;
use autonet::platform::rtparse::{
    address_block, header, is_reportable, message, roundup, route_parts, routes, rta, rtf,
    sockaddr, strip_embedded_scope_id, RouteParts, RTM_VERSION,
};
use autonet::platform::servicerank;

/// The value of a dotted-quad IPv4 address.
fn ip4(s: &str) -> u32 {
    let parts: Vec<u32> = s.split('.').map(|p| p.parse::<u32>().unwrap()).collect();
    assert_eq!(parts.len(), 4, "{s}");
    (parts[0] << 24) | (parts[1] << 16) | (parts[2] << 8) | parts[3]
}

/// The value of an IPv6 address in its usual text form, `::` and an
/// embedded dotted quad included.
fn ip6(s: &str) -> u128 {
    fn groups(part: &str) -> Vec<u16> {
        if part.is_empty() {
            return Vec::new();
        }
        let mut out = Vec::new();
        for piece in part.split(':') {
            if piece.contains('.') {
                let v = ip4(piece);
                out.push((v >> 16) as u16);
                out.push((v & 0xffff) as u16);
            } else {
                out.push(u16::from_str_radix(piece, 16).unwrap());
            }
        }
        out
    }
    let all: Vec<u16> = match s.find("::") {
        Some(at) => {
            let head = groups(&s[..at]);
            let tail = groups(&s[at + 2..]);
            let mut v = head.clone();
            v.extend(std::iter::repeat(0).take(8 - head.len() - tail.len()));
            v.extend(tail);
            v
        }
        None => groups(s),
    };
    assert_eq!(all.len(), 8, "{s}");
    all.iter().fold(0u128, |acc, g| (acc << 16) | u128::from(*g))
}

fn a4(s: &str) -> IpAddr {
    IpAddr::V4(ip4(s))
}

fn a6(s: &str) -> IpAddr {
    IpAddr::V6(ip6(s))
}

fn sockaddr_in(ip: &str) -> Vec<u8> {
    let mut sa = vec![0u8; 16];
    sa[sockaddr::LEN] = 16;
    sa[sockaddr::FAMILY] = 2;
    let octets = ip4(ip).to_be_bytes();
    sa[sockaddr::V4_ADDR..sockaddr::V4_ADDR + 4].copy_from_slice(&octets);
    sa
}

fn sockaddr_in6(ip: &str) -> Vec<u8> {
    let mut sa = vec![0u8; 28];
    sa[sockaddr::LEN] = 28;
    sa[sockaddr::FAMILY] = 30;
    let octets = ip6(ip).to_be_bytes();
    sa[sockaddr::V6_ADDR..sockaddr::V6_ADDR + 16].copy_from_slice(&octets);
    sa
}

fn sockaddr_dl(index: u16) -> Vec<u8> {
    let mut sa = vec![0u8; 20];
    sa[sockaddr::LEN] = 20;
    sa[sockaddr::FAMILY] = 18;
    sa[sockaddr::DL_INDEX..sockaddr::DL_INDEX + 2].copy_from_slice(&index.to_ne_bytes());
    sa
}

/// A netmask sockaddr holding only its significant bytes, as the kernel
/// writes it. `family` is deliberately settable: real ones often say 0.
fn netmask(significant: &[u8], family: u8) -> Vec<u8> {
    let len = sockaddr::V4_ADDR + significant.len();
    let mut sa = vec![0u8; len];
    sa[sockaddr::LEN] = u8::try_from(len).unwrap();
    sa[sockaddr::FAMILY] = family;
    sa[sockaddr::V4_ADDR..].copy_from_slice(significant);
    sa
}

/// The zero-length netmask the kernel writes for a default route.
fn empty_sockaddr() -> Vec<u8> {
    Vec::new()
}

/// Concatenate sockaddrs with the padding the kernel would insert.
fn block(parts: &[Vec<u8>]) -> Vec<u8> {
    let mut out = Vec::new();
    for part in parts {
        out.extend_from_slice(part);
        out.resize(out.len() + roundup(part.len()) - part.len(), 0);
    }
    out
}

fn header_bytes(flags: i32, addrs: i32, index: u16, block_len: usize) -> Vec<u8> {
    let mut bytes = vec![0u8; header::LEN];
    let msglen = u16::try_from(header::LEN + block_len).unwrap();
    bytes[header::MSGLEN..header::MSGLEN + 2].copy_from_slice(&msglen.to_ne_bytes());
    bytes[header::VERSION] = RTM_VERSION;
    bytes[header::KIND] = 4; // RTM_GET
    bytes[header::INDEX..header::INDEX + 2].copy_from_slice(&index.to_ne_bytes());
    bytes[header::FLAGS..header::FLAGS + 4].copy_from_slice(&flags.to_ne_bytes());
    bytes[header::ADDRS..header::ADDRS + 4].copy_from_slice(&addrs.to_ne_bytes());
    bytes
}

/// A whole message: header plus address block, as `NET_RT_DUMP` returns it.
fn message_bytes(flags: i32, addrs: i32, index: u16, parts: &[Vec<u8>]) -> Vec<u8> {
    let body = block(parts);
    let mut bytes = header_bytes(flags, addrs, index, body.len());
    bytes.extend_from_slice(&body);
    bytes
}

/// Parse a whole message the way the backend does.
fn parse(bytes: &[u8], fallback: Family) -> Option<RouteParts> {
    let head = message(bytes)?;
    let body = address_block(bytes, &head)?;
    route_parts(body, &head, fallback, machine_order())
}


#[test]
fn darwin_rounds_sockaddrs_up_to_four_bytes_not_eight() {
    assert_eq!(roundup(1), 4);
    assert_eq!(roundup(4), 4);
    assert_eq!(roundup(5), 8);
    assert_eq!(roundup(7), 8);
    assert_eq!(roundup(16), 16);
    assert_eq!(roundup(20), 20);
    assert_eq!(roundup(28), 28);
}

#[test]
fn a_zero_length_sockaddr_still_advances_the_cursor() {
    assert_eq!(roundup(0), 4);
}


#[test]
fn a_default_route_is_read_through_its_zero_length_netmask() {
    let bytes = message_bytes(
        rtf::UP | rtf::GATEWAY,
        rta::DST | rta::GATEWAY | rta::NETMASK,
        4,
        &[
            sockaddr_in("0.0.0.0"),
            sockaddr_in("192.168.1.1"),
            empty_sockaddr(),
        ],
    );

    let parts = parse(&bytes, Family::V4).unwrap();
    assert_eq!(parts.destination, None, "0.0.0.0/0 is reported as None");
    assert_eq!(parts.gateway, Some(a4("192.168.1.1")));
    assert_eq!(parts.family, Family::V4);
}

#[test]
fn the_ipv6_default_route_is_read_the_same_way() {
    let bytes = message_bytes(
        rtf::UP | rtf::GATEWAY,
        rta::DST | rta::GATEWAY | rta::NETMASK,
        4,
        &[
            sockaddr_in6("::"),
            sockaddr_in6("fe80::1"),
            empty_sockaddr(),
        ],
    );

    let parts = parse(&bytes, Family::V6).unwrap();
    assert_eq!(parts.destination, None);
    assert_eq!(parts.gateway, Some(a6("fe80::1")));
    assert_eq!(parts.family, Family::V6);
}

#[test]
fn a_link_local_gateway_loses_its_embedded_scope_id() {
    let bytes = message_bytes(
        rtf::UP | rtf::GATEWAY,
        rta::DST | rta::GATEWAY | rta::NETMASK,
        5,
        &[
            sockaddr_in6("::"),
            sockaddr_in6("fe80:5::1"),
            empty_sockaddr(),
        ],
    );

    let parts = parse(&bytes, Family::V6).unwrap();
    assert_eq!(parts.gateway, Some(a6("fe80::1")));
}


#[test]
fn a_truncated_netmask_still_yields_the_right_prefix() {
    let bytes = message_bytes(
        rtf::UP,
        rta::DST | rta::NETMASK,
        4,
        &[sockaddr_in("192.168.1.0"), netmask(&[255, 255, 255], 0)],
    );

    let parts = parse(&bytes, Family::V4).unwrap();
    assert_eq!(
        parts.destination,
        Some(IpNetwork::new(a4("192.168.1.0"), 24))
    );
}

#[test]
fn a_mask_that_ends_mid_byte_is_counted_bit_by_bit() {
    let bytes = message_bytes(
        rtf::UP,
        rta::DST | rta::NETMASK,
        4,
        &[sockaddr_in("10.1.16.0"), netmask(&[255, 255, 240], 0)],
    );

    let parts = parse(&bytes, Family::V4).unwrap();
    assert_eq!(parts.destination.unwrap().prefix_len, 20);
}

#[test]
fn the_netmask_declares_a_family_that_is_never_trusted() {
    for claimed in [0u8, 30, 18, 200] {
        let bytes = message_bytes(
            rtf::UP,
            rta::DST | rta::NETMASK,
            4,
            &[
                sockaddr_in("172.16.0.0"),
                netmask(&[255, 255, 0, 0], claimed),
            ],
        );

        let parts = parse(&bytes, Family::V4).unwrap();
        assert_eq!(
            parts.destination.unwrap().prefix_len,
            16,
            "netmask claiming family {claimed}"
        );
    }
}

#[test]
fn a_host_route_gets_a_full_length_prefix() {
    let bytes = message_bytes(
        rtf::UP | rtf::HOST,
        rta::DST,
        4,
        &[sockaddr_in("192.168.1.50")],
    );

    let parts = parse(&bytes, Family::V4).unwrap();
    assert_eq!(parts.destination.unwrap().prefix_len, 32);
}


#[test]
fn an_on_link_route_reports_no_gateway_rather_than_a_fabricated_one() {
    let bytes = message_bytes(
        rtf::UP,
        rta::DST | rta::GATEWAY | rta::NETMASK,
        7,
        &[
            sockaddr_in("192.168.1.0"),
            sockaddr_dl(7),
            netmask(&[255, 255, 255], 0),
        ],
    );

    let parts = parse(&bytes, Family::V4).unwrap();
    assert_eq!(parts.gateway, None);
    assert_eq!(parts.destination.unwrap().prefix_len, 24);
}

#[test]
fn a_gap_in_the_bitmask_does_not_shift_the_later_sockaddrs() {
    let bytes = message_bytes(
        rtf::UP,
        rta::DST | rta::IFP,
        9,
        &[sockaddr_in("10.0.0.0"), sockaddr_dl(9)],
    );

    let parts = parse(&bytes, Family::V4).unwrap();
    assert_eq!(parts.gateway, None);
    assert_eq!(parts.interface, Some(9));
}

#[test]
fn slots_that_autonet_ignores_still_move_the_cursor() {
    let bytes = message_bytes(
        rtf::UP,
        rta::DST | rta::GENMASK | rta::IFP | rta::IFA | rta::AUTHOR,
        3,
        &[
            sockaddr_in("10.0.0.0"),
            sockaddr_in("255.0.0.0"), // GENMASK, ignored
            sockaddr_dl(3),           // IFP
            sockaddr_in("10.0.0.7"),  // IFA
            sockaddr_in("10.0.0.1"),  // AUTHOR, ignored
        ],
    );

    let parts = parse(&bytes, Family::V4).unwrap();
    assert_eq!(parts.interface, Some(3));
    assert_eq!(parts.preferred_source, Some(a4("10.0.0.7")));
}

#[test]
fn sockaddrs_of_odd_length_are_padded_to_the_next_boundary() {
    let bytes = message_bytes(
        rtf::UP,
        rta::DST | rta::NETMASK | rta::IFP,
        11,
        &[
            sockaddr_in("192.168.4.0"),
            netmask(&[255, 255, 255], 0), // seven bytes, padded to eight
            sockaddr_dl(11),
        ],
    );

    let parts = parse(&bytes, Family::V4).unwrap();
    assert_eq!(parts.interface, Some(11));
    assert_eq!(parts.destination.unwrap().prefix_len, 24);
}


#[test]
fn a_block_that_ends_mid_sockaddr_is_refused_not_guessed_at() {
    let full = block(&[sockaddr_in("10.0.0.0"), sockaddr_in("10.0.0.1")]);
    let head = message(&header_bytes(rtf::UP, rta::DST | rta::GATEWAY, 4, 0)).unwrap();

    for cut in 17..full.len() {
        assert_eq!(
            route_parts(&full[..cut], &head, Family::V4, machine_order()).map(|p| p.gateway),
            None,
            "block truncated to {cut} bytes"
        );
    }
}

#[test]
fn a_message_shorter_than_its_header_is_refused() {
    let bytes = vec![0u8; header::LEN - 1];
    assert_eq!(message(&bytes), None);
}

#[test]
fn a_message_length_that_overruns_the_buffer_is_refused() {
    let mut bytes = header_bytes(rtf::UP, rta::DST, 4, 0);
    bytes[header::MSGLEN..header::MSGLEN + 2].copy_from_slice(&9999u16.to_ne_bytes());
    assert_eq!(message(&bytes), None);
}

#[test]
fn a_message_length_smaller_than_a_header_is_refused() {
    let mut bytes = header_bytes(rtf::UP, rta::DST, 4, 0);
    bytes[header::MSGLEN..header::MSGLEN + 2].copy_from_slice(&0u16.to_ne_bytes());
    assert_eq!(message(&bytes), None);
}

#[test]
fn an_arp_entry_keyed_by_a_link_address_is_not_a_route() {
    let bytes = message_bytes(
        rtf::UP | rtf::HOST,
        rta::DST | rta::GATEWAY,
        4,
        &[sockaddr_dl(4), sockaddr_dl(4)],
    );
    assert_eq!(parse(&bytes, Family::V4), None);
}


#[test]
fn cache_entries_and_dead_ends_are_not_reported_as_routes() {
    for flags in [
        rtf::UP | rtf::LLINFO,
        rtf::UP | rtf::WASCLONED,
        rtf::UP | rtf::MULTICAST,
        rtf::UP | rtf::BLACKHOLE,
        rtf::UP | rtf::REJECT,
        rtf::GATEWAY, // not up
    ] {
        assert!(!is_reportable(flags), "flags {flags:#x}");
    }
}

#[test]
fn both_the_primary_and_the_scoped_default_route_survive_the_filter() {
    const RTF_IFSCOPE: i32 = 0x0100_0000;
    assert!(is_reportable(rtf::UP | rtf::GATEWAY));
    assert!(is_reportable(rtf::UP | rtf::GATEWAY | RTF_IFSCOPE));
}

#[test]
fn a_plain_static_route_is_reported() {
    assert!(is_reportable(rtf::UP | rtf::GATEWAY | rtf::HOST));
}


#[test]
fn the_header_reports_the_interface_and_length_the_kernel_wrote() {
    let parts = [sockaddr_in("0.0.0.0"), sockaddr_in("192.168.1.1")];
    let bytes = message_bytes(rtf::UP | rtf::GATEWAY, rta::DST | rta::GATEWAY, 42, &parts);

    let head = message(&bytes).unwrap();
    assert_eq!(head.index, 42);
    assert_eq!(head.version, RTM_VERSION);
    assert_eq!(head.msglen, bytes.len());
    assert_eq!(head.flags, rtf::UP | rtf::GATEWAY);
    assert_eq!(address_block(&bytes, &head).unwrap().len(), 32);
}


/// A buffer shaped like what `NET_RT_DUMP` returns: a default route, an ARP
/// cache entry, and an on-link LAN route, back to back.
fn a_dump() -> Vec<u8> {
    let mut buffer = message_bytes(
        rtf::UP | rtf::GATEWAY,
        rta::DST | rta::GATEWAY | rta::NETMASK,
        4,
        &[
            sockaddr_in("0.0.0.0"),
            sockaddr_in("192.168.1.1"),
            empty_sockaddr(),
        ],
    );
    buffer.extend(message_bytes(
        rtf::UP | rtf::HOST | rtf::LLINFO | rtf::WASCLONED,
        rta::DST | rta::GATEWAY,
        4,
        &[sockaddr_in("192.168.1.23"), sockaddr_dl(4)],
    ));
    buffer.extend(message_bytes(
        rtf::UP,
        rta::DST | rta::GATEWAY | rta::NETMASK,
        4,
        &[
            sockaddr_in("192.168.1.0"),
            sockaddr_dl(4),
            netmask(&[255, 255, 255], 0),
        ],
    ));
    buffer
}

#[test]
fn a_dump_yields_the_routes_and_drops_the_arp_cache() {
    let found = routes(&a_dump(), Family::V4, &no_metrics());

    assert_eq!(found.len(), 2, "the ARP entry is not a route");
    assert!(found[0].is_default());
    assert_eq!(found[0].gateway, Some(a4("192.168.1.1")));
    assert_eq!(found[0].interface_index, 4);
    assert_eq!(
        found[1].destination,
        Some(IpNetwork::new(a4("192.168.1.0"), 24))
    );
    assert_eq!(found[1].gateway, None, "on-link, so no next hop");
}

#[test]
fn a_dump_that_is_cut_short_yields_the_messages_that_were_complete() {
    let full = a_dump();
    let found = routes(&full[..full.len() - 8], Family::V4, &no_metrics());
    assert_eq!(found.len(), 1);
    assert!(found[0].is_default());
}

#[test]
fn a_message_from_an_abi_this_build_does_not_know_is_skipped() {
    let mut buffer = a_dump();
    buffer[header::VERSION] = RTM_VERSION + 1;

    let found = routes(&buffer, Family::V4, &no_metrics());
    assert_eq!(found.len(), 1);
    assert_eq!(
        found[0].destination,
        Some(IpNetwork::new(a4("192.168.1.0"), 24))
    );
}

#[test]
fn a_message_naming_no_interface_falls_back_to_its_ifp_sockaddr() {
    let bytes = message_bytes(
        rtf::UP | rtf::GATEWAY,
        rta::DST | rta::GATEWAY | rta::IFP,
        0,
        &[
            sockaddr_in("0.0.0.0"),
            sockaddr_in("10.0.0.1"),
            sockaddr_dl(12),
        ],
    );

    assert_eq!(
        routes(&bytes, Family::V4, &no_metrics())[0].interface_index,
        12
    );
}

#[test]
fn an_empty_dump_is_no_routes_rather_than_an_error() {
    assert!(routes(&[], Family::V4, &no_metrics()).is_empty());
}

#[test]
fn a_routes_metric_comes_from_the_map_and_not_from_the_kernel() {
    let metrics: HashMap<u32, u32> = [(4, 300)].into_iter().collect();
    let found = routes(&a_dump(), Family::V4, &metrics);

    assert_eq!(found.len(), 2);
    assert!(found.iter().all(|route| route.metric == 300));
}

#[test]
fn a_route_on_an_interface_the_map_does_not_cover_is_unranked() {
    let found = routes(&a_dump(), Family::V4, &no_metrics());
    assert!(found
        .iter()
        .all(|route| route.metric == servicerank::UNRANKED));
}

/// A machine whose service order told us nothing, for the tests that are
/// about the parse rather than about ranking.
fn no_metrics() -> HashMap<u32, u32> {
    HashMap::new()
}

#[test]
fn the_scope_strip_leaves_ordinary_addresses_alone() {
    for address in ["fe80::1c4a:b2ff:fe3d:9e10", "2401:db8:1234::1", "::1"] {
        let ip = ip6(address);
        assert_eq!(strip_embedded_scope_id(ip), ip, "{address}");
    }
}

#[test]
fn a_dump_buffer_leaves_room_for_the_table_to_grow() {
    assert_eq!(dump_capacity(0), 1024);
    assert_eq!(dump_capacity(8000), 10024);
    assert_eq!(dump_length(500, 10024), 500);
    assert_eq!(dump_length(20000, 10024), 10024);
    assert_eq!(RESIZE_ATTEMPTS, 4);
}
