use autonet::ip::IpAddr;
use autonet::model::{AddressScope, Family, Interface, InterfaceKind, InterfaceState};
use autonet::platform::netlink::{
    address_from, attach_addresses, interface_from, interface_state, keep_by_index, route_from,
    AddressFacts, Link, RouteFacts, AF_INET, AF_INET6, IFA_F_DADFAILED, IFA_F_SECONDARY,
    IFF_LOOPBACK, IFF_RUNNING, IFF_UP, OPER_LOWER_LAYER_DOWN, OPER_UP, RTN_UNICAST,
};

/// `IF_OPER_UNKNOWN`.
const OPER_UNKNOWN: u8 = 0;

fn v4(a: u8, b: u8, c: u8, d: u8) -> IpAddr {
    IpAddr::V4(((a as u32) << 24) | ((b as u32) << 16) | ((c as u32) << 8) | d as u32)
}

#[test]
fn tunnels_reporting_no_operstate_stay_usable() {
    assert_eq!(
        interface_state(Some(OPER_UNKNOWN), IFF_UP | IFF_RUNNING),
        InterfaceState::Unknown
    );
}

#[test]
fn a_link_with_no_operstate_falls_back_to_the_admin_flag() {
    assert_eq!(interface_state(None, 0), InterfaceState::Down);
    assert_eq!(interface_state(None, IFF_UP), InterfaceState::Unknown);
}

#[test]
fn lower_layer_down_is_down() {
    assert_eq!(
        interface_state(Some(OPER_LOWER_LAYER_DOWN), IFF_UP),
        InterfaceState::Down
    );
}

#[test]
fn an_up_operstate_is_up_whatever_the_flags() {
    assert_eq!(interface_state(Some(OPER_UP), 0), InterfaceState::Up);
}

fn link(index: u32, name: Option<&str>, flags: u32) -> Link {
    Link {
        index,
        flags,
        name: name.map(|n| n.to_string()),
        oper_state: Some(OPER_UP),
        address: Some(vec![0x02, 0x0a, 0xff, 0x00, 0x1b, 0xc3]),
        mtu: Some(1500),
        kind: None,
    }
}

#[test]
fn an_unnamed_link_is_not_reported() {
    assert!(interface_from(&link(3, None, IFF_UP)).is_none());
}

#[test]
fn a_loopback_link_is_loopback_whatever_its_name() {
    let i = interface_from(&link(1, Some("autonet-test-lo"), IFF_UP | IFF_LOOPBACK)).unwrap();
    assert_eq!(i.kind, InterfaceKind::Loopback);
    assert!(i.flags.loopback);
    assert!(i.flags.up);
    assert!(!i.flags.running);
    assert_eq!(i.mac.as_deref(), Some("02:0a:ff:00:1b:c3"));
    assert_eq!(i.mtu, Some(1500));
    assert_eq!(i.state, InterfaceState::Up);
    assert!(i.addresses.is_empty());
}

#[test]
fn a_veth_link_is_a_container_interface() {
    let mut l = link(7, Some("autonet-test-veth"), IFF_UP);
    l.kind = Some("veth".to_string());
    l.address = Some(vec![0; 6]);
    let i = interface_from(&l).unwrap();
    assert_eq!(i.kind, InterfaceKind::Container);
    assert_eq!(i.mac, None);
    assert_eq!(i.index, 7);
}

fn facts(index: u32, local: Option<IpAddr>, address: Option<IpAddr>) -> AddressFacts {
    AddressFacts { index, prefix_len: 24, header_flags: 0, local, address, flags: None }
}

#[test]
fn the_local_address_wins_over_the_peer() {
    let a = address_from(&facts(2, Some(v4(10, 0, 0, 1)), Some(v4(10, 0, 0, 2)))).unwrap();
    assert_eq!(a.ip, v4(10, 0, 0, 1));
    assert_eq!(a.family, Family::V4);
    assert_eq!(a.prefix_len, 24);
    assert_eq!(a.scope, AddressScope::Private);
    let a = address_from(&facts(2, None, Some(v4(10, 0, 0, 2)))).unwrap();
    assert_eq!(a.ip, v4(10, 0, 0, 2));
    assert!(address_from(&facts(2, None, None)).is_none());
}

#[test]
fn a_failed_duplicate_check_drops_the_address() {
    let mut f = facts(2, Some(v4(192, 168, 1, 5)), None);
    f.header_flags = IFA_F_DADFAILED as u8;
    assert!(address_from(&f).is_none());
    f.header_flags = 0;
    f.flags = Some(IFA_F_DADFAILED | 0x100);
    assert!(address_from(&f).is_none());
    f.flags = Some(0);
    f.header_flags = IFA_F_DADFAILED as u8;
    assert!(address_from(&f).is_some());
}

#[test]
fn secondary_means_temporary_only_for_ipv6() {
    let mut f = facts(2, Some(v4(192, 168, 1, 5)), None);
    f.flags = Some(IFA_F_SECONDARY);
    assert!(!address_from(&f).unwrap().is_temporary);
    f.local = Some(IpAddr::V6(0x2001_0db8_0000_0000_0000_0000_0000_0001));
    let a = address_from(&f).unwrap();
    assert!(a.is_temporary);
    assert_eq!(a.family, Family::V6);
}

fn iface(name: &str, index: u32) -> Interface {
    Interface::new(name.to_string(), index, InterfaceKind::Ethernet, InterfaceState::Up)
}

#[test]
fn addresses_join_their_interface_by_index() {
    let mut interfaces = vec![iface("eth0", 2), iface("wlan0", 3)];
    let addresses = [
        facts(3, Some(v4(192, 168, 1, 9)), None),
        facts(9, Some(v4(10, 9, 9, 9)), None),
        facts(2, Some(v4(10, 0, 0, 5)), None),
        facts(3, None, None),
        facts(3, Some(v4(192, 168, 1, 10)), None),
    ];
    attach_addresses(&mut interfaces, &addresses);
    assert_eq!(interfaces[0].addresses.len(), 1);
    assert_eq!(interfaces[0].addresses[0].ip, v4(10, 0, 0, 5));
    assert_eq!(interfaces[1].addresses.len(), 2);
    assert_eq!(interfaces[1].addresses[0].ip, v4(192, 168, 1, 9));
    assert_eq!(interfaces[1].addresses[1].ip, v4(192, 168, 1, 10));
    assert_eq!(interfaces[1].name, "wlan0");
}

#[test]
fn links_are_kept_in_index_order_and_a_repeat_replaces() {
    let mut interfaces = Vec::new();
    keep_by_index(&mut interfaces, iface("c", 5));
    keep_by_index(&mut interfaces, iface("a", 1));
    keep_by_index(&mut interfaces, iface("b", 3));
    keep_by_index(&mut interfaces, iface("b2", 3));
    let names: Vec<&str> = interfaces.iter().map(|i| i.name.as_str()).collect();
    assert_eq!(names, vec!["a", "b2", "c"]);
}

fn route(kind: u8, family: u8) -> RouteFacts {
    RouteFacts {
        kind,
        family,
        destination: None,
        destination_prefix_length: 0,
        gateway: Some(v4(192, 168, 1, 1)),
        preferred_source: None,
        oif: Some(2),
        first_hop: None,
        priority: 100,
    }
}

#[test]
fn a_unicast_route_without_destination_is_the_default_route() {
    let r = route_from(&route(RTN_UNICAST, AF_INET)).unwrap();
    assert!(r.destination.is_none());
    assert_eq!(r.interface_index, 2);
    assert_eq!(r.metric, 100);
    assert_eq!(r.family, Family::V4);
    assert_eq!(r.gateway, Some(v4(192, 168, 1, 1)));
}

#[test]
fn only_unicast_routes_of_the_two_families_are_read() {
    assert!(route_from(&route(2, AF_INET)).is_none());
    assert!(route_from(&route(RTN_UNICAST, 28)).is_none());
    assert_eq!(route_from(&route(RTN_UNICAST, AF_INET6)).unwrap().family, Family::V6);
}

#[test]
fn a_missing_destination_with_a_prefix_is_not_read() {
    let mut r = route(RTN_UNICAST, AF_INET);
    r.destination_prefix_length = 8;
    assert!(route_from(&r).is_none());
    r.destination = Some(v4(10, 0, 0, 0));
    let n = route_from(&r).unwrap().destination.unwrap();
    assert_eq!(n.addr, v4(10, 0, 0, 0));
    assert_eq!(n.prefix_len, 8);
}

#[test]
fn a_multipath_route_leaves_by_its_first_hop() {
    let mut r = route(RTN_UNICAST, AF_INET);
    r.oif = None;
    assert!(route_from(&r).is_none());
    r.first_hop = Some(4);
    assert_eq!(route_from(&r).unwrap().interface_index, 4);
    r.oif = Some(6);
    assert_eq!(route_from(&r).unwrap().interface_index, 6);
}
