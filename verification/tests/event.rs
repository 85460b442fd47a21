use autonet::event::{diff, NetworkEvent};
use autonet::ip::IpAddr;
use autonet::model::{
    Address, Family, Interface, InterfaceKind, InterfaceState, IpNetwork, NetworkState, Route,
};

/// The value of a dotted-quad IPv4 address.
fn ip4(s: &str) -> u32 {
    let parts: Vec<u32> = s.split('.').map(|p| p.parse::<u32>().unwrap()).collect();
    assert_eq!(parts.len(), 4, "{s}");
    (parts[0] << 24) | (parts[1] << 16) | (parts[2] << 8) | parts[3]
}

fn a4(s: &str) -> IpAddr {
    IpAddr::V4(ip4(s))
}


fn wifi(ip: &str) -> Interface {
    Interface::new("wlo1".to_string(), 3, InterfaceKind::Wireless, InterfaceState::Up)
        .with_address(Address::new(a4(ip), 24))
}

fn route(index: u32, gw: &str, metric: u32) -> Route {
    Route {
        destination: Some(IpNetwork::new(IpAddr::V4(0), 0)),
        gateway: Some(a4(gw)),
        interface_index: index,
        metric,
        family: Family::V4,
        preferred_source: None,
    }
}

#[test]
fn identical_snapshots_produce_no_events() {
    let s = NetworkState::new(vec![wifi("192.168.1.101")], vec![route(3, "192.168.1.1", 600)]);
    assert!(diff(&s, &s).is_empty());
}

#[test]
fn a_new_ip_on_the_same_interface_is_a_swap() {
    let before = NetworkState::new(vec![wifi("192.168.1.101")], vec![]);
    let after = NetworkState::new(vec![wifi("10.0.0.55")], vec![]);
    let d = diff(&before, &after);

    assert_eq!(d.events.len(), 2);
    assert!(matches!(d.events[0], NetworkEvent::AddressRemoved { .. }));
    assert!(matches!(d.events[1], NetworkEvent::AddressAdded { .. }));
    assert!(d.affects_selection());
}

#[test]
fn moving_the_default_route_between_interfaces_is_reported() {
    let eth = Interface::new("eno1".to_string(), 2, InterfaceKind::Ethernet, InterfaceState::Up)
        .with_address(Address::new(a4("10.0.0.20"), 24));

    let before = NetworkState::new(vec![wifi("192.168.1.101")], vec![route(3, "192.168.1.1", 600)]);
    let after = NetworkState::new(
        vec![eth, wifi("192.168.1.101")],
        vec![route(2, "10.0.0.1", 100), route(3, "192.168.1.1", 600)],
    );

    let d = diff(&before, &after);
    let moved = d
        .events
        .iter()
        .find(|e| matches!(e, NetworkEvent::DefaultRouteChanged { .. }))
        .expect("default route change should be reported");
    assert_eq!(
        *moved,
        NetworkEvent::DefaultRouteChanged {
            family: Family::V4,
            from_interface: Some("wlo1".into()),
            to_interface: Some("eno1".into()),
        }
    );
    assert!(d.affects_selection());
}

#[test]
fn disconnecting_reports_the_route_going_away() {
    let before = NetworkState::new(vec![wifi("192.168.1.101")], vec![route(3, "192.168.1.1", 600)]);
    let after = NetworkState::new(vec![], vec![]);
    let d = diff(&before, &after);

    assert!(d
        .events
        .iter()
        .any(|e| matches!(e, NetworkEvent::InterfaceRemoved { .. })));
    assert!(d.events.iter().any(|e| matches!(
        e,
        NetworkEvent::DefaultRouteChanged { to_interface: None, .. }
    )));
}

#[test]
fn an_interface_reappearing_with_a_new_index_is_not_a_remove_and_add() {
    let mut renumbered = wifi("192.168.1.101");
    renumbered.index = 42;
    let before = NetworkState::new(vec![wifi("192.168.1.101")], vec![]);
    let after = NetworkState::new(vec![renumbered], vec![]);
    assert!(diff(&before, &after).is_empty());
}

#[test]
fn a_bare_interface_appearing_does_not_affect_selection() {
    let empty = Interface::new("veth0".to_string(), 9, InterfaceKind::Container, InterfaceState::Up);
    let before = NetworkState::new(vec![], vec![]);
    let after = NetworkState::new(vec![empty], vec![]);
    let d = diff(&before, &after);
    assert!(!d.is_empty());
    assert!(!d.affects_selection());
}
