use autonet::cli::render::Theme;
use autonet::cli::watch::{
    banner, describe, differs, rank, reason, render, watching, word, Change, Watcher, POLLING,
};
use autonet::config::SelectionConfig;
use autonet::event::{NetworkDiff, NetworkEvent};
use autonet::ip::IpAddr;
use autonet::model::{
    Address, AddressScope, Family, Interface, InterfaceKind, InterfaceState, IpNetwork,
    NetworkState, Route,
};
use autonet::select::SelectedAddress;

fn selected(interface: &str, kind: InterfaceKind, ip: IpAddr, score: i32) -> SelectedAddress {
    SelectedAddress {
        ip,
        family: Family::V4,
        prefix_len: 24,
        scope: AddressScope::Private,
        interface: interface.to_string(),
        interface_index: 3,
        interface_kind: kind,
        gateway: None,
        score,
    }
}

fn wifi() -> SelectedAddress {
    selected("wlo1", InterfaceKind::Wireless, IpAddr::v4(192, 168, 1, 20), 1415)
}

fn wired() -> SelectedAddress {
    selected("eno1", InterfaceKind::Ethernet, IpAddr::v4(10, 0, 0, 42), 1465)
}

#[test]
fn a_score_that_moves_alone_is_not_a_change() {
    let mut rescored = wifi();
    rescored.score = 900;
    assert!(!differs(&Some(wifi()), &Some(rescored)));
    assert!(!differs(&None, &None));
}

#[test]
fn a_new_address_or_interface_is_a_change() {
    assert!(differs(&Some(wifi()), &Some(wired())));
    assert!(differs(&None, &Some(wifi())));
    assert!(differs(&Some(wifi()), &None));
    let mut renamed = wifi();
    renamed.interface = "wlo2".to_string();
    assert!(differs(&Some(wifi()), &Some(renamed)));
}

#[test]
fn a_selection_is_described_by_interface_kind_and_address() {
    assert_eq!(describe(&Some(wifi())), "wlo1 (wireless) / 192.168.1.20");
    assert_eq!(describe(&None), "no usable address");
}

#[test]
fn the_route_moving_is_the_reason_whatever_else_happened() {
    let changes = NetworkDiff {
        events: vec![
            NetworkEvent::AddressAdded {
                interface: "eno1".to_string(),
                address: Address::new(IpAddr::v4(10, 0, 0, 42), 24),
            },
            NetworkEvent::DefaultRouteChanged {
                family: Family::V4,
                from_interface: Some("wlo1".to_string()),
                to_interface: Some("eno1".to_string()),
            },
            NetworkEvent::InterfaceAdded {
                interface: "eno1".to_string(),
            },
        ],
    };
    assert_eq!(
        reason(&changes).as_deref(),
        Some("default ipv4 route moved from wlo1 to eno1")
    );
}

#[test]
fn equally_ranked_events_give_the_first_one() {
    let changes = NetworkDiff {
        events: vec![
            NetworkEvent::InterfaceRemoved {
                interface: "wlo1".to_string(),
            },
            NetworkEvent::InterfaceRemoved {
                interface: "eno1".to_string(),
            },
        ],
    };
    assert_eq!(reason(&changes).as_deref(), Some("wlo1 went away"));
    assert_eq!(reason(&NetworkDiff { events: Vec::new() }), None);
}

#[test]
fn events_are_ranked_by_how_much_they_explain() {
    let route = NetworkEvent::DefaultRouteChanged {
        family: Family::V6,
        from_interface: None,
        to_interface: Some("eno1".to_string()),
    };
    let appeared = NetworkEvent::InterfaceAdded {
        interface: "eno1".to_string(),
    };
    assert_eq!(rank(&route), 0);
    assert_eq!(rank(&appeared), 5);
}

#[test]
fn every_event_is_worded() {
    let address = Address::new(IpAddr::v4(192, 168, 1, 20), 24);
    let cases = [
        (
            NetworkEvent::DefaultRouteChanged {
                family: Family::V6,
                from_interface: None,
                to_interface: Some("eno1".to_string()),
            },
            "default ipv6 route appeared on eno1",
        ),
        (
            NetworkEvent::DefaultRouteChanged {
                family: Family::V4,
                from_interface: Some("wlo1".to_string()),
                to_interface: None,
            },
            "default ipv4 route on wlo1 went away",
        ),
        (
            NetworkEvent::DefaultRouteChanged {
                family: Family::V4,
                from_interface: None,
                to_interface: None,
            },
            "default ipv4 route changed",
        ),
        (
            NetworkEvent::InterfaceStateChanged {
                interface: "wlo1".to_string(),
                from: "up".to_string(),
                to: "down".to_string(),
            },
            "wlo1 is now down",
        ),
        (
            NetworkEvent::AddressRemoved {
                interface: "wlo1".to_string(),
                address,
            },
            "192.168.1.20 was removed from wlo1",
        ),
        (
            NetworkEvent::AddressAdded {
                interface: "wlo1".to_string(),
                address,
            },
            "192.168.1.20 was added to wlo1",
        ),
        (
            NetworkEvent::InterfaceAdded {
                interface: "eno1".to_string(),
            },
            "eno1 appeared",
        ),
    ];
    for (event, expected) in cases {
        assert_eq!(word(&event), expected);
    }
}

#[test]
fn the_run_says_how_it_learns_of_changes() {
    assert_eq!(
        watching(POLLING),
        "Watching for address changes every 2s. Ctrl-C to stop."
    );
    assert_eq!(
        watching("netlink"),
        "Watching for address changes as netlink reports them, and every 30s regardless. Ctrl-C to stop."
    );
    assert_eq!(
        banner(Theme::plain(), "linux-netlink", POLLING),
        "AutoNet linux-netlink\nWatching for address changes every 2s. Ctrl-C to stop.\n\n"
    );
}

#[test]
fn the_opening_report_shows_only_the_current_selection() {
    let change = Change {
        previous: None,
        current: Some(wifi()),
        diff: NetworkDiff { events: Vec::new() },
        captured_at: None,
    };
    assert!(change.is_initial());
    assert_eq!(
        render(&change, Theme::plain()),
        "Current:  wlo1 (wireless) / 192.168.1.20\n\n"
    );
}

#[test]
fn a_change_shows_what_it_was_what_it_is_and_why() {
    let change = Change {
        previous: Some(wifi()),
        current: Some(wired()),
        diff: NetworkDiff {
            events: vec![NetworkEvent::DefaultRouteChanged {
                family: Family::V4,
                from_interface: Some("wlo1".to_string()),
                to_interface: Some("eno1".to_string()),
            }],
        },
        captured_at: Some(1_700_000_000),
    };
    assert!(!change.is_initial());
    assert_eq!(
        render(&change, Theme::plain()),
        "Previous: wlo1 (wireless) / 192.168.1.20\nCurrent:  eno1 (ethernet) / 10.0.0.42\nReason:   default ipv4 route moved from wlo1 to eno1\n\n"
    );
}

fn interface(name: &str, index: u32, kind: InterfaceKind, ip: IpAddr) -> Interface {
    Interface::new(name.to_string(), index, kind, InterfaceState::Up).with_address(Address::new(ip, 24))
}

fn default_route(index: u32, gateway: IpAddr) -> Route {
    Route {
        destination: Some(IpNetwork::new(IpAddr::V4(0), 0)),
        gateway: Some(gateway),
        interface_index: index,
        metric: 100,
        family: Family::V4,
        preferred_source: None,
    }
}

fn on_wifi() -> NetworkState {
    NetworkState::new(
        vec![interface("wlo1", 3, InterfaceKind::Wireless, IpAddr::v4(192, 168, 1, 20))],
        vec![default_route(3, IpAddr::v4(192, 168, 1, 1))],
    )
}

fn docked() -> NetworkState {
    NetworkState::new(
        vec![
            interface("eno1", 2, InterfaceKind::Ethernet, IpAddr::v4(10, 0, 0, 42)),
            interface("wlo1", 3, InterfaceKind::Wireless, IpAddr::v4(192, 168, 1, 20)),
        ],
        vec![default_route(2, IpAddr::v4(10, 0, 0, 1))],
    )
}

#[test]
fn a_watch_opens_with_the_current_answer() {
    let config = SelectionConfig::default();
    let (watcher, opening) = Watcher::start(on_wifi(), &config);
    assert!(opening.is_initial());
    assert_eq!(opening.current.as_ref().map(|s| s.interface.as_str()), Some("wlo1"));
    assert_eq!(watcher.selected.as_ref().map(|s| s.interface.as_str()), Some("wlo1"));
}

#[test]
fn an_unchanged_network_reports_nothing() {
    let config = SelectionConfig::default();
    let (mut watcher, _) = Watcher::start(on_wifi(), &config);
    assert!(watcher.look(on_wifi(), &config).is_none());
}

#[test]
fn docking_moves_the_answer_and_says_why() {
    let config = SelectionConfig::default();
    let (mut watcher, _) = Watcher::start(on_wifi(), &config);
    let change = watcher.look(docked(), &config).expect("a change");
    assert_eq!(change.previous.as_ref().map(|s| s.interface.as_str()), Some("wlo1"));
    assert_eq!(change.current.as_ref().map(|s| s.interface.as_str()), Some("eno1"));
    assert_eq!(
        reason(&change.diff).as_deref(),
        Some("default ipv4 route moved from wlo1 to eno1")
    );
    assert_eq!(watcher.selected.as_ref().map(|s| s.interface.as_str()), Some("eno1"));
    assert!(watcher.look(docked(), &config).is_none(), "nothing moved the second time");
}

#[test]
fn losing_every_address_is_reported_as_no_selection() {
    let config = SelectionConfig::default();
    let (mut watcher, _) = Watcher::start(on_wifi(), &config);
    let change = watcher
        .look(NetworkState::new(Vec::new(), Vec::new()), &config)
        .expect("a change");
    assert!(change.current.is_none());
    assert!(render(&change, Theme::plain()).contains("Current:  no usable address"));
}
