use autonet::config::SelectionConfig;
use autonet::ip::IpAddr;
use autonet::model::{
    Address, Family, Interface, InterfaceKind, InterfaceState, IpNetwork, NetworkState, Route,
};
use autonet::platform::servicerank::{metric_for_rank, metrics_by_index, UNRANKED};
use autonet::select::select_address;
use autonet::select::weights;

/// The value of a dotted-quad IPv4 address.
fn ip4(s: &str) -> u32 {
    let parts: Vec<u32> = s.split('.').map(|p| p.parse::<u32>().unwrap()).collect();
    assert_eq!(parts.len(), 4, "{s}");
    (parts[0] << 24) | (parts[1] << 16) | (parts[2] << 8) | parts[3]
}

fn a4(s: &str) -> IpAddr {
    IpAddr::V4(ip4(s))
}


fn order(names: &[&str]) -> Vec<(String, u32)> {
    names
        .iter()
        .enumerate()
        .map(|(rank, name)| {
            (
                (*name).to_string(),
                u32::try_from(rank).expect("test order is short"),
            )
        })
        .collect()
}


#[test]
fn each_step_down_the_service_order_costs_one_hundred() {
    assert_eq!(metric_for_rank(Some(0)), 0);
    assert_eq!(metric_for_rank(Some(1)), 100);
    assert_eq!(metric_for_rank(Some(9)), 900);
}

#[test]
fn an_interface_the_order_does_not_mention_gets_the_worst_metric() {
    assert_eq!(metric_for_rank(None), UNRANKED);
    assert_eq!(UNRANKED, weights::METRIC_CAP);
}

#[test]
fn a_deep_service_order_saturates_rather_than_wrapping() {
    assert_eq!(metric_for_rank(Some(10)), UNRANKED);
    assert_eq!(metric_for_rank(Some(500)), UNRANKED);
    assert_eq!(metric_for_rank(Some(u32::MAX)), UNRANKED);
}

#[test]
fn the_scale_cannot_overturn_the_ethernet_wifi_gap() {
    let one_rank = metric_for_rank(Some(1)) / weights::METRIC_DIVISOR;
    let category = weights::KIND_ETHERNET - weights::KIND_WIRELESS;
    assert!(
        i32::try_from(one_rank).unwrap() < category,
        "one rank now costs {one_rank} points against a {category}-point category gap"
    );
}


#[test]
fn interfaces_are_keyed_by_index_through_their_names() {
    let interfaces = vec![
        iface("en0", 4, InterfaceKind::Ethernet, &[]),
        iface("en1", 5, InterfaceKind::Wireless, &[]),
    ];
    let metrics = metrics_by_index(&interfaces, &order(&["en1", "en0"]));

    assert_eq!(metrics.get(&5), Some(&0), "en1 is first in the order");
    assert_eq!(metrics.get(&4), Some(&100), "en0 is second");
}

#[test]
fn every_interface_gets_an_entry_even_when_unlisted() {
    let interfaces = vec![
        iface("en0", 4, InterfaceKind::Ethernet, &[]),
        iface("utun3", 17, InterfaceKind::Vpn, &[]),
    ];
    let metrics = metrics_by_index(&interfaces, &order(&["en0"]));

    assert_eq!(metrics.len(), interfaces.len());
    assert_eq!(metrics.get(&17), Some(&UNRANKED));
}

#[test]
fn a_service_order_naming_an_interface_this_machine_does_not_have_is_ignored() {
    let interfaces = vec![iface("en0", 4, InterfaceKind::Ethernet, &[])];
    let metrics = metrics_by_index(&interfaces, &order(&["en5", "en0"]));

    assert_eq!(metrics.len(), 1);
    assert_eq!(metrics.get(&4), Some(&100));
}

#[test]
fn an_empty_service_order_gives_every_interface_the_same_metric() {
    let interfaces = vec![
        iface("en0", 4, InterfaceKind::Ethernet, &[]),
        iface("en1", 5, InterfaceKind::Ethernet, &[]),
    ];
    let metrics = metrics_by_index(&interfaces, &[]);

    assert_eq!(metrics.get(&4), metrics.get(&5));
}


#[test]
fn the_service_order_beats_the_interface_index_between_same_kind_links() {
    let interfaces = vec![
        iface("en0", 4, InterfaceKind::Ethernet, &[("10.0.0.4", 24)]),
        iface("en12", 12, InterfaceKind::Ethernet, &[("10.0.0.12", 24)]),
    ];
    let metrics = metrics_by_index(&interfaces, &order(&["en12", "en0"]));
    let state = NetworkState::new(
        interfaces,
        vec![
            default_route(4, "10.0.0.1", metrics[&4]),
            default_route(12, "10.0.0.1", metrics[&12]),
        ],
    );

    let selected = select_address(&state, &SelectionConfig::default()).unwrap();
    assert_eq!(
        selected.interface, "en12",
        "the service order was ignored in favour of the interface index"
    );
}

#[test]
fn without_the_service_order_the_same_pair_falls_back_to_the_index() {
    let interfaces = vec![
        iface("en0", 4, InterfaceKind::Ethernet, &[("10.0.0.4", 24)]),
        iface("en12", 12, InterfaceKind::Ethernet, &[("10.0.0.12", 24)]),
    ];
    let metrics = metrics_by_index(&interfaces, &[]);
    let state = NetworkState::new(
        interfaces,
        vec![
            default_route(4, "10.0.0.1", metrics[&4]),
            default_route(12, "10.0.0.1", metrics[&12]),
        ],
    );

    let selected = select_address(&state, &SelectionConfig::default()).unwrap();
    assert_eq!(selected.interface, "en0");
}

#[test]
fn a_wifi_link_ranked_first_still_loses_to_ethernet() {
    let interfaces = vec![
        iface("en0", 4, InterfaceKind::Ethernet, &[("10.0.0.4", 24)]),
        iface("en1", 5, InterfaceKind::Wireless, &[("192.168.1.5", 24)]),
    ];
    let metrics = metrics_by_index(&interfaces, &order(&["en1", "en0"]));
    let state = NetworkState::new(
        interfaces,
        vec![
            default_route(4, "10.0.0.1", metrics[&4]),
            default_route(5, "192.168.1.1", metrics[&5]),
        ],
    );

    let selected = select_address(&state, &SelectionConfig::default()).unwrap();
    assert_eq!(selected.interface, "en0");
}


fn iface(name: &str, index: u32, kind: InterfaceKind, addrs: &[(&str, u8)]) -> Interface {
    let mut interface = Interface::new(name.to_string(), index, kind, InterfaceState::Up);
    for (ip, prefix) in addrs {
        interface
            .addresses
            .push(Address::new(a4(ip), *prefix));
    }
    interface
}

fn default_route(index: u32, gateway: &str, metric: u32) -> Route {
    let gateway: IpAddr = a4(gateway);
    Route {
        destination: Some(IpNetwork::new(IpAddr::V4(0), 0)),
        gateway: Some(gateway),
        interface_index: index,
        metric,
        family: Family::of(&gateway),
        preferred_source: None,
    }
}
