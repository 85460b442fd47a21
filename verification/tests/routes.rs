use autonet::cli::render::Theme;
use autonet::cli::routes::{ordered, route_less, routes_table};
use autonet::ip::IpAddr;
use autonet::model::{Family, Interface, InterfaceKind, InterfaceState, IpNetwork, NetworkState, Route};

fn route(destination: Option<(IpAddr, u8)>, index: u32, metric: u32, family: Family) -> Route {
    Route {
        destination: destination.map(|(a, p)| IpNetwork::new(a, p)),
        gateway: None,
        interface_index: index,
        metric,
        family,
        preferred_source: None,
    }
}

#[test]
fn default_routes_come_first_then_family_index_metric_and_destination() {
    let lan = route(Some((IpAddr::v4(192, 168, 1, 0), 24)), 3, 600, Family::V4);
    let other_lan = route(Some((IpAddr::v4(10, 0, 0, 0), 8)), 3, 600, Family::V4);
    let v6_default = route(None, 3, 600, Family::V6);
    let v4_default = route(Some((IpAddr::V4(0), 0)), 3, 600, Family::V4);
    let cheap_default = route(None, 3, 100, Family::V4);
    let low_index = route(Some((IpAddr::v4(172, 16, 0, 0), 12)), 2, 900, Family::V4);

    let sorted = ordered(&vec![lan, other_lan, v6_default, v4_default, cheap_default, low_index]);
    assert_eq!(
        sorted,
        vec![cheap_default, v4_default, v6_default, low_index, other_lan, lan]
    );
}

#[test]
fn routes_that_tie_keep_their_order() {
    let mut first = route(None, 3, 600, Family::V4);
    first.gateway = Some(IpAddr::v4(192, 168, 1, 1));
    let mut second = route(None, 3, 600, Family::V4);
    second.gateway = Some(IpAddr::v4(192, 168, 1, 2));
    assert_eq!(ordered(&vec![first, second]), vec![first, second]);
    assert_eq!(ordered(&vec![second, first]), vec![second, first]);
    assert!(!route_less(&first, &second) && !route_less(&second, &first));
}

#[test]
fn destinations_compare_as_text() {
    let a = route(Some((IpAddr::v4(10, 0, 0, 0), 8)), 3, 600, Family::V4);
    let b = route(Some((IpAddr::v4(9, 0, 0, 0), 8)), 3, 600, Family::V4);
    assert!(route_less(&a, &b), "\"10.0.0.0/8\" sorts before \"9.0.0.0/8\"");
    assert!(ordered(&Vec::new()).is_empty());
}

#[test]
fn the_routes_table_names_interfaces_and_marks_the_default() {
    let state = NetworkState::new(
        vec![Interface::new("wlo1".to_string(), 3, InterfaceKind::Wireless, InterfaceState::Up)],
        Vec::new(),
    );
    let mut default = route(None, 3, 600, Family::V4);
    default.gateway = Some(IpAddr::v4(192, 168, 1, 1));
    let lan = route(Some((IpAddr::v4(192, 168, 1, 0), 24)), 7, 600, Family::V4);
    let text = routes_table(&vec![default, lan], &state, Theme::plain());
    let lines: Vec<&str> = text.lines().collect();
    assert_eq!(lines.len(), 3);
    assert!(lines[0].starts_with("DESTINATION"), "{text}");
    assert!(lines[1].starts_with("default"), "{text}");
    assert!(lines[1].contains("192.168.1.1") && lines[1].contains("wlo1"), "{text}");
    assert!(lines[2].starts_with("192.168.1.0/24"), "{text}");
    assert!(lines[2].contains("\u{2014}") && lines[2].contains("#7"), "{text}");
    assert!(lines[2].trim_end().ends_with("ipv4"), "{text}");
}
