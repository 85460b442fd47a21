use autonet::cli::args::GlobalArgs;
use autonet::cli::commands::{
    candidate_table, check_qr_is_possible, check_requested_interface, indent, interfaces_table,
    reasons, redact, state_cell, status_text,
};
use autonet::cli::render::Theme;
use autonet::config::{Config, SelectionConfig};
use autonet::ip::IpAddr;
use autonet::model::{
    Address, Family, Interface, InterfaceKind, InterfaceState, IpNetwork, NetworkState, Route,
};
use autonet::select::select;

fn no_flags() -> GlobalArgs {
    GlobalArgs {
        json: false,
        family: None,
        port: None,
        qr: false,
        interface: None,
        exclude: Vec::new(),
        config: None,
        allow_vpn: false,
        allow_container: false,
        allow_loopback: false,
        verbose: false,
    }
}

fn interface(name: &str, index: u32, kind: InterfaceKind, ip: Option<IpAddr>) -> Interface {
    let i = Interface::new(name.to_string(), index, kind, InterfaceState::Up);
    match ip {
        Some(ip) => i.with_address(Address::new(ip, 24)),
        None => i,
    }
}

fn default_route(index: u32, gateway: IpAddr) -> Route {
    Route {
        destination: Some(IpNetwork::new(IpAddr::V4(0), 0)),
        gateway: Some(gateway),
        interface_index: index,
        metric: 600,
        family: Family::V4,
        preferred_source: None,
    }
}

fn laptop() -> NetworkState {
    NetworkState::new(
        vec![
            interface("lo", 1, InterfaceKind::Loopback, Some(IpAddr::v4(127, 0, 0, 1))),
            interface("wlo1", 3, InterfaceKind::Wireless, Some(IpAddr::v4(192, 168, 1, 20))),
        ],
        vec![default_route(3, IpAddr::v4(192, 168, 1, 1))],
    )
}

#[test]
fn a_typo_in_the_interface_name_is_a_typo_not_a_network_problem() {
    let mut config = SelectionConfig::default();
    config.require_interface = Some("wlan9".to_string());
    assert_eq!(
        check_requested_interface(&config, &laptop()),
        Err("no interface named \"wlan9\". This machine has: lo, wlo1".to_string())
    );
    config.require_interface = Some("wlo1".to_string());
    assert_eq!(check_requested_interface(&config, &laptop()), Ok(()));
    assert_eq!(
        check_requested_interface(&SelectionConfig::default(), &laptop()),
        Ok(())
    );
}

#[test]
fn a_qr_code_needs_a_port_and_no_json() {
    let config = Config::default();
    let json = GlobalArgs {
        json: true,
        port: Some(3000),
        ..no_flags()
    };
    assert!(check_qr_is_possible(&json, &config)
        .unwrap_err()
        .contains("no meaning with --json"));
    assert!(check_qr_is_possible(&no_flags(), &config)
        .unwrap_err()
        .starts_with("--qr needs a port"));
    let ported = GlobalArgs {
        port: Some(3000),
        ..no_flags()
    };
    assert_eq!(check_qr_is_possible(&ported, &config), Ok(3000));
}

#[test]
fn every_line_is_indented_and_a_crlf_loses_its_cr() {
    assert_eq!(indent("a\nb\n"), "  a\n  b\n");
    assert_eq!(indent("a\r\nb"), "  a\n  b\n");
    assert_eq!(indent(""), "");
    assert_eq!(indent("\n"), "  \n");
}

#[test]
fn the_rules_behind_a_score_are_signed() {
    let state = laptop();
    let selection = select(&state, &SelectionConfig::default());
    let winner = selection
        .candidates
        .iter()
        .find(|c| c.interface == "wlo1")
        .unwrap();
    let text = reasons(winner);
    assert!(text.contains("default_route +1000"), "{text}");
    assert!(!text.contains("++"), "{text}");
    let loopback = selection
        .candidates
        .iter()
        .find(|c| c.interface == "lo")
        .unwrap();
    assert_eq!(reasons(loopback), "");
}

#[test]
fn status_names_the_address_interface_gateway_and_scope() {
    let state = laptop();
    let config = Config::default();
    let selection = select(&state, &config.selection);
    let text = status_text(Theme::plain(), "linux-netlink", &no_flags(), &config, &state, &selection);
    assert!(text.starts_with("AutoNet linux-netlink\n\n"), "{text}");
    assert!(text.contains("  Address    192.168.1.20/24\n"), "{text}");
    assert!(text.contains("  Interface  wlo1 (wireless, up)\n"), "{text}");
    assert!(text.contains("  Gateway    192.168.1.1\n"), "{text}");
    assert!(text.contains("  Scope      private\n"), "{text}");
    assert!(!text.contains("Local"), "no port, no URLs: {text}");
}

#[test]
fn with_a_port_status_prints_both_urls() {
    let state = laptop();
    let config = Config::default();
    let selection = select(&state, &config.selection);
    let args = GlobalArgs {
        port: Some(3000),
        ..no_flags()
    };
    let text = status_text(Theme::plain(), "linux-netlink", &args, &config, &state, &selection);
    assert!(text.contains("  Local      http://127.0.0.1:3000\n"), "{text}");
    assert!(
        text.contains("  Network    http://192.168.1.20:3000  \u{2190} open this from another device\n"),
        "{text}"
    );
}

#[test]
fn with_nothing_selected_status_says_why() {
    let state = NetworkState::new(
        vec![interface("lo", 1, InterfaceKind::Loopback, Some(IpAddr::v4(127, 0, 0, 1)))],
        Vec::new(),
    );
    let config = Config::default();
    let selection = select(&state, &config.selection);
    let text = status_text(Theme::plain(), "test", &no_flags(), &config, &state, &selection);
    assert!(text.contains("  No usable address. "), "{text}");
    assert!(text.contains(&selection.failure_reason(&config.selection)), "{text}");
}

#[test]
fn the_verbose_breakdown_has_a_table_for_each_verdict() {
    let state = laptop();
    let selection = select(&state, &SelectionConfig::default());
    let text = candidate_table(&selection, Theme::plain());
    assert!(text.starts_with("  Considered\n"), "{text}");
    assert!(text.contains("\n  Rejected\n"), "{text}");
    assert!(text.contains("INTERFACE"), "{text}");
    assert!(text.contains("loopback address is not reachable from other devices"), "{text}");
    for line in text.lines().filter(|l| !l.is_empty()) {
        assert!(line.starts_with("  "), "{line:?}");
    }
}

#[test]
fn with_no_rejections_there_is_one_table() {
    let state = NetworkState::new(
        vec![interface("wlo1", 3, InterfaceKind::Wireless, Some(IpAddr::v4(192, 168, 1, 20)))],
        vec![default_route(3, IpAddr::v4(192, 168, 1, 1))],
    );
    let selection = select(&state, &SelectionConfig::default());
    let text = candidate_table(&selection, Theme::plain());
    assert!(!text.contains("Rejected"), "{text}");
}

#[test]
fn the_interfaces_table_lists_every_interface_and_hides_the_mac() {
    let mut state = laptop();
    state.interfaces.push(interface("eno1", 2, InterfaceKind::Ethernet, None));
    state.interfaces[1].mac = Some("02:0a:ff:00:1b:c3".to_string());
    let text = interfaces_table(&state, false, Theme::plain());
    let lines: Vec<&str> = text.lines().collect();
    assert_eq!(lines.len(), 4);
    assert!(lines[0].starts_with("IDX"), "{text}");
    assert!(!lines[0].contains("MAC"), "{text}");
    assert!(lines[2].contains("192.168.1.20/24"), "{text}");
    assert!(lines[3].contains("\u{2014}"), "{text}");
    assert!(!text.contains("02:0a"), "{text}");

    let verbose = interfaces_table(&state, true, Theme::plain());
    assert!(verbose.lines().next().unwrap().contains("MAC"));
    assert!(verbose.contains("02:0a:ff:00:1b:c3"));
}

#[test]
fn the_state_cell_is_coloured_by_state() {
    let mut i = interface("wlo1", 3, InterfaceKind::Wireless, None);
    assert_eq!(state_cell(&i, Theme::plain()), "up");
    assert_eq!(state_cell(&i, Theme::coloured()), "\u{1b}[32mup\u{1b}[39m");
    i.state = InterfaceState::Dormant;
    assert_eq!(state_cell(&i, Theme::plain()), "dormant");
}

#[test]
fn a_mac_is_only_published_when_asked_for() {
    let mut i = interface("wlo1", 3, InterfaceKind::Wireless, Some(IpAddr::v4(192, 168, 1, 20)));
    i.mac = Some("02:0a:ff:00:1b:c3".to_string());
    assert_eq!(redact(&i, false).mac, None);
    assert_eq!(redact(&i, true), i);
    let mut without = i.clone();
    without.mac = None;
    assert_eq!(redact(&i, false), without);
}
