use autonet::cli::doctor::{
    checks, healthy, port_row, report, summary, verdict, wrap, Check, Diagnosis, Snapshot, Status,
    LINE_WIDTH,
};
use autonet::cli::port::{Availability, PortCheck};
use autonet::cli::render::Theme;
use autonet::config::SelectionConfig;
use autonet::ip::IpAddr;
use autonet::model::{
    Address, Family, FamilyPreference, Interface, InterfaceKind, InterfaceState, IpNetwork,
    NetworkState, Route,
};
use autonet::platform::holder::PortHolder;
use autonet::select::select;

/// The rows that are only meaningful with a snapshot.
const DEFERRED: [(&str, &str); 5] = [
    ("network_interface", "Network interface"),
    ("ipv4_address", "IPv4 address"),
    ("default_route", "Default route"),
    ("selected_address", "Selected address"),
    ("lan_candidate", "LAN reachable"),
];

/// The value of a dotted-quad IPv4 address.
fn ip4(s: &str) -> u32 {
    let parts: Vec<u32> = s.split('.').map(|p| p.parse::<u32>().unwrap()).collect();
    assert_eq!(parts.len(), 4, "{s}");
    (parts[0] << 24) | (parts[1] << 16) | (parts[2] << 8) | parts[3]
}

/// The value of an IPv6 address in its usual text form, `::` and an
/// embedded dotted quad included.
fn ip6(s: &str) -> u128 {
    fn groups(part: &str) -> Vec<u16> {
        if part.is_empty() {
            return Vec::new();
        }
        let mut out = Vec::new();
        for piece in part.split(':') {
            if piece.contains('.') {
                let v = ip4(piece);
                out.push((v >> 16) as u16);
                out.push((v & 0xffff) as u16);
            } else {
                out.push(u16::from_str_radix(piece, 16).unwrap());
            }
        }
        out
    }
    let all: Vec<u16> = match s.find("::") {
        Some(at) => {
            let head = groups(&s[..at]);
            let tail = groups(&s[at + 2..]);
            let mut v = head.clone();
            v.extend(std::iter::repeat(0).take(8 - head.len() - tail.len()));
            v.extend(tail);
            v
        }
        None => groups(s),
    };
    assert_eq!(all.len(), 8, "{s}");
    all.iter().fold(0u128, |acc, g| (acc << 16) | u128::from(*g))
}

fn parse_ip(text: &str) -> IpAddr {
    if text.contains(':') {
        IpAddr::V6(ip6(text))
    } else {
        IpAddr::V4(ip4(text))
    }
}





fn addr(ip: &str, prefix_len: u8) -> Address {
    Address::new(parse_ip(ip), prefix_len)
}

fn iface(
    name: &str,
    index: u32,
    kind: InterfaceKind,
    state: InterfaceState,
    addrs: &[(&str, u8)],
) -> Interface {
    let mut interface = Interface::new(name.to_string(), index, kind, state);
    for (ip, prefix_len) in addrs {
        interface.addresses.push(addr(ip, *prefix_len));
    }
    interface
}

fn loopback() -> Interface {
    iface(
        "lo",
        1,
        InterfaceKind::Loopback,
        InterfaceState::Up,
        &[("127.0.0.1", 8), ("::1", 128)],
    )
}

fn default_route(index: u32, gateway: &str) -> Route {
    let gateway: IpAddr = parse_ip(gateway);
    Route {
        destination: Some(IpNetwork::new(
            if gateway.is_ipv4() {
                IpAddr::V4(0)
            } else {
                IpAddr::V6(0)
            },
            0,
        )),
        gateway: Some(gateway),
        interface_index: index,
        metric: 100,
        family: Family::of(&gateway),
        preferred_source: None,
    }
}

/// A machine with one working Wi-Fi link: every check should pass.
fn healthy_state() -> NetworkState {
    NetworkState::new(
        vec![
            loopback(),
            iface(
                "wlo1",
                3,
                InterfaceKind::Wireless,
                InterfaceState::Up,
                &[("192.168.1.20", 24), ("fe80::1", 64)],
            ),
        ],
        vec![default_route(3, "192.168.1.1")],
    )
}

/// Run the checks the way the command does, with no port probe.
fn run(state: &NetworkState, config: &SelectionConfig) -> Vec<Check> {
    let selection = select(state, config);
    checks(&Diagnosis {
        platform: "test-provider",
        os: "testos",
        network: Ok(Snapshot {
            state,
            selection: &selection,
            config,
        }),
        port: None,
    })
}

fn run_default(state: &NetworkState) -> Vec<Check> {
    run(state, &SelectionConfig::default())
}

fn row<'a>(checks: &'a [Check], id: &str) -> &'a Check {
    checks
        .iter()
        .find(|c| c.id == id)
        .unwrap_or_else(|| panic!("no check with id {id:?}"))
}

fn assert_status(checks: &[Check], id: &str, expected: Status) {
    let check = row(checks, id);
    assert_eq!(
        check.status, expected,
        "{id}: expected {expected:?}, got {:?} — {}",
        check.status, check.detail
    );
}


#[test]
fn a_working_machine_passes_every_check_it_actually_makes() {
    let checks = run_default(&healthy_state());

    for id in [
        "operating_system",
        "network_interface",
        "ipv4_address",
        "default_route",
        "selected_address",
        "lan_candidate",
    ] {
        assert_status(&checks, id, Status::Pass);
    }
    assert_eq!(verdict(&checks), Status::Pass);
    assert!(healthy(&checks));
}

#[test]
fn every_check_carries_a_detail_even_when_it_passes() {
    for check in run_default(&healthy_state()) {
        assert!(
            !check.detail.trim().is_empty(),
            "{} had no detail",
            check.id
        );
        assert!(!check.label.trim().is_empty(), "{} had no label", check.id);
    }
}


#[test]
fn a_machine_with_only_loopback_has_no_usable_interface() {
    let state = NetworkState::new(vec![loopback()], vec![]);
    let checks = run_default(&state);

    assert_status(&checks, "network_interface", Status::Fail);
    assert_status(&checks, "ipv4_address", Status::Fail);
    assert_status(&checks, "default_route", Status::Fail);
    assert_status(&checks, "selected_address", Status::Fail);
    assert_status(&checks, "lan_candidate", Status::Fail);
}

#[test]
fn a_down_interface_does_not_count_as_a_usable_link() {
    let state = NetworkState::new(
        vec![
            loopback(),
            iface(
                "wlo1",
                3,
                InterfaceKind::Wireless,
                InterfaceState::Down,
                &[("169.254.12.34", 16)],
            ),
        ],
        vec![],
    );
    let checks = run_default(&state);

    assert_status(&checks, "network_interface", Status::Fail);
    assert_status(&checks, "ipv4_address", Status::Fail);
}

#[test]
fn an_up_and_addressed_machine_with_no_route_still_fails_the_route_check() {
    let state = NetworkState::new(
        vec![
            loopback(),
            iface(
                "docker0",
                4,
                InterfaceKind::Container,
                InterfaceState::Up,
                &[("172.17.0.1", 16)],
            ),
        ],
        vec![],
    );
    let checks = run_default(&state);

    assert_status(&checks, "network_interface", Status::Pass);
    assert_status(&checks, "ipv4_address", Status::Pass);
    assert_status(&checks, "default_route", Status::Fail);
    assert_status(&checks, "selected_address", Status::Fail);
}

#[test]
fn the_interface_row_counts_the_rest_rather_than_listing_them() {
    let mut state = healthy_state();
    state.interfaces.push(iface(
        "eno1",
        2,
        InterfaceKind::Ethernet,
        InterfaceState::Up,
        &[("10.0.0.5", 24)],
    ));

    let checks = run_default(&state);
    let detail = &row(&checks, "network_interface").detail;
    assert!(detail.contains("and 1 more"), "{detail}");
}

/// A machine with a working IPv6 link and no IPv4 at all.
fn ipv6_only_state() -> NetworkState {
    NetworkState::new(
        vec![
            loopback(),
            iface(
                "eno1",
                2,
                InterfaceKind::Ethernet,
                InterfaceState::Up,
                &[("2401:db8::5", 64)],
            ),
        ],
        vec![default_route(2, "2401:db8::1")],
    )
}

#[test]
fn no_ipv4_at_all_warns_rather_than_fails_when_ipv6_is_present() {
    let checks = run_default(&ipv6_only_state());

    assert_status(&checks, "ipv4_address", Status::Warn);
    assert!(row(&checks, "ipv4_address").detail.contains("IPv6-only"));

    assert_status(&checks, "selected_address", Status::Fail);
}

#[test]
fn asking_for_ipv6_makes_the_absence_of_ipv4_a_pass() {
    let checks = run(&ipv6_only_state(), &ipv6_config());

    assert_status(&checks, "ipv4_address", Status::Pass);
    assert_status(&checks, "selected_address", Status::Pass);
    assert!(healthy(&checks));
}

fn ipv6_config() -> SelectionConfig {
    SelectionConfig {
        prefer_family: FamilyPreference::Ipv6,
        ..SelectionConfig::default()
    }
}

#[test]
fn a_selected_loopback_address_warns_rather_than_passing() {
    let state = NetworkState::new(vec![loopback()], vec![]);
    let config = SelectionConfig {
        allow_loopback: true,
        ..SelectionConfig::default()
    };
    let checks = run(&state, &config);

    assert_status(&checks, "selected_address", Status::Warn);
    assert!(row(&checks, "selected_address").detail.contains("loopback"));
    assert_status(&checks, "lan_candidate", Status::Fail);
}

#[test]
fn a_failed_selection_reports_the_selectors_own_reason() {
    let state = NetworkState::new(vec![loopback()], vec![]);
    let config = SelectionConfig::default();
    let selection = select(&state, &config);

    let checks = run(&state, &config);
    let detail = &row(&checks, "selected_address").detail;
    assert_eq!(detail, &selection.failure_reason(&config));
}

#[test]
fn the_lan_row_says_something_the_selection_row_does_not() {
    let state = NetworkState::new(vec![loopback()], vec![]);
    let checks = run_default(&state);

    assert_ne!(
        row(&checks, "selected_address").detail,
        row(&checks, "lan_candidate").detail
    );
}


fn port_check(on_address: Availability, on_wildcard: Availability) -> PortCheck {
    PortCheck {
        address: parse_ip("192.168.1.20"),
        wildcard: IpAddr::V4(0),
        on_address,
        on_wildcard,
        holder: PortHolder::Named {
            pid: 4821,
            name: "python3".to_string(),
        },
    }
}

#[test]
fn a_free_port_passes_and_does_not_name_a_holder() {
    let check = port_row(3000, &port_check(Availability::Free, Availability::Free));

    assert_eq!(check.status, Status::Pass);
    assert_eq!(check.label, "Port 3000");
    assert!(!check.detail.contains("python3"), "{}", check.detail);
}

#[test]
fn a_held_port_warns_and_names_the_holder() {
    let check = port_row(3000, &port_check(Availability::InUse, Availability::InUse));

    assert_eq!(check.status, Status::Warn);
    assert!(check.detail.contains("already in use"));
    assert!(check.detail.contains("python3 (pid 4821)"));
}

#[test]
fn a_port_free_here_but_held_on_the_wildcard_is_reported_as_such() {
    let check = port_row(3000, &port_check(Availability::Free, Availability::InUse));

    assert_eq!(check.status, Status::Warn);
    assert!(check.detail.contains("0.0.0.0"), "{}", check.detail);
}

#[test]
fn a_port_that_could_not_be_tested_is_unknown_rather_than_free() {
    let check = port_row(
        80,
        &port_check(Availability::Undetermined, Availability::Undetermined),
    );

    assert_eq!(check.status, Status::Unknown);
    assert!(healthy(&[check]));
}

#[test]
fn the_port_row_is_absent_when_no_port_was_given() {
    assert!(run_default(&healthy_state()).iter().all(|c| c.id != "port"));
}


#[test]
fn the_bind_row_is_always_unknown_and_never_claims_to_have_checked() {
    let checks = run_default(&healthy_state());
    let bind = row(&checks, "bind_address");

    assert_eq!(bind.status, Status::Unknown);
    assert!(bind.detail.contains("cannot see"));
    assert!(bind.detail.contains("0.0.0.0"));
    assert!(!bind.detail.contains("is bound"), "{}", bind.detail);
}

#[test]
fn the_bind_row_names_the_wildcard_of_the_selected_family() {
    let checks = run(&ipv6_only_state(), &ipv6_config());
    let detail = &row(&checks, "bind_address").detail;

    assert!(detail.contains("::,"), "{detail}");
    assert!(!detail.contains("0.0.0.0"), "{detail}");
}

#[test]
fn the_bind_row_does_not_tell_a_loopback_user_their_address_will_move() {
    let state = NetworkState::new(vec![loopback()], vec![]);
    let config = SelectionConfig {
        allow_loopback: true,
        ..SelectionConfig::default()
    };
    let checks = run(&state, &config);
    let detail = &row(&checks, "bind_address").detail;

    assert!(!detail.contains("stops answering"), "{detail}");
    assert!(detail.contains("only from this machine"), "{detail}");
}


#[test]
fn a_platform_that_could_not_be_queried_fails_one_row_and_leaves_the_rest_unknown() {
    let checks = checks(&Diagnosis {
        platform: "unsupported",
        os: "plan9",
        network: Err("plan9 is not supported".to_string()),
        port: None,
    });

    assert_status(&checks, "operating_system", Status::Fail);
    assert!(row(&checks, "operating_system").detail.contains("plan9"));

    for (id, _) in DEFERRED {
        assert_status(&checks, id, Status::Unknown);
    }
    assert!(!healthy(&checks));
}

#[test]
fn the_rows_are_the_same_ids_whether_or_not_a_snapshot_was_taken() {
    let with = run_default(&healthy_state());
    let without = checks(&Diagnosis {
        platform: "unsupported",
        os: "plan9",
        network: Err("no".to_string()),
        port: None,
    });

    let ids = |checks: &[Check]| checks.iter().map(|c| c.id).collect::<Vec<_>>();
    assert_eq!(ids(&with), ids(&without));
}


fn synthetic(statuses: &[Status]) -> Vec<Check> {
    statuses
        .iter()
        .map(|status| Check {
            id: "synthetic",
            label: "Synthetic".to_string(),
            status: *status,
            detail: "detail".to_string(),
        })
        .collect()
}

#[test]
fn the_verdict_is_the_worst_thing_that_was_actually_checked() {
    assert_eq!(
        verdict(&synthetic(&[Status::Pass, Status::Pass])),
        Status::Pass
    );
    assert_eq!(
        verdict(&synthetic(&[Status::Pass, Status::Warn])),
        Status::Warn
    );
    assert_eq!(
        verdict(&synthetic(&[Status::Warn, Status::Fail, Status::Pass])),
        Status::Fail
    );
}

#[test]
fn an_unknown_row_can_never_make_the_verdict_worse() {
    assert_eq!(
        verdict(&synthetic(&[Status::Pass, Status::Unknown])),
        Status::Pass
    );
    assert!(healthy(&synthetic(&[Status::Unknown, Status::Unknown])));
}

#[test]
fn the_summary_does_not_count_an_unverified_row_as_a_pass() {
    let line = summary(&synthetic(&[Status::Pass, Status::Pass, Status::Unknown]));

    assert!(line.contains("All 2 checks passed"), "{line}");
    assert!(line.contains("1 not verified"), "{line}");
}

#[test]
fn the_summary_says_what_the_result_means_not_only_how_many_rows_failed() {
    let clean = summary(&run_default(&healthy_state()));
    assert!(clean.contains("another device"), "{clean}");

    let broken = summary(&run_default(&NetworkState::new(vec![loopback()], vec![])));
    assert!(broken.contains("5 checks failed"), "{broken}");
    assert!(broken.contains("no address to offer"), "{broken}");
}

#[test]
fn the_summary_reports_warnings_separately_from_failures() {
    let line = summary(&synthetic(&[Status::Pass, Status::Warn]));

    assert!(line.contains("1 warning, nothing failed"), "{line}");
    assert!(!line.contains("checks failed"), "{line}");
}


#[test]
fn the_report_lines_up_and_wraps_without_colour() {
    let text = report(
        "test-provider",
        &run_default(&healthy_state()),
        Theme::plain(),
    );

    let starts: Vec<usize> = text
        .lines()
        .filter(|line| line.contains("[ ok ]") || line.contains("[ ?  ]"))
        .map(|line| line.find('[').expect("a token"))
        .collect();
    assert!(starts.windows(2).all(|w| w[0] == w[1]), "{text}");

    for line in text.lines() {
        assert!(!line.contains('\u{1b}'), "escape code in plain output");
        assert_eq!(line, line.trim_end(), "trailing whitespace: {line:?}");
    }
}

#[test]
fn a_long_detail_wraps_under_its_own_column_rather_than_running_off() {
    let text = report(
        "test-provider",
        &run_default(&healthy_state()),
        Theme::plain(),
    );
    let bind = text
        .lines()
        .position(|line| line.contains("Bind address"))
        .expect("the bind row");
    let lines: Vec<&str> = text.lines().collect();

    let continuation = lines[bind + 1];
    assert!(continuation.starts_with("      "), "{continuation:?}");
    let column = lines[bind].find("AutoNet").expect("the detail column");
    assert_eq!(
        continuation.len() - continuation.trim_start().len(),
        column,
        "{continuation:?}"
    );
}

#[test]
fn the_report_never_exceeds_its_own_width() {
    let text = report(
        "test-provider",
        &run_default(&healthy_state()),
        Theme::plain(),
    );

    for line in text.lines() {
        assert!(
            line.chars().count() <= LINE_WIDTH,
            "{} chars: {line:?}",
            line.chars().count()
        );
    }
}

#[test]
fn a_coloured_report_carries_styling_without_disturbing_the_layout() {
    let checks = run_default(&healthy_state());
    let plain = report("test-provider", &checks, Theme::plain());
    let painted = report("test-provider", &checks, Theme::coloured());

    assert!(painted.contains('\u{1b}'));
    assert_eq!(
        strip_escapes(&painted).replace(' ', ""),
        plain.replace(' ', "")
    );
}

fn strip_escapes(text: &str) -> String {
    let mut out = String::new();
    let mut chars = text.chars();
    while let Some(c) = chars.next() {
        if c == '\u{1b}' {
            for c in chars.by_ref() {
                if c == 'm' {
                    break;
                }
            }
        } else {
            out.push(c);
        }
    }
    out
}


#[test]
fn wrapping_breaks_on_spaces_and_keeps_every_word() {
    let wrapped = wrap("one two three four five", 9);

    assert_eq!(wrapped, vec!["one two", "three", "four five"]);
}

#[test]
fn a_word_longer_than_the_column_gets_its_own_line_rather_than_being_split() {
    let wrapped = wrap("at 2401:db8:aaaa:bbbb::1 now", 6);

    assert!(
        wrapped.contains(&"2401:db8:aaaa:bbbb::1".to_string()),
        "{wrapped:?}"
    );
}

#[test]
fn wrapping_always_yields_at_least_one_line() {
    assert_eq!(wrap("", 10), vec![String::new()]);
    assert_eq!(wrap("   ", 10), vec![String::new()]);
}

