use autonet::cli::exit;
use autonet::cli::spawn::{env_vars, exit_code, next_wait_step, no_command, spawn_error, WaitStep, GRACE_MS};
use autonet::ip::IpAddr;
use autonet::model::{AddressScope, Family, InterfaceKind};
use autonet::select::SelectedAddress;




fn selected(ip: IpAddr, family: Family) -> SelectedAddress {
    SelectedAddress {
        ip,
        family,
        prefix_len: 24,
        scope: AddressScope::Private,
        interface: "wlan0".into(),
        interface_index: 3,
        interface_kind: InterfaceKind::Wireless,
        gateway: None,
        score: 1000,
    }
}

fn v4() -> SelectedAddress {
    selected(IpAddr::v4(192, 168, 1, 20), Family::V4)
}

fn v6() -> SelectedAddress {
    selected(
        IpAddr::v6([0xfd00, 0, 0, 0, 0, 0, 0, 1]),
        Family::V6,
    )
}

fn lookup<'a>(vars: &'a [(&'static str, String)], name: &str) -> Option<&'a str> {
    vars.iter()
        .find(|(key, _)| *key == name)
        .map(|(_, value)| value.as_str())
}

#[test]
fn a_port_is_required_before_a_url_is_offered() {
    let vars = env_vars(&v4(), None);
    assert_eq!(lookup(&vars, "AUTONET_URL"), None);
    assert_eq!(lookup(&vars, "AUTONET_IP"), Some("192.168.1.20"));
}

#[test]
fn a_port_produces_a_url_that_can_be_opened() {
    let vars = env_vars(&v4(), Some(3000));
    assert_eq!(
        lookup(&vars, "AUTONET_URL"),
        Some("http://192.168.1.20:3000")
    );
}

#[test]
fn only_the_url_form_of_an_ipv6_address_is_bracketed() {
    let vars = env_vars(&v6(), Some(8080));
    assert_eq!(lookup(&vars, "AUTONET_IP"), Some("fd00::1"));
    assert_eq!(lookup(&vars, "AUTONET_HOST"), Some("[fd00::1]"));
    assert_eq!(lookup(&vars, "AUTONET_URL"), Some("http://[fd00::1]:8080"));
}

#[test]
fn an_ipv4_host_is_not_decorated() {
    let vars = env_vars(&v4(), None);
    assert_eq!(lookup(&vars, "AUTONET_HOST"), Some("192.168.1.20"));
}

#[test]
fn nothing_beyond_the_three_documented_variables_is_injected() {
    let names: Vec<&str> = env_vars(&v4(), Some(1))
        .iter()
        .map(|(key, _)| *key)
        .collect();
    assert_eq!(names, ["AUTONET_IP", "AUTONET_HOST", "AUTONET_URL"]);
}

#[test]
fn a_signalled_child_reports_the_shells_conventional_code() {
    assert_eq!(exit_code(None, true), 130);
    assert_eq!(exit_code(None, false), exit::FAILED);
}

#[test]
fn a_child_that_exited_normally_keeps_its_code_even_after_a_ctrl_c() {
    assert_eq!(exit_code(Some(0), true), 0);
    assert_eq!(exit_code(Some(3), true), 3);
}

#[test]
fn an_exit_code_too_large_for_a_byte_is_a_failure_not_its_low_byte() {
    assert_eq!(exit_code(Some(-1_073_741_819), false), exit::FAILED);
    assert_eq!(exit_code(Some(-1_073_741_568), false), exit::FAILED);
    assert_eq!(exit_code(Some(-1), false), exit::FAILED);
    assert_eq!(exit_code(Some(7), false), 7);
    assert_eq!(exit_code(Some(0), false), 0);
}

#[test]
fn a_missing_program_is_named_as_missing() {
    assert_eq!(spawn_error("vite", true, "No such file"), "command not found: vite");
    assert_eq!(
        spawn_error("vite", false, "Permission denied"),
        "cannot run vite: Permission denied"
    );
    assert_eq!(no_command(), "no command given. Try: autonet run -- npm start");
}

#[test]
fn ctrl_c_starts_a_grace_period_and_only_then_kills() {
    assert_eq!(next_wait_step(false, None, 10), WaitStep::Poll { deadline: None });
    assert_eq!(
        next_wait_step(true, None, 10),
        WaitStep::Poll {
            deadline: Some(10 + GRACE_MS)
        }
    );
    assert_eq!(
        next_wait_step(true, Some(5010), 5009),
        WaitStep::Poll {
            deadline: Some(5010)
        }
    );
    assert_eq!(next_wait_step(true, Some(5010), 5010), WaitStep::Kill);
}
