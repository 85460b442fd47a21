use autonet::cli::port::{describe, holder_target, port_check, wildcard_for, Availability, PortCheck};
use autonet::ip::IpAddr;
use autonet::platform::holder::PortHolder;

fn check(on_address: Availability, on_wildcard: Availability, holder: PortHolder) -> PortCheck {
    PortCheck {
        address: IpAddr::v4(192, 168, 1, 20),
        wildcard: IpAddr::V4(0),
        on_address,
        on_wildcard,
        holder,
    }
}

fn named() -> PortHolder {
    PortHolder::Named {
        pid: 4821,
        name: "node".to_owned(),
    }
}

#[test]
fn a_free_port_says_nothing_at_all() {
    let quiet = check(
        Availability::Free,
        Availability::Free,
        PortHolder::NotListed,
    );
    assert!(describe(&quiet, 3000).is_none());
}

#[test]
fn a_port_we_may_not_bind_is_not_reported_as_busy() {
    let denied = check(
        Availability::Undetermined,
        Availability::Undetermined,
        PortHolder::NotListed,
    );
    assert!(describe(&denied, 80).is_none());
}

#[test]
fn a_busy_port_names_the_holder_and_says_the_command_still_starts() {
    let busy = check(Availability::InUse, Availability::InUse, named());
    let message = describe(&busy, 3000).expect("a warning");

    assert!(message.contains("port 3000 is already in use on 192.168.1.20"));
    assert!(message.contains("node (pid 4821)"));
    assert!(message.contains("Starting the command anyway"));
}

#[test]
fn a_port_free_here_but_held_elsewhere_gets_its_own_advice() {
    let split = check(Availability::Free, Availability::InUse, named());
    let message = describe(&split, 3000).expect("a warning");

    assert!(message.contains("free on 192.168.1.20"));
    assert!(message.contains("binds 0.0.0.0 will fail"));
    assert!(message.contains("binds 192.168.1.20 will not"));
    assert!(!message.contains("already in use"));
}

#[test]
fn an_unidentified_holder_still_reports_the_collision() {
    let busy = check(
        Availability::InUse,
        Availability::InUse,
        PortHolder::NotListed,
    );
    let message = describe(&busy, 3000).expect("a warning");

    assert!(message.contains("already in use"));
    assert!(!message.contains("held by"));
    assert!(!message.contains("  "), "{message}");
}

#[test]
fn a_platform_that_cannot_name_the_holder_says_so_rather_than_going_quiet() {
    let busy = check(
        Availability::InUse,
        Availability::InUse,
        PortHolder::Unsupported { platform: "macos" },
    );
    let message = describe(&busy, 3000).expect("a warning");

    assert!(message.contains("cannot identify which process holds a port on macos"));
}

#[test]
fn a_holder_owned_by_another_account_is_reported_as_a_permission_limit() {
    let busy = check(
        Availability::InUse,
        Availability::InUse,
        PortHolder::OtherUser { uid: 0 },
    );
    let message = describe(&busy, 3000).expect("a warning");

    assert!(message.contains("uid 0"));
    assert!(message.contains("may not inspect"));
}

#[test]
fn a_nameless_pid_is_still_worth_printing() {
    let busy = check(
        Availability::InUse,
        Availability::InUse,
        PortHolder::Unnamed { pid: 4821 },
    );
    assert!(describe(&busy, 3000)
        .expect("a warning")
        .contains("held by pid 4821"));
}

#[test]
fn the_wildcard_matches_the_family_of_the_address() {
    assert_eq!(
        wildcard_for(IpAddr::v4(192, 168, 1, 20)),
        IpAddr::V4(0)
    );
    assert_eq!(
        wildcard_for(IpAddr::v6([0xfe80, 0, 0, 0, 0, 0, 0, 1])),
        IpAddr::V6(0)
    );
}

#[test]
fn the_holder_is_asked_about_whichever_bind_was_refused() {
    let here = IpAddr::v4(192, 168, 1, 20);
    assert_eq!(
        holder_target(here, Availability::InUse, Availability::InUse),
        Some(here)
    );
    assert_eq!(
        holder_target(here, Availability::Free, Availability::InUse),
        Some(IpAddr::V4(0))
    );
    assert_eq!(
        holder_target(IpAddr::v6([0xfe80, 0, 0, 0, 0, 0, 0, 1]), Availability::Undetermined, Availability::InUse),
        Some(IpAddr::V6(0))
    );
    assert_eq!(holder_target(here, Availability::Free, Availability::Free), None);
}

#[test]
fn a_check_with_no_one_to_ask_lists_no_holder() {
    let found = port_check(IpAddr::v4(192, 168, 1, 20), Availability::Free, Availability::Free, None);
    assert_eq!(found.wildcard, IpAddr::V4(0));
    assert_eq!(found.holder, PortHolder::NotListed);
    assert!(describe(&found, 3000).is_none());
    let held = port_check(
        IpAddr::v4(192, 168, 1, 20),
        Availability::InUse,
        Availability::InUse,
        Some(named()),
    );
    assert_eq!(held.holder, named());
}
