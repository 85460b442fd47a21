use autonet::cli::advertise::{
    disabled, host_name, instance_name, instance_name_for, published, service_type, withdrawn,
};
use autonet::cli::args::GlobalArgs;
use autonet::cli::render::Theme;
use autonet::config::HostnameConfig;
use autonet::ip::IpAddr;

fn no_flags() -> GlobalArgs {
    GlobalArgs {
        json: false,
        family: None,
        port: None,
        qr: false,
        interface: None,
        exclude: Vec::new(),
        config: None,
        allow_vpn: false,
        allow_container: false,
        allow_loopback: false,
        verbose: false,
    }
}

#[test]
fn a_bare_service_type_is_qualified_under_local() {
    assert_eq!(service_type("_http._tcp"), "_http._tcp.local.");
}

#[test]
fn a_service_type_already_under_local_only_gains_its_dot() {
    assert_eq!(service_type("_http._tcp.local"), "_http._tcp.local.");
    assert_eq!(service_type("_http._tcp.local."), "_http._tcp.local.");
    assert_eq!(service_type("_http._tcp.local..."), "_http._tcp.local.");
    assert_eq!(service_type("local"), "local.");
}

#[test]
fn a_label_that_merely_ends_in_local_is_not_the_local_domain() {
    assert_eq!(service_type("_http._notlocal"), "_http._notlocal.local.");
}

#[test]
fn a_configured_name_is_published_as_it_is() {
    let config = HostnameConfig {
        enabled: true,
        name: Some("studio".to_string()),
        service: "_http._tcp".to_string(),
    };
    assert_eq!(instance_name_for(&config, Some("mbp.lan".to_string())), "studio");
    assert_eq!(instance_name(&config), "studio");
}

#[test]
fn the_machine_name_loses_its_domain_and_gains_the_suffix() {
    let config = HostnameConfig::default();
    assert_eq!(
        instance_name_for(&config, Some("mbp.lan".to_string())),
        "mbp-autonet"
    );
    assert_eq!(
        instance_name_for(&config, Some("workstation".to_string())),
        "workstation-autonet"
    );
}

#[test]
fn a_machine_with_no_usable_name_is_called_autonet() {
    let config = HostnameConfig::default();
    assert_eq!(instance_name_for(&config, None), "autonet");
    assert_eq!(instance_name_for(&config, Some(".lan".to_string())), "autonet");
    assert_eq!(instance_name_for(&config, Some(String::new())), "autonet");
}

#[test]
fn the_refusal_names_the_file_to_edit() {
    let args = GlobalArgs {
        config: Some("/etc/autonet.toml".to_string()),
        ..no_flags()
    };
    let message = disabled(&args, Some("/home/u/.config/autonet/config.toml".to_string()));
    assert!(message.starts_with("advertising is off."));
    assert!(message.contains("Add this to /etc/autonet.toml:"), "{message}");
    assert!(message.ends_with("    [hostname]\n    enabled = true\n"));

    let message = disabled(&no_flags(), Some("/home/u/.config/autonet/config.toml".to_string()));
    assert!(message.contains("Add this to /home/u/.config/autonet/config.toml:"));

    let message = disabled(&no_flags(), None);
    assert!(message.contains("Add this to your config file:"));
}

#[test]
fn the_record_points_at_a_name_under_local() {
    assert_eq!(host_name("studio-autonet"), "studio-autonet.local.");
}

#[test]
fn the_first_announcement_is_the_full_block() {
    let text = published(
        Theme::plain(),
        true,
        "studio-autonet.local.",
        &IpAddr::v4(192, 168, 1, 20),
        "_http._tcp",
        3000,
        None,
    );
    assert_eq!(
        text,
        "Advertising studio-autonet.local\n  Address   192.168.1.20\n  Service   _http._tcp port 3000\n  Open      http://studio-autonet.local:3000\n\nThis machine is now discoverable on the local network. Ctrl-C to stop and withdraw the record.\n"
    );
}

#[test]
fn a_move_is_one_line_with_its_reason() {
    let text = published(
        Theme::plain(),
        false,
        "studio-autonet.local.",
        &IpAddr::v4(10, 0, 0, 5),
        "_http._tcp",
        3000,
        Some("default ipv4 route moved from wlo1 to eno1".to_string()),
    );
    assert_eq!(
        text,
        "Re-advertised studio-autonet.local \u{2192} 10.0.0.5 (default ipv4 route moved from wlo1 to eno1)\n"
    );

    let text = published(
        Theme::plain(),
        false,
        "studio-autonet.local.",
        &IpAddr::v4(10, 0, 0, 5),
        "_http._tcp",
        3000,
        None,
    );
    assert!(text.ends_with("(address changed)\n"), "{text}");
}

#[test]
fn withdrawing_says_nothing_at_startup_and_a_line_after() {
    assert_eq!(withdrawn(Theme::plain(), true), None);
    assert_eq!(
        withdrawn(Theme::plain(), false).as_deref(),
        Some("Withdrawn no usable address; the name resolves to nothing until one returns\n")
    );
}

#[test]
fn a_coloured_announcement_is_styled() {
    let text = published(
        Theme::coloured(),
        true,
        "studio-autonet.local.",
        &IpAddr::v4(192, 168, 1, 20),
        "_http._tcp",
        3000,
        None,
    );
    assert!(text.contains('\u{1b}'));
    assert!(text.contains("192.168.1.20"));
}
