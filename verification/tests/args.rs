use autonet::cli::args::{Cli, Command, GlobalArgs};
use autonet::config::{Config, EnvOverrides};
use autonet::error::CoreError;
use autonet::model::FamilyPreference;

fn no_env() -> EnvOverrides {
    EnvOverrides {
        family: None,
        interface: None,
        exclude_interfaces: None,
        allow_vpn: None,
        allow_container: None,
        allow_loopback: None,
        hostname: None,
    }
}

fn no_flags() -> GlobalArgs {
    GlobalArgs {
        json: false,
        family: None,
        port: None,
        qr: false,
        interface: None,
        exclude: Vec::new(),
        config: None,
        allow_vpn: false,
        allow_container: false,
        allow_loopback: false,
        verbose: false,
    }
}

fn with_port(port: Option<u16>) -> Config {
    let mut config = Config::default();
    config.output.default_port = port;
    config
}

#[test]
fn the_port_flag_wins_over_the_configured_default() {
    let args = GlobalArgs {
        port: Some(3000),
        ..no_flags()
    };
    assert_eq!(args.port(&with_port(Some(8080))), Some(3000));
}

#[test]
fn without_a_flag_the_configured_port_is_used() {
    assert_eq!(no_flags().port(&with_port(Some(8080))), Some(8080));
    assert_eq!(no_flags().port(&with_port(None)), None);
}

#[test]
fn zero_means_no_port_in_either_place() {
    assert_eq!(no_flags().port(&with_port(Some(0))), None);
    let args = GlobalArgs {
        port: Some(0),
        ..no_flags()
    };
    assert_eq!(args.port(&with_port(Some(8080))), None);
}

#[test]
fn flags_outrank_the_environment_which_outranks_the_file() {
    let mut file = Config::default();
    file.selection.exclude_interfaces = vec!["docker*".to_string()];
    file.selection.allow_vpn = true;
    let env = EnvOverrides {
        family: Some("any".to_string()),
        interface: Some("wlo1".to_string()),
        ..no_env()
    };
    let args = GlobalArgs {
        family: Some(FamilyPreference::Ipv6),
        exclude: vec!["virbr0".to_string()],
        allow_loopback: true,
        ..no_flags()
    };
    let config = args.config(Ok(file), &env).unwrap();
    assert_eq!(config.selection.prefer_family, FamilyPreference::Ipv6);
    assert_eq!(config.selection.require_interface.as_deref(), Some("wlo1"));
    assert_eq!(
        config.selection.exclude_interfaces,
        vec!["docker*".to_string(), "virbr0".to_string()]
    );
    assert!(config.selection.allow_vpn, "a flag that is absent turns nothing off");
    assert!(config.selection.allow_loopback);
    assert!(!config.selection.allow_container);
}

#[test]
fn an_interface_flag_replaces_the_environments_choice() {
    let env = EnvOverrides {
        interface: Some("wlo1".to_string()),
        ..no_env()
    };
    let args = GlobalArgs {
        interface: Some("eno1".to_string()),
        ..no_flags()
    };
    let config = args.config(Ok(Config::default()), &env).unwrap();
    assert_eq!(config.selection.require_interface.as_deref(), Some("eno1"));
}

#[test]
fn a_bad_environment_variable_is_an_error_whatever_the_flags() {
    let env = EnvOverrides {
        family: Some("ipv5".to_string()),
        ..no_env()
    };
    let args = GlobalArgs {
        family: Some(FamilyPreference::Ipv4),
        ..no_flags()
    };
    match args.config(Ok(Config::default()), &env) {
        Err(CoreError::Parse { kind, value }) => {
            assert_eq!(kind, "FamilyPreference");
            assert_eq!(value, "ipv5");
        }
        other => panic!("expected a parse error, got {other:?}"),
    }
}

#[test]
fn an_unreadable_file_is_reported_before_anything_is_layered() {
    let failure = CoreError::InvalidConfig("bad toml".to_string());
    let result = no_flags().config(Err(failure.clone()), &no_env());
    assert_eq!(result, Err(failure));
}

#[test]
fn with_no_file_the_defaults_are_the_base() {
    let base = Config::load_default(None).unwrap();
    assert_eq!(base, Config::default());
    let found = Config::load_default(Some(Ok(with_port(Some(5000))))).unwrap();
    assert_eq!(found.output.default_port, Some(5000));
}

#[test]
fn the_environment_is_laid_over_the_file() {
    let env = EnvOverrides {
        allow_container: Some("yes".to_string()),
        hostname: Some("studio".to_string()),
        ..no_env()
    };
    let config = Config::load_layered(Ok(Config::default()), &env).unwrap();
    assert!(config.selection.allow_container);
    assert_eq!(config.hostname.name.as_deref(), Some("studio"));
}

#[test]
fn no_command_means_status() {
    let cli = Cli {
        command: None,
        global: no_flags(),
    };
    assert!(matches!(cli.command(), Command::Status));
}

#[test]
fn the_command_to_run_keeps_every_word() {
    let words = vec!["npm".to_string(), "run".to_string(), "dev".to_string()];
    let cli = Cli {
        command: Some(Command::Run {
            command: words.clone(),
        }),
        global: no_flags(),
    };
    match cli.command() {
        Command::Run { command } => assert_eq!(command, words),
        other => panic!("expected run, got {other:?}"),
    }
    let cli = Cli {
        command: Some(Command::Doctor),
        global: no_flags(),
    };
    assert!(matches!(cli.command(), Command::Doctor));
}
