use autonet::config::{name_matches, path_from, SelectionConfig};
use autonet::model::{Family, FamilyPreference};

#[test]
fn defaults_are_conservative() {
    let c = SelectionConfig::default();
    assert_eq!(c.prefer_family, FamilyPreference::Ipv4);
    assert!(!c.allow_loopback);
    assert!(!c.allow_link_local);
    assert!(!c.allow_vpn);
    assert!(!c.allow_container);
    assert!(!c.include_down);
}

#[test]
fn family_preference_parsing() {
    assert_eq!(
        "ipv4".parse::<FamilyPreference>().unwrap(),
        FamilyPreference::Ipv4
    );
    assert_eq!(
        "V6".parse::<FamilyPreference>().unwrap(),
        FamilyPreference::Ipv6
    );
    assert_eq!(
        "  any ".parse::<FamilyPreference>().unwrap(),
        FamilyPreference::Any
    );
    assert!("ipv5".parse::<FamilyPreference>().is_err());
}

#[test]
fn family_preference_admits_only_its_own_family() {
    assert!(FamilyPreference::Ipv4.admits(Family::V4));
    assert!(!FamilyPreference::Ipv4.admits(Family::V6));
    assert!(FamilyPreference::Any.admits(Family::V4));
    assert!(FamilyPreference::Any.admits(Family::V6));
}

#[test]
fn name_matching_handles_exact_and_prefix() {
    assert!(name_matches("docker0", "docker0"));
    assert!(!name_matches("docker0", "docker1"));
    assert!(name_matches("docker*", "docker0"));
    assert!(name_matches("br-*", "br-18642d3532b2"));
    assert!(!name_matches("br-*", "br0"));
    assert!(name_matches("*", "wlo1"));
}

/// The three variables, hand-set. Never the runner's own environment: that
/// differs per platform and would make the assertions untrustworthy.
fn paths(xdg: Option<&str>, appdata: Option<&str>, home: Option<&str>) -> Option<String> {
    path_from(
        xdg.map(String::from),
        appdata.map(String::from),
        home.map(String::from),
    )
}

#[test]
fn xdg_config_home_wins_when_set() {
    assert_eq!(
        paths(Some("/cfg"), Some("/appdata"), Some("/home/u")),
        Some("/cfg/autonet/config.toml".to_string())
    );
}

#[test]
fn appdata_is_tried_after_xdg_and_before_home() {
    assert_eq!(
        paths(None, Some("/appdata"), Some("/home/u")),
        Some("/appdata/autonet/config.toml".to_string())
    );
}

#[test]
fn home_is_the_last_resort_and_grows_a_dot_config() {
    assert_eq!(
        paths(None, None, Some("/home/u")),
        Some("/home/u/.config/autonet/config.toml".to_string())
    );
}

#[test]
fn an_empty_variable_falls_through_rather_than_rooting_at_nothing() {
    assert_eq!(
        paths(Some(""), Some("/appdata"), Some("/home/u")),
        Some("/appdata/autonet/config.toml".to_string())
    );
    assert_eq!(paths(Some(""), Some(""), Some("")), None);
    assert_eq!(paths(None, None, None), None);
}
