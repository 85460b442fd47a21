use autonet::model::InterfaceKind;
use autonet::platform::linktype::{classify, ift, Evidence, ScType, UNCLASSIFIED};

/// An interface with nothing remarkable about it.
fn evidence() -> Evidence {
    Evidence {
        loopback: false,
        point_to_point: false,
        sc: None,
        ifi_type: ift::OTHER,
    }
}

#[test]
fn wifi_is_wireless_even_though_the_link_layer_calls_it_ethernet() {
    let kind = classify(Evidence {
        sc: Some(ScType::IEEE80211),
        ifi_type: ift::ETHER,
        ..evidence()
    });
    assert_eq!(kind, InterfaceKind::Wireless);
}

#[test]
fn system_configuration_outranks_the_link_layer() {
    let kind = classify(Evidence {
        sc: Some(ScType::Bridge),
        ifi_type: ift::ETHER,
        ..evidence()
    });
    assert_eq!(kind, InterfaceKind::Bridge);
}

#[test]
fn a_tunnel_absent_from_system_configuration_is_a_vpn() {
    let kind = classify(Evidence {
        point_to_point: true,
        sc: None,
        ifi_type: ift::OTHER,
        ..evidence()
    });
    assert_eq!(kind, InterfaceKind::Vpn);
}

#[test]
fn linktype_loopback_is_decided_before_anything_else_is_consulted() {
    let kind = classify(Evidence {
        loopback: true,
        sc: Some(ScType::Ethernet),
        ifi_type: ift::ETHER,
        ..evidence()
    });
    assert_eq!(kind, InterfaceKind::Loopback);
}

#[test]
fn aggregated_and_tagged_links_are_still_the_real_network_path() {
    for sc in [ScType::Bond, ScType::Vlan] {
        let kind = classify(Evidence {
            sc: Some(sc),
            ..evidence()
        });
        assert_eq!(kind, InterfaceKind::Ethernet, "{sc:?}");
    }
    for ifi_type in [ift::IEEE8023ADLAG, ift::L2VLAN] {
        let kind = classify(Evidence {
            ifi_type,
            ..evidence()
        });
        assert_eq!(kind, InterfaceKind::Ethernet, "ifi_type {ifi_type:#x}");
    }
}

#[test]
fn the_link_layer_answers_for_devices_system_configuration_omits() {
    for (ifi_type, expected) in [
        (ift::BRIDGE, InterfaceKind::Bridge),
        (ift::LOOP, InterfaceKind::Loopback),
        (ift::PPP, InterfaceKind::Vpn),
        (ift::GIF, InterfaceKind::Vpn),
        (ift::STF, InterfaceKind::Vpn),
        (ift::ETHER, InterfaceKind::Ethernet),
        (ift::CELLULAR, InterfaceKind::Other("cellular".to_owned())),
    ] {
        let kind = classify(Evidence {
            ifi_type,
            ..evidence()
        });
        assert_eq!(kind, expected, "ifi_type {ifi_type:#x}");
    }
}

#[test]
fn old_style_vpn_service_types_are_penalised_as_tunnels() {
    for sc in [
        ScType::IpSec,
        ScType::L2tp,
        ScType::Ppp,
        ScType::Pptp,
        ScType::SixToFour,
    ] {
        let kind = classify(Evidence {
            sc: Some(sc),
            ..evidence()
        });
        assert_eq!(kind, InterfaceKind::Vpn, "{sc:?}");
    }
}

#[test]
fn devices_autonet_has_no_opinion_about_are_named_not_guessed() {
    for (sc, expected) in [
        (ScType::Wwan, "wwan"),
        (ScType::Bluetooth, "bluetooth"),
        (ScType::Modem, "modem"),
        (ScType::Serial, "serial"),
        (ScType::IrDa, "irda"),
    ] {
        let kind = classify(Evidence {
            sc: Some(sc),
            ..evidence()
        });
        assert_eq!(kind, InterfaceKind::Other(expected.to_owned()), "{sc:?}");
    }
}

#[test]
fn the_ipv4_pseudo_type_falls_through_to_the_link_layer() {
    let kind = classify(Evidence {
        sc: Some(ScType::Ipv4),
        ifi_type: ift::BRIDGE,
        ..evidence()
    });
    assert_eq!(kind, InterfaceKind::Bridge);
}

#[test]
fn linktype_a_device_no_source_recognises_is_reported_as_unknown() {
    let kind = classify(evidence());
    assert_eq!(kind, InterfaceKind::Other(UNCLASSIFIED.to_owned()));
}

#[test]
fn a_point_to_point_link_the_link_layer_named_keeps_that_name() {
    let kind = classify(Evidence {
        point_to_point: true,
        ifi_type: ift::ETHER,
        ..evidence()
    });
    assert_eq!(kind, InterfaceKind::Ethernet);
}
