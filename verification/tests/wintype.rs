use autonet::model::InterfaceKind;
use autonet::platform::linktype::UNCLASSIFIED;
use autonet::platform::wintype::{
    access, classify, if_type, is_broadcast, is_point_to_point, media, medium, tunnel, Evidence,
    Ndis, VIRTUAL_ETHERNET,
};

/// An adapter about which nothing has been established.
fn evidence() -> Evidence {
    Evidence {
        if_type: if_type::OTHER,
        tunnel_type: tunnel::NONE,
        ndis: None,
    }
}

/// A physical NIC's NDIS row: broadcast medium, real hardware behind it.
fn hardware() -> Ndis {
    Ndis {
        access_type: access::BROADCAST,
        physical_medium: medium::ETHERNET_802_3,
        media_type: media::ETHERNET_802_3,
        hardware_interface: Some(true),
    }
}

/// A virtual adapter's NDIS row: Ethernet framing, nothing underneath.
fn software() -> Ndis {
    Ndis {
        hardware_interface: Some(false),
        physical_medium: medium::UNSPECIFIED,
        ..hardware()
    }
}

#[test]
fn wifi_is_wireless_from_if_type_alone() {
    let kind = classify(Evidence {
        if_type: if_type::IEEE80211,
        ..evidence()
    });
    assert_eq!(kind, InterfaceKind::Wireless);
}

#[test]
fn a_radio_presenting_ethernet_framing_is_still_wireless() {
    for physical_medium in [medium::NATIVE_802_11, medium::WIRELESS_LAN] {
        let kind = classify(Evidence {
            if_type: if_type::ETHERNET_CSMACD,
            ndis: Some(Ndis {
                physical_medium,
                ..hardware()
            }),
            ..evidence()
        });
        assert_eq!(kind, InterfaceKind::Wireless, "medium {physical_medium}");
    }
}

#[test]
fn a_tap_mode_vpn_does_not_collect_the_ethernet_bonus() {
    let kind = classify(Evidence {
        if_type: if_type::ETHERNET_CSMACD,
        ndis: Some(software()),
        ..evidence()
    });
    assert_eq!(kind, InterfaceKind::Other(VIRTUAL_ETHERNET.to_owned()));
}

#[test]
fn a_tun_mode_vpn_is_penalised_as_a_tunnel() {
    let kind = classify(Evidence {
        if_type: if_type::ETHERNET_CSMACD,
        ndis: Some(Ndis {
            access_type: access::POINT_TO_POINT,
            ..software()
        }),
        ..evidence()
    });
    assert_eq!(kind, InterfaceKind::Vpn);
}

#[test]
fn a_real_nic_keeps_its_ethernet_bonus() {
    for if_type in [
        if_type::ETHERNET_CSMACD,
        if_type::IEEE8023AD_LAG,
        if_type::IEEE1394,
    ] {
        let kind = classify(Evidence {
            if_type,
            ndis: Some(hardware()),
            ..evidence()
        });
        assert_eq!(kind, InterfaceKind::Ethernet, "if_type {if_type}");
    }
}

#[test]
fn wintype_loopback_is_decided_before_anything_else_is_consulted() {
    for evidence in [
        Evidence {
            if_type: if_type::SOFTWARE_LOOPBACK,
            ndis: Some(hardware()),
            ..evidence()
        },
        Evidence {
            if_type: if_type::ETHERNET_CSMACD,
            ndis: Some(Ndis {
                media_type: media::LOOPBACK,
                ..hardware()
            }),
            ..evidence()
        },
        Evidence {
            if_type: if_type::ETHERNET_CSMACD,
            ndis: Some(Ndis {
                access_type: access::LOOPBACK,
                ..hardware()
            }),
            ..evidence()
        },
    ] {
        assert_eq!(classify(evidence), InterfaceKind::Loopback, "{evidence:?}");
    }
}

#[test]
fn declared_tunnels_are_vpns() {
    for tunnel_type in [
        tunnel::OTHER,
        tunnel::DIRECT,
        tunnel::SIX_TO_FOUR,
        tunnel::ISATAP,
        tunnel::TEREDO,
        tunnel::IPHTTPS,
    ] {
        let kind = classify(Evidence {
            tunnel_type,
            ..evidence()
        });
        assert_eq!(kind, InterfaceKind::Vpn, "tunnel type {tunnel_type}");
    }

    for if_type in [if_type::TUNNEL, if_type::PPP] {
        let kind = classify(Evidence {
            if_type,
            ..evidence()
        });
        assert_eq!(kind, InterfaceKind::Vpn, "if_type {if_type}");
    }
}

#[test]
fn an_unenumerated_tunnel_type_is_not_treated_as_a_tunnel() {
    for tunnel_type in [3, 7, 99, -1, i32::MAX] {
        let kind = classify(Evidence {
            if_type: if_type::ETHERNET_CSMACD,
            tunnel_type,
            ndis: Some(hardware()),
        });
        assert_eq!(kind, InterfaceKind::Ethernet, "tunnel type {tunnel_type}");
    }
}

#[test]
fn a_cellular_modem_is_named_rather_than_filed_as_a_vpn() {
    for if_type in [if_type::WWANPP, if_type::WWANPP2] {
        let kind = classify(Evidence {
            if_type,
            ndis: Some(Ndis {
                access_type: access::POINT_TO_POINT,
                ..hardware()
            }),
            ..evidence()
        });
        assert_eq!(kind, InterfaceKind::Other("wwan".to_owned()), "{if_type}");
    }

    let kind = classify(Evidence {
        if_type: if_type::IEEE80216_WMAN,
        ..evidence()
    });
    assert_eq!(kind, InterfaceKind::Other("wimax".to_owned()));
}

#[test]
fn an_undeclared_point_to_point_link_is_a_tunnel() {
    let kind = classify(Evidence {
        ndis: Some(Ndis {
            access_type: access::POINT_TO_POINT,
            ..software()
        }),
        ..evidence()
    });
    assert_eq!(kind, InterfaceKind::Vpn);
}

#[test]
fn wintype_a_device_no_source_recognises_is_reported_as_unknown() {
    assert_eq!(
        classify(evidence()),
        InterfaceKind::Other(UNCLASSIFIED.to_owned())
    );

    for if_type in [0, 53, 200, u32::MAX] {
        let kind = classify(Evidence {
            if_type,
            ndis: Some(hardware()),
            ..evidence()
        });
        assert_eq!(
            kind,
            InterfaceKind::Other(UNCLASSIFIED.to_owned()),
            "if_type {if_type}"
        );
    }
}

#[test]
fn a_missed_join_degrades_to_if_type_rather_than_guessing() {
    assert_eq!(
        classify(Evidence {
            if_type: if_type::ETHERNET_CSMACD,
            ..evidence()
        }),
        InterfaceKind::Ethernet
    );
    assert_eq!(
        classify(Evidence {
            if_type: if_type::IEEE80211,
            ..evidence()
        }),
        InterfaceKind::Wireless
    );
    assert_eq!(
        classify(Evidence {
            if_type: if_type::SOFTWARE_LOOPBACK,
            ..evidence()
        }),
        InterfaceKind::Loopback
    );
}

#[test]
fn an_untrustworthy_hardware_bit_does_not_reclassify_the_machine() {
    let kind = classify(Evidence {
        if_type: if_type::ETHERNET_CSMACD,
        ndis: Some(Ndis {
            hardware_interface: None,
            ..hardware()
        }),
        ..evidence()
    });
    assert_eq!(kind, InterfaceKind::Ethernet);
}

#[test]
fn access_types_map_onto_the_two_interface_flags() {
    assert!(is_broadcast(access::BROADCAST));
    assert!(!is_broadcast(access::POINT_TO_POINT));
    assert!(!is_broadcast(access::LOOPBACK));

    assert!(is_point_to_point(access::POINT_TO_POINT));
    assert!(!is_point_to_point(access::BROADCAST));
    assert!(!is_point_to_point(access::POINT_TO_MULTI_POINT));
    assert!(!is_broadcast(access::POINT_TO_MULTI_POINT));
}
