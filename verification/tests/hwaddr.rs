use autonet::platform::hwaddr::format_mac;

#[test]
fn macs_are_lowercase_colon_separated() {
    assert_eq!(
        format_mac(&[0x02, 0x0a, 0xff, 0x00, 0x1b, 0xc3]).as_deref(),
        Some("02:0a:ff:00:1b:c3")
    );
}

#[test]
fn meaningless_hardware_addresses_are_dropped() {
    assert_eq!(format_mac(&[0; 6]), None, "all-zero (loopback, tun)");
    assert_eq!(format_mac(&[]), None, "absent");
    assert_eq!(format_mac(&[0; 20]), None, "InfiniBand");
}
