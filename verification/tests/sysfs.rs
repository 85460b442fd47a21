use autonet::platform::sysfs::is_wireless;

#[test]
fn traversal_attempts_are_rejected_rather_than_followed() {
    assert!(!is_wireless("../../../etc"));
    assert!(!is_wireless("foo/bar"));
    assert!(!is_wireless(""));
}

#[test]
fn a_device_that_does_not_exist_is_not_wireless() {
    assert!(!is_wireless("autonet-no-such-device"));
}

#[test]
fn loopback_is_not_wireless() {
    assert!(!is_wireless("lo"));
}
