use autonet::platform::adapters::FLAGS;

#[test]
fn skipped_address_families_are_the_ones_we_never_read() {
    assert_eq!(FLAGS & 1, 0, "GAA_FLAG_SKIP_UNICAST must not be set");
    assert_eq!(FLAGS & 16, 0, "GAA_FLAG_INCLUDE_PREFIX must not be set");
    assert_eq!(FLAGS & 32, 0, "GAA_FLAG_SKIP_FRIENDLY_NAME must not be set");
    assert_eq!(FLAGS & 256, 0, "GAA_FLAG_INCLUDE_ALL_INTERFACES: see FLAGS");
}
