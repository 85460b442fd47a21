use autonet::platform::iftable::{collect, trust_hardware_bit, HARDWARE_INTERFACE};

#[test]
fn the_hardware_bit_is_the_first_declared_member() {
    assert_eq!(HARDWARE_INTERFACE, 0x01);
    assert_eq!(HARDWARE_INTERFACE.count_ones(), 1);
}

#[test]
fn an_empty_table_trusts_the_bit_and_yields_nothing() {
    assert!(trust_hardware_bit(&[]));
    assert!(collect(&[]).is_empty());
}
