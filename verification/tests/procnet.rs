use autonet::ip::IpAddr;
use autonet::platform::bytes::ByteOrder;
use autonet::platform::procnet::{hex_address, listeners, listeners_in};

/// A real capture from this machine, header included.
const SAMPLE: &str = "\
  sl  local_address rem_address   st tx_queue rx_queue tr tm->when retrnsmt   uid  timeout inode
   0: 0100007F:AA4B 00000000:0000 0A 00000000:00000000 00:00000000 00000000  1000        0 56901 1 00000000545782ca 100 0 0 10 0
   1: 00000000:1B9E 00000000:0000 0A 00000000:00000000 00:00000000 00000000     0        0 20715 1 00000000ee0555f2 100 0 0 10 0
   2: 0100007F:8B36 0100007F:D9A2 01 00000000:00000000 00:00000000 00000000  1000        0 71234 1 00000000aabbccdd 100 0 0 10 0
";

#[test]
fn the_header_is_not_mistaken_for_a_socket() {
    assert_eq!(listeners(SAMPLE).len(), 2);
}

#[test]
fn an_established_connection_is_not_a_listener() {
    assert!(listeners(SAMPLE).iter().all(|l| l.port != 0x8B36));
}

#[test]
fn the_address_is_byte_reversed_but_the_port_beside_it_is_not() {
    let found = &listeners(SAMPLE)[0];
    assert_eq!(found.address, IpAddr::v4(127, 0, 0, 1));
    assert_eq!(found.port, 43_595);
}

#[test]
fn the_uid_and_inode_columns_are_not_transposed() {
    let found = &listeners(SAMPLE)[0];
    assert_eq!(found.uid, 1000);
    assert_eq!(found.inode, 56901);

    let root = &listeners(SAMPLE)[1];
    assert_eq!(root.uid, 0);
    assert_eq!(root.inode, 20715);
}

#[test]
fn a_wildcard_bind_is_reported_as_unspecified() {
    assert!(listeners(SAMPLE)[1].address.is_unspecified());
}

#[test]
fn an_ipv6_group_reverses_on_its_own_rather_than_the_whole_address() {
    let last = u32::from_ne_bytes([0, 0, 0, 1]);
    let local = format!("{:024}{last:08X}", 0);
    assert_eq!(local.len(), 32, "a v6 token is thirty-two hex digits");

    let line = format!(
        "   0: {local}:1F90 00000000000000000000000000000000:0000 0A \
         00000000:00000000 00:00000000 00000000  1000        0 999 1 0 100 0 0 10 0"
    );
    let found = &listeners(&line)[0];
    assert_eq!(found.address, IpAddr::V6(1));
    assert_eq!(found.port, 8080);
}

#[test]
fn an_ipv6_wildcard_is_recognised() {
    let line = "   0: 00000000000000000000000000000000:1B9E \
                00000000000000000000000000000000:0000 0A 00000000:00000000 \
                00:00000000 00000000     0        0 20716 1 0 100 0 0 10 0";
    let found = &listeners(line)[0];
    assert!(found.address.is_unspecified());
    assert!(found.address.is_ipv6());
}

#[test]
fn a_truncated_or_scrambled_row_is_skipped_rather_than_guessed_at() {
    assert!(listeners("   0: 0100007F:AA4B 00000000:0000 0A").is_empty());
    assert!(listeners("").is_empty());
    assert!(listeners(
        "   0: +100007F:AA4B 00000000:0000 0A 0:0 0:0 0 1000 0 1 1 0 100 0 0 10 0"
    )
    .is_empty());
}

#[test]
fn a_big_endian_kernel_writes_the_address_in_reading_order() {
    assert_eq!(
        hex_address("7F000001", ByteOrder::Big),
        Some(IpAddr::v4(127, 0, 0, 1))
    );
    assert_eq!(
        hex_address("0100007F", ByteOrder::Little),
        Some(IpAddr::v4(127, 0, 0, 1))
    );
    assert_eq!(hex_address("0100007", ByteOrder::Little), None);
    assert_eq!(hex_address("0100007G", ByteOrder::Little), None);
    let rows = listeners_in(
        "   0: 7F000001:0BB8 00000000:0000 0A 00000000:00000000 00:00000000 00000000  1000        0 77 1\r\n",
        ByteOrder::Big,
    );
    assert_eq!(rows.len(), 1);
    assert_eq!(rows[0].address, IpAddr::v4(127, 0, 0, 1));
    assert_eq!(rows[0].port, 3000);
    assert_eq!(rows[0].inode, 77);
}

#[test]
fn a_port_or_uid_out_of_range_is_not_read() {
    assert!(listeners(
        "   0: 0100007F:1FFFF 00000000:0000 0A 0:0 0:0 0 1000 0 1 1 0 100 0 0 10 0"
    )
    .is_empty());
    assert!(listeners(
        "   0: 0100007F:AA4B 00000000:0000 0A 0:0 0:0 0 4294967296 0 1 1 0 100 0 0 10 0"
    )
    .is_empty());
}
