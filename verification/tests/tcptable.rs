use autonet::ip::IpAddr;
use autonet::platform::tcptable::{leaf, port_of};

#[test]
fn the_port_comes_from_the_low_word_in_network_order() {
    assert_eq!(port_of(0x0000_901F), 8080);
    assert_eq!(port_of(0), 0);
    assert_eq!(port_of(0xFFFF_901F), 8080);
}

#[test]
fn a_local_address_keeps_its_octet_order() {
    let raw = u32::from_ne_bytes([192, 168, 1, 20]);
    assert_eq!(
        IpAddr::V4(u32::from_be_bytes(raw.to_ne_bytes())),
        IpAddr::v4(192, 168, 1, 20)
    );
}

#[test]
fn an_image_path_is_reduced_to_its_file_name() {
    assert_eq!(leaf(r"C:\Program Files\nodejs\node.exe"), "node.exe");
    assert_eq!(leaf("node.exe"), "node.exe");
    assert_eq!(leaf(r"\Device\HarddiskVolume4/app.exe"), "app.exe");
    assert_eq!(leaf(""), "");
}
