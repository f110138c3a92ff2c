use reverseping::addr::{arpa_name, dotted_text, IpAddress, MacAddress};
use reverseping::get_vendor_for_mac;
use reverseping::vendor::VendorTable;

// The OUI table bundled with mac_oui registers 60:12:8B to Canon Inc.
#[test]
fn test_mac() {
    assert_eq!(
        get_vendor_for_mac("60:12:8b:8f:38:ac").unwrap(),
        "Canon Inc".to_string()
    )
}

#[test]
fn vendor_of_an_apple_prefix() {
    assert_eq!(
        get_vendor_for_mac("28:c5:38:00:11:22"),
        Some("Apple, Inc".to_string())
    );
}

#[test]
fn vendor_unknown_for_malformed_mac() {
    assert_eq!(get_vendor_for_mac("not a mac"), None);
}

#[test]
fn vendor_table_lookup_matches_free_function() {
    let table = VendorTable::load();
    assert_eq!(
        table.lookup("60:12:8b:8f:38:ac"),
        get_vendor_for_mac("60:12:8b:8f:38:ac")
    );
}

#[test]
fn test_arpa_name() {
    let n1 = arpa_name(IpAddress::V4(u32::from_be_bytes([192, 168, 0, 14])));
    assert_eq!(n1, "14.0.168.192.in-addr.arpa".to_string());

    let n2 = arpa_name(IpAddress::V6(0xfe80_0000_0000_0000_0c68_428d_340d_c9b5));
    assert_eq!(
        n2,
        "5.b.9.c.d.0.4.3.d.8.2.4.8.6.c.0.0.0.0.0.0.0.0.0.0.0.0.0.0.8.e.f.ip6.arpa".to_string()
    );
}

#[test]
fn arpa_name_of_zero_and_broadcast() {
    assert_eq!(arpa_name(IpAddress::V4(0)), "0.0.0.0.in-addr.arpa");
    assert_eq!(
        arpa_name(IpAddress::V4(u32::MAX)),
        "255.255.255.255.in-addr.arpa"
    );
}

#[test]
fn dotted_text_of_address() {
    assert_eq!(dotted_text(u32::from_be_bytes([10, 0, 0, 5])), "10.0.0.5");
    assert_eq!(dotted_text(u32::from_be_bytes([192, 168, 100, 7])), "192.168.100.7");
}

#[test]
fn mac_text_is_colon_hex() {
    let m = MacAddress(0xaa, 0xbb, 0xcc, 0xdd, 0xee, 0xff);
    assert_eq!(m.text(), "aa:bb:cc:dd:ee:ff");
    let m2 = MacAddress(0x60, 0x12, 0x8b, 0x8f, 0x38, 0x0a);
    assert_eq!(m2.text(), "60:12:8b:8f:38:0a");
}
