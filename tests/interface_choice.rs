use reverseping::addr::IpAddress;
use reverseping::iface::{select_interface, InterfaceAddress, InterfaceError};

fn v4(a: u8, b: u8, c: u8, d: u8) -> IpAddress {
    IpAddress::V4(u32::from_be_bytes([a, b, c, d]))
}

#[test]
fn picks_the_entry_holding_the_local_address() {
    let entries = vec![
        InterfaceAddress { address: Some(v4(127, 0, 0, 1)), mask: Some(v4(255, 0, 0, 0)) },
        InterfaceAddress { address: None, mask: None },
        InterfaceAddress { address: Some(v4(192, 168, 1, 10)), mask: Some(v4(255, 255, 252, 0)) },
    ];
    assert_eq!(
        select_interface(v4(192, 168, 1, 10), &entries),
        Ok((v4(192, 168, 1, 10), v4(255, 255, 252, 0)))
    );
}

#[test]
fn missing_mask_defaults_to_slash24() {
    let entries = vec![InterfaceAddress { address: Some(v4(10, 1, 2, 3)), mask: None }];
    assert_eq!(
        select_interface(v4(10, 1, 2, 3), &entries),
        Ok((v4(10, 1, 2, 3), v4(255, 255, 255, 0)))
    );
    let v6 = IpAddress::V6(0xfe80_0000_0000_0000_0000_0000_0000_0001);
    let entries6 = vec![InterfaceAddress { address: Some(v6), mask: None }];
    assert_eq!(
        select_interface(v6, &entries6),
        Ok((v6, IpAddress::V6(0xffff_ffff_ffff_ffff_ffff_ffff_ffff_0000)))
    );
}

#[test]
fn no_matching_interface_is_an_error() {
    let entries = vec![InterfaceAddress { address: Some(v4(10, 1, 2, 3)), mask: None }];
    assert_eq!(
        select_interface(v4(10, 1, 2, 4), &entries),
        Err(InterfaceError::NoInterfaceFound)
    );
    assert_eq!(select_interface(v4(10, 1, 2, 4), &vec![]), Err(InterfaceError::NoInterfaceFound));
}
