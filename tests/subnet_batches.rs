use reverseping::addr::IpAddress;
use reverseping::subnet::{batches, subnet_hosts, SubnetError, BATCH_SIZE};

fn v4(a: u8, b: u8, c: u8, d: u8) -> IpAddress {
    IpAddress::V4(u32::from_be_bytes([a, b, c, d]))
}

#[test]
fn slash24_lists_every_address_once() {
    let hosts = subnet_hosts(v4(192, 168, 1, 77), v4(255, 255, 255, 0)).unwrap();
    assert_eq!(hosts.len(), 256);
    assert_eq!(hosts[0], v4(192, 168, 1, 0));
    assert_eq!(hosts[255], v4(192, 168, 1, 255));
    let mut sorted = hosts.clone();
    sorted.dedup();
    assert_eq!(sorted.len(), 256);
}

#[test]
fn slash30_and_slash32() {
    let hosts = subnet_hosts(v4(10, 0, 0, 6), v4(255, 255, 255, 252)).unwrap();
    assert_eq!(
        hosts,
        vec![v4(10, 0, 0, 4), v4(10, 0, 0, 5), v4(10, 0, 0, 6), v4(10, 0, 0, 7)]
    );
    let one = subnet_hosts(v4(10, 0, 0, 6), v4(255, 255, 255, 255)).unwrap();
    assert_eq!(one, vec![v4(10, 0, 0, 6)]);
}

#[test]
fn ipv6_networks_are_enumerated() {
    let all = IpAddress::V6(u128::MAX);
    assert_eq!(subnet_hosts(IpAddress::V6(0), all), Ok(vec![IpAddress::V6(0)]));
    let a = 0xfe80_0000_0000_0000_0000_0000_0000_1234u128;
    let slash124 = IpAddress::V6(u128::MAX << 4);
    let hosts = subnet_hosts(IpAddress::V6(a), slash124).unwrap();
    let expected: Vec<IpAddress> = (0..16u128)
        .map(|i| IpAddress::V6(0xfe80_0000_0000_0000_0000_0000_0000_1230 + i))
        .collect();
    assert_eq!(hosts, expected);
    let slash120 = IpAddress::V6(u128::MAX << 8);
    let wide = subnet_hosts(IpAddress::V6(a), slash120).unwrap();
    assert_eq!(wide.len(), 256);
    assert_eq!(batches(&wide, BATCH_SIZE).len(), 2);
}

#[test]
fn non_contiguous_mask_is_rejected() {
    assert_eq!(
        subnet_hosts(v4(10, 0, 0, 6), v4(255, 0, 255, 0)),
        Err(SubnetError::InvalidMask)
    );
    assert_eq!(
        subnet_hosts(IpAddress::V6(1), IpAddress::V6(0x00ff_00ff_00ff_00ff_00ff_00ff_00ff_0000)),
        Err(SubnetError::InvalidMask)
    );
}

#[test]
fn mixed_families_are_rejected() {
    assert_eq!(
        subnet_hosts(v4(10, 0, 0, 6), IpAddress::V6(0)),
        Err(SubnetError::FamilyMismatch)
    );
    assert_eq!(
        subnet_hosts(IpAddress::V6(1), v4(255, 255, 255, 0)),
        Err(SubnetError::FamilyMismatch)
    );
}

#[test]
fn batches_of_200_cover_a_slash24() {
    let hosts = subnet_hosts(v4(192, 168, 1, 1), v4(255, 255, 255, 0)).unwrap();
    let parts = batches(&hosts, BATCH_SIZE);
    assert_eq!(parts.len(), 2);
    assert_eq!(parts[0].len(), 200);
    assert_eq!(parts[1].len(), 56);
    let joined: Vec<IpAddress> = parts.concat();
    assert_eq!(joined, hosts);
}

#[test]
fn batches_edge_cases() {
    let empty: Vec<IpAddress> = vec![];
    assert_eq!(batches(&empty, 200).len(), 0);
    let exact: Vec<IpAddress> = (0..400u32).map(IpAddress::V4).collect();
    let parts = batches(&exact, 200);
    assert_eq!(parts.len(), 2);
    assert_eq!(parts[1][199], IpAddress::V4(399));
    let small: Vec<IpAddress> = vec![IpAddress::V4(7), IpAddress::V4(8), IpAddress::V4(9)];
    assert_eq!(
        batches(&small, 2),
        vec![vec![IpAddress::V4(7), IpAddress::V4(8)], vec![IpAddress::V4(9)]]
    );
}
