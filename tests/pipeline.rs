use reverseping::addr::{IpAddress, MacAddress};
use reverseping::link::{link_target, resolve_simple, scan, DiscoveredHostWithMac};
use reverseping::merge::{discover_devices, merge_device, DiscoveredDevice};
use reverseping::resolve::{
    interpret_answer, resolve_outcome, reverse_dns, reverse_dns_ip, DiscoveredHost, DnsRecord,
    Error, LookupOutcome, PingResult,
};
use reverseping::services::{record_description, wants_description, DeviceDescription, Service};
use reverseping::vendor::VendorTable;

fn v4(a: u8, b: u8, c: u8, d: u8) -> IpAddress {
    IpAddress::V4(u32::from_be_bytes([a, b, c, d]))
}

fn host(ip: IpAddress, ms: u64, name: Option<&str>, meta: &[&str]) -> DiscoveredHost {
    DiscoveredHost {
        ip,
        ping_duration_ms: ms,
        hostname: name.map(|s| s.to_string()),
        meta: meta.iter().map(|s| s.to_string()).collect(),
    }
}

fn service(ip: IpAddress, friendly: Option<&str>, model: Option<&str>) -> Service {
    Service {
        location: "http://10.0.0.5:80/desc.xml".to_string(),
        ip,
        friendly_name: friendly.map(|s| s.to_string()),
        model_name: model.map(|s| s.to_string()),
        vendor: None,
    }
}

const MAC: MacAddress = MacAddress(0xaa, 0xbb, 0xcc, 0xdd, 0xee, 0xff);

fn scenario(vendors: &VendorTable) -> Vec<DiscoveredDevice> {
    // 10.0.0.5 answered the ping in 12 ms; 10.0.0.9 did not and never appears.
    let pings = vec![PingResult { ip: v4(10, 0, 0, 5), duration_ms: 12 }];
    let outcomes = vec![LookupOutcome::Answered {
        answers: vec![DnsRecord::Ptr("host5.local.".to_string())],
        additionals: vec![DnsRecord::Txt("role=printer".to_string())],
    }];
    let hosts = reverse_dns(pings, &outcomes).unwrap();
    let links = scan(hosts, &vec![Some(MAC)]);
    let mut services = Vec::new();
    let mut seen = Vec::new();
    let ip = wants_description(&mut seen, "http://10.0.0.5:80/desc.xml").unwrap();
    record_description(
        &mut services,
        ip,
        "http://10.0.0.5:80/desc.xml".to_string(),
        DeviceDescription {
            friendly_name: Some("Office Printer".to_string()),
            manufacturer: None,
            model_name: Some("X200".to_string()),
        },
    );
    discover_devices(links, &services, vendors)
}

#[test]
fn end_to_end_single_printer() {
    let vendors = VendorTable::load();
    let devices = scenario(&vendors);
    assert_eq!(devices.len(), 1);
    let d = &devices[0];
    assert_eq!(d.mac.text(), "aa:bb:cc:dd:ee:ff");
    assert_eq!(d.hostname.as_deref(), Some("host5.local."));
    assert_eq!(d.meta.as_deref(), Some("role=printer, X200"));
    assert_eq!(d.local_address, u32::from_be_bytes([10, 0, 0, 5]));
    assert_eq!(d.ping_ms, 12);
}

#[test]
fn same_inputs_give_same_inventory() {
    let vendors = VendorTable::load();
    let a = scenario(&vendors);
    let b = scenario(&vendors);
    assert_eq!(a.len(), b.len());
    for (x, y) in a.iter().zip(b.iter()) {
        assert_eq!(x.mac, y.mac);
        assert_eq!(x.local_address, y.local_address);
        assert_eq!(x.ping_ms, y.ping_ms);
        assert_eq!(x.hostname, y.hostname);
        assert_eq!(x.vendor, y.vendor);
        assert_eq!(x.meta, y.meta);
    }
}

#[test]
fn first_pointer_record_anywhere_in_answers() {
    let answers = vec![
        DnsRecord::Other,
        DnsRecord::Ptr("xenos.local.".to_string()),
        DnsRecord::Ptr("other.local.".to_string()),
    ];
    let additionals = vec![
        DnsRecord::Txt("model=iMac18,3".to_string()),
        DnsRecord::Other,
        DnsRecord::Txt("osxvers=20".to_string()),
    ];
    let r = interpret_answer(&answers, &additionals);
    assert_eq!(r.hostname.as_deref(), Some("xenos.local."));
    assert_eq!(r.meta, vec!["model=iMac18,3".to_string(), "osxvers=20".to_string()]);
}

#[test]
fn failed_query_degrades_to_no_hostname() {
    let r = resolve_outcome(&LookupOutcome::QueryFailed).unwrap();
    assert_eq!(r.hostname, None);
    assert!(r.meta.is_empty());
    let empty = interpret_answer(&vec![DnsRecord::Other], &vec![]);
    assert_eq!(empty.hostname, None);
}

#[test]
fn session_failure_aborts_the_set() {
    let pings = vec![
        PingResult { ip: v4(10, 0, 0, 1), duration_ms: 1 },
        PingResult { ip: v4(10, 0, 0, 2), duration_ms: 2 },
    ];
    let outcomes = vec![LookupOutcome::QueryFailed, LookupOutcome::SessionFailed];
    assert!(matches!(reverse_dns(pings, &outcomes), Err(Error::SessionSetup)));
    let single = reverse_dns_ip(
        PingResult { ip: v4(10, 0, 0, 3), duration_ms: 3 },
        &LookupOutcome::SessionFailed,
    );
    assert!(single.is_err());
}

#[test]
fn link_resolution_drops_ipv6_and_silent_hosts() {
    assert_eq!(link_target(IpAddress::V6(1)), None);
    assert_eq!(link_target(v4(10, 0, 0, 5)), Some(u32::from_be_bytes([10, 0, 0, 5])));
    assert!(resolve_simple(host(IpAddress::V6(1), 1, None, &[]), Some(MAC)).is_none());
    assert!(resolve_simple(host(v4(10, 0, 0, 5), 1, None, &[]), None).is_none());
    let hosts = vec![
        host(v4(10, 0, 0, 5), 1, None, &[]),
        host(IpAddress::V6(7), 2, None, &[]),
        host(v4(10, 0, 0, 6), 3, None, &[]),
        host(v4(10, 0, 0, 7), 4, None, &[]),
    ];
    let macs = vec![Some(MAC), Some(MacAddress(1, 2, 3, 4, 5, 6)), None, Some(MacAddress(0, 0, 0, 0, 0, 7))];
    let links = scan(hosts, &macs);
    let ips: Vec<IpAddress> = links.iter().map(|l| l.host.ip).collect();
    assert_eq!(ips, vec![v4(10, 0, 0, 5), v4(10, 0, 0, 7)]);
}

#[test]
fn inventory_holds_exactly_the_linked_hosts() {
    let vendors = VendorTable::load();
    let hosts = vec![
        host(v4(10, 0, 0, 5), 1, None, &[]),
        host(IpAddress::V6(9), 2, None, &[]),
        host(v4(10, 0, 0, 6), 3, None, &[]),
    ];
    let macs = vec![Some(MacAddress(0, 0, 0, 0, 0, 5)), Some(MacAddress(0, 0, 0, 0, 0, 9)), None];
    let devices = discover_devices(scan(hosts, &macs), &vec![], &vendors);
    assert_eq!(devices.len(), 1);
    assert_eq!(devices[0].local_address, u32::from_be_bytes([10, 0, 0, 5]));
}

#[test]
fn later_host_with_same_mac_wins() {
    let vendors = VendorTable::load();
    let links = vec![
        DiscoveredHostWithMac { host: host(v4(10, 0, 0, 5), 1, None, &[]), mac: MAC },
        DiscoveredHostWithMac { host: host(v4(10, 0, 0, 6), 2, None, &[]), mac: MAC },
    ];
    let devices = discover_devices(links, &vec![], &vendors);
    assert_eq!(devices.len(), 1);
    assert_eq!(devices[0].local_address, u32::from_be_bytes([10, 0, 0, 6]));
    assert_eq!(devices[0].ping_ms, 2);
}

#[test]
fn model_name_is_appended_after_dns_metadata() {
    let vendors = VendorTable::load();
    let services = vec![service(v4(10, 0, 0, 5), None, Some("X200"))];
    let l = DiscoveredHostWithMac {
        host: host(v4(10, 0, 0, 5), 1, Some("h"), &["a=1", "b=2"]),
        mac: MAC,
    };
    let d = merge_device(l, &services, &vendors);
    assert_eq!(d.meta.as_deref(), Some("a=1, b=2, X200"));
}

#[test]
fn empty_metadata_becomes_none_and_friendly_name_fills_in() {
    let vendors = VendorTable::load();
    let l = DiscoveredHostWithMac { host: host(v4(10, 0, 0, 5), 1, None, &[]), mac: MAC };
    let d = merge_device(l, &vec![], &vendors);
    assert_eq!(d.meta, None);
    assert_eq!(d.hostname, None);
    let services = vec![service(v4(10, 0, 0, 5), Some("Office Printer"), None)];
    let l2 = DiscoveredHostWithMac { host: host(v4(10, 0, 0, 5), 1, None, &[]), mac: MAC };
    let d2 = merge_device(l2, &services, &vendors);
    assert_eq!(d2.hostname.as_deref(), Some("Office Printer"));
    assert_eq!(d2.meta, None);
    let l3 = DiscoveredHostWithMac { host: host(v4(10, 0, 0, 5), 1, Some("dns.local."), &[]), mac: MAC };
    let d3 = merge_device(l3, &services, &vendors);
    assert_eq!(d3.hostname.as_deref(), Some("dns.local."));
}

#[test]
fn vendor_is_looked_up_by_mac_text() {
    let vendors = VendorTable::load();
    let l = DiscoveredHostWithMac {
        host: host(v4(10, 0, 0, 5), 1, None, &[]),
        mac: MacAddress(0x28, 0xc5, 0x38, 0x8f, 0x38, 0xac),
    };
    let d = merge_device(l, &vec![], &vendors);
    assert_eq!(d.vendor.as_deref(), Some("Apple, Inc"));
}

#[test]
fn advertisement_decisions() {
    let mut seen = Vec::new();
    let mut services = Vec::new();
    assert_eq!(wants_description(&mut seen, "not a url"), None);
    assert_eq!(wants_description(&mut seen, "http://printer.local:80/d.xml"), None);
    assert!(seen.is_empty());
    assert_eq!(
        wants_description(&mut seen, "http://192.168.1.20:49152/desc.xml"),
        Some(v4(192, 168, 1, 20))
    );
    assert_eq!(seen, vec![v4(192, 168, 1, 20)]);
    assert_eq!(
        wants_description(&mut seen, "http://[fe80::1]:1900/d.xml"),
        Some(IpAddress::V6(0xfe80_0000_0000_0000_0000_0000_0000_0001))
    );
    record_description(
        &mut services,
        v4(192, 168, 1, 20),
        "http://192.168.1.20:49152/desc.xml".to_string(),
        DeviceDescription { friendly_name: None, manufacturer: Some("Acme".to_string()), model_name: None },
    );
    assert_eq!(services.len(), 1);
    assert_eq!(services[0].vendor.as_deref(), Some("Acme"));
    record_description(
        &mut services,
        v4(192, 168, 1, 20),
        "http://192.168.1.20:1900/other.xml".to_string(),
        DeviceDescription { friendly_name: None, manufacturer: None, model_name: None },
    );
    assert_eq!(services.len(), 1);
    assert_eq!(services[0].location, "http://192.168.1.20:49152/desc.xml");
}

#[test]
fn later_advertisement_is_ignored_even_after_a_failed_fetch() {
    let mut seen = Vec::new();
    assert!(wants_description(&mut seen, "http://10.0.0.8/a.xml").is_some());
    // The fetch for the first advertisement failed: nothing was recorded.
    assert_eq!(wants_description(&mut seen, "http://10.0.0.8:8080/b.xml"), None);
    assert_eq!(seen.len(), 1);
}
