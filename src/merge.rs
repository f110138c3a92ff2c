//! The merge of all discovery results into one inventory keyed by MAC
//! address.
use vstd::prelude::*;
use crate::addr::{IpAddress, MacAddress, dotted, dotted_text, mac_text};
use crate::link::{DiscoveredHostWithMac, is_linked, scan_spec};
use crate::resolve::{DiscoveredHost, opt_view, strings_view};
use crate::services::Service;
use crate::text::{decimal_nat, join, push_decimal_u64, push_joined};
use vstd::string::StringExecFns;
use crate::vendor::VendorTable;

verus! {

/// One device of the final inventory.
#[derive(Debug)]
pub struct DiscoveredDevice {
    /// The device's IPv4 address.
    pub local_address: u32,
    pub ping_ms: u64,
    pub hostname: Option<String>,
    pub mac: MacAddress,
    pub vendor: Option<String>,
    pub meta: Option<String>,
}

/// A device as the contracts see it.
pub struct DeviceView {
    pub local_address: u32,
    pub ping_ms: u64,
    pub hostname: Option<Seq<char>>,
    pub vendor: Option<Seq<char>>,
    pub meta: Option<Seq<char>>,
}

impl View for DiscoveredDevice {
    type V = DeviceView;

    open spec fn view(&self) -> DeviceView {
        DeviceView {
            local_address: self.local_address,
            ping_ms: self.ping_ms,
            hostname: opt_view(self.hostname),
            vendor: opt_view(self.vendor),
            meta: opt_view(self.meta),
        }
    }
}

/// A text field of a summary line: the value, or `?` where it is absent.
pub open spec fn or_unknown(o: Option<String>) -> Seq<char> {
    match o {
        Some(s) => s@,
        None => "?"@,
    }
}

/// The one-line summary of a device:
/// `mac - vendor - address - hostname - meta (Nms)`.
pub open spec fn summary_spec(d: DiscoveredDevice) -> Seq<char> {
    mac_text(d.mac) + " - "@ + or_unknown(d.vendor) + " - "@ + dotted(d.local_address) + " - "@
        + or_unknown(d.hostname) + " - "@ + or_unknown(d.meta) + " ("@ + decimal_nat(
        d.ping_ms as nat,
    ) + "ms)"@
}

fn push_or_unknown(s: &mut String, o: &Option<String>)
    ensures
        final(s)@ == old(s)@ + or_unknown(*o),
{
    match o {
        Some(v) => s.append(v.as_str()),
        None => s.append("?"),
    }
}

impl DiscoveredDevice {
    /// The one-line summary written to the scan log.
    pub fn summary(&self) -> (r: String)
        ensures
            r@ == summary_spec(*self),
    {
        let mut s = self.mac.text();
        s.append(" - ");
        push_or_unknown(&mut s, &self.vendor);
        s.append(" - ");
        let addr = dotted_text(self.local_address);
        s.append(addr.as_str());
        s.append(" - ");
        push_or_unknown(&mut s, &self.hostname);
        s.append(" - ");
        push_or_unknown(&mut s, &self.meta);
        s.append(" (");
        push_decimal_u64(&mut s, self.ping_ms);
        s.append("ms)");
        assert(s@ =~= summary_spec(*self));
        s
    }
}

/// The first service description recorded for `ip`.
pub open spec fn service_for(services: Seq<Service>, ip: IpAddress) -> Option<Service>
    decreases services.len(),
{
    if services.len() == 0 {
        None
    } else if services[0].ip == ip {
        Some(services[0])
    } else {
        service_for(services.drop_first(), ip)
    }
}

/// The metadata strings of a device: those from DNS text records, then the
/// model name of its service description, if any.
pub open spec fn meta_parts(host_meta: Seq<Seq<char>>, service: Option<Service>) -> Seq<Seq<char>> {
    match service {
        Some(s) => match s.model_name {
            Some(m) => host_meta.push(m@),
            None => host_meta,
        },
        None => host_meta,
    }
}

/// The metadata field: the parts joined by a comma and a space, none where
/// there are no parts.
pub open spec fn meta_text(parts: Seq<Seq<char>>) -> Option<Seq<char>> {
    if parts.len() == 0 {
        None
    } else {
        Some(join(parts, ", "@))
    }
}

/// The DNS hostname, else the friendly name of the service description.
pub open spec fn hostname_spec(dns: Option<Seq<char>>, service: Option<Service>) -> Option<Seq<char>> {
    match dns {
        Some(n) => Some(n),
        None => match service {
            Some(s) => opt_view(s.friendly_name),
            None => None,
        },
    }
}

/// The device record built from a linked host.
pub open spec fn device_spec(l: DiscoveredHostWithMac, services: Seq<Service>, vendors: VendorTable) -> DeviceView {
    let s = service_for(services, l.host.ip);
    DeviceView {
        local_address: match l.host.ip {
            IpAddress::V4(v) => v,
            IpAddress::V6(_) => 0,
        },
        ping_ms: l.host.ping_duration_ms,
        hostname: hostname_spec(opt_view(l.host.hostname), s),
        vendor: vendors.vendor_spec(mac_text(l.mac)),
        meta: meta_text(meta_parts(strings_view(l.host.meta@), s)),
    }
}

/// The inventory the linked hosts give, keyed by MAC address: IPv6 hosts
/// are left out, and a later host overwrites an earlier one with the same
/// MAC address.
pub open spec fn inventory_spec(links: Seq<DiscoveredHostWithMac>, services: Seq<Service>, vendors: VendorTable) -> Map<MacAddress, DeviceView>
    decreases links.len(),
{
    if links.len() == 0 {
        Map::empty()
    } else {
        let prev = inventory_spec(links.drop_last(), services, vendors);
        let l = links.last();
        if l.host.ip is V4 {
            prev.insert(l.mac, device_spec(l, services, vendors))
        } else {
            prev
        }
    }
}

pub open spec fn distinct_macs(devs: Seq<DiscoveredDevice>) -> bool {
    forall|i: int, j: int| 0 <= i < j < devs.len() ==> devs[i].mac != devs[j].mac
}

/// The devices hold exactly the entries of `m`, one device per key.
pub open spec fn inventory_matches(devs: Seq<DiscoveredDevice>, m: Map<MacAddress, DeviceView>) -> bool {
    &&& distinct_macs(devs)
    &&& forall|i: int|
        0 <= i < devs.len() ==> m.contains_key(#[trigger] devs[i].mac) && m[devs[i].mac] == devs[i]@
    &&& forall|k: MacAddress|
        m.contains_key(k) ==> exists|i: int| 0 <= i < devs.len() && #[trigger] devs[i].mac == k
}

fn clone_opt(o: &Option<String>) -> (r: Option<String>)
    ensures
        r == *o,
{
    match o {
        Some(s) => Some(s.clone()),
        None => None,
    }
}

/// The service description recorded for `ip`, if any.
pub fn find_service<'a>(services: &'a Vec<Service>, ip: IpAddress) -> (r: Option<&'a Service>)
    ensures
        match r {
            Some(s) => service_for(services@, ip) == Some(*s),
            None => service_for(services@, ip) is None,
        },
{
    let mut i: usize = 0;
    assert(services@.subrange(0, services@.len() as int) =~= services@);
    while i < services.len()
        invariant
            i <= services@.len(),
            service_for(services@, ip) == service_for(
                services@.subrange(i as int, services@.len() as int),
                ip,
            ),
        decreases services@.len() - i,
    {
        let ghost rest = services@.subrange(i as int, services@.len() as int);
        assert(rest.drop_first() =~= services@.subrange(i + 1, services@.len() as int));
        assert(rest[0] == services@[i as int]);
        if services[i].ip == ip {
            return Some(&services[i]);
        }
        i = i + 1;
    }
    None
}

/// Builds the inventory record of a linked IPv4 host.
pub fn merge_device(l: DiscoveredHostWithMac, services: &Vec<Service>, vendors: &VendorTable) -> (r: DiscoveredDevice)
    ensures
        r.mac == l.mac,
        r@ == device_spec(l, services@, *vendors),
{
    let ghost l0 = l;
    let DiscoveredHostWithMac { host, mac } = l;
    let DiscoveredHost { ip, ping_duration_ms, hostname, meta } = host;
    let service = find_service(services, ip);
    let mut parts = meta;
    if let Some(s) = service {
        if let Some(m) = &s.model_name {
            parts.push(m.clone());
        }
    }
    let ghost s_spec = service_for(services@, ip);
    assert(strings_view(parts@) =~= meta_parts(strings_view(l0.host.meta@), s_spec));
    let hostname = match hostname {
        Some(h) => Some(h),
        None => match service {
            Some(s) => clone_opt(&s.friendly_name),
            None => None,
        },
    };
    let mac_string = mac.text();
    let vendor = vendors.lookup(mac_string.as_str());
    let meta = if parts.len() == 0 {
        None
    } else {
        let mut text = String::new();
        push_joined(&mut text, &parts, ", ");
        assert(parts@.map_values(|p: String| p@) =~= strings_view(parts@));
        assert(text@ =~= join(strings_view(parts@), ", "@));
        Some(text)
    };
    let local_address = match ip {
        IpAddress::V4(v) => v,
        IpAddress::V6(_) => 0,
    };
    DiscoveredDevice { local_address, ping_ms: ping_duration_ms, hostname, mac, vendor, meta }
}

fn find_mac(devs: &Vec<DiscoveredDevice>, mac: MacAddress) -> (r: Option<usize>)
    ensures
        r matches Some(j) ==> j < devs@.len() && devs@[j as int].mac == mac,
        r is None ==> forall|i: int| 0 <= i < devs@.len() ==> devs@[i].mac != mac,
{
    let mut i: usize = 0;
    while i < devs.len()
        invariant
            i <= devs@.len(),
            forall|k: int| 0 <= k < i ==> devs@[k].mac != mac,
        decreases devs@.len() - i,
    {
        if devs[i].mac == mac {
            return Some(i);
        }
        i = i + 1;
    }
    None
}

/// Merges the linked hosts, the service descriptions and the vendor table
/// into the inventory: one device per MAC address, IPv6 hosts left out, a
/// later host overwriting an earlier one with the same MAC address.
pub fn discover_devices(links: Vec<DiscoveredHostWithMac>, services: &Vec<Service>, vendors: &VendorTable) -> (r: Vec<DiscoveredDevice>)
    ensures
        inventory_matches(r@, inventory_spec(links@, services@, *vendors)),
{
    let ghost all = links@;
    let n = links.len();
    let mut rest = links;
    let mut out: Vec<DiscoveredDevice> = Vec::new();
    let mut k: usize = 0;
    while k < n
        invariant
            n == all.len(),
            k <= n,
            rest@ == all.subrange(k as int, n as int),
            inventory_matches(out@, inventory_spec(all.subrange(0, k as int), services@, *vendors)),
        decreases n - k,
    {
        let l = rest.remove(0);
        let ghost pre = all.subrange(0, k + 1);
        let ghost m = inventory_spec(all.subrange(0, k as int), services@, *vendors);
        proof {
            assert(pre.drop_last() =~= all.subrange(0, k as int));
            assert(pre.last() == l);
        }
        let v4 = match l.host.ip {
            IpAddress::V4(_) => true,
            IpAddress::V6(_) => false,
        };
        if v4 {
            let dev = merge_device(l, services, vendors);
            let ghost m2 = m.insert(dev.mac, dev@);
            assert(m2 == inventory_spec(pre, services@, *vendors));
            match find_mac(&out, dev.mac) {
                Some(j) => {
                    let ghost before = out@;
                    out.remove(j);
                    out.push(dev);
                    proof {
                        let last = out@.len() - 1;
                        assert forall|i: int| 0 <= i < out@.len() implies m2.contains_key(
                            #[trigger] out@[i].mac,
                        ) && m2[out@[i].mac] == out@[i]@ by {
                            if i < last {
                                let src = if i < j { i } else { i + 1 };
                                assert(out@[i] == before[src]);
                            }
                        }
                        assert forall|key: MacAddress| m2.contains_key(key) implies exists|i: int|
                            0 <= i < out@.len() && #[trigger] out@[i].mac == key by {
                            if key == dev.mac {
                                assert(out@[last].mac == key);
                            } else {
                                let src = choose|i: int| 0 <= i < before.len() && #[trigger] before[i].mac == key;
                                assert(src != j);
                                let dst = if src < j { src } else { src - 1 };
                                assert(out@[dst] == before[src]);
                            }
                        }
                        assert forall|a: int, b: int| 0 <= a < b < out@.len() implies out@[a].mac
                            != out@[b].mac by {
                            let sa = if a < j { a } else { a + 1 };
                            if b < last {
                                let sb = if b < j { b } else { b + 1 };
                                assert(out@[a] == before[sa]);
                                assert(out@[b] == before[sb]);
                            } else {
                                assert(out@[a] == before[sa]);
                                assert(sa != j);
                            }
                        }
                    }
                },
                None => {
                    let ghost before = out@;
                    out.push(dev);
                    proof {
                        let last = out@.len() - 1;
                        assert forall|i: int| 0 <= i < out@.len() implies m2.contains_key(
                            #[trigger] out@[i].mac,
                        ) && m2[out@[i].mac] == out@[i]@ by {
                            if i < last {
                                assert(out@[i] == before[i]);
                            }
                        }
                        assert forall|key: MacAddress| m2.contains_key(key) implies exists|i: int|
                            0 <= i < out@.len() && #[trigger] out@[i].mac == key by {
                            if key == dev.mac {
                                assert(out@[last].mac == key);
                            } else {
                                let src = choose|i: int| 0 <= i < before.len() && #[trigger] before[i].mac == key;
                                assert(out@[src] == before[src]);
                            }
                        }
                    }
                },
            }
        } else {
            assert(m == inventory_spec(pre, services@, *vendors));
        }
        assert(rest@ =~= all.subrange(k + 1, n as int));
        k = k + 1;
    }
    assert(all.subrange(0, n as int) =~= all);
    out
}

/// A host reaches the inventory exactly when its link-layer resolution
/// produced a MAC address, under that address and with its own IPv4
/// address; IPv6 hosts never reach it. Stated for MAC addresses that are
/// pairwise distinct, since a repeated one keeps only the later host.
pub proof fn lemma_merge_funnel(
    hosts: Seq<DiscoveredHost>,
    macs: Seq<Option<MacAddress>>,
    services: Seq<Service>,
    vendors: VendorTable,
)
    requires
        hosts.len() == macs.len(),
        forall|i: int, j: int|
            0 <= i < j < macs.len() && macs[i] is Some ==> macs[i] != macs[j],
    ensures
        forall|i: int|
            0 <= i < hosts.len() && #[trigger] is_linked(hosts[i], macs[i]) ==> {
                let inv = inventory_spec(scan_spec(hosts, macs), services, vendors);
                &&& inv.contains_key(macs[i].unwrap())
                &&& inv[macs[i].unwrap()].local_address == hosts[i].ip->V4_0
            },
        forall|k: MacAddress|
            #[trigger] inventory_spec(scan_spec(hosts, macs), services, vendors).contains_key(k)
                ==> exists|i: int|
                0 <= i < hosts.len() && hosts[i].ip is V4 && macs[i] == Some(k)
                    && inventory_spec(scan_spec(hosts, macs), services, vendors)[k].local_address
                    == hosts[i].ip->V4_0,
    decreases hosts.len(),
{
    if hosts.len() > 0 {
        let n = hosts.len() - 1;
        let ph = hosts.drop_last();
        let pm = macs.subrange(0, n);
        lemma_merge_funnel(ph, pm, services, vendors);
        let prev_links = scan_spec(ph, pm);
        let links = scan_spec(hosts, macs);
        let prev = inventory_spec(prev_links, services, vendors);
        let inv = inventory_spec(links, services, vendors);
        if is_linked(hosts[n], macs[n]) {
            let l = DiscoveredHostWithMac { host: hosts[n], mac: macs[n].unwrap() };
            assert(links == prev_links + seq![l]);
            assert(links.drop_last() =~= prev_links);
            assert(links.last() == l);
            assert(inv == prev.insert(l.mac, device_spec(l, services, vendors)));
            assert forall|i: int|
                0 <= i < hosts.len() && #[trigger] is_linked(hosts[i], macs[i]) implies inv.contains_key(
                macs[i].unwrap(),
            ) && inv[macs[i].unwrap()].local_address == hosts[i].ip->V4_0 by {
                if i < n {
                    assert(ph[i] == hosts[i] && pm[i] == macs[i]);
                    assert(is_linked(ph[i], pm[i]));
                    assert(macs[i] != macs[n]);
                }
            }
            assert forall|k: MacAddress| #[trigger] inv.contains_key(k) implies exists|i: int|
                0 <= i < hosts.len() && hosts[i].ip is V4 && macs[i] == Some(k)
                    && inv[k].local_address == hosts[i].ip->V4_0 by {
                if k == l.mac {
                    assert(hosts[n].ip is V4 && macs[n] == Some(k));
                } else {
                    assert(prev.contains_key(k));
                    let i = choose|i: int|
                        0 <= i < ph.len() && ph[i].ip is V4 && pm[i] == Some(k)
                            && prev[k].local_address == ph[i].ip->V4_0;
                    assert(hosts[i] == ph[i] && macs[i] == pm[i]);
                }
            }
        } else {
            assert(links =~= prev_links);
            assert forall|i: int|
                0 <= i < hosts.len() && #[trigger] is_linked(hosts[i], macs[i]) implies inv.contains_key(
                macs[i].unwrap(),
            ) && inv[macs[i].unwrap()].local_address == hosts[i].ip->V4_0 by {
                assert(i < n);
                assert(ph[i] == hosts[i] && pm[i] == macs[i]);
                assert(is_linked(ph[i], pm[i]));
            }
            assert forall|k: MacAddress| #[trigger] inv.contains_key(k) implies exists|i: int|
                0 <= i < hosts.len() && hosts[i].ip is V4 && macs[i] == Some(k)
                    && inv[k].local_address == hosts[i].ip->V4_0 by {
                let i = choose|i: int|
                    0 <= i < ph.len() && ph[i].ip is V4 && pm[i] == Some(k)
                        && prev[k].local_address == ph[i].ip->V4_0;
                assert(hosts[i] == ph[i] && macs[i] == pm[i]);
            }
        }
    }
}

/// With the vendor table loaded, a merged device's vendor is the table's
/// company for its MAC address text, the same that `get_vendor_for_mac`
/// gives for that text.
pub proof fn lemma_merged_vendor(l: DiscoveredHostWithMac, services: Seq<Service>, vendors: VendorTable)
    requires
        vendors.is_loaded(),
    ensures
        device_spec(l, services, vendors).vendor == crate::vendor::oui_company(mac_text(l.mac)),
{
}

/// Merging a service description only appends its model name to the
/// metadata from DNS text records: those keep their place and order.
pub proof fn lemma_meta_append(host_meta: Seq<Seq<char>>, service: Service)
    ensures
        meta_parts(host_meta, Some(service)).subrange(0, host_meta.len() as int) == host_meta,
        meta_parts(host_meta, Some(service)).len() <= host_meta.len() + 1,
        service.model_name is None ==> meta_text(meta_parts(host_meta, Some(service))) == meta_text(
            host_meta,
        ),
        host_meta.len() > 0 && service.model_name is Some ==> meta_text(
            meta_parts(host_meta, Some(service)),
        ) == Some(join(host_meta, ", "@) + ", "@ + service.model_name.unwrap()@),
{
    let parts = meta_parts(host_meta, Some(service));
    assert(parts.subrange(0, host_meta.len() as int) =~= host_meta);
    if service.model_name is Some {
        assert(parts.drop_last() =~= host_meta);
    }
}

/// The model name of a service description, if any.
pub open spec fn model_of(s: Option<Service>) -> Option<Seq<char>> {
    match s {
        Some(sv) => opt_view(sv.model_name),
        None => None,
    }
}

/// A linked IPv4 host that no later host shares a MAC address with has its
/// own record in the inventory.
pub proof fn lemma_inventory_entry(
    links: Seq<DiscoveredHostWithMac>,
    services: Seq<Service>,
    vendors: VendorTable,
    i: int,
)
    requires
        0 <= i < links.len(),
        links[i].host.ip is V4,
        forall|j: int| i < j < links.len() ==> #[trigger] links[j].mac != links[i].mac,
    ensures
        inventory_spec(links, services, vendors).contains_key(links[i].mac),
        inventory_spec(links, services, vendors)[links[i].mac] == device_spec(
            links[i],
            services,
            vendors,
        ),
    decreases links.len(),
{
    let n = links.len() - 1;
    if i < n {
        let pre = links.drop_last();
        assert forall|j: int| i < j < pre.len() implies #[trigger] pre[j].mac != pre[i].mac by {
            assert(pre[j] == links[j]);
        }
        lemma_inventory_entry(pre, services, vendors, i);
        assert(pre[i] == links[i]);
        assert(links.last().mac != links[i].mac);
    }
}

/// Across a whole inventory, a device's metadata holds its host's DNS text
/// records unchanged and in order, followed by the model name of the
/// service description for its address where there is one; it is none
/// exactly when there is nothing to hold.
pub proof fn lemma_inventory_meta(
    links: Seq<DiscoveredHostWithMac>,
    services: Seq<Service>,
    vendors: VendorTable,
    i: int,
)
    requires
        0 <= i < links.len(),
        links[i].host.ip is V4,
        forall|j: int| i < j < links.len() ==> #[trigger] links[j].mac != links[i].mac,
    ensures
        ({
            let inv = inventory_spec(links, services, vendors);
            let m = strings_view(links[i].host.meta@);
            let s = service_for(services, links[i].host.ip);
            &&& inv[links[i].mac].meta == meta_text(meta_parts(m, s))
            &&& meta_parts(m, s).subrange(0, m.len() as int) == m
            &&& (model_of(s) is Some && m.len() > 0) ==> inv[links[i].mac].meta == Some(
                join(m, ", "@) + ", "@ + model_of(s).unwrap(),
            )
            &&& (model_of(s) is Some && m.len() == 0) ==> inv[links[i].mac].meta == model_of(s)
            &&& model_of(s) is None ==> inv[links[i].mac].meta == meta_text(m)
        }),
{
    lemma_inventory_entry(links, services, vendors, i);
    let m = strings_view(links[i].host.meta@);
    let s = service_for(services, links[i].host.ip);
    assert(meta_parts(m, s).subrange(0, m.len() as int) =~= m);
    if let Some(sv) = s {
        lemma_meta_append(m, sv);
        if sv.model_name is Some && m.len() == 0 {
            assert(meta_parts(m, s) =~= seq![sv.model_name.unwrap()@]);
        }
    }
}

/// Two inventories built from the same inputs agree device for device:
/// the same MAC addresses with the same field values, in any order.
pub proof fn lemma_inventory_determined(
    a: Seq<DiscoveredDevice>,
    b: Seq<DiscoveredDevice>,
    m: Map<MacAddress, DeviceView>,
)
    requires
        inventory_matches(a, m),
        inventory_matches(b, m),
    ensures
        a.len() == b.len(),
        forall|i: int|
            #![trigger a[i]]
            0 <= i < a.len() ==> exists|j: int|
                #![trigger b[j]]
                0 <= j < b.len() && b[j].mac == a[i].mac && b[j]@ == a[i]@,
{
    assert forall|i: int| #![trigger a[i]] 0 <= i < a.len() implies exists|j: int|
        #![trigger b[j]]
        0 <= j < b.len() && b[j].mac == a[i].mac && b[j]@ == a[i]@ by {
        let key = a[i].mac;
        assert(m.contains_key(key));
        let j = choose|j: int| 0 <= j < b.len() && #[trigger] b[j].mac == key;
        assert(b[j]@ == m[key]);
    }
    lemma_len_is_key_count(a, m);
    lemma_len_is_key_count(b, m);
}

proof fn lemma_len_is_key_count(a: Seq<DiscoveredDevice>, m: Map<MacAddress, DeviceView>)
    requires
        inventory_matches(a, m),
    ensures
        m.dom().finite(),
        a.len() == m.dom().len(),
{
    let keys = a.map_values(|d: DiscoveredDevice| d.mac);
    assert(keys.no_duplicates()) by {
        assert forall|i: int, j: int| 0 <= i < keys.len() && 0 <= j < keys.len() && i != j implies keys[i]
            != keys[j] by {
            if i < j {
                assert(a[i].mac != a[j].mac);
            } else {
                assert(a[j].mac != a[i].mac);
            }
        }
    }
    assert(keys.to_set() =~= m.dom()) by {
        assert forall|k: MacAddress| m.dom().contains(k) implies keys.to_set().contains(k) by {
            let i = choose|i: int| 0 <= i < a.len() && #[trigger] a[i].mac == k;
            assert(keys[i] == k);
        }
        assert forall|k: MacAddress| keys.to_set().contains(k) implies m.dom().contains(k) by {
            let i = choose|i: int| 0 <= i < keys.len() && keys[i] == k;
            assert(m.contains_key(a[i].mac));
        }
    }
    keys.unique_seq_to_set();
}

} // verus!
