//! Link-layer resolution: which hosts get a MAC address attached.
//! The resolution request itself is made by the caller.
use vstd::prelude::*;
use crate::addr::{IpAddress, MacAddress};
use crate::resolve::DiscoveredHost;

verus! {

/// A resolved host together with its link-layer address.
#[derive(Debug)]
pub struct DiscoveredHostWithMac {
    pub host: DiscoveredHost,
    pub mac: MacAddress,
}

/// The IPv4 address to resolve for a host; IPv6 hosts are not resolved.
pub open spec fn target_spec(ip: IpAddress) -> Option<u32> {
    match ip {
        IpAddress::V4(v) => Some(v),
        IpAddress::V6(_) => None,
    }
}

/// The IPv4 address whose link-layer address should be requested, none for
/// an IPv6 address.
pub fn link_target(ip: IpAddress) -> (r: Option<u32>)
    ensures
        r == target_spec(ip),
{
    match ip {
        IpAddress::V4(v) => Some(v),
        IpAddress::V6(_) => None,
    }
}

/// Whether a host with this resolution result is kept.
pub open spec fn is_linked(h: DiscoveredHost, mac: Option<MacAddress>) -> bool {
    h.ip is V4 && mac is Some
}

/// The hosts kept, in order, each with its MAC address.
pub open spec fn scan_spec(hosts: Seq<DiscoveredHost>, macs: Seq<Option<MacAddress>>) -> Seq<
    DiscoveredHostWithMac,
>
    decreases hosts.len(),
{
    if hosts.len() == 0 {
        Seq::empty()
    } else {
        let n = hosts.len() - 1;
        scan_spec(hosts.drop_last(), macs.subrange(0, n)) + if is_linked(hosts[n], macs[n]) {
            seq![DiscoveredHostWithMac { host: hosts[n], mac: macs[n].unwrap() }]
        } else {
            Seq::empty()
        }
    }
}

/// Attaches a resolution result to a host: IPv6 hosts and hosts without a
/// MAC address are dropped.
pub fn resolve_simple(host: DiscoveredHost, mac: Option<MacAddress>) -> (r: Option<DiscoveredHostWithMac>)
    ensures
        r is Some <==> is_linked(host, mac),
        r matches Some(l) ==> l.host == host && Some(l.mac) == mac,
{
    if link_target(host.ip).is_none() {
        return None;
    }
    match mac {
        Some(m) => Some(DiscoveredHostWithMac { host, mac: m }),
        None => None,
    }
}

/// Keeps each host whose link-layer resolution succeeded (`macs[i]` belongs
/// to `hosts[i]`), in order.
pub fn scan(hosts: Vec<DiscoveredHost>, macs: &Vec<Option<MacAddress>>) -> (r: Vec<DiscoveredHostWithMac>)
    requires
        hosts@.len() == macs@.len(),
    ensures
        r@ == scan_spec(hosts@, macs@),
{
    let ghost all = hosts@;
    let mut rest = hosts;
    let mut out: Vec<DiscoveredHostWithMac> = Vec::new();
    let mut k: usize = 0;
    let n = macs.len();
    while k < n
        invariant
            n == macs@.len() == all.len(),
            k <= n,
            rest@ == all.subrange(k as int, n as int),
            out@ == scan_spec(all.subrange(0, k as int), macs@.subrange(0, k as int)),
        decreases n - k,
    {
        let h = rest.remove(0);
        let ghost pre = all.subrange(0, k + 1);
        proof {
            assert(pre.drop_last() =~= all.subrange(0, k as int));
            assert(macs@.subrange(0, k + 1).subrange(0, k as int) =~= macs@.subrange(0, k as int));
            assert(pre[k as int] == h);
        }
        if let Some(l) = resolve_simple(h, macs[k]) {
            out.push(l);
        }
        assert(rest@ =~= all.subrange(k + 1, n as int));
        k = k + 1;
        assert(out@ =~= scan_spec(all.subrange(0, k as int), macs@.subrange(0, k as int)));
    }
    assert(all.subrange(0, n as int) =~= all);
    assert(macs@.subrange(0, n as int) =~= macs@);
    out
}

} // verus!
