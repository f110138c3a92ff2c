//! Service discovery: which advertisements get their description fetched,
//! and the table of service descriptions keyed by address. The search and
//! the fetch are made by the caller.
use vstd::prelude::*;
use crate::addr::IpAddress;

verus! {

/// What a device's service description says about it.
#[derive(Debug)]
pub struct Service {
    pub location: String,
    pub ip: IpAddress,
    pub friendly_name: Option<String>,
    pub model_name: Option<String>,
    pub vendor: Option<String>,
}

/// The fields read from a device-description document.
#[derive(Debug)]
pub struct DeviceDescription {
    pub friendly_name: Option<String>,
    pub manufacturer: Option<String>,
    pub model_name: Option<String>,
}

/// The IP address literal in the host part of a location URL, none where
/// the text is no absolute URL or its host is a domain name.
pub uninterp spec fn location_host_ip(location: Seq<char>) -> Option<IpAddress>;

/// Relies on url::Url::parse and url::Url::host: the host of an absolute
/// URL, when that host is an IPv4 or IPv6 address literal.
#[verifier::external_body]
fn location_ip(location: &str) -> (r: Option<IpAddress>)
    ensures
        r == location_host_ip(location@),
{
    match url::Url::parse(location).ok()?.host()? {
        url::Host::Ipv4(a) => Some(IpAddress::V4(a.into())),
        url::Host::Ipv6(a) => Some(IpAddress::V6(a.into())),
        url::Host::Domain(_) => None,
    }
}

pub open spec fn has_ip(services: Seq<Service>, ip: IpAddress) -> bool {
    exists|i: int| 0 <= i < services.len() && #[trigger] services[i].ip == ip
}

/// No two descriptions share an address.
pub open spec fn unique_ips(services: Seq<Service>) -> bool {
    forall|i: int, j: int| 0 <= i < j < services.len() ==> services[i].ip != services[j].ip
}

/// Which address an advertisement at `location` leads to a fetch for,
/// given the addresses whose advertisement was already taken.
pub open spec fn wanted_spec(seen: Seq<IpAddress>, location: Seq<char>) -> Option<IpAddress> {
    match location_host_ip(location) {
        Some(ip) => if seen.contains(ip) {
            None
        } else {
            Some(ip)
        },
        None => None,
    }
}

fn seen_contains(seen: &Vec<IpAddress>, ip: IpAddress) -> (r: bool)
    ensures
        r == seen@.contains(ip),
{
    let mut i: usize = 0;
    while i < seen.len()
        invariant
            i <= seen@.len(),
            forall|k: int| 0 <= k < i ==> seen@[k] != ip,
        decreases seen@.len() - i,
    {
        if seen[i] == ip {
            assert(seen@[i as int] == ip);
            return true;
        }
        i = i + 1;
    }
    false
}

/// Whether some description is recorded for `ip`.
pub fn contains_ip(services: &Vec<Service>, ip: IpAddress) -> (r: bool)
    ensures
        r == has_ip(services@, ip),
{
    let mut i: usize = 0;
    while i < services.len()
        invariant
            i <= services@.len(),
            forall|k: int| 0 <= k < i ==> services@[k].ip != ip,
        decreases services@.len() - i,
    {
        if services[i].ip == ip {
            return true;
        }
        i = i + 1;
    }
    false
}

/// The address whose description should be fetched for an advertisement,
/// noting it as taken: none where the location holds no IP address, or
/// where an earlier advertisement of that address was taken already (the
/// first advertisement of an address wins, whether or not its description
/// could be fetched).
pub fn wants_description(seen: &mut Vec<IpAddress>, location: &str) -> (r: Option<IpAddress>)
    ensures
        r == wanted_spec(old(seen)@, location@),
        final(seen)@ == match r {
            Some(ip) => old(seen)@.push(ip),
            None => old(seen)@,
        },
{
    match location_ip(location) {
        Some(ip) => if seen_contains(seen, ip) {
            None
        } else {
            seen.push(ip);
            Some(ip)
        },
        None => None,
    }
}

/// Records the description fetched for `ip`, unless that address has one
/// already.
pub fn record_description(
    services: &mut Vec<Service>,
    ip: IpAddress,
    location: String,
    desc: DeviceDescription,
)
    ensures
        has_ip(old(services)@, ip) ==> final(services)@ == old(services)@,
        !has_ip(old(services)@, ip) ==> final(services)@ == old(services)@.push(
            Service {
                location,
                ip,
                friendly_name: desc.friendly_name,
                model_name: desc.model_name,
                vendor: desc.manufacturer,
            },
        ),
        unique_ips(old(services)@) ==> unique_ips(final(services)@),
{
    if contains_ip(services, ip) {
        return;
    }
    let DeviceDescription { friendly_name, manufacturer, model_name } = desc;
    services.push(Service { location, ip, friendly_name, model_name, vendor: manufacturer });
    proof {
        let s = final(services)@;
        assert forall|i: int, j: int| 0 <= i < j < s.len() && unique_ips(old(services)@) implies s[i].ip
            != s[j].ip by {
            if j == s.len() - 1 {
                assert(s[i] == old(services)@[i]);
            }
        }
    }
}

} // verus!
