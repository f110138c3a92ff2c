//! The report sent to the collector: one entry per device, keyed by MAC
//! address text.
use vstd::prelude::*;
use vstd::string::StringExecFns;
use crate::addr::{dotted, dotted_text, mac_text};
use crate::merge::DiscoveredDevice;
use crate::resolve::opt_view;

verus! {

/// One device as the collector receives it.
#[derive(Clone, Debug)]
pub struct DevicePing {
    pub ping_ms: Option<u64>,
    pub local_address: Option<String>,
    pub mac: Option<String>,
    pub hostname: Option<String>,
    pub meta: Option<String>,
    pub friendly_name: Option<String>,
    pub is_agent: bool,
}

/// The whole report: device entries keyed by MAC address text.
#[derive(Clone, Debug)]
pub struct PingReport {
    pub devices: Vec<(String, DevicePing)>,
}

/// The body of an error answer of the collector.
#[derive(Clone, Debug)]
pub struct ApiError<T> {
    pub error: T,
}

impl ApiError<String> {
    /// The text shown to the operator for this error.
    pub fn message(&self) -> (r: String)
        ensures
            r@ == "API Error: "@ + self.error@,
    {
        let mut s = String::from_str("API Error: ");
        s.append(self.error.as_str());
        s
    }
}

/// The collector endpoint for an agent: `<origin>/<agent id>`.
pub fn report_url(origin: &str, agent_id: &str) -> (r: String)
    ensures
        r@ == origin@ + "/"@ + agent_id@,
{
    let mut s = String::from_str(origin);
    s.append("/");
    s.append(agent_id);
    s
}

/// Sends reports on behalf of one agent.
#[derive(Clone, Debug)]
pub struct Transmitter {
    pub agent_id: String,
}

impl Transmitter {
    pub fn new(agent_id: String) -> (r: Transmitter)
        ensures
            r.agent_id == agent_id,
    {
        Transmitter { agent_id }
    }

    /// The endpoint this agent's reports go to under `origin`.
    pub fn endpoint(&self, origin: &str) -> (r: String)
        ensures
            r@ == origin@ + "/"@ + self.agent_id@,
    {
        report_url(origin, self.agent_id.as_str())
    }
}

/// The report entry of a device: every field present but the friendly
/// name, the vendor left out, not an agent.
pub open spec fn ping_matches(p: DevicePing, d: DiscoveredDevice) -> bool {
    &&& p.ping_ms == Some(d.ping_ms)
    &&& opt_view(p.local_address) == Some(dotted(d.local_address))
    &&& opt_view(p.mac) == Some(mac_text(d.mac))
    &&& p.hostname == d.hostname
    &&& p.meta == d.meta
    &&& p.friendly_name is None
    &&& !p.is_agent
}

fn clone_opt(o: &Option<String>) -> (r: Option<String>)
    ensures
        r == *o,
{
    match o {
        Some(s) => Some(s.clone()),
        None => None,
    }
}

/// The report entry of one device.
pub fn device_ping(d: &DiscoveredDevice) -> (r: DevicePing)
    ensures
        ping_matches(r, *d),
{
    DevicePing {
        ping_ms: Some(d.ping_ms),
        local_address: Some(dotted_text(d.local_address)),
        mac: Some(d.mac.text()),
        hostname: clone_opt(&d.hostname),
        meta: clone_opt(&d.meta),
        friendly_name: None,
        is_agent: false,
    }
}

/// The report of an inventory: one entry per device, in order, keyed by the
/// device's MAC address text.
pub fn ping_report(devices: &Vec<DiscoveredDevice>) -> (r: PingReport)
    ensures
        r.devices@.len() == devices@.len(),
        forall|i: int|
            0 <= i < devices@.len() ==> (#[trigger] r.devices@[i]).0@ == mac_text(devices@[i].mac)
                && ping_matches(r.devices@[i].1, devices@[i]),
{
    let mut out: Vec<(String, DevicePing)> = Vec::new();
    let mut i: usize = 0;
    while i < devices.len()
        invariant
            i <= devices@.len(),
            out@.len() == i,
            forall|k: int|
                0 <= k < i ==> (#[trigger] out@[k]).0@ == mac_text(devices@[k].mac) && ping_matches(
                    out@[k].1,
                    devices@[k],
                ),
        decreases devices@.len() - i,
    {
        let d = &devices[i];
        out.push((d.mac.text(), device_ping(d)));
        i = i + 1;
    }
    PingReport { devices: out }
}

} // verus!
