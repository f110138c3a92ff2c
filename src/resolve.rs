//! Reverse name resolution: what a probe's DNS exchange yields for a host.
//! The exchange itself (a query session against the host's port 5353) is
//! performed by the caller; this module decides what its outcome means.
use vstd::prelude::*;
use crate::addr::IpAddress;

verus! {

/// A host that answered the reachability probe.
#[derive(Clone, Copy, Debug)]
pub struct PingResult {
    pub ip: IpAddress,
    /// Round-trip time in milliseconds.
    pub duration_ms: u64,
}

/// The data of one resource record, as far as resolution cares.
#[derive(Clone, Debug)]
pub enum DnsRecord {
    /// A pointer record naming a host.
    Ptr(String),
    /// A text record, rendered as one string.
    Txt(String),
    /// Any other record type.
    Other,
}

/// How the reverse lookup of one host went.
#[derive(Clone, Debug)]
pub enum LookupOutcome {
    /// The query session could not be established.
    SessionFailed,
    /// The session was established, but the query failed or timed out.
    QueryFailed,
    /// The query was answered.
    Answered { answers: Vec<DnsRecord>, additionals: Vec<DnsRecord> },
}

/// Errors of reverse resolution.
#[derive(Clone, Copy, Debug, PartialEq, Eq, Structural)]
pub enum Error {
    /// Establishing the lookup session for some host failed.
    SessionSetup,
}

/// Hostname and text metadata obtained for one address.
#[derive(Clone, Debug)]
pub struct ResolvedHost {
    pub hostname: Option<String>,
    pub meta: Vec<String>,
}

/// A reachable host with what reverse resolution found for it.
#[derive(Clone, Debug)]
pub struct DiscoveredHost {
    pub ip: IpAddress,
    pub ping_duration_ms: u64,
    pub hostname: Option<String>,
    pub meta: Vec<String>,
}

pub open spec fn opt_view(o: Option<String>) -> Option<Seq<char>> {
    match o {
        Some(s) => Some(s@),
        None => None,
    }
}

pub open spec fn strings_view(v: Seq<String>) -> Seq<Seq<char>> {
    v.map_values(|s: String| s@)
}

/// The name of the first pointer record of `recs`, if any.
pub open spec fn first_ptr(recs: Seq<DnsRecord>) -> Option<Seq<char>>
    decreases recs.len(),
{
    if recs.len() == 0 {
        None
    } else {
        match recs[0] {
            DnsRecord::Ptr(n) => Some(n@),
            _ => first_ptr(recs.drop_first()),
        }
    }
}

/// The values of the text records of `recs`, in order.
pub open spec fn txt_values(recs: Seq<DnsRecord>) -> Seq<Seq<char>>
    decreases recs.len(),
{
    if recs.len() == 0 {
        Seq::empty()
    } else {
        txt_values(recs.drop_last()) + match recs.last() {
            DnsRecord::Txt(t) => seq![t@],
            _ => Seq::empty(),
        }
    }
}

/// What a lookup outcome yields: a session failure is an error, a failed
/// query yields nothing, an answer yields its first pointer name and its
/// additional text records.
pub open spec fn outcome_spec(o: LookupOutcome) -> Result<(Option<Seq<char>>, Seq<Seq<char>>), Error> {
    match o {
        LookupOutcome::SessionFailed => Err(Error::SessionSetup),
        LookupOutcome::QueryFailed => Ok((None, Seq::empty())),
        LookupOutcome::Answered { answers, additionals } => Ok(
            (first_ptr(answers@), txt_values(additionals@)),
        ),
    }
}

fn first_ptr_name(answers: &Vec<DnsRecord>) -> (r: Option<String>)
    ensures
        opt_view(r) == first_ptr(answers@),
{
    let mut i: usize = 0;
    assert(answers@.subrange(0, answers@.len() as int) =~= answers@);
    while i < answers.len()
        invariant
            i <= answers@.len(),
            first_ptr(answers@) == first_ptr(answers@.subrange(i as int, answers@.len() as int)),
        decreases answers@.len() - i,
    {
        let ghost rest = answers@.subrange(i as int, answers@.len() as int);
        assert(rest.drop_first() =~= answers@.subrange(i + 1, answers@.len() as int));
        assert(rest[0] == answers@[i as int]);
        if let DnsRecord::Ptr(n) = &answers[i] {
            return Some(n.clone());
        }
        i = i + 1;
    }
    assert(answers@.subrange(i as int, answers@.len() as int) =~= Seq::<DnsRecord>::empty());
    None
}

/// Hostname from the first pointer record of the answer section, metadata
/// from every text record of the additional section, in response order.
pub fn interpret_answer(answers: &Vec<DnsRecord>, additionals: &Vec<DnsRecord>) -> (r: ResolvedHost)
    ensures
        opt_view(r.hostname) == first_ptr(answers@),
        strings_view(r.meta@) == txt_values(additionals@),
{
    let hostname = first_ptr_name(answers);
    let mut meta: Vec<String> = Vec::new();
    let mut j: usize = 0;
    while j < additionals.len()
        invariant
            j <= additionals@.len(),
            strings_view(meta@) == txt_values(additionals@.subrange(0, j as int)),
        decreases additionals@.len() - j,
    {
        let ghost pre = additionals@.subrange(0, j + 1);
        assert(pre.drop_last() =~= additionals@.subrange(0, j as int));
        if let DnsRecord::Txt(t) = &additionals[j] {
            meta.push(t.clone());
            assert(strings_view(meta@) =~= txt_values(pre));
        } else {
            assert(strings_view(meta@) =~= txt_values(pre));
        }
        j = j + 1;
    }
    assert(additionals@.subrange(0, additionals@.len() as int) =~= additionals@);
    ResolvedHost { hostname, meta }
}

/// Decides what a host's lookup outcome yields.
pub fn resolve_outcome(outcome: &LookupOutcome) -> (r: Result<ResolvedHost, Error>)
    ensures
        r matches Ok(h) ==> outcome_spec(*outcome) == Ok::<(Option<Seq<char>>, Seq<Seq<char>>), Error>(
            (opt_view(h.hostname), strings_view(h.meta@)),
        ),
        r matches Err(e) ==> outcome_spec(*outcome) == Err::<(Option<Seq<char>>, Seq<Seq<char>>), Error>(e),
{
    match outcome {
        LookupOutcome::SessionFailed => Err(Error::SessionSetup),
        LookupOutcome::QueryFailed => {
            let h = ResolvedHost { hostname: None, meta: Vec::new() };
            assert(strings_view(h.meta@) =~= Seq::<Seq<char>>::empty());
            Ok(h)
        },
        LookupOutcome::Answered { answers, additionals } => Ok(interpret_answer(answers, additionals)),
    }
}

/// The host a probe result becomes once its lookup outcome is known.
pub open spec fn host_matches(h: DiscoveredHost, ping: PingResult, o: LookupOutcome) -> bool {
    &&& h.ip == ping.ip
    &&& h.ping_duration_ms == ping.duration_ms
    &&& outcome_spec(o) == Ok::<(Option<Seq<char>>, Seq<Seq<char>>), Error>(
        (opt_view(h.hostname), strings_view(h.meta@)),
    )
}

/// Attaches the outcome of a host's reverse lookup to its probe result.
pub fn reverse_dns_ip(ping: PingResult, outcome: &LookupOutcome) -> (r: Result<DiscoveredHost, Error>)
    ensures
        r matches Ok(h) ==> host_matches(h, ping, *outcome),
        r is Err <==> outcome_spec(*outcome) is Err,
{
    let ResolvedHost { hostname, meta } = resolve_outcome(outcome)?;
    Ok(DiscoveredHost { ip: ping.ip, ping_duration_ms: ping.duration_ms, hostname, meta })
}

/// Resolves every reachable host from its lookup outcome (`outcomes[i]`
/// belongs to `pings[i]`). A failure to establish any host's lookup session
/// fails the whole set; every other outcome yields a host.
pub fn reverse_dns(pings: Vec<PingResult>, outcomes: &Vec<LookupOutcome>) -> (r: Result<Vec<DiscoveredHost>, Error>)
    requires
        pings@.len() == outcomes@.len(),
    ensures
        r is Err <==> exists|i: int|
            0 <= i < outcomes@.len() && #[trigger] outcome_spec(outcomes@[i]) is Err,
        r matches Ok(hs) ==> hs@.len() == pings@.len() && forall|i: int|
            0 <= i < hs@.len() ==> host_matches(#[trigger] hs@[i], pings@[i], outcomes@[i]),
{
    let mut out: Vec<DiscoveredHost> = Vec::new();
    let mut i: usize = 0;
    while i < pings.len()
        invariant
            i <= pings@.len(),
            pings@.len() == outcomes@.len(),
            out@.len() == i,
            forall|k: int| 0 <= k < i ==> !(#[trigger] outcome_spec(outcomes@[k]) is Err),
            forall|k: int| 0 <= k < i ==> host_matches(#[trigger] out@[k], pings@[k], outcomes@[k]),
        decreases pings@.len() - i,
    {
        let ping = pings[i];
        match reverse_dns_ip(ping, &outcomes[i]) {
            Ok(h) => out.push(h),
            Err(e) => {
                return Err(e);
            },
        }
        i = i + 1;
    }
    Ok(out)
}

} // verus!
