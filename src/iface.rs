//! Choice of the local interface address used for outbound traffic, among
//! the addresses the system reports.
use vstd::prelude::*;
use crate::addr::IpAddress;

verus! {

/// One address entry of a network interface, as the system reports it.
#[derive(Clone, Copy, Debug, PartialEq, Eq, Structural)]
pub struct InterfaceAddress {
    pub address: Option<IpAddress>,
    pub mask: Option<IpAddress>,
}

/// Why no interface could be chosen.
#[derive(Clone, Copy, Debug, PartialEq, Eq, Structural)]
pub enum InterfaceError {
    /// No interface holds the locally bound address.
    NoInterfaceFound,
}

/// The netmask assumed for an address reported without one: a /24 for
/// IPv4, a /112 for IPv6.
pub open spec fn default_mask(ip: IpAddress) -> IpAddress {
    match ip {
        IpAddress::V4(_) => IpAddress::V4(0xffff_ff00),
        IpAddress::V6(_) => IpAddress::V6(0xffff_ffff_ffff_ffff_ffff_ffff_ffff_0000),
    }
}

/// The first entry holding `local`, with its mask or the default one.
pub open spec fn select_spec(local: IpAddress, entries: Seq<InterfaceAddress>) -> Option<(IpAddress, IpAddress)>
    decreases entries.len(),
{
    if entries.len() == 0 {
        None
    } else if entries[0].address == Some(local) {
        match entries[0].mask {
            Some(m) => Some((local, m)),
            None => Some((local, default_mask(local))),
        }
    } else {
        select_spec(local, entries.drop_first())
    }
}

/// Chooses the address and netmask of the interface that holds the locally
/// bound address `local`: the first entry with that address, its mask
/// defaulting to a /24 (IPv4) or /112 (IPv6).
pub fn select_interface(local: IpAddress, entries: &Vec<InterfaceAddress>) -> (r: Result<(IpAddress, IpAddress), InterfaceError>)
    ensures
        r matches Ok(p) ==> select_spec(local, entries@) == Some(p),
        r is Err <==> select_spec(local, entries@) is None,
{
    let mut i: usize = 0;
    assert(entries@.subrange(0, entries@.len() as int) =~= entries@);
    while i < entries.len()
        invariant
            i <= entries@.len(),
            select_spec(local, entries@) == select_spec(
                local,
                entries@.subrange(i as int, entries@.len() as int),
            ),
        decreases entries@.len() - i,
    {
        let ghost rest = entries@.subrange(i as int, entries@.len() as int);
        assert(rest.drop_first() =~= entries@.subrange(i + 1, entries@.len() as int));
        assert(rest[0] == entries@[i as int]);
        let e = entries[i];
        if e.address == Some(local) {
            let mask = match e.mask {
                Some(m) => m,
                None => match local {
                    IpAddress::V4(_) => IpAddress::V4(0xffff_ff00),
                    IpAddress::V6(_) => IpAddress::V6(0xffff_ffff_ffff_ffff_ffff_ffff_ffff_0000),
                },
            };
            return Ok((local, mask));
        }
        i = i + 1;
    }
    Err(InterfaceError::NoInterfaceFound)
}

} // verus!
