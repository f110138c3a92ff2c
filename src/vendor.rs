//! Manufacturer lookup by the organizationally unique prefix of a MAC
//! address, against the OUI table bundled with `mac_oui`.
use vstd::prelude::*;
use mac_oui::Oui;
use crate::resolve::opt_view;

verus! {

#[verifier::external_type_specification]
#[verifier::external_body]
pub struct ExOui(mac_oui::Oui);

/// The company name that the bundled OUI table gives for a MAC address
/// text, or none where the text is malformed or its prefix is unknown.
pub uninterp spec fn oui_company(mac: Seq<char>) -> Option<Seq<char>>;

/// Relies on mac_oui::Oui::default: parses the OUI table built into the
/// crate, a fixed text that parses on every run.
#[verifier::external_body]
fn load_bundled() -> (r: Option<Oui>)
    ensures
        r is Some,
{
    Oui::default().ok()
}

/// Relies on mac_oui::Oui::lookup_by_mac: the company name of the entry
/// whose range holds the address, none for malformed text or no entry.
/// Every table this library holds is the bundled one (see `load_bundled`).
#[verifier::external_body]
fn company_for(db: &Oui, mac: &str) -> (r: Option<String>)
    ensures
        opt_view(r) == oui_company(mac@),
{
    db.lookup_by_mac(mac).ok().flatten().map(|e| e.company_name.clone())
}

/// The vendor table, built once and then only read.
pub struct VendorTable {
    db: Option<Oui>,
}

impl VendorTable {
    /// Whether the bundled table could be parsed.
    pub closed spec fn is_loaded(&self) -> bool {
        self.db is Some
    }

    /// The vendor this table gives for a MAC address text.
    pub open spec fn vendor_spec(&self, mac: Seq<char>) -> Option<Seq<char>> {
        if self.is_loaded() {
            oui_company(mac)
        } else {
            None
        }
    }

    /// Loads the bundled table.
    pub fn load() -> (r: VendorTable)
        ensures
            r.is_loaded(),
    {
        VendorTable { db: load_bundled() }
    }

    /// Looks up the manufacturer of a MAC address; a table that failed to
    /// load knows no vendor.
    pub fn lookup(&self, mac: &str) -> (r: Option<String>)
        ensures
            opt_view(r) == self.vendor_spec(mac@),
    {
        match &self.db {
            Some(db) => company_for(db, mac),
            None => None,
        }
    }
}

/// The manufacturer of a MAC address (`aa:bb:cc:dd:ee:ff`) by its prefix,
/// none where the text is malformed or the prefix is unknown.
pub fn get_vendor_for_mac(mac: &str) -> (r: Option<String>)
    ensures
        opt_view(r) == oui_company(mac@),
{
    let table = VendorTable::load();
    table.lookup(mac)
}

} // verus!
