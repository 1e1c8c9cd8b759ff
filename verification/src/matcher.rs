use vstd::prelude::*;

use crate::addr::Ipv4;
use crate::pattern::{label_matches, str_starts_with, InterfacePattern};

verus! {

/// One interface's current address as reported by the address source;
/// produced per resolution item or per monitor event, never retained.
#[derive(Debug, Clone)]
pub struct AddressRecord {
    pub label: String,
    pub addr: Ipv4,
}

/// The label matcher: decides whether a record's interface is the one the
/// pattern names and, on a match, hands back its label and address
/// unchanged. Pure and total; the single source of truth for both phases.
pub fn match_record(pattern: &InterfacePattern, record: &AddressRecord) -> (r: Option<(String, Ipv4)>)
    ensures
        r.is_some() == label_matches(*pattern, record.label@),
        r.is_some() ==> r.unwrap().0@ == record.label@ && r.unwrap().1 == record.addr,
{
    let matched = if pattern.prefix_mode {
        str_starts_with(record.label.as_str(), pattern.text.as_str())
    } else {
        record.label == pattern.text
    };
    if matched {
        Some((record.label.clone(), record.addr))
    } else {
        None
    }
}

} // verus!
