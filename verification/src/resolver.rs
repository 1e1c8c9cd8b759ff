use vstd::prelude::*;

use crate::addr::Ipv4;
use crate::matcher::{match_record, AddressRecord};
use crate::pattern::{label_matches, InterfacePattern};

verus! {

/// Index `i` holds the first record of `records` whose label matches the
/// pattern.
pub open spec fn first_match_at(
    pattern: InterfacePattern,
    records: Seq<AddressRecord>,
    i: int,
) -> bool {
    &&& 0 <= i < records.len()
    &&& label_matches(pattern, records[i].label@)
    &&& forall|j: int| 0 <= j < i ==> !label_matches(pattern, records[j].label@)
}

/// The address resolver: walks the startup sequence in source order and
/// returns the first matching record's label and address, or `None` when no
/// record matches — an expected state, not a failure.
pub fn resolve(pattern: &InterfacePattern, records: &Vec<AddressRecord>) -> (r: Option<(String, Ipv4)>)
    ensures
        r.is_none() ==> forall|i: int|
            0 <= i < records@.len() ==> !label_matches(*pattern, records@[i].label@),
        r.is_some() ==> exists|i: int|
            #[trigger] first_match_at(*pattern, records@, i)
                && r.unwrap().0@ == records@[i].label@
                && r.unwrap().1 == records@[i].addr,
{
    let mut k: usize = 0;
    while k < records.len()
        invariant
            k <= records@.len(),
            forall|j: int| 0 <= j < k ==> !label_matches(*pattern, records@[j].label@),
        decreases records@.len() - k,
    {
        let r = match_record(pattern, &records[k]);
        if r.is_some() {
            proof {
                assert(first_match_at(*pattern, records@, k as int));
            }
            return r;
        }
        k += 1;
    }
    None
}

/// What the startup pass reports to the sink: the first matching record's
/// address, or the all-zero sentinel when no record matches.
pub open spec fn initial_address(pattern: InterfacePattern, records: Seq<AddressRecord>) -> Ipv4
    decreases records.len(),
{
    if records.len() == 0 {
        Ipv4::spec_unspecified()
    } else if label_matches(pattern, records[0].label@) {
        records[0].addr
    } else {
        initial_address(pattern, records.drop_first())
    }
}

/// The reported initial address is the first matching record's address.
pub proof fn lemma_initial_address_first_match(
    pattern: InterfacePattern,
    records: Seq<AddressRecord>,
    k: int,
)
    requires
        first_match_at(pattern, records, k),
    ensures
        initial_address(pattern, records) == records[k].addr,
    decreases k,
{
    if k > 0 {
        lemma_initial_address_first_match(pattern, records.drop_first(), k - 1);
    }
}

/// With no matching record at all, the initial address is the sentinel.
pub proof fn lemma_initial_address_no_match(pattern: InterfacePattern, records: Seq<AddressRecord>)
    requires
        forall|i: int| 0 <= i < records.len() ==> !label_matches(pattern, records[i].label@),
    ensures
        initial_address(pattern, records) == Ipv4::spec_unspecified(),
    decreases records.len(),
{
    if records.len() > 0 {
        lemma_initial_address_no_match(pattern, records.drop_first());
    }
}

/// First-match determinism: no two distinct indices can both be the first
/// match, so the resolver's answer is unique however many records match
/// later in the sequence.
pub proof fn lemma_first_match_unique(
    pattern: InterfacePattern,
    records: Seq<AddressRecord>,
    i: int,
    j: int,
)
    requires
        first_match_at(pattern, records, i),
        first_match_at(pattern, records, j),
    ensures
        i == j,
{
}

} // verus!
