use vstd::prelude::*;

use crate::addr::Ipv4;
use crate::matcher::{match_record, AddressRecord};
use crate::pattern::{label_matches, InterfacePattern};

verus! {

/// Whether a change event reports an address just added to or just removed
/// from its interface.
#[derive(Clone, Copy, Debug, PartialEq, Eq, Structural)]
pub enum EventKind {
    Appeared,
    Disappeared,
}

/// One address-change event from the monitor stream. The stream carries
/// changes for every interface on the host; filtering is the monitor's job.
#[derive(Debug, Clone)]
pub struct ChangeEvent {
    pub record: AddressRecord,
    pub kind: EventKind,
}

/// What the sink is told about one accepted transition: the address and
/// whether it appeared (`enter` true) or disappeared.
#[derive(Clone, Copy, Debug, PartialEq, Eq, Structural)]
pub struct Notification {
    pub addr: Ipv4,
    pub enter: bool,
}

/// The notification an event produces: `Some` exactly for matching events,
/// with `enter` derived from the event's kind.
pub open spec fn spec_classify(pattern: InterfacePattern, event: ChangeEvent) -> Option<Notification> {
    if label_matches(pattern, event.record.label@) {
        Some(
            Notification {
                addr: event.record.addr,
                enter: event.kind is Appeared,
            },
        )
    } else {
        None
    }
}

/// Classifies one monitor event: a matching event yields its label together
/// with the sink notification; a non-matching event yields `None` and is
/// silently discarded.
pub fn classify_event(pattern: &InterfacePattern, event: &ChangeEvent) -> (r: Option<
    (String, Notification),
>)
    ensures
        r.is_some() == spec_classify(*pattern, *event).is_some(),
        r.is_some() ==> r.unwrap().0@ == event.record.label@
            && r.unwrap().1 == spec_classify(*pattern, *event).unwrap(),
{
    match match_record(pattern, &event.record) {
        Some((label, addr)) => {
            let enter = match event.kind {
                EventKind::Appeared => true,
                EventKind::Disappeared => false,
            };
            Some((label, Notification { addr, enter }))
        },
        None => None,
    }
}

/// The change monitor over a whole event sequence: exactly the matching
/// events produce notifications, in the order the events were produced,
/// each mapped by `spec_classify` — no reordering, buffering or coalescing.
pub fn classify_events(pattern: &InterfacePattern, events: &Vec<ChangeEvent>) -> (r: Vec<
    Notification,
>)
    ensures
        r@ == events@.filter_map(|e: ChangeEvent| spec_classify(*pattern, e)),
{
    let ghost f = |e: ChangeEvent| spec_classify(*pattern, e);
    let mut out: Vec<Notification> = Vec::new();
    proof {
        assert(events@.take(0).filter_map(f) =~= Seq::<Notification>::empty());
    }
    let mut k: usize = 0;
    while k < events.len()
        invariant
            k <= events@.len(),
            f == (|e: ChangeEvent| spec_classify(*pattern, e)),
            out@ == events@.take(k as int).filter_map(f),
        decreases events@.len() - k,
    {
        proof {
            events@.lemma_filter_map_take_succ(f, k as int);
        }
        match classify_event(pattern, &events[k]) {
            Some((_label, n)) => {
                out.push(n);
            },
            None => {},
        }
        k += 1;
    }
    proof {
        assert(events@.take(events@.len() as int) =~= events@);
    }
    out
}

} // verus!
