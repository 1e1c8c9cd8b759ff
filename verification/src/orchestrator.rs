use vstd::prelude::*;

use crate::addr::Ipv4;
use crate::matcher::{match_record, AddressRecord};
use crate::resolver::initial_address;
use crate::monitor::{classify_event, spec_classify, ChangeEvent, Notification};
use crate::pattern::{label_matches, InterfacePattern};

verus! {

/// Which phase the orchestration is in: the one-shot startup resolution,
/// the unbounded monitor loop, or stopped after a fatal stream end.
#[derive(Clone, Copy, Debug, PartialEq, Eq, Structural)]
pub enum Phase {
    Resolving,
    Monitoring,
    Done,
}

/// One item drawn from the address source and handed to the orchestrator.
#[derive(Debug, Clone)]
pub enum SourceEvent {
    /// The next record of the startup resolution sequence.
    Record(AddressRecord),
    /// The resolution sequence is exhausted without a match.
    SnapshotEnd,
    /// A change event from the monitor stream.
    Change(ChangeEvent),
    /// The monitor stream ended: the connection is presumed lost.
    StreamEnd,
}

/// What the caller must do after handing the orchestrator one event.
#[derive(Clone, Copy, Debug, PartialEq, Eq, Structural)]
pub enum Action {
    /// Nothing to report; keep drawing from the current stream.
    Proceed,
    /// Tell the sink the initial state, then start the monitor phase.
    Initialize(Ipv4),
    /// Tell the sink of one accepted transition.
    Notify(Notification),
    /// Exit with a connection-aborted failure; no further sink calls.
    Abort,
}

/// Drives the resolution phase and then the monitor phase against one
/// address-source connection, owning the pattern both phases share.
#[derive(Debug)]
pub struct Orchestrator {
    pub pattern: InterfacePattern,
    pub phase: Phase,
}

/// The whole orchestration rule, one event at a time. While resolving, the
/// first matching record — or the end of the snapshot — produces the single
/// initialize action (with the all-zero sentinel when nothing matched) and
/// starts the monitor phase. While monitoring, matching change events are
/// forwarded and the end of the stream is fatal. Events that the protocol
/// does not allow in a phase change nothing.
pub open spec fn spec_step(s: Orchestrator, event: SourceEvent) -> (Orchestrator, Action) {
    match s.phase {
        Phase::Resolving => match event {
            SourceEvent::Record(r) => if label_matches(s.pattern, r.label@) {
                (
                    Orchestrator { pattern: s.pattern, phase: Phase::Monitoring },
                    Action::Initialize(r.addr),
                )
            } else {
                (s, Action::Proceed)
            },
            SourceEvent::SnapshotEnd => (
                Orchestrator { pattern: s.pattern, phase: Phase::Monitoring },
                Action::Initialize(Ipv4::spec_unspecified()),
            ),
            _ => (s, Action::Proceed),
        },
        Phase::Monitoring => match event {
            SourceEvent::Change(e) => match spec_classify(s.pattern, e) {
                Some(n) => (s, Action::Notify(n)),
                None => (s, Action::Proceed),
            },
            SourceEvent::StreamEnd => (
                Orchestrator { pattern: s.pattern, phase: Phase::Done },
                Action::Abort,
            ),
            _ => (s, Action::Proceed),
        },
        Phase::Done => (s, Action::Proceed),
    }
}

impl Orchestrator {
    /// A fresh orchestration starts in the resolution phase.
    pub fn new(pattern: InterfacePattern) -> (r: Orchestrator)
        ensures
            r.pattern == pattern,
            r.phase == Phase::Resolving,
    {
        Orchestrator { pattern, phase: Phase::Resolving }
    }

    /// Feeds one source item through the orchestration rule and says what
    /// the caller must do next.
    pub fn step(&mut self, event: SourceEvent) -> (a: Action)
        ensures
            *final(self) == spec_step(*old(self), event).0,
            a == spec_step(*old(self), event).1,
    {
        match self.phase {
            Phase::Resolving => match event {
                SourceEvent::Record(r) => {
                    if match_record(&self.pattern, &r).is_some() {
                        self.phase = Phase::Monitoring;
                        Action::Initialize(r.addr)
                    } else {
                        Action::Proceed
                    }
                },
                SourceEvent::SnapshotEnd => {
                    self.phase = Phase::Monitoring;
                    Action::Initialize(Ipv4::unspecified())
                },
                _ => Action::Proceed,
            },
            Phase::Monitoring => match event {
                SourceEvent::Change(e) => match classify_event(&self.pattern, &e) {
                    Some((_label, n)) => Action::Notify(n),
                    None => Action::Proceed,
                },
                SourceEvent::StreamEnd => {
                    self.phase = Phase::Done;
                    Action::Abort
                },
                _ => Action::Proceed,
            },
            Phase::Done => Action::Proceed,
        }
    }
}

/// The actions the machine emits over a whole event sequence.
pub open spec fn trace(s: Orchestrator, events: Seq<SourceEvent>) -> Seq<Action>
    decreases events.len(),
{
    if events.len() == 0 {
        Seq::empty()
    } else {
        seq![spec_step(s, events[0]).1] + trace(spec_step(s, events[0]).0, events.drop_first())
    }
}

/// No action of the sequence is an initialize.
pub open spec fn no_initialize(actions: Seq<Action>) -> bool {
    forall|i: int| 0 <= i < actions.len() ==> !((#[trigger] actions[i]) is Initialize)
}

/// No two distinct actions of the sequence are both initializes.
pub open spec fn at_most_one_initialize(actions: Seq<Action>) -> bool {
    forall|i: int, j: int|
        #![trigger actions[i], actions[j]]
        0 <= i < j < actions.len() && actions[i] is Initialize ==> !(actions[j] is Initialize)
}

/// Every notify action comes strictly after some initialize action.
pub open spec fn notify_after_initialize(actions: Seq<Action>) -> bool {
    forall|i: int|
        0 <= i < actions.len() && (#[trigger] actions[i]) is Notify ==> exists|j: int|
            0 <= j < i && (#[trigger] actions[j]) is Initialize
}

/// Once the resolution phase is over, the machine never again asks the
/// sink to initialize.
pub proof fn lemma_no_initialize_after_resolving(s: Orchestrator, events: Seq<SourceEvent>)
    requires
        s.phase != Phase::Resolving,
    ensures
        no_initialize(trace(s, events)),
    decreases events.len(),
{
    if events.len() > 0 {
        let a0 = spec_step(s, events[0]).1;
        let s1 = spec_step(s, events[0]).0;
        let rest = trace(s1, events.drop_first());
        let t = trace(s, events);
        lemma_no_initialize_after_resolving(s1, events.drop_first());
        assert(t == seq![a0] + rest);
        assert forall|i: int| 0 <= i < t.len() implies !((#[trigger] t[i]) is Initialize) by {
            if i > 0 {
                assert(t[i] == rest[i - 1]);
            }
        }
    }
}

/// Initialize-before-notify: started in the resolution phase, the machine
/// emits at most one initialize action over any event sequence, and every
/// notify action comes strictly after it.
pub proof fn lemma_initialize_before_notify(s: Orchestrator, events: Seq<SourceEvent>)
    requires
        s.phase == Phase::Resolving,
    ensures
        at_most_one_initialize(trace(s, events)),
        notify_after_initialize(trace(s, events)),
    decreases events.len(),
{
    if events.len() > 0 {
        let a0 = spec_step(s, events[0]).1;
        let s1 = spec_step(s, events[0]).0;
        let rest = trace(s1, events.drop_first());
        let t = trace(s, events);
        assert(t == seq![a0] + rest);
        assert(t[0] == a0);
        if a0 is Initialize {
            assert(s1.phase == Phase::Monitoring);
            lemma_no_initialize_after_resolving(s1, events.drop_first());
            assert forall|i: int, j: int|
                0 <= i < j < t.len() && (#[trigger] t[i]) is Initialize implies !((
            #[trigger] t[j]) is Initialize) by {
                assert(t[j] == rest[j - 1]);
            }
            assert forall|i: int| 0 <= i < t.len() && (#[trigger] t[i]) is Notify implies exists|
                j: int,
            | 0 <= j < i && (#[trigger] t[j]) is Initialize by {
                assert(i > 0);
                assert(t[0] is Initialize);
            }
        } else {
            assert(s1.phase == Phase::Resolving);
            assert(a0 is Proceed);
            lemma_initialize_before_notify(s1, events.drop_first());
            assert forall|i: int, j: int|
                0 <= i < j < t.len() && (#[trigger] t[i]) is Initialize implies !((
            #[trigger] t[j]) is Initialize) by {
                assert(i > 0);
                assert(t[i] == rest[i - 1]);
                assert(t[j] == rest[j - 1]);
                assert(at_most_one_initialize(rest));
            }
            assert forall|i: int| 0 <= i < t.len() && (#[trigger] t[i]) is Notify implies exists|
                j: int,
            | 0 <= j < i && (#[trigger] t[j]) is Initialize by {
                assert(i > 0);
                assert(t[i] == rest[i - 1]);
                assert(notify_after_initialize(rest));
                let j0 = choose|j0: int| 0 <= j0 < i - 1 && (#[trigger] rest[j0]) is Initialize;
                assert(t[j0 + 1] == rest[j0]);
                assert(0 <= j0 + 1 < i && t[j0 + 1] is Initialize);
            }
        }
    }
}

/// The event that ends the resolution phase: a matching record, or the end
/// of the snapshot.
pub open spec fn resolution_trigger(pattern: InterfacePattern, event: SourceEvent) -> bool {
    match event {
        SourceEvent::Record(r) => label_matches(pattern, r.label@),
        SourceEvent::SnapshotEnd => true,
        _ => false,
    }
}

/// As soon as the event sequence ends the resolution phase, the machine
/// does emit an initialize action; with `lemma_initialize_before_notify`,
/// exactly one.
pub proof fn lemma_initialize_exactly_once(s: Orchestrator, events: Seq<SourceEvent>)
    requires
        s.phase == Phase::Resolving,
        exists|k: int| 0 <= k < events.len() && resolution_trigger(s.pattern, #[trigger] events[k]),
    ensures
        exists|i: int|
            0 <= i < trace(s, events).len() && (#[trigger] trace(s, events)[i]) is Initialize,
    decreases events.len(),
{
    let a0 = spec_step(s, events[0]).1;
    let s1 = spec_step(s, events[0]).0;
    let rest = trace(s1, events.drop_first());
    let t = trace(s, events);
    assert(t == seq![a0] + rest);
    if resolution_trigger(s.pattern, events[0]) {
        assert(t[0] is Initialize);
    } else {
        assert(s1 == s);
        let k = choose|k: int|
            0 <= k < events.len() && resolution_trigger(s.pattern, #[trigger] events[k]);
        assert(k != 0);
        assert(events.drop_first()[k - 1] == events[k]);
        lemma_initialize_exactly_once(s1, events.drop_first());
        let i0 = choose|i0: int| 0 <= i0 < rest.len() && (#[trigger] rest[i0]) is Initialize;
        assert(t[i0 + 1] == rest[i0]);
        assert(0 <= i0 + 1 < t.len() && t[i0 + 1] is Initialize);
    }
}

/// The startup pass seen by the machine: the resolution records in source
/// order, then the end of the snapshot.
pub open spec fn resolution_events(records: Seq<AddressRecord>) -> Seq<SourceEvent> {
    records.map_values(|r: AddressRecord| SourceEvent::Record(r)).push(SourceEvent::SnapshotEnd)
}

/// Resolver agreement: over a whole startup sequence, any initialize
/// action the machine emits carries exactly the resolver's answer — the
/// first matching record's address, or the sentinel when nothing matches —
/// so the two phases cannot drift apart on what "matches" means.
pub proof fn lemma_resolution_agreement(s: Orchestrator, records: Seq<AddressRecord>)
    requires
        s.phase == Phase::Resolving,
    ensures
        forall|i: int|
            0 <= i < trace(s, resolution_events(records)).len() && (#[trigger] trace(
                s,
                resolution_events(records),
            )[i]) is Initialize ==> trace(s, resolution_events(records))[i]
                == Action::Initialize(initial_address(s.pattern, records)),
    decreases records.len(),
{
    let es = resolution_events(records);
    let a0 = spec_step(s, es[0]).1;
    let s1 = spec_step(s, es[0]).0;
    let rest = trace(s1, es.drop_first());
    let t = trace(s, es);
    assert(t == seq![a0] + rest);
    if records.len() == 0 {
        assert(es =~= seq![SourceEvent::SnapshotEnd]);
        assert(a0 == Action::Initialize(Ipv4::spec_unspecified()));
        assert(es.drop_first() =~= Seq::<SourceEvent>::empty());
        assert(rest =~= Seq::<Action>::empty());
        assert(t =~= seq![a0]);
    } else {
        assert(es[0] == SourceEvent::Record(records[0]));
        if label_matches(s.pattern, records[0].label@) {
            assert(a0 == Action::Initialize(records[0].addr));
            assert(s1.phase == Phase::Monitoring);
            lemma_no_initialize_after_resolving(s1, es.drop_first());
            assert forall|i: int| 0 <= i < t.len() && (#[trigger] t[i]) is Initialize implies t[i]
                == Action::Initialize(initial_address(s.pattern, records)) by {
                if i > 0 {
                    assert(t[i] == rest[i - 1]);
                    assert(false);
                }
            }
        } else {
            assert(a0 == Action::Proceed);
            assert(s1 == s);
            assert(es.drop_first() =~= resolution_events(records.drop_first()));
            lemma_resolution_agreement(s, records.drop_first());
            assert(initial_address(s.pattern, records) == initial_address(
                s.pattern,
                records.drop_first(),
            ));
            assert forall|i: int| 0 <= i < t.len() && (#[trigger] t[i]) is Initialize implies t[i]
                == Action::Initialize(initial_address(s.pattern, records)) by {
                assert(i > 0);
                assert(t[i] == rest[i - 1]);
            }
        }
    }
}

/// The notification an action carries, if it is a notify.
pub open spec fn notified(action: Action) -> Option<Notification> {
    match action {
        Action::Notify(n) => Some(n),
        _ => None,
    }
}

proof fn lemma_filter_map_concat<A, B>(s1: Seq<A>, s2: Seq<A>, f: spec_fn(A) -> Option<B>)
    ensures
        (s1 + s2).filter_map(f) == s1.filter_map(f) + s2.filter_map(f),
    decreases s2.len(),
{
    if s2.len() == 0 {
        assert(s1 + s2 =~= s1);
        assert(s2.filter_map(f) =~= Seq::<B>::empty());
        assert(s1.filter_map(f) + Seq::<B>::empty() =~= s1.filter_map(f));
    } else {
        lemma_filter_map_concat(s1, s2.drop_last(), f);
        assert((s1 + s2).drop_last() =~= s1 + s2.drop_last());
        assert((s1 + s2).last() == s2.last());
        match f(s2.last()) {
            Some(b) => {
                assert((s1 + s2).filter_map(f) == (s1 + s2.drop_last()).filter_map(f) + seq![b]);
                assert(s1.filter_map(f) + (s2.drop_last().filter_map(f) + seq![b]) =~= (
                s1.filter_map(f) + s2.drop_last().filter_map(f)) + seq![b]);
            },
            None => {
                assert((s1 + s2).filter_map(f) == (s1 + s2.drop_last()).filter_map(f));
            },
        }
    }
}

/// Order preservation: in the monitor phase, the notify actions of the
/// trace are exactly the notifications of the matching change events, in
/// the order the events were produced.
pub proof fn lemma_order_preservation(s: Orchestrator, changes: Seq<ChangeEvent>)
    requires
        s.phase == Phase::Monitoring,
    ensures
        trace(s, changes.map_values(|e: ChangeEvent| SourceEvent::Change(e))).filter_map(
            |a: Action| notified(a),
        ) == changes.filter_map(|e: ChangeEvent| spec_classify(s.pattern, e)),
    decreases changes.len(),
{
    let na = |a: Action| notified(a);
    let nc = |e: ChangeEvent| spec_classify(s.pattern, e);
    let m = changes.map_values(|e: ChangeEvent| SourceEvent::Change(e));
    if changes.len() == 0 {
        assert(m =~= Seq::<SourceEvent>::empty());
        assert(trace(s, m) =~= Seq::<Action>::empty());
        assert(trace(s, m).filter_map(na) =~= Seq::<Notification>::empty());
        assert(changes.filter_map(nc) =~= Seq::<Notification>::empty());
    } else {
        let e0 = changes[0];
        assert(m[0] == SourceEvent::Change(e0));
        let a0 = spec_step(s, m[0]).1;
        let s1 = spec_step(s, m[0]).0;
        assert(s1 == s);
        let restm = trace(s, m.drop_first());
        assert(m.drop_first() =~= changes.drop_first().map_values(
            |e: ChangeEvent| SourceEvent::Change(e),
        ));
        lemma_order_preservation(s, changes.drop_first());
        assert(trace(s, m) == seq![a0] + restm);
        lemma_filter_map_concat(seq![a0], restm, na);
        Seq::<Action>::lemma_filter_map_singleton(a0, na);
        assert(changes =~= seq![e0] + changes.drop_first());
        lemma_filter_map_concat(seq![e0], changes.drop_first(), nc);
        Seq::<ChangeEvent>::lemma_filter_map_singleton(e0, nc);
        assert(notified(a0) == spec_classify(s.pattern, e0));
        match spec_classify(s.pattern, e0) {
            Some(n) => {
                assert(seq![a0].filter_map(na) =~= seq![n]);
                assert(seq![e0].filter_map(nc) =~= seq![n]);
            },
            None => {
                assert(seq![a0].filter_map(na) =~= Seq::<Notification>::empty());
                assert(seq![e0].filter_map(nc) =~= Seq::<Notification>::empty());
                assert(Seq::<Notification>::empty() + restm.filter_map(na) =~= restm.filter_map(
                    na,
                ));
                assert(Seq::<Notification>::empty() + changes.drop_first().filter_map(nc)
                    =~= changes.drop_first().filter_map(nc));
            },
        }
    }
}

} // verus!
