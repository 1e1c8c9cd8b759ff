use addr_watch::addr::Ipv4;
use addr_watch::matcher::{match_record, AddressRecord};
use addr_watch::monitor::{classify_event, classify_events, ChangeEvent, EventKind, Notification};
use addr_watch::orchestrator::{Action, Orchestrator, Phase, SourceEvent};
use addr_watch::pattern::{str_starts_with, InterfacePattern};
use addr_watch::resolver::resolve;

fn record(label: &str, a: u8, b: u8, c: u8, d: u8) -> AddressRecord {
    AddressRecord { label: label.to_string(), addr: Ipv4::new(a, b, c, d) }
}

fn event(label: &str, a: u8, b: u8, c: u8, d: u8, kind: EventKind) -> ChangeEvent {
    ChangeEvent { record: record(label, a, b, c, d), kind }
}

#[test]
fn parse_plain_name() {
    let p = InterfacePattern::parse("eth");
    assert!(!p.prefix_mode);
    assert_eq!(p.text, "eth");
}

#[test]
fn parse_wildcard_marker() {
    let p = InterfacePattern::parse("eth*");
    assert!(p.prefix_mode);
    assert_eq!(p.text, "eth");
}

#[test]
fn parse_empty_setting() {
    let p = InterfacePattern::parse("");
    assert!(!p.prefix_mode);
    assert_eq!(p.text, "");
}

#[test]
fn parse_lone_marker() {
    let p = InterfacePattern::parse("*");
    assert!(p.prefix_mode);
    assert_eq!(p.text, "");
}

#[test]
fn prefix_test_cases() {
    assert!(str_starts_with("eth0", "eth"));
    assert!(str_starts_with("eth", "eth"));
    assert!(str_starts_with("eth0", ""));
    assert!(!str_starts_with("et", "eth"));
    assert!(!str_starts_with("wlan0", "eth"));
    assert!(!str_starts_with("xeth0", "eth"));
}

#[test]
fn exact_match_rule() {
    let p = InterfacePattern::parse("eth");
    let hit = match_record(&p, &record("eth", 10, 0, 0, 1));
    assert_eq!(hit, Some(("eth".to_string(), Ipv4::new(10, 0, 0, 1))));
    assert_eq!(match_record(&p, &record("eth0", 10, 0, 0, 1)), None);
    assert_eq!(match_record(&p, &record("wlan0", 10, 0, 0, 1)), None);
}

#[test]
fn prefix_match_rule() {
    let p = InterfacePattern::parse("eth*");
    let hit = match_record(&p, &record("eth0", 10, 0, 0, 1));
    assert_eq!(hit, Some(("eth0".to_string(), Ipv4::new(10, 0, 0, 1))));
    assert!(match_record(&p, &record("eth", 10, 0, 0, 1)).is_some());
    assert_eq!(match_record(&p, &record("wlan0", 10, 0, 0, 1)), None);
}

#[test]
fn resolve_no_match_exact_name() {
    // Pattern "eth" without the marker does not match the label "eth0",
    // so the startup pass resolves to no address at all.
    let p = InterfacePattern::parse("eth");
    let records = vec![record("eth0", 10, 0, 0, 1), record("wlan0", 192, 168, 1, 5)];
    assert_eq!(resolve(&p, &records), None);
    assert_eq!(Ipv4::unspecified(), Ipv4::new(0, 0, 0, 0));
}

#[test]
fn resolve_prefix_finds_first() {
    let p = InterfacePattern::parse("eth*");
    let records = vec![record("eth0", 10, 0, 0, 1), record("wlan0", 192, 168, 1, 5)];
    assert_eq!(resolve(&p, &records), Some(("eth0".to_string(), Ipv4::new(10, 0, 0, 1))));
}

#[test]
fn resolve_first_of_many_matches() {
    let p = InterfacePattern::parse("eth*");
    let records = vec![
        record("wlan0", 192, 168, 1, 5),
        record("eth1", 10, 0, 0, 2),
        record("eth0", 10, 0, 0, 1),
    ];
    assert_eq!(resolve(&p, &records), Some(("eth1".to_string(), Ipv4::new(10, 0, 0, 2))));
}

#[test]
fn resolve_empty_sequence() {
    let p = InterfacePattern::parse("eth*");
    assert_eq!(resolve(&p, &Vec::new()), None);
}

#[test]
fn classify_maps_kind() {
    let p = InterfacePattern::parse("eth*");
    let up = classify_event(&p, &event("eth0", 10, 0, 0, 2, EventKind::Appeared));
    assert_eq!(
        up,
        Some(("eth0".to_string(), Notification { addr: Ipv4::new(10, 0, 0, 2), enter: true }))
    );
    let down = classify_event(&p, &event("eth0", 10, 0, 0, 1, EventKind::Disappeared));
    assert_eq!(
        down,
        Some(("eth0".to_string(), Notification { addr: Ipv4::new(10, 0, 0, 1), enter: false }))
    );
    assert_eq!(classify_event(&p, &event("wlan0", 192, 168, 1, 5, EventKind::Appeared)), None);
}

#[test]
fn monitor_keeps_event_order() {
    let p = InterfacePattern::parse("eth*");
    let events = vec![
        event("eth0", 10, 0, 0, 2, EventKind::Appeared),
        event("wlan0", 192, 168, 1, 5, EventKind::Disappeared),
        event("eth0", 10, 0, 0, 1, EventKind::Disappeared),
    ];
    let out = classify_events(&p, &events);
    assert_eq!(
        out,
        vec![
            Notification { addr: Ipv4::new(10, 0, 0, 2), enter: true },
            Notification { addr: Ipv4::new(10, 0, 0, 1), enter: false },
        ]
    );
}

#[test]
fn run_without_startup_match() {
    // A full pass over the exact-name scenario: both snapshot records are
    // passed over, and the end of the snapshot yields the sentinel.
    let mut orch = Orchestrator::new(InterfacePattern::parse("eth"));
    assert_eq!(orch.phase, Phase::Resolving);
    assert_eq!(orch.step(SourceEvent::Record(record("eth0", 10, 0, 0, 1))), Action::Proceed);
    assert_eq!(orch.step(SourceEvent::Record(record("wlan0", 192, 168, 1, 5))), Action::Proceed);
    assert_eq!(orch.step(SourceEvent::SnapshotEnd), Action::Initialize(Ipv4::new(0, 0, 0, 0)));
    assert_eq!(orch.phase, Phase::Monitoring);
}

#[test]
fn run_with_startup_match_then_changes() {
    // The prefix scenario carried through both phases: initialize with the
    // first match, forward the matching changes in order, ignore the rest.
    let mut orch = Orchestrator::new(InterfacePattern::parse("eth*"));
    assert_eq!(
        orch.step(SourceEvent::Record(record("eth0", 10, 0, 0, 1))),
        Action::Initialize(Ipv4::new(10, 0, 0, 1))
    );
    assert_eq!(orch.phase, Phase::Monitoring);
    assert_eq!(
        orch.step(SourceEvent::Change(event("eth0", 10, 0, 0, 2, EventKind::Appeared))),
        Action::Notify(Notification { addr: Ipv4::new(10, 0, 0, 2), enter: true })
    );
    assert_eq!(
        orch.step(SourceEvent::Change(event("wlan0", 192, 168, 1, 5, EventKind::Disappeared))),
        Action::Proceed
    );
    assert_eq!(
        orch.step(SourceEvent::Change(event("eth0", 10, 0, 0, 1, EventKind::Disappeared))),
        Action::Notify(Notification { addr: Ipv4::new(10, 0, 0, 1), enter: false })
    );
}

#[test]
fn stream_end_is_fatal() {
    // Once the monitor stream ends the machine aborts and never asks for
    // another sink call.
    let mut orch = Orchestrator::new(InterfacePattern::parse("eth*"));
    assert_eq!(orch.step(SourceEvent::SnapshotEnd), Action::Initialize(Ipv4::new(0, 0, 0, 0)));
    assert_eq!(orch.step(SourceEvent::StreamEnd), Action::Abort);
    assert_eq!(orch.phase, Phase::Done);
    assert_eq!(
        orch.step(SourceEvent::Change(event("eth0", 10, 0, 0, 2, EventKind::Appeared))),
        Action::Proceed
    );
}
