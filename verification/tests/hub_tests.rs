use engage_ledger::events::{EngageEvent, EngageKind};
use engage_ledger::hub::{EngageEventHub, RecvOutcome};

fn event(id: i64) -> EngageEvent {
    EngageEvent {
        id,
        project_id: 7,
        campaign_id: 2,
        chain_id: 592,
        signer_address: "0xabc".to_string(),
        kind: EngageKind::SubmittedProof,
        task_ids: Some(vec!["a".to_string()]),
    }
}

#[test]
fn subscriber_sees_events_in_order_then_empty() {
    let mut hub = EngageEventHub::new(10);
    let mut sub = hub.subscribe();
    hub.publish(event(1));
    hub.publish(event(2));

    match hub.recv(&mut sub) {
        RecvOutcome::Event(e) => assert_eq!(e.id, 1),
        _ => panic!("expected the first event"),
    }
    match hub.recv(&mut sub) {
        RecvOutcome::Event(e) => {
            assert_eq!(e.id, 2);
            assert_eq!(e.task_ids, Some(vec!["a".to_string()]));
        }
        _ => panic!("expected the second event"),
    }
    match hub.recv(&mut sub) {
        RecvOutcome::Empty => {}
        _ => panic!("expected no further event"),
    }
}

#[test]
fn publishing_needs_no_subscriber() {
    let mut hub = EngageEventHub::new(2);
    hub.publish(event(1));
    hub.publish(event(2));
    hub.publish(event(3));
}

// A subscriber that falls behind the ring loses the oldest events and is
// told how many; the producer is never held back.
#[test]
fn lagging_subscriber_drops_oldest_events() {
    let mut hub = EngageEventHub::new(2);
    let mut sub = hub.subscribe();
    hub.publish(event(1));
    hub.publish(event(2));
    hub.publish(event(3));

    match hub.recv(&mut sub) {
        RecvOutcome::Lagged(missed) => assert_eq!(missed, 1),
        _ => panic!("expected a lag report"),
    }
    match hub.recv(&mut sub) {
        RecvOutcome::Event(e) => assert_eq!(e.id, 2),
        _ => panic!("expected the oldest held event"),
    }
    match hub.recv(&mut sub) {
        RecvOutcome::Event(e) => assert_eq!(e.id, 3),
        _ => panic!("expected the newest event"),
    }
    match hub.recv(&mut sub) {
        RecvOutcome::Empty => {}
        _ => panic!("expected no further event"),
    }
}

#[test]
fn subscribers_have_independent_cursors() {
    let mut hub = EngageEventHub::new(10);
    let mut early = hub.subscribe();
    hub.publish(event(1));
    let mut late = hub.subscribe();
    hub.publish(event(2));

    match hub.recv(&mut early) {
        RecvOutcome::Event(e) => assert_eq!(e.id, 1),
        _ => panic!("expected the first event"),
    }
    match hub.recv(&mut late) {
        RecvOutcome::Event(e) => assert_eq!(e.id, 2, "a late subscriber starts at the present"),
        _ => panic!("expected the second event"),
    }
}
