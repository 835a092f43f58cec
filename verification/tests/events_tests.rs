use gaucho_tracker::events::{EventBus, TrackerEvent};

#[test]
fn test_event_bus() {
    let mut bus = EventBus::new();

    // Subscribe to events
    let token = bus.subscribe();

    // Emit some events
    bus.emit(TrackerEvent::StepTriggered(0, 0));
    bus.emit(TrackerEvent::BpmChanged(120));
    bus.emit(TrackerEvent::StepTriggered(1, 2));

    // Check the subscriber saw exactly the two step triggers among them
    let count = bus
        .take_events(token)
        .into_iter()
        .filter(|e| matches!(e, TrackerEvent::StepTriggered(_, _)))
        .count();
    assert_eq!(count, 2);
}

#[test]
fn test_fan_out_to_all_subscribers() {
    // Every emit reaches every subscriber, in emission order.
    let mut bus = EventBus::new();
    let t1 = bus.subscribe();
    let t2 = bus.subscribe();
    let t3 = bus.subscribe();
    assert_eq!(bus.num_subscribers(), 3);

    bus.emit(TrackerEvent::BpmChanged(100));
    bus.emit(TrackerEvent::PatternChanged);

    for token in [t1, t2, t3] {
        let seen = bus.take_events(token);
        assert_eq!(seen, vec![TrackerEvent::BpmChanged(100), TrackerEvent::PatternChanged]);
    }
}

#[test]
fn test_take_events_drains_one_queue() {
    let mut bus = EventBus::new();
    let t1 = bus.subscribe();
    let t2 = bus.subscribe();

    bus.emit(TrackerEvent::PatternChanged);

    assert_eq!(bus.take_events(t1).len(), 1);
    // Draining one subscriber leaves the other's queue intact.
    assert_eq!(bus.pending_count(t2), 1);
    assert_eq!(bus.take_events(t1).len(), 0);
    assert_eq!(bus.take_events(t2).len(), 1);
}

#[test]
fn test_late_subscriber_sees_only_later_events() {
    let mut bus = EventBus::new();
    let early = bus.subscribe();
    bus.emit(TrackerEvent::BpmChanged(90));
    let late = bus.subscribe();
    bus.emit(TrackerEvent::BpmChanged(95));

    assert_eq!(
        bus.take_events(early),
        vec![TrackerEvent::BpmChanged(90), TrackerEvent::BpmChanged(95)],
    );
    assert_eq!(bus.take_events(late), vec![TrackerEvent::BpmChanged(95)]);
}
