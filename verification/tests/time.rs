use r30rg::time::SimulatedClock;

#[test]
fn events_fire_in_order() {
    let mut clock = SimulatedClock::new();
    clock.schedule(10, 1);
    clock.schedule(5, 2);
    clock.schedule(15, 3);

    let e1 = clock.advance_to_next_event().unwrap();
    assert_eq!(e1.tick, 5);
    assert_eq!(e1.id, 2);

    let e2 = clock.advance_to_next_event().unwrap();
    assert_eq!(e2.tick, 10);
    assert_eq!(e2.id, 1);

    let e3 = clock.advance_to_next_event().unwrap();
    assert_eq!(e3.tick, 15);
    assert_eq!(e3.id, 3);

    assert!(clock.advance_to_next_event().is_none());
}

#[test]
fn clock_advances_and_reports_due_events() {
    let mut clock = SimulatedClock::default();
    assert_eq!(clock.now(), 0);
    clock.schedule(4, 7);
    clock.schedule(2, 8);
    assert_eq!(clock.pending_events(), 2);
    assert_eq!(clock.next_event_tick(), Some(2));
    // Nothing is due before its tick.
    clock.advance(1);
    assert_eq!(clock.now(), 1);
    assert!(clock.next_due_event().is_none());
    clock.advance_to(3);
    let due = clock.next_due_event().unwrap();
    assert_eq!((due.tick, due.id), (2, 8));
    assert_eq!(clock.pending_events(), 1);
    let next = clock.advance_to_next_event().unwrap();
    assert_eq!((next.tick, next.id), (4, 7));
    assert_eq!(clock.now(), 4);
    assert_eq!(clock.next_event_tick(), None);
}

#[test]
fn equal_ticks_fire_in_id_order() {
    let mut clock = SimulatedClock::new();
    clock.schedule(5, 9);
    clock.schedule(5, 3);
    clock.schedule(5, 6);
    let ids: Vec<u64> = (0..3).map(|_| clock.advance_to_next_event().unwrap().id).collect();
    assert_eq!(ids, vec![3, 6, 9]);
}
