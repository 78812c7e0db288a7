use bifrost_ecs::event::{Event, EventStorage};

const HIT: u64 = 1;
const SCORE: u64 = 2;

#[test]
fn event_round_trip() {
    let mut bus: EventStorage<&str> = EventStorage::new();
    bus.add_event(HIT);
    bus.send(HIT, "v1");
    bus.send(HIT, "v2");
    assert_eq!(bus.read(HIT), Some("v1"));
    assert_eq!(bus.read(HIT), Some("v2"));
    assert_eq!(bus.read(HIT), None);
}

#[test]
fn clear_after_two_sends() {
    let mut bus: EventStorage<u8> = EventStorage::new();
    bus.add_event(HIT);
    bus.send(HIT, 1);
    bus.send(HIT, 2);
    bus.clear(HIT);
    assert_eq!(bus.read(HIT), None);
}

#[test]
fn kinds_are_isolated() {
    let mut bus: EventStorage<u8> = EventStorage::new();
    bus.add_event(HIT);
    bus.add_event(SCORE);
    assert!(bus.is_registered(HIT));
    assert!(!bus.is_registered(3));
    bus.send(HIT, 1);
    bus.send(SCORE, 2);
    assert_eq!(bus.read(SCORE), Some(2));
    assert_eq!(bus.read(SCORE), None);
    assert_eq!(bus.read(HIT), Some(1));
}

#[test]
fn single_queue_fifo() {
    let mut q: Event<u32> = Event::new();
    q.send(1);
    q.send(2);
    q.send(3);
    assert_eq!(q.len(), 3);
    assert_eq!(q.read(), Some(1));
    q.clear();
    assert_eq!(q.read(), None);
    assert_eq!(q.len(), 0);
}
