use droppa::slot::{BroadcastSlot, PushOutcome};

#[test]
fn the_first_subscriber_starts_the_pump() {
    let mut slot = BroadcastSlot::new();
    assert!(!slot.is_occupied());
    let first = slot.subscribe();
    assert!(first.starts_pump());
    assert!(first.displaced.is_none());
    assert!(slot.is_occupied());
    assert_eq!(*first.receiver.borrow(), "[]");
}

#[test]
fn a_second_subscriber_replaces_the_first() {
    let mut slot = BroadcastSlot::new();
    let first = slot.subscribe();
    assert_eq!(slot.push("[1]".to_string()), PushOutcome::Delivered);
    assert_eq!(*first.receiver.borrow(), "[1]");
    let second = slot.subscribe();
    assert!(!second.starts_pump());
    let displaced = second.displaced.expect("the first subscriber was displaced");
    assert!(displaced.notified);
    assert_eq!(*first.receiver.borrow(), "CONNECTION_REPLACED");
    assert_eq!(*second.receiver.borrow(), "[]");
    assert_eq!(slot.push("[2]".to_string()), PushOutcome::Delivered);
    assert_eq!(*first.receiver.borrow(), "CONNECTION_REPLACED");
    assert_eq!(*second.receiver.borrow(), "[2]");
    assert_eq!(*displaced.sender.borrow(), "CONNECTION_REPLACED");
}

#[test]
fn only_one_pump_is_started_however_many_replace() {
    let mut slot = BroadcastSlot::new();
    let mut started = 0;
    let mut receivers = Vec::new();
    for _ in 0..25 {
        let subscription = slot.subscribe();
        if subscription.starts_pump() {
            started += 1;
        }
        receivers.push(subscription.receiver);
    }
    assert_eq!(started, 1);
    let last = receivers.pop().expect("there are subscribers");
    assert_eq!(*last.borrow(), "[]");
    for receiver in receivers.iter() {
        assert_eq!(*receiver.borrow(), "CONNECTION_REPLACED");
    }
}

#[test]
fn a_subscriber_that_left_cannot_be_told() {
    let mut slot = BroadcastSlot::new();
    let first = slot.subscribe();
    drop(first);
    assert_eq!(slot.push("[1]".to_string()), PushOutcome::NoReceiver);
    let second = slot.subscribe();
    assert!(!second.starts_pump());
    let displaced = second.displaced.expect("the slot was occupied");
    assert!(!displaced.notified);
    assert_eq!(*displaced.sender.borrow(), "[]");
    assert_eq!(slot.push("[2]".to_string()), PushOutcome::Delivered);
    assert_eq!(*second.receiver.borrow(), "[2]");
}

#[test]
fn a_vacant_slot_drops_payloads() {
    let mut slot = BroadcastSlot::new();
    assert_eq!(slot.push("[]".to_string()), PushOutcome::Vacant);
    assert!(!slot.is_occupied());
}
