use ldos_tables::tracker::{hash_message, overall_digest, MessageTracker, StressMessage};
use std::collections::hash_map::DefaultHasher;
use std::hash::{Hash, Hasher};
use std::sync::{Arc, Mutex};

fn message(src: usize, x: usize) -> StressMessage {
    StressMessage { src, x }
}

fn tracker_of(checking: bool, messages: &[StressMessage]) -> MessageTracker {
    let mut t = MessageTracker::new(checking);
    for m in messages {
        t.update(*m);
    }
    t
}

#[test]
fn default_message_is_all_zero() {
    assert_eq!(StressMessage::default(), message(0, 0));
}

#[test]
fn hash_is_that_of_the_standard_hasher() {
    for m in [message(0, 0), message(1, 0), message(0, 1), message(7, usize::MAX)] {
        let mut hasher = DefaultHasher::new();
        hasher.write(&m.src.to_ne_bytes());
        hasher.write(&m.x.to_ne_bytes());
        assert_eq!(hash_message(m), hasher.finish());
    }
}

#[test]
fn hash_agrees_with_the_derived_one() {
    for m in [message(0, 0), message(3, 0x0102_0304), message(usize::MAX, 5)] {
        let mut hasher = DefaultHasher::new();
        m.hash(&mut hasher);
        assert_eq!(hash_message(m), hasher.finish());
    }
}

#[test]
fn new_tracker_is_empty() {
    assert_eq!(MessageTracker::new(true).get(), 0);
    assert_eq!(MessageTracker::new(false).get(), 0);
}

#[test]
fn update_adds_the_hash() {
    let t = tracker_of(true, &[message(1, 2)]);
    assert_eq!(t.get(), hash_message(message(1, 2)));
    let t = tracker_of(true, &[message(1, 2), message(1, 3)]);
    assert_eq!(t.get(), hash_message(message(1, 2)) ^ hash_message(message(1, 3)));
    assert_ne!(t.get(), 0);
}

#[test]
fn unchecked_tracker_stays_at_zero() {
    assert_eq!(tracker_of(false, &[message(1, 2), message(3, 4)]).get(), 0);
}

#[test]
fn order_does_not_matter() {
    let a = [message(0, 0), message(0, 1), message(1, 0), message(1, 1)];
    let b = [message(1, 1), message(0, 0), message(1, 0), message(0, 1)];
    assert_eq!(tracker_of(true, &a).get(), tracker_of(true, &b).get());
}

#[test]
fn combining_is_tracking_both_streams() {
    let mut a = tracker_of(true, &[message(0, 0), message(0, 1)]);
    let b = tracker_of(true, &[message(1, 0)]);
    a.combine(&b);
    let all = tracker_of(true, &[message(0, 0), message(0, 1), message(1, 0)]);
    assert_eq!(a.get(), all.get());
}

#[test]
fn combining_does_not_ask_whether_to_check() {
    let mut a = MessageTracker::new(false);
    a.combine(&tracker_of(true, &[message(5, 6)]));
    assert_eq!(a.get(), hash_message(message(5, 6)));
}

#[test]
fn same_messages_cancel() {
    let m = [message(0, 0), message(0, 1)];
    let mut t = tracker_of(true, &m);
    t.combine(&tracker_of(true, &m));
    assert_eq!(t.get(), 0);
}

#[test]
fn overall_digest_is_the_exclusive_or() {
    let a = tracker_of(true, &[message(0, 0)]);
    let b = tracker_of(true, &[message(1, 0)]);
    let c = tracker_of(true, &[message(2, 0)]);
    assert_eq!(overall_digest(&vec![]), 0);
    let expected = a.get() ^ b.get() ^ c.get();
    assert_eq!(overall_digest(&vec![a, b, c]), expected);
}

#[test]
fn lost_message_shows() {
    let all = [message(0, 0), message(0, 1), message(0, 2)];
    let rest = [message(0, 0), message(0, 2)];
    let lost = hash_message(message(0, 1));
    assert_ne!(lost, 0);
    assert_eq!(tracker_of(true, &all).get(), tracker_of(true, &rest).get() ^ lost);
    assert_ne!(tracker_of(true, &all).get(), tracker_of(true, &rest).get());
}

#[test]
fn shared_tracker_has_one_digest() {
    let shared = Arc::new(Mutex::new(MessageTracker::new(true)));
    let handles: Vec<_> = (0..4).map(|_| shared.clone()).collect();
    for x in 0..8 {
        for (src, handle) in handles.iter().enumerate() {
            handle.lock().unwrap().update(message(src, x));
        }
    }
    let all: Vec<_> = (0..4).flat_map(|src| (0..8).map(move |x| message(src, x))).collect();
    assert_eq!(shared.lock().unwrap().get(), tracker_of(true, &all).get());
}
