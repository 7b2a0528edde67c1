use ldos_tables::generic_stress::{
    check_observers, produce, ExecutionStatistics, PingPong, PingPongPlan, Producing, Receiving,
    StressFailure, StressPlan, StressState, TableAttachments, TestProducer, TestReceiver, TestWeakObserver,
};
use ldos_tables::table_ipc::stubs::NonConstructableWeakObserver;
use ldos_tables::table_ipc::{Cursor, WeakObserver};
use ldos_tables::timing::RunTime;
use ldos_tables::tracker::{hash_message, MessageTracker, StressMessage};
use ldos_tables::wait_handler::NotifyAction;
use std::cell::Cell;
use std::sync::{mpsc, Mutex};

fn message(src: usize, x: usize) -> StressMessage {
    StressMessage { src, x }
}

fn tracker_of(messages: &[StressMessage]) -> MessageTracker {
    let mut t = MessageTracker::new(true);
    for m in messages {
        t.update(*m);
    }
    t
}

const TIME: RunTime = RunTime { duration: 1000, cpu_duration: 300 };

fn plan(n_messages: usize) -> StressPlan {
    StressPlan::new(1, 1, 0, 0, n_messages).unwrap()
}

#[test]
fn start_is_given_once_and_stays_given() {
    let mut s = StressState::new(2);
    assert!(s.wait_for_start());
    assert!(s.wait_for_complete());
    assert_eq!(s.trigger_start(), NotifyAction::NotifyCondvar);
    assert!(!s.wait_for_start());
    s.complete();
    assert!(!s.wait_for_start());
}

#[test]
fn run_is_over_when_all_are_through() {
    let mut s = StressState::new(3);
    s.trigger_start();
    for _ in 0..3 {
        assert!(s.wait_for_complete());
        assert_eq!(s.complete(), NotifyAction::NotifyCondvar);
    }
    assert!(!s.wait_for_complete());
    s.complete();
    assert!(!s.wait_for_complete());
}

#[test]
fn run_of_nobody_is_over_at_once() {
    assert!(!StressState::new(0).wait_for_complete());
}

#[test]
fn plan_shares_out_the_messages() {
    let p = StressPlan::new(2, 3, 1, 4, 12).unwrap();
    assert_eq!(p.expected_complete, 10);
    assert_eq!(p.n_messages_per_producer, 6);
    assert_eq!(p.n_messages_per_consumer, 4);
    let p = StressPlan::new(1, 1, 0, 0, 0).unwrap();
    assert_eq!(p.expected_complete, 2);
    assert_eq!(p.n_messages_per_producer, 0);
}

#[test]
fn plan_needs_shares_of_equal_size() {
    assert_eq!(StressPlan::new(2, 1, 0, 0, 3), None);
    assert_eq!(StressPlan::new(1, 2, 0, 0, 3), None);
    assert_eq!(StressPlan::new(0, 1, 0, 0, 3), None);
    assert_eq!(StressPlan::new(1, 0, 0, 0, 3), None);
    assert_eq!(StressPlan::new(1, 1, usize::MAX, 0, 3), None);
}

#[test]
fn ping_pong_counts_both_tables() {
    assert_eq!(
        PingPongPlan::new(0, 0, 0, 0, 7),
        Some(PingPongPlan { n_messages: 7, expected_complete: 2 })
    );
    assert_eq!(PingPongPlan::new(1, 2, 3, 4, 7).unwrap().expected_complete, 12);
    assert_eq!(PingPongPlan::new(0, 0, usize::MAX, 0, 7), None);
}

struct Recorder {
    sent: Mutex<Vec<StressMessage>>,
}

impl TestProducer<StressMessage> for Recorder {
    fn send(&self, v: StressMessage) {
        self.sent.lock().unwrap().push(v);
    }
}

#[test]
fn producer_sends_its_numbered_messages() {
    let p = Recorder { sent: Mutex::new(Vec::new()) };
    let pauses = Cell::new(0);
    let t = produce(&p, 5, 3, true, || pauses.set(pauses.get() + 1));
    let sent = p.sent.into_inner().unwrap();
    assert_eq!(sent, vec![message(5, 0), message(5, 1), message(5, 2)]);
    assert_eq!(pauses.get(), 3);
    assert_eq!(t.get(), tracker_of(&sent).get());
}

#[test]
fn producer_counts_its_messages() {
    let mut p = Producing::new(3, 2, true);
    assert_eq!(p.next_message(), Some(message(3, 0)));
    assert_eq!(p.next_message(), Some(message(3, 0)));
    p.on_sent();
    assert_eq!(p.next_message(), Some(message(3, 1)));
    p.on_sent();
    assert_eq!(p.next_message(), None);
    assert_eq!(p.tracker.get(), tracker_of(&[message(3, 0), message(3, 1)]).get());
}

#[test]
fn producer_without_messages_sends_nothing() {
    let p = Recorder { sent: Mutex::new(Vec::new()) };
    let t = produce(&p, 0, 0, true, || panic!("no pause is due"));
    assert!(p.sent.into_inner().unwrap().is_empty());
    assert_eq!(t.get(), 0);
}

#[test]
fn receiver_finishes_after_its_share() {
    let mut r = Receiving::new(3, true);
    assert!(!r.on_message(message(0, 0)));
    assert!(!r.on_message(message(0, 1)));
    assert!(r.on_message(message(0, 2)));
    assert!(r.on_message(message(0, 3)));
    let all = [message(0, 0), message(0, 1), message(0, 2), message(0, 3)];
    assert_eq!(r.tracker.get(), tracker_of(&all).get());
}

#[test]
fn receiver_without_a_share_finishes_at_the_first_message() {
    assert!(Receiving::new(0, true).on_message(message(0, 0)));
}

#[test]
fn ping_pong_answers_with_the_next_number() {
    let mut p = PingPong::new(2, true);
    assert_eq!(p.on_message(message(4, 7)), (message(4, 8), false));
    assert_eq!(p.on_message(message(4, 9)), (message(4, 10), true));
    let handled = tracker_of(&[message(4, 7), message(4, 9)]);
    assert_eq!(p.receiving.tracker.get(), handled.get());
}

#[test]
fn rally_of_two_players_is_seen_whole() {
    let n = 5;
    let plan = PingPongPlan::new(0, 0, 1, 0, n).unwrap();
    assert_eq!(plan.state(), StressState::new(3));
    let mut players = [plan.player(true), plan.player(true)];
    let mut observer = MessageTracker::new(true);
    let mut one_table = MessageTracker::new(true);
    let mut v = plan.first();
    for k in 0..2 * n {
        assert_eq!(v, message(0, k));
        observer.update(v);
        if k % 2 == 1 {
            one_table.update(v);
        }
        let (answer, finish) = players[k % 2].on_message(v);
        assert_eq!(finish, k >= 2 * n - 2);
        v = answer;
    }
    let trackers: Vec<_> = players.into_iter().map(|p| p.receiving.tracker).collect();
    assert_eq!(one_table.get(), trackers[1].get());
    let mut observers = vec![observer];
    assert_eq!(
        plan.conclude(&trackers, &observers, TIME),
        Ok(ExecutionStatistics { n_messages: n, duration: 1000, cpu_duration: 300 })
    );
    observers.push(one_table);
    assert!(plan.conclude(&trackers, &observers, TIME).is_err());
}

/// A table that holds the messages `oldest .. recent`, and has lost every third one.
struct Leaky {
    oldest: usize,
    recent: usize,
    looks: Mutex<Vec<usize>>,
}

impl WeakObserver<StressMessage> for Leaky {
    fn weak_observe(&self, index: Cursor) -> Option<StressMessage> {
        self.looks.lock().unwrap().push(index.index());
        if index.index() % 3 == 0 {
            None
        } else {
            Some(message(0, index.index()))
        }
    }

    fn recent_cursor(&self) -> Cursor {
        Cursor { index: self.recent }
    }

    fn oldest_cursor(&self) -> Cursor {
        Cursor { index: self.oldest }
    }
}

fn leaky(oldest: usize, recent: usize) -> TestWeakObserver<Leaky> {
    TestWeakObserver { inner: Leaky { oldest, recent, looks: Mutex::new(Vec::new()) }, delay: 10 }
}

#[test]
fn weak_observer_looks_at_each_position_once() {
    let o = leaky(2, 7);
    let mut t = MessageTracker::new(true);
    assert!(o.watch(100, &mut t));
    assert_eq!(*o.inner.looks.lock().unwrap(), vec![2, 3, 4, 5, 6]);
    assert_eq!(t.get(), tracker_of(&[message(0, 2), message(0, 4), message(0, 5)]).get());
}

#[test]
fn weak_observer_stops_at_the_last_message() {
    let o = leaky(0, 4);
    let mut t = MessageTracker::new(true);
    assert!(o.watch(6, &mut t));
    let seen = t.get();
    assert!(!o.watch(5, &mut t));
    assert!(!o.watch(1, &mut t));
    assert_eq!(t.get(), seen);
    assert_eq!(o.inner.looks.lock().unwrap().len(), 4);
}

#[test]
fn weak_observer_copes_with_an_empty_range() {
    let o = leaky(5, 5);
    let mut t = MessageTracker::new(true);
    assert!(o.watch(100, &mut t));
    o.observe_range(Cursor { index: 9 }, Cursor { index: 3 }, &mut t);
    assert!(o.inner.looks.lock().unwrap().is_empty());
    assert_eq!(t.get(), 0);
}

#[test]
fn planned_run_passes() {
    let plan = StressPlan::new(2, 3, 1, 0, 6).unwrap();
    assert_eq!(plan.state(), StressState::new(6));
    let p = Recorder { sent: Mutex::new(Vec::new()) };
    let producers: Vec<_> = (0..2).map(|t| plan.run_producer(&p, t, true, || {})).collect();
    let mut sent = p.sent.into_inner().unwrap();
    assert_eq!(sent.len(), 6);
    for (i, v) in sent.iter().enumerate() {
        assert!(!sent[..i].contains(v));
    }
    sent.reverse();
    let mut consumers = Vec::new();
    for share in sent.chunks(2) {
        let mut c = plan.consumer(true);
        assert!(!c.on_message(share[0]));
        assert!(c.on_message(share[1]));
        consumers.push(c.tracker);
    }
    let mut o = plan.observer(true);
    for (i, v) in sent.iter().enumerate() {
        assert_eq!(o.on_message(*v), i == 5);
    }
    let stats = plan.conclude(&producers, &consumers, &vec![o.tracker], TIME).unwrap();
    assert_eq!(stats.n_messages, 6);
}

#[test]
fn lossless_run_passes() {
    let sent = vec![
        tracker_of(&[message(0, 0), message(0, 1)]),
        tracker_of(&[message(1, 0), message(1, 1)]),
    ];
    let received = vec![
        tracker_of(&[message(1, 0), message(0, 0)]),
        tracker_of(&[message(0, 1), message(1, 1)]),
    ];
    let seen = vec![
        tracker_of(&[message(0, 0), message(0, 1), message(1, 0), message(1, 1)]),
        tracker_of(&[message(1, 1), message(1, 0), message(0, 1), message(0, 0)]),
    ];
    let plan = StressPlan::new(2, 2, 2, 0, 4).unwrap();
    let stats = plan.conclude(&sent, &received, &seen, TIME).unwrap();
    assert_eq!(stats.n_messages, 4);
    assert_eq!(stats.duration, 1000);
    assert_eq!(stats.cpu_duration, 300);
}

#[test]
fn lost_message_is_noticed() {
    let sent = vec![tracker_of(&[message(0, 0), message(0, 1)])];
    let received = vec![tracker_of(&[message(0, 0)])];
    assert_eq!(
        plan(2).conclude(&sent, &received, &vec![], TIME),
        Err(StressFailure::Consumed { produced: sent[0].get(), consumed: received[0].get() })
    );
}

#[test]
fn first_blind_observer_is_named() {
    let all = || tracker_of(&[message(0, 0), message(0, 1)]);
    let blind = tracker_of(&[message(0, 1)]);
    let observers = vec![all(), blind, MessageTracker::new(true)];
    let failure = StressFailure::Observed {
        observer: 1,
        produced: all().get(),
        observed: hash_message(message(0, 1)),
    };
    let handled = vec![all()];
    assert_eq!(plan(2).conclude(&handled, &handled, &observers, TIME), Err(failure));
    assert_eq!(check_observers(all().get(), &observers), Some(failure));
    assert_eq!(check_observers(all().get(), &vec![all(), all()]), None);
    let ping_pong = PingPongPlan::new(0, 0, 3, 0, 2).unwrap();
    assert_eq!(ping_pong.conclude(&handled, &observers, TIME), Err(failure));
}

#[test]
fn unchecked_run_passes() {
    let mut sent = MessageTracker::new(false);
    sent.update(message(0, 0));
    let nothing = vec![MessageTracker::new(false)];
    assert!(plan(1).conclude(&vec![sent], &nothing, &nothing, TIME).is_ok());
}

struct ChannelEnd(mpsc::Receiver<StressMessage>);

impl TestReceiver<StressMessage> for ChannelEnd {
    fn handle<F: FnMut(StressMessage) -> bool + Send + 'static>(self, mut f: F) {
        while !f(self.0.recv().unwrap()) {}
    }
}

#[test]
fn receiver_drives_a_transport() {
    let (tx, rx) = mpsc::channel();
    for x in 0..4 {
        tx.send(message(0, x)).unwrap();
    }
    let (done, result) = mpsc::channel();
    let mut r = Receiving::new(3, true);
    ChannelEnd(rx).handle(move |v| {
        let finish = r.on_message(v);
        if finish {
            done.send(r.tracker.get()).unwrap();
        }
        finish
    });
    let handled = tracker_of(&[message(0, 0), message(0, 1), message(0, 2)]);
    assert_eq!(result.recv().unwrap(), handled.get());
}

#[test]
fn attachments_may_be_without_observers() {
    let a: TableAttachments<u8, u8, u8, NonConstructableWeakObserver> = TableAttachments {
        producer: 1,
        consumer: 2,
        observers: vec![],
        weak_observers: vec![],
    };
    assert_eq!(a.observers.len() + a.weak_observers.len(), 0);
    assert_eq!((a.producer, a.consumer), (1, 2));
}
