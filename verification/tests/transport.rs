use ldos_tables::table_ipc::{Consumer, Producer, StrongObserver};
use ldos_tables::transport::{
    after_attempt, handle_taken, CallConsumer, CallProducer, CallSend, CallStep, CallbackSlot,
    Completion, HandleStep, SendStep, WaitConsumer, WaitProducer, WaitStrongObserver, N_BUSY_LOOPS,
};
use ldos_tables::wait_handler::{
    NotifyAction, WaitAction, WaitBusyAndThen, WaitCondVar, WaitHandler, WaitYield,
};
use std::cell::RefCell;
use std::collections::VecDeque;

/// A table with room for `room` entries.
struct Queue {
    room: usize,
    entries: RefCell<VecDeque<u32>>,
}

fn queue(room: usize, entries: &[u32]) -> Queue {
    Queue { room, entries: RefCell::new(entries.iter().copied().collect()) }
}

impl Producer<u32> for &Queue {
    fn put(&self, data: u32) {
        assert_eq!(self.try_put(data), None);
    }

    fn try_put(&self, data: u32) -> Option<u32> {
        let mut entries = self.entries.borrow_mut();
        if entries.len() < self.room {
            entries.push_back(data);
            None
        } else {
            Some(data)
        }
    }
}

impl Consumer<u32> for &Queue {
    fn take(&self) -> u32 {
        self.try_take().unwrap()
    }

    fn try_take(&self) -> Option<u32> {
        self.entries.borrow_mut().pop_front()
    }
}

impl StrongObserver<u32> for &Queue {
    fn strong_observe(&self) -> u32 {
        self.try_take().unwrap()
    }

    fn try_strong_observe(&self) -> Option<u32> {
        self.try_take()
    }
}

fn retry(step: SendStep<u32>) -> (u32, WaitAction) {
    match step {
        SendStep::Retry { value, wait } => (value, wait),
        SendStep::Sent { .. } => panic!("was sent"),
    }
}

#[test]
fn wait_producer_retries_until_there_is_room() {
    let q = queue(1, &[1]);
    let p = WaitProducer::new(&q, WaitBusyAndThen::new(WaitCondVar::new(), 1));
    let mut waiter = p.wait_handler.new_waiter();
    assert_eq!(retry(p.try_send(2, &mut waiter)), (2, WaitAction::SpinLoop));
    assert_eq!(retry(p.try_send(2, &mut waiter)), (2, WaitAction::BlockOnCondvar));
    q.entries.borrow_mut().clear();
    assert!(matches!(
        p.try_send(2, &mut waiter),
        SendStep::Sent { notify: NotifyAction::NotifyCondvar }
    ));
    assert_eq!(*q.entries.borrow(), vec![2]);
}

#[test]
fn wait_producer_retries_with_what_came_back() {
    let q = queue(0, &[]);
    let p = WaitProducer::new(&q, WaitYield::new());
    let mut waiter = p.wait_handler.new_waiter();
    assert_eq!(retry(p.after_put(Some(9), &mut waiter)), (9, WaitAction::YieldThread));
    assert!(matches!(
        p.after_put(None::<u32>, &mut waiter),
        SendStep::Sent { notify: NotifyAction::Nothing }
    ));
}

#[test]
fn wait_consumer_waits_afresh_after_each_message() {
    let q = queue(9, &[]);
    let c = WaitConsumer::new(&q, WaitBusyAndThen::new(WaitCondVar::new(), 1));
    let mut waiter = c.wait_handler.new_waiter();
    let mut seen = Vec::new();
    let mut f = |v: u32| {
        seen.push(v);
        v == 3
    };
    assert_eq!(c.try_handle(&mut f, &mut waiter), HandleStep::Wait(WaitAction::SpinLoop));
    assert_eq!(c.try_handle(&mut f, &mut waiter), HandleStep::Wait(WaitAction::BlockOnCondvar));
    q.entries.borrow_mut().push_back(1);
    assert_eq!(
        c.try_handle(&mut f, &mut waiter),
        HandleStep::Notify(NotifyAction::NotifyCondvar)
    );
    assert_eq!(c.try_handle(&mut f, &mut waiter), HandleStep::Wait(WaitAction::SpinLoop));
    q.entries.borrow_mut().extend([2, 3, 4]);
    assert_eq!(
        c.try_handle(&mut f, &mut waiter),
        HandleStep::Notify(NotifyAction::NotifyCondvar)
    );
    assert_eq!(c.try_handle(&mut f, &mut waiter), HandleStep::Stop);
    assert_eq!(seen, vec![1, 2, 3]);
    assert_eq!(*q.entries.borrow(), vec![4]);
}

#[test]
fn wait_strong_observer_does_the_same() {
    let q = queue(9, &[5, 6]);
    let o = WaitStrongObserver::new(&q, WaitYield::new());
    let mut waiter = o.wait_handler.new_waiter();
    let mut f = |v: u32| v == 6;
    assert_eq!(o.try_handle(&mut f, &mut waiter), HandleStep::Notify(NotifyAction::Nothing));
    assert_eq!(o.try_handle(&mut f, &mut waiter), HandleStep::Stop);
    assert_eq!(o.try_handle(&mut f, &mut waiter), HandleStep::Wait(WaitAction::YieldThread));
}

#[test]
fn attempt_decides_the_step() {
    let h = WaitCondVar::new();
    let mut waiter = h.new_waiter();
    assert_eq!(after_attempt(&h, Some(true), &mut waiter), HandleStep::Stop);
    assert_eq!(
        after_attempt(&h, Some(false), &mut waiter),
        HandleStep::Notify(NotifyAction::NotifyCondvar)
    );
    assert_eq!(
        after_attempt(&h, None, &mut waiter),
        HandleStep::Wait(WaitAction::BlockOnCondvar)
    );
}

#[test]
fn call_producer_spins_and_then_yields() {
    let q = queue(0, &[]);
    let p = CallProducer::new(&q);
    let mut send = CallSend::new();
    for refusals in 0..N_BUSY_LOOPS + 10 {
        let expected = if refusals <= 64 { WaitAction::SpinLoop } else { WaitAction::YieldThread };
        match p.try_send(7, &mut send) {
            CallStep::Retry { value, wait } => {
                assert_eq!(value, 7);
                assert_eq!(wait, expected);
            }
            CallStep::Call => panic!("there was no room"),
        }
    }
}

#[test]
fn call_producer_calls_once_the_message_is_in() {
    let q = queue(1, &[]);
    let p = CallProducer::new(&q);
    let mut send = CallSend::new();
    assert!(matches!(p.try_send(7, &mut send), CallStep::Call));
    assert_eq!(*q.entries.borrow(), vec![7]);
    assert_eq!(send, CallSend::new());
}

#[test]
fn callback_is_called_once_registered() {
    let mut slot: CallbackSlot<Box<dyn FnMut(u32) -> bool>> = CallbackSlot::new();
    assert_eq!(slot.try_call(1), None);
    slot.register(Box::new(|v| v > 1));
    assert_eq!(slot.try_call(1), Some(false));
    assert_eq!(slot.try_call(2), Some(true));
    slot.register(Box::new(|_| false));
    assert_eq!(slot.try_call(2), Some(false));
}

#[test]
fn callback_stays_whatever_it_returns() {
    let mut log = Vec::new();
    let mut slot = CallbackSlot::new();
    slot.register(|v: u32| {
        log.push(v);
        true
    });
    assert_eq!(slot.try_call(7), Some(true));
    assert_eq!(slot.try_call(8), Some(true));
    drop(slot);
    assert_eq!(log, vec![7, 8]);
}

#[test]
fn taken_message_is_handled() {
    let mut seen = Vec::new();
    let mut f = |v: u32| {
        seen.push(v);
        v == 2
    };
    assert_eq!(handle_taken(Some(1), &mut f), Some(false));
    assert_eq!(handle_taken(None, &mut f), None);
    assert_eq!(handle_taken(Some(2), &mut f), Some(true));
    assert_eq!(seen, vec![1, 2]);
}

#[test]
fn call_consumer_takes_one_message_for_each_call() {
    let q = queue(9, &[1]);
    let c = CallConsumer::new(&q);
    let mut completion = Completion::new();
    let mut seen = Vec::new();
    let mut f = |v: u32| {
        seen.push(v);
        v == 2
    };
    let nothing = (false, NotifyAction::Nothing);
    assert_eq!(c.on_call(&mut completion, &mut f), nothing);
    assert_eq!(c.on_call(&mut completion, &mut f), nothing);
    q.entries.borrow_mut().extend([2, 3]);
    assert_eq!(c.on_call(&mut completion, &mut f), (true, NotifyAction::NotifyCondvar));
    assert_eq!(c.on_call(&mut completion, &mut f), nothing);
    assert_eq!(seen, vec![1, 2]);
    assert_eq!(*q.entries.borrow(), vec![3]);
}

#[test]
fn finished_receiver_is_handed_nothing() {
    let mut completion = Completion::new();
    let mut seen = Vec::new();
    let mut f = |v: u32| {
        seen.push(v);
        v == 2
    };
    let outcomes: Vec<bool> =
        [1, 2, 3, 2, 1].into_iter().map(|v| completion.on_message(v, &mut f).0).collect();
    assert_eq!(outcomes, vec![false, true, false, false, false]);
    assert_eq!(seen, vec![1, 2]);
    assert!(!completion.wants_call());
    assert!(!completion.must_wait());
}

#[test]
fn unfinished_receiver_is_handed_everything() {
    let mut completion = Completion::new();
    let mut seen = Vec::new();
    for v in [4, 5, 6] {
        let mut f = |v: u32| {
            seen.push(v);
            false
        };
        assert_eq!(completion.on_message(v, &mut f), (false, NotifyAction::Nothing));
    }
    assert_eq!(seen, vec![4, 5, 6]);
    assert!(completion.wants_call());
}

#[test]
fn observer_and_consumer_take_the_same_steps() {
    let (a, b) = (queue(9, &[]), queue(9, &[]));
    let c = WaitConsumer::new(&a, WaitBusyAndThen::new(WaitCondVar::new(), 1));
    let o = WaitStrongObserver::new(&b, WaitBusyAndThen::new(WaitCondVar::new(), 1));
    let (mut cw, mut ow) = (c.wait_handler.new_waiter(), o.wait_handler.new_waiter());
    let mut f = |v: u32| v == 3;
    for arriving in [None, None, None, Some(1), None, Some(2), Some(3)] {
        a.entries.borrow_mut().extend(arriving);
        b.entries.borrow_mut().extend(arriving);
        let step = c.try_handle(&mut f, &mut cw);
        assert_eq!(o.try_handle(&mut f, &mut ow), step);
        assert_eq!(step == HandleStep::Stop, arriving == Some(3));
        assert_eq!(matches!(step, HandleStep::Wait(_)), arriving.is_none());
    }
}

#[test]
fn completion_wakes_the_sleeper_at_the_end() {
    let mut c = Completion::new();
    assert!(c.must_wait());
    assert_eq!(c.after_call(None), (false, NotifyAction::Nothing));
    assert_eq!(c.after_call(Some(false)), (false, NotifyAction::Nothing));
    assert!(c.must_wait());
    assert_eq!(c.after_call(Some(true)), (true, NotifyAction::NotifyCondvar));
    assert!(!c.must_wait());
    assert_eq!(c.after_call(Some(false)), (false, NotifyAction::Nothing));
    assert!(!c.must_wait());
}
