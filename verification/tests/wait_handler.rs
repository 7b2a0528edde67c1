use ldos_tables::wait_handler::{
    FuncWaiter, NotifyAction, ThreadList, WaitAction, WaitBusy, WaitBusyAndThen, WaitCondVar,
    WaitHandler, WaitPark, WaitYield, Waiter, PARK_TIMEOUT_NANOS,
};
use std::cell::RefCell;

fn rounds<W: Waiter>(waiter: &mut W, n: usize) -> Vec<WaitAction> {
    (0..n).map(|_| waiter.wait()).collect()
}

#[test]
fn plain_handlers_do_one_thing() {
    assert_eq!(rounds(&mut WaitBusy::new().new_waiter(), 3), vec![WaitAction::SpinLoop; 3]);
    assert_eq!(rounds(&mut WaitYield::new().new_waiter(), 3), vec![WaitAction::YieldThread; 3]);
    assert_eq!(
        rounds(&mut WaitCondVar::new().new_waiter(), 3),
        vec![WaitAction::BlockOnCondvar; 3]
    );
    assert_eq!(
        rounds(&mut WaitPark::new().new_waiter(), 3),
        vec![WaitAction::ParkTimeout { nanos: 1000 }; 3]
    );
    assert_eq!(PARK_TIMEOUT_NANOS, 1000);
}

#[test]
fn notification_fits_the_way_of_waiting() {
    assert_eq!(WaitBusy::new().notify(), NotifyAction::Nothing);
    assert_eq!(WaitYield::new().notify(), NotifyAction::Nothing);
    assert_eq!(WaitCondVar::new().notify(), NotifyAction::NotifyCondvar);
    assert_eq!(WaitPark::new().notify(), NotifyAction::UnparkThreads);
}

#[test]
fn busy_and_then_spins_for_the_given_number_of_loops() {
    let h = WaitBusyAndThen::new(WaitYield::new(), 3);
    assert_eq!(
        rounds(&mut h.new_waiter(), 5),
        vec![
            WaitAction::SpinLoop,
            WaitAction::SpinLoop,
            WaitAction::SpinLoop,
            WaitAction::YieldThread,
            WaitAction::YieldThread,
        ]
    );
    let h = WaitBusyAndThen::new(WaitYield::new(), 0);
    assert_eq!(rounds(&mut h.new_waiter(), 2), vec![WaitAction::YieldThread; 2]);
}

#[test]
fn busy_and_then_can_be_nested() {
    let h = WaitBusyAndThen::new(WaitBusyAndThen::new(WaitCondVar::new(), 1), 2);
    assert_eq!(
        rounds(&mut h.new_waiter(), 4),
        vec![
            WaitAction::SpinLoop,
            WaitAction::SpinLoop,
            WaitAction::SpinLoop,
            WaitAction::BlockOnCondvar,
        ]
    );
    assert_eq!(h.notify(), NotifyAction::NotifyCondvar);
}

#[test]
fn each_waiter_starts_afresh() {
    let h = WaitBusyAndThen::new(WaitYield::new(), 1);
    let mut first = h.new_waiter();
    assert_eq!(rounds(&mut first, 2), vec![WaitAction::SpinLoop, WaitAction::YieldThread]);
    assert_eq!(rounds(&mut h.new_waiter(), 1), vec![WaitAction::SpinLoop]);
    assert_eq!(rounds(&mut first, 1), vec![WaitAction::YieldThread]);
}

#[test]
fn only_parking_needs_registration() {
    assert!(WaitPark::new().new_waiter().registers_thread());
    assert!(WaitBusyAndThen::new(WaitPark::new(), 5).new_waiter().registers_thread());
    assert!(!WaitBusyAndThen::new(WaitYield::new(), 5).new_waiter().registers_thread());
    assert!(!WaitCondVar::new().new_waiter().registers_thread());
    assert!(!FuncWaiter::new(WaitAction::SpinLoop).registers_thread());
}

#[test]
fn wait_until_waits_as_long_as_the_condition_fails() {
    let h = WaitBusyAndThen::new(WaitYield::new(), 1);
    let mut until = h.wait_until();
    assert_eq!(until.step(false), Some(WaitAction::SpinLoop));
    assert_eq!(until.step(false), Some(WaitAction::YieldThread));
    assert_eq!(until.step(true), None);
    assert_eq!(h.wait_until().step(true), None);
}

/// The handles of the threads that a notification wakes up, in order.
fn woken(list: &ThreadList<&'static str>) -> Vec<&'static str> {
    let seen = RefCell::new(Vec::new());
    list.unpark_all(|handle: &&'static str| seen.borrow_mut().push(*handle));
    seen.into_inner()
}

#[test]
fn thread_list_forgets_every_entry_of_a_thread() {
    let mut list = ThreadList::new();
    assert!(woken(&list).is_empty());
    list.register(1, "a");
    list.register(2, "b");
    list.register(1, "c");
    list.register(3, "d");
    assert_eq!(woken(&list), vec!["a", "b", "c", "d"]);
    list.unregister(1);
    assert_eq!(woken(&list), vec!["b", "d"]);
    list.unregister(7);
    assert_eq!(woken(&list), vec!["b", "d"]);
    list.unregister(3);
    list.unregister(2);
    assert!(woken(&list).is_empty());
}

#[test]
fn registered_thread_is_woken_until_it_drops_a_waiter() {
    let mut list = ThreadList::new();
    list.register(5, "me");
    list.register(6, "other");
    list.unregister(6);
    list.register(5, "me again");
    assert_eq!(woken(&list), vec!["me", "me again"]);
    assert_eq!(woken(&list), vec!["me", "me again"]);
    list.unregister(5);
    assert!(woken(&list).is_empty());
}

fn is_woken_by(notification: NotifyAction, action: WaitAction) -> bool {
    match action {
        WaitAction::SpinLoop | WaitAction::YieldThread => true,
        WaitAction::BlockOnCondvar => notification == NotifyAction::NotifyCondvar,
        WaitAction::ParkTimeout { .. } => notification == NotifyAction::UnparkThreads,
    }
}

fn notifies_its_waiters<H: WaitHandler>(h: H) -> bool {
    rounds(&mut h.new_waiter(), 10).iter().all(|a| is_woken_by(h.notify(), *a))
}

#[test]
fn notifications_reach_those_that_wait() {
    assert!(notifies_its_waiters(WaitCondVar::new()));
    assert!(notifies_its_waiters(WaitPark::new()));
    assert!(notifies_its_waiters(WaitBusy::new()));
    assert!(notifies_its_waiters(WaitYield::new()));
    assert!(notifies_its_waiters(WaitBusyAndThen::new(WaitCondVar::new(), 4)));
    assert!(notifies_its_waiters(WaitBusyAndThen::new(WaitPark::new(), 4)));
}
