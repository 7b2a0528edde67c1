//! Ways of waiting for some event to occur. A handler is shared between threads: a thread that
//! waits asks its waiter what to do next, and a thread that has made something happen asks the
//! handler how to wake up the others.
//!
//! What a thread does while it waits (spin, yield, block) is left to the caller; the types here
//! decide which of these it is.
use vstd::prelude::*;

verus! {

/// What a thread does for one round of waiting.
#[derive(Clone, Copy, Debug, PartialEq, Eq, Structural)]
pub enum WaitAction {
    /// Tell the processor that this is a busy-wait loop, and go on.
    SpinLoop,
    /// Give the rest of the time slice back to the scheduler.
    YieldThread,
    /// Block on the handler's condition variable until it is notified.
    BlockOnCondvar,
    /// Park the thread until it is unparked, for at most this many nanoseconds.
    ParkTimeout { nanos: u64 },
}

/// What a thread does to wake up those that wait.
#[derive(Clone, Copy, Debug, PartialEq, Eq, Structural)]
pub enum NotifyAction {
    /// Nobody has to be told.
    Nothing,
    /// Notify all that block on the handler's condition variable, under its mutex.
    NotifyCondvar,
    /// Unpark every thread that is registered with the handler.
    UnparkThreads,
}

/// For how long a parked thread sleeps at most, in nanoseconds.
pub const PARK_TIMEOUT_NANOS: u64 = 1000;

/// One thread's wait for one event.
pub trait Waiter: Sized {
    /// What the next round of waiting is.
    spec fn next_action(&self) -> WaitAction;

    /// The waiter after that round.
    spec fn after_wait(&self) -> Self;

    /// Whether the thread has to be registered for unparking when this waiter is made, and
    /// unregistered when it is dropped.
    spec fn needs_registration(&self) -> bool;

    /// Decides the next round of waiting.
    fn wait(&mut self) -> (action: WaitAction)
        ensures
            action == old(self).next_action(),
            *final(self) == old(self).after_wait(),
    ;

    /// Tells whether the thread has to be registered for unparking when this waiter is made, and
    /// unregistered when it is dropped.
    fn registers_thread(&self) -> (registers: bool)
        ensures
            registers == self.needs_registration(),
    ;
}

/// The waiter after `k` rounds of waiting.
pub open spec fn waiter_after<W: Waiter>(w: W, k: nat) -> W
    decreases k,
{
    if k == 0 {
        w
    } else {
        waiter_after(w, (k - 1) as nat).after_wait()
    }
}

/// What the waiter does in its round number `k`, counted from zero.
pub open spec fn nth_action<W: Waiter>(w: W, k: nat) -> WaitAction {
    waiter_after(w, k).next_action()
}

/// A way of waiting that threads share.
pub trait WaitHandler: Sized + Send + Sync {
    type W: Waiter;

    /// The waiter that a thread starts with.
    spec fn fresh_waiter(&self) -> Self::W;

    /// How waiting threads are woken up.
    spec fn notification(&self) -> NotifyAction;

    /// Makes a waiter for one wait.
    fn new_waiter(&self) -> (w: Self::W)
        ensures
            w == self.fresh_waiter(),
    ;

    /// Starts a wait for a condition, with a waiter of its own.
    fn wait_until(&self) -> (until: WaitUntil<Self::W>)
        ensures
            until.waiter == self.fresh_waiter(),
    {
        WaitUntil { waiter: self.new_waiter() }
    }

    /// Decides how waiting threads are woken up.
    fn notify(&self) -> (action: NotifyAction)
        ensures
            action == self.notification(),
    ;
}

/// A wait for a condition that only the caller can test.
pub struct WaitUntil<W: Waiter> {
    pub waiter: W,
}

impl<W: Waiter> WaitUntil<W> {
    /// Takes what the condition was just found to be. `None` says that the wait is over; otherwise
    /// the caller waits as told and tests the condition again.
    pub fn step(&mut self, holds: bool) -> (action: Option<WaitAction>)
        ensures
            holds ==> action is None && *final(self) == *old(self),
            !holds ==> action == Some(old(self).waiter.next_action())
                && final(self).waiter == old(self).waiter.after_wait(),
    {
        if holds {
            None
        } else {
            Some(self.waiter.wait())
        }
    }
}

/// A waiter that does the same in every round.
#[derive(Clone, Copy, Debug, PartialEq, Eq, Structural)]
pub struct FuncWaiter {
    pub action: WaitAction,
}

impl FuncWaiter {
    /// A waiter that does `action` in every round.
    pub fn new(action: WaitAction) -> (w: Self)
        ensures
            w == (FuncWaiter { action }),
    {
        FuncWaiter { action }
    }
}

impl Waiter for FuncWaiter {
    open spec fn next_action(&self) -> WaitAction {
        self.action
    }

    open spec fn after_wait(&self) -> Self {
        *self
    }

    open spec fn needs_registration(&self) -> bool {
        false
    }

    fn wait(&mut self) -> (action: WaitAction) {
        self.action
    }

    fn registers_thread(&self) -> (registers: bool) {
        false
    }
}

/// A wait handler which waits using a condition variable and an associated mutex.
#[derive(Clone, Copy, Debug)]
pub struct WaitCondVar {}

impl WaitCondVar {
    pub fn new() -> (h: Self)
        ensures
            h.fresh_waiter() == (FuncWaiter { action: WaitAction::BlockOnCondvar }),
            h.notification() == NotifyAction::NotifyCondvar,
    {
        WaitCondVar {  }
    }
}

impl WaitHandler for WaitCondVar {
    type W = FuncWaiter;

    open spec fn fresh_waiter(&self) -> FuncWaiter {
        FuncWaiter { action: WaitAction::BlockOnCondvar }
    }

    open spec fn notification(&self) -> NotifyAction {
        NotifyAction::NotifyCondvar
    }

    fn new_waiter(&self) -> (w: FuncWaiter) {
        FuncWaiter::new(WaitAction::BlockOnCondvar)
    }

    fn notify(&self) -> (action: NotifyAction) {
        NotifyAction::NotifyCondvar
    }
}

/// A wait handler which keeps a list of the waiting threads. The waiting threads park themselves,
/// and notification unparks them.
#[derive(Clone, Copy, Debug)]
pub struct WaitPark {}

impl WaitPark {
    pub fn new() -> (h: Self)
        ensures
            h.fresh_waiter() == (WaiterPark {  }),
            h.notification() == NotifyAction::UnparkThreads,
    {
        WaitPark {  }
    }
}

/// The waiter of a [`WaitPark`]. Its thread is put into the handler's [`ThreadList`] when the waiter
/// is made, and all entries of the thread are taken out of it when the waiter is dropped.
#[derive(Clone, Copy, Debug, PartialEq, Eq, Structural)]
pub struct WaiterPark {}

impl Waiter for WaiterPark {
    open spec fn next_action(&self) -> WaitAction {
        WaitAction::ParkTimeout { nanos: PARK_TIMEOUT_NANOS }
    }

    open spec fn after_wait(&self) -> Self {
        *self
    }

    open spec fn needs_registration(&self) -> bool {
        true
    }

    fn wait(&mut self) -> (action: WaitAction) {
        WaitAction::ParkTimeout { nanos: PARK_TIMEOUT_NANOS }
    }

    fn registers_thread(&self) -> (registers: bool) {
        true
    }
}

impl WaitHandler for WaitPark {
    type W = WaiterPark;

    open spec fn fresh_waiter(&self) -> WaiterPark {
        WaiterPark {  }
    }

    open spec fn notification(&self) -> NotifyAction {
        NotifyAction::UnparkThreads
    }

    fn new_waiter(&self) -> (w: WaiterPark) {
        WaiterPark {  }
    }

    fn notify(&self) -> (action: NotifyAction) {
        NotifyAction::UnparkThreads
    }
}

/// A wait handler which busy waits.
#[derive(Clone, Copy, Debug)]
pub struct WaitBusy {}

impl WaitBusy {
    pub fn new() -> (h: Self)
        ensures
            h.fresh_waiter() == (FuncWaiter { action: WaitAction::SpinLoop }),
            h.notification() == NotifyAction::Nothing,
    {
        WaitBusy {  }
    }
}

impl WaitHandler for WaitBusy {
    type W = FuncWaiter;

    open spec fn fresh_waiter(&self) -> FuncWaiter {
        FuncWaiter { action: WaitAction::SpinLoop }
    }

    open spec fn notification(&self) -> NotifyAction {
        NotifyAction::Nothing
    }

    fn new_waiter(&self) -> (w: FuncWaiter) {
        FuncWaiter::new(WaitAction::SpinLoop)
    }

    fn notify(&self) -> (action: NotifyAction) {
        NotifyAction::Nothing
    }
}

/// A wait handler which yields back to the OS thread scheduler.
#[derive(Clone, Copy, Debug)]
pub struct WaitYield {}

impl WaitYield {
    pub fn new() -> (h: Self)
        ensures
            h.fresh_waiter() == (FuncWaiter { action: WaitAction::YieldThread }),
            h.notification() == NotifyAction::Nothing,
    {
        WaitYield {  }
    }
}

impl WaitHandler for WaitYield {
    type W = FuncWaiter;

    open spec fn fresh_waiter(&self) -> FuncWaiter {
        FuncWaiter { action: WaitAction::YieldThread }
    }

    open spec fn notification(&self) -> NotifyAction {
        NotifyAction::Nothing
    }

    fn new_waiter(&self) -> (w: FuncWaiter) {
        FuncWaiter::new(WaitAction::YieldThread)
    }

    fn notify(&self) -> (action: NotifyAction) {
        NotifyAction::Nothing
    }
}

/// A wait handler which busy waits for a given number of loops and then calls a different waiter.
#[derive(Clone, Copy, Debug)]
pub struct WaitBusyAndThen<N: WaitHandler> {
    pub next: N,
    pub n: u32,
}

impl<N: WaitHandler> WaitBusyAndThen<N> {
    /// Busy waits for `n` loops, and then waits as `next` does.
    pub fn new(next: N, n: u32) -> (h: Self)
        ensures
            h.next == next,
            h.n == n,
    {
        WaitBusyAndThen { next, n }
    }
}

/// The waiter of a [`WaitBusyAndThen`].
pub struct BusyAndThenWaiter<W: Waiter> {
    /// How many rounds of busy waiting are left.
    pub busy_left: u32,
    pub next: W,
}

impl<W: Waiter> Waiter for BusyAndThenWaiter<W> {
    open spec fn next_action(&self) -> WaitAction {
        if self.busy_left > 0 {
            WaitAction::SpinLoop
        } else {
            self.next.next_action()
        }
    }

    open spec fn after_wait(&self) -> Self {
        if self.busy_left > 0 {
            BusyAndThenWaiter { busy_left: (self.busy_left - 1) as u32, next: self.next }
        } else {
            BusyAndThenWaiter { busy_left: 0, next: self.next.after_wait() }
        }
    }

    open spec fn needs_registration(&self) -> bool {
        self.next.needs_registration()
    }

    fn wait(&mut self) -> (action: WaitAction) {
        if self.busy_left > 0 {
            self.busy_left = self.busy_left - 1;
            WaitAction::SpinLoop
        } else {
            self.next.wait()
        }
    }

    fn registers_thread(&self) -> (registers: bool) {
        self.next.registers_thread()
    }
}

impl<N: WaitHandler> WaitHandler for WaitBusyAndThen<N> {
    type W = BusyAndThenWaiter<N::W>;

    open spec fn fresh_waiter(&self) -> BusyAndThenWaiter<N::W> {
        BusyAndThenWaiter { busy_left: self.n, next: self.next.fresh_waiter() }
    }

    open spec fn notification(&self) -> NotifyAction {
        self.next.notification()
    }

    fn new_waiter(&self) -> (w: BusyAndThenWaiter<N::W>) {
        BusyAndThenWaiter { busy_left: self.n, next: self.next.new_waiter() }
    }

    fn notify(&self) -> (action: NotifyAction) {
        self.next.notify()
    }
}

/// The threads that wait on a [`WaitPark`] handler, each with the handle by which it is unparked.
pub struct ThreadList<H> {
    pub threads: Vec<(u64, H)>,
}

impl<H> View for ThreadList<H> {
    type V = Seq<(u64, H)>;

    open spec fn view(&self) -> Seq<(u64, H)> {
        self.threads@
    }
}

/// Whether a list entry belongs to another thread than `id`.
pub open spec fn other_thread<H>(id: u64) -> spec_fn((u64, H)) -> bool {
    |t: (u64, H)| t.0 != id
}

impl<H> ThreadList<H> {
    /// A list of no threads.
    pub fn new() -> (list: Self)
        ensures
            list@ == Seq::<(u64, H)>::empty(),
    {
        ThreadList { threads: Vec::new() }
    }

    /// Adds the thread that has just made a waiter.
    pub fn register(&mut self, id: u64, handle: H)
        ensures
            final(self)@ == old(self)@.push((id, handle)),
    {
        self.threads.push((id, handle));
    }

    /// Removes every entry of the thread that has just dropped a waiter. All other entries stay, in
    /// their order.
    pub fn unregister(&mut self, id: u64)
        ensures
            final(self)@ == old(self)@.filter(other_thread::<H>(id)),
    {
        let ghost before = self@;
        let ghost others = other_thread::<H>(id);
        let mut i: usize = 0;
        let ghost mut done: int = 0;
        assert(before.take(0) =~= Seq::empty());
        reveal(Seq::filter);
        while i < self.threads.len()
            invariant
                others == other_thread::<H>(id),
                i <= self.threads.len(),
                0 <= done <= before.len(),
                self.threads@.take(i as int) =~= before.take(done).filter(others),
                self.threads@.skip(i as int) =~= before.skip(done),
            decreases self.threads.len() - i,
        {
            let ghost list = self.threads@;
            assert(list.skip(i as int).len() == before.skip(done).len());
            assert(before.take(done + 1).drop_last() =~= before.take(done));
            assert(list.skip(i as int)[0] == before.skip(done)[0]);
            assert(before.take(done + 1).last() == list[i as int]);
            reveal(Seq::filter);
            if self.threads[i].0 == id {
                self.threads.remove(i);
                assert(self.threads@.take(i as int) =~= list.take(i as int));
                assert(self.threads@.skip(i as int) =~= list.skip(i as int).skip(1));
            } else {
                i += 1;
                assert(list.take(i as int) =~= list.take(i - 1).push(list[i - 1]));
                assert(list.skip(i as int) =~= list.skip(i - 1).skip(1));
            }
            assert(before.skip(done + 1) =~= before.skip(done).skip(1));
            proof {
                done = done + 1;
            }
        }
        assert(self.threads@.skip(i as int).len() == 0);
        assert(before.take(done) =~= before);
        assert(self.threads@.take(i as int) =~= self.threads@);
    }

    /// Wakes up the waiting threads: calls `unpark` with the handle of each entry, in order. The list
    /// stays as it is.
    pub fn unpark_all<U: Fn(&H)>(&self, unpark: U)
        requires
            forall|i: int|
                0 <= i < self@.len() ==> call_requires(unpark, (&(#[trigger] self@[i]).1,)),
        ensures
            forall|i: int|
                0 <= i < self@.len() ==> call_ensures(unpark, (&(#[trigger] self@[i]).1,), ()),
    {
        let mut i: usize = 0;
        while i < self.threads.len()
            invariant
                i <= self.threads.len(),
                forall|j: int|
                    0 <= j < self@.len() ==> call_requires(unpark, (&(#[trigger] self@[j]).1,)),
                forall|j: int|
                    0 <= j < i ==> call_ensures(unpark, (&(#[trigger] self@[j]).1,), ()),
            decreases self.threads.len() - i,
        {
            assert(self.threads@[i as int] == self@[i as int]);
            unpark(&self.threads[i].1);
            i += 1;
        }
    }
}

/// The rounds of a wait for a condition that is found to be as `readings` say.
pub open spec fn until_actions<W: Waiter>(waiter: W, readings: Seq<bool>) -> Seq<WaitAction>
    decreases readings.len(),
{
    if readings.len() == 0 || readings[0] {
        Seq::empty()
    } else {
        seq![waiter.next_action()] + until_actions(waiter.after_wait(), readings.skip(1))
    }
}

/// A wait for a condition that fails `k` times and then holds takes the first `k` rounds of its
/// waiter, and no more.
pub proof fn law_wait_until<W: Waiter>(waiter: W, readings: Seq<bool>, k: nat)
    requires
        k < readings.len(),
        forall|i: int| 0 <= i < k ==> !readings[i],
        readings[k as int],
    ensures
        until_actions(waiter, readings) == Seq::new(k, |i: int| nth_action(waiter, i as nat)),
    decreases k,
{
    let expected = Seq::new(k, |i: int| nth_action(waiter, i as nat));
    if k == 0 {
        assert(until_actions(waiter, readings) =~= expected);
    } else {
        let next = waiter.after_wait();
        law_wait_until(next, readings.skip(1), (k - 1) as nat);
        let actual = until_actions(waiter, readings);
        assert(actual.len() == k);
        assert forall|i: int| 0 <= i < k implies actual[i] == expected[i] by {
            if i > 0 {
                lemma_first_round(waiter, (i - 1) as nat);
                assert(actual[i] == until_actions(next, readings.skip(1))[i - 1]);
            }
        }
        assert(actual =~= expected);
    }
}

proof fn lemma_first_round<W: Waiter>(waiter: W, k: nat)
    ensures
        waiter_after(waiter, k + 1) == waiter_after(waiter.after_wait(), k),
    decreases k,
{
    if k == 0 {
        assert(waiter_after(waiter, 0) == waiter);
    } else {
        lemma_first_round(waiter, (k - 1) as nat);
    }
}

/// A busy-and-then wait spins for exactly its number of loops, and from there on does what the next
/// handler's waiter does from its beginning.
pub proof fn law_busy_and_then<N: WaitHandler>(h: WaitBusyAndThen<N>, k: nat)
    ensures
        k < h.n ==> nth_action(h.fresh_waiter(), k) == WaitAction::SpinLoop,
        k >= h.n ==> nth_action(h.fresh_waiter(), k) == nth_action(
            h.next.fresh_waiter(),
            (k - h.n) as nat,
        ),
{
    lemma_busy_and_then_state(h, k);
}

proof fn lemma_busy_and_then_state<N: WaitHandler>(h: WaitBusyAndThen<N>, k: nat)
    ensures
        k <= h.n ==> waiter_after(h.fresh_waiter(), k) == (BusyAndThenWaiter {
            busy_left: (h.n - k) as u32,
            next: h.next.fresh_waiter(),
        }),
        k >= h.n ==> waiter_after(h.fresh_waiter(), k) == (BusyAndThenWaiter {
            busy_left: 0,
            next: waiter_after(h.next.fresh_waiter(), (k - h.n) as nat),
        }),
    decreases k,
{
    if k > 0 {
        lemma_busy_and_then_state(h, (k - 1) as nat);
    }
}

/// A parking waiter parks with the same time limit in every round.
pub proof fn law_park_waiter_is_constant(w: WaiterPark, k: nat)
    ensures
        nth_action(w, k) == (WaitAction::ParkTimeout { nanos: PARK_TIMEOUT_NANOS }),
    decreases k,
{
    if k > 0 {
        law_park_waiter_is_constant(w, (k - 1) as nat);
    }
}

/// A waiter of a plain handler does the same in every round.
pub proof fn law_func_waiter_is_constant(w: FuncWaiter, k: nat)
    ensures
        nth_action(w, k) == w.action,
        waiter_after(w, k) == w,
    decreases k,
{
    if k > 0 {
        law_func_waiter_is_constant(w, (k - 1) as nat);
    }
}

/// Whether a thread in this round of waiting goes on by itself, or is woken up by this notification.
pub open spec fn wakes(notification: NotifyAction, action: WaitAction) -> bool {
    match action {
        WaitAction::SpinLoop => true,
        WaitAction::YieldThread => true,
        WaitAction::BlockOnCondvar => notification == NotifyAction::NotifyCondvar,
        WaitAction::ParkTimeout { .. } => notification == NotifyAction::UnparkThreads,
    }
}

/// Whether the notifications of a handler reach those that wait on it, in whatever round they are:
/// they are of the right kind, and whoever parks is registered.
pub open spec fn notifies_its_waiters<H: WaitHandler>(h: H) -> bool {
    forall|k: nat|
        {
            let action = #[trigger] nth_action(h.fresh_waiter(), k);
            &&& wakes(h.notification(), action)
            &&& action is ParkTimeout ==> h.fresh_waiter().needs_registration()
        }
}

/// The notifications of each plain handler reach those that wait on it.
pub proof fn law_plain_handlers_notify_their_waiters(
    condvar: WaitCondVar,
    park: WaitPark,
    busy: WaitBusy,
    yielding: WaitYield,
)
    ensures
        notifies_its_waiters(condvar),
        notifies_its_waiters(park),
        notifies_its_waiters(busy),
        notifies_its_waiters(yielding),
{
    assert forall|k: nat| #[trigger]
        nth_action(condvar.fresh_waiter(), k) == WaitAction::BlockOnCondvar by {
        law_func_waiter_is_constant(condvar.fresh_waiter(), k);
    }
    assert forall|k: nat| #[trigger]
        nth_action(busy.fresh_waiter(), k) == WaitAction::SpinLoop by {
        law_func_waiter_is_constant(busy.fresh_waiter(), k);
    }
    assert forall|k: nat| #[trigger]
        nth_action(yielding.fresh_waiter(), k) == WaitAction::YieldThread by {
        law_func_waiter_is_constant(yielding.fresh_waiter(), k);
    }
    assert forall|k: nat| #[trigger]
        nth_action(park.fresh_waiter(), k) == (WaitAction::ParkTimeout {
            nanos: PARK_TIMEOUT_NANOS,
        }) by {
        law_park_waiter_is_constant(park.fresh_waiter(), k);
    }
}

/// Where the notifications of the next handler reach those that wait on it, so do those of the
/// handler that busy waits first.
pub proof fn law_busy_and_then_notifies_its_waiters<N: WaitHandler>(h: WaitBusyAndThen<N>)
    requires
        notifies_its_waiters(h.next),
    ensures
        notifies_its_waiters(h),
{
    assert forall|k: nat|
        {
            let action = #[trigger] nth_action(h.fresh_waiter(), k);
            &&& wakes(h.notification(), action)
            &&& action is ParkTimeout ==> h.fresh_waiter().needs_registration()
        } by {
        law_busy_and_then(h, k);
        if k >= h.n {
            let action = nth_action(h.next.fresh_waiter(), (k - h.n) as nat);
            assert(wakes(h.next.notification(), action));
        }
    }
}

proof fn lemma_filter_keeps_entries_of<A>(s: Seq<A>, pred: spec_fn(A) -> bool, i: int)
    requires
        0 <= i < s.filter(pred).len(),
    ensures
        s.contains(s.filter(pred)[i]),
    decreases s.len(),
{
    reveal(Seq::filter);
    let front = s.drop_last();
    if i < front.filter(pred).len() {
        lemma_filter_keeps_entries_of(front, pred, i);
        let j = choose|j: int| 0 <= j < front.len() && front[j] == front.filter(pred)[i];
        assert(s[j] == s.filter(pred)[i]);
    } else {
        assert(s[s.len() - 1] == s.filter(pred)[i]);
    }
}

/// A change of a [`ThreadList`].
pub enum ListChange<H> {
    Registered { id: u64, handle: H },
    Unregistered { id: u64 },
}

/// A list of threads after some changes.
pub open spec fn list_after<H>(list: Seq<(u64, H)>, changes: Seq<ListChange<H>>) -> Seq<(u64, H)>
    decreases changes.len(),
{
    if changes.len() == 0 {
        list
    } else {
        let before = list_after(list, changes.drop_last());
        match changes.last() {
            ListChange::Registered { id, handle } => before.push((id, handle)),
            ListChange::Unregistered { id } => before.filter(other_thread::<H>(id)),
        }
    }
}

/// A thread that has made a waiter is woken up by every notification until it drops one: it stays in
/// the list, whatever other threads do, and whatever other waiters it makes.
pub proof fn law_registered_thread_stays<H>(
    list: Seq<(u64, H)>,
    id: u64,
    handle: H,
    changes: Seq<ListChange<H>>,
)
    requires
        forall|i: int|
            0 <= i < changes.len() ==> #[trigger] changes[i] != (ListChange::<H>::Unregistered { id }),
    ensures
        list_after(list.push((id, handle)), changes).contains((id, handle)),
    decreases changes.len(),
{
    let start = list.push((id, handle));
    let entry = (id, handle);
    if changes.len() == 0 {
        assert(start[list.len() as int] == entry);
    } else {
        let front = changes.drop_last();
        assert forall|i: int| 0 <= i < front.len() implies #[trigger] front[i] != (ListChange::<
            H,
        >::Unregistered { id }) by {
            assert(front[i] == changes[i]);
        }
        law_registered_thread_stays(list, id, handle, front);
        let before = list_after(start, front);
        let last = changes[changes.len() - 1];
        match last {
            ListChange::Registered { id: new_id, handle: new_handle } => {
                let j = choose|j: int| 0 <= j < before.len() && before[j] == entry;
                assert(before.push((new_id, new_handle))[j] == entry);
            },
            ListChange::Unregistered { id: gone } => {
                law_unregistered_thread_is_gone(before, gone, entry);
            },
        }
    }
}

/// A thread that has dropped a waiter is no longer in the list, however often it was registered,
/// and every other thread still is.
pub proof fn law_unregistered_thread_is_gone<H>(list: Seq<(u64, H)>, id: u64, entry: (u64, H))
    ensures
        list.filter(other_thread::<H>(id)).contains(entry) <==> list.contains(entry) && entry.0
            != id,
{
    broadcast use vstd::seq_lib::group_filter_ensures;

    let others = other_thread::<H>(id);
    let kept = list.filter(others);
    if kept.contains(entry) {
        let j = choose|j: int| 0 <= j < kept.len() && kept[j] == entry;
        assert(others(kept[j]));
        lemma_filter_keeps_entries_of(list, others, j);
    }
    if list.contains(entry) && entry.0 != id {
        let j = choose|j: int| 0 <= j < list.len() && list[j] == entry;
        assert(others(list[j]));
        assert(kept.contains(list[j]));
    }
}

/// Each plain handler waits as its name says, in every round, and notifies as fits; only a parking
/// thread has to be registered.
pub proof fn law_plain_handlers_do_as_named(
    condvar: WaitCondVar,
    park: WaitPark,
    busy: WaitBusy,
    yielding: WaitYield,
    k: nat,
)
    ensures
        nth_action(condvar.fresh_waiter(), k) == WaitAction::BlockOnCondvar,
        nth_action(park.fresh_waiter(), k) == (WaitAction::ParkTimeout { nanos: 1000 }),
        nth_action(busy.fresh_waiter(), k) == WaitAction::SpinLoop,
        nth_action(yielding.fresh_waiter(), k) == WaitAction::YieldThread,
        condvar.notification() == NotifyAction::NotifyCondvar,
        park.notification() == NotifyAction::UnparkThreads,
        busy.notification() == NotifyAction::Nothing,
        yielding.notification() == NotifyAction::Nothing,
        park.fresh_waiter().needs_registration(),
        !condvar.fresh_waiter().needs_registration(),
        !busy.fresh_waiter().needs_registration(),
        !yielding.fresh_waiter().needs_registration(),
{
    law_func_waiter_is_constant(condvar.fresh_waiter(), k);
    law_func_waiter_is_constant(busy.fresh_waiter(), k);
    law_func_waiter_is_constant(yielding.fresh_waiter(), k);
    law_park_waiter_is_constant(park.fresh_waiter(), k);
}

} // verus!
