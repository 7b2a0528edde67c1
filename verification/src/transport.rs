//! How the ends of a transport are driven: when to retry, how to wait, whom to wake up.
//!
//! Each end is a loop that only the caller can run, because it blocks. The functions here take what
//! the last attempt gave and decide the next step of that loop.
use crate::generic_stress::TestReceiver;
use crate::table_ipc::{Consumer, Producer, StrongObserver};
use crate::wait_handler::{
    nth_action, waiter_after, NotifyAction, WaitAction, WaitHandler, Waiter,
};
use vstd::pervasive::unreached;
use vstd::prelude::*;

verus! {

/// A producer that is refused busy waits as long as the number of refusals before is at most this;
/// after that it yields.
pub const N_BUSY_LOOPS: usize = 64;

/// A receiver of which there is no value, for runs without one.
pub struct NullReceiver {
    _private: (),
}

impl NullReceiver {
    #[verifier::type_invariant]
    spec fn unconstructable(self) -> bool {
        false
    }
}

impl<T: Copy + Send> TestReceiver<T> for NullReceiver {
    fn handle<F: FnMut(T) -> bool + Send + 'static>(self, _f: F) {
        proof {
            use_type_invariant(&self);
        }
        unreached()
    }
}

/// What a producer does after an attempt to put a message into a table.
#[derive(Debug)]
pub enum SendStep<T> {
    /// The table was full. Wait, then try again with the message that came back.
    Retry { value: T, wait: WaitAction },
    /// The message is in the table. Wake up whoever waits for it, and stop.
    Sent { notify: NotifyAction },
}

/// Puts messages into a table, and waits with a wait handler while the table is full.
pub struct WaitProducer<P, W: WaitHandler> {
    pub inner: P,
    pub wait_handler: W,
}

/// The step of a send whose last attempt gave `refused`, and the waiter after that step.
pub open spec fn send_step<T, W: WaitHandler>(
    handler: W,
    refused: Option<T>,
    waiter: W::W,
) -> (SendStep<T>, W::W) {
    match refused {
        Some(value) => (
            SendStep::Retry { value, wait: waiter.next_action() },
            waiter.after_wait(),
        ),
        None => (SendStep::Sent { notify: handler.notification() }, waiter),
    }
}

impl<P, W: WaitHandler> WaitProducer<P, W> {
    pub fn new(inner: P, wait_handler: W) -> (p: Self)
        ensures
            p.inner == inner,
            p.wait_handler == wait_handler,
    {
        WaitProducer { inner, wait_handler }
    }

    /// Decides the next step of a send from what the attempt to put the message gave back. A send
    /// uses one fresh waiter for all its attempts.
    pub fn after_put<T>(&self, refused: Option<T>, waiter: &mut W::W) -> (step: SendStep<T>)
        ensures
            (step, *final(waiter)) == send_step(self.wait_handler, refused, *old(waiter)),
    {
        match refused {
            Some(value) => {
                let wait = waiter.wait();
                SendStep::Retry { value, wait }
            },
            None => SendStep::Sent { notify: self.wait_handler.notify() },
        }
    }

    /// Makes one attempt to put a message into the table, and decides the next step of the send.
    pub fn try_send<T>(&self, v: T, waiter: &mut W::W) -> (step: SendStep<T>) where P: Producer<T>
        ensures
            exists|refused: Option<T>|
                #[trigger] call_ensures(P::try_put, (&self.inner, v), refused) && (
                    step,
                    *final(waiter),
                ) == send_step(self.wait_handler, refused, *old(waiter)),
    {
        let refused = self.inner.try_put(v);
        self.after_put(refused, waiter)
    }
}

/// What a receiver does after an attempt to get a message out of a table.
#[derive(Clone, Copy, Debug, PartialEq, Eq, Structural)]
pub enum HandleStep {
    /// The last message is handled.
    Stop,
    /// A message is handled. Announce the room it left, and try again.
    Notify(NotifyAction),
    /// There was no message. Wait, then try again.
    Wait(WaitAction),
}

/// The step of a receiver after an attempt, and the waiter after that step. `handled` is `None`
/// where there was no message, and otherwise whether the message's handler wants to finish.
pub open spec fn handle_step<W: WaitHandler>(
    handler: W,
    handled: Option<bool>,
    waiter: W::W,
) -> (HandleStep, W::W) {
    match handled {
        Some(finish) => if finish {
            (HandleStep::Stop, waiter)
        } else {
            (HandleStep::Notify(handler.notification()), handler.fresh_waiter())
        },
        None => (HandleStep::Wait(waiter.next_action()), waiter.after_wait()),
    }
}

/// What one attempt of a receiver may give, where the table gave `taken` and the message's handler
/// is `f`.
pub open spec fn handled_by<T, F: FnMut(T) -> bool>(
    f: F,
    taken: Option<T>,
    handled: Option<bool>,
) -> bool {
    match taken {
        Some(v) => handled matches Some(finish) && call_ensures(f, (v,), finish),
        None => handled is None,
    }
}

/// Hands the message that was taken, if there is one, to its handler, and gives what that returned.
pub fn handle_taken<T, F: FnMut(T) -> bool>(taken: Option<T>, f: &mut F) -> (handled: Option<bool>)
    requires
        taken matches Some(v) ==> call_requires(*old(f), (v,)),
    ensures
        handled_by(*old(f), taken, handled),
        *final(f) == *old(f),
{
    match taken {
        Some(v) => Some(f(v)),
        None => None,
    }
}

/// A table end that hands its next message, if there is one, to the handler `f`, which it borrows for
/// as long as `'f`. That is for good: whoever has nothing but this of a table can take one message
/// for the handler, and neither a second one nor one that the handler does not get.
pub trait HandsOver<'f, T, F: FnMut(T) -> bool> {
    /// Whether an attempt to take a message can give `taken`.
    spec fn gives(&self, taken: Option<T>) -> bool;

    /// Takes the next message, if there is one, hands it to `f`, and gives what that returned.
    fn hand_over(&self, f: &'f mut F) -> (handled: Option<bool>)
        requires
            forall|v: T| #[trigger] call_requires(*old(f), (v,)),
        ensures
            exists|taken: Option<T>| #[trigger]
                self.gives(taken) && handled_by(*old(f), taken, handled),
            *final(f) == *old(f),
    ;
}

impl<'f, T, F: FnMut(T) -> bool, C: Consumer<T>> HandsOver<'f, T, F> for C {
    open spec fn gives(&self, taken: Option<T>) -> bool {
        call_ensures(C::try_take, (self,), taken)
    }

    fn hand_over(&self, f: &'f mut F) -> (handled: Option<bool>) {
        let taken = self.try_take();
        let ghost was_taken = taken;
        let handled = handle_taken(taken, f);
        assert(HandsOver::<'f, T, F>::gives(self, was_taken));
        handled
    }
}

/// A table end that shows the next message, if there is one, to the handler `f`, and as with
/// [`HandsOver`] to no other, and no second one.
pub trait Shows<'f, T, F: FnMut(T) -> bool> {
    /// Whether an attempt to observe a message can give `seen`.
    spec fn gives(&self, seen: Option<T>) -> bool;

    /// Observes the next message, if there is one, hands it to `f`, and gives what that returned.
    fn show(&self, f: &'f mut F) -> (handled: Option<bool>)
        requires
            forall|v: T| #[trigger] call_requires(*old(f), (v,)),
        ensures
            exists|seen: Option<T>| #[trigger]
                self.gives(seen) && handled_by(*old(f), seen, handled),
            *final(f) == *old(f),
    ;
}

impl<'f, T, F: FnMut(T) -> bool, C: StrongObserver<T>> Shows<'f, T, F> for C {
    open spec fn gives(&self, seen: Option<T>) -> bool {
        call_ensures(C::try_strong_observe, (self,), seen)
    }

    fn show(&self, f: &'f mut F) -> (handled: Option<bool>) {
        let seen = self.try_strong_observe();
        let ghost was_seen = seen;
        let handled = handle_taken(seen, f);
        assert(Shows::<'f, T, F>::gives(self, was_seen));
        handled
    }
}

/// Whether an attempt of a receiver that got `got` can end in `step` and leave the waiter `next`.
pub open spec fn attempt_ends_in<T, F: FnMut(T) -> bool, W: WaitHandler>(
    handler: W,
    f: F,
    got: Option<T>,
    waiter: W::W,
    step: HandleStep,
    next: W::W,
) -> bool {
    exists|handled: Option<bool>| #[trigger]
        handled_by(f, got, handled) && (step, next) == handle_step(handler, handled, waiter)
}

/// Decides the next step of a receiver from what its attempt gave.
pub fn after_attempt<W: WaitHandler>(handler: &W, handled: Option<bool>, waiter: &mut W::W) -> (step:
    HandleStep)
    ensures
        (step, *final(waiter)) == handle_step(*handler, handled, *old(waiter)),
{
    match handled {
        Some(finish) => {
            if finish {
                HandleStep::Stop
            } else {
                // Replace the waiter to reset any internal state used for each overall wait.
                *waiter = handler.new_waiter();
                HandleStep::Notify(handler.notify())
            }
        },
        None => HandleStep::Wait(waiter.wait()),
    }
}

/// Takes messages out of a table, and waits with a wait handler while the table is empty.
pub struct WaitConsumer<C, W: WaitHandler> {
    pub inner: C,
    pub wait_handler: W,
}

impl<C, W: WaitHandler> WaitConsumer<C, W> {
    pub fn new(inner: C, wait_handler: W) -> (c: Self)
        ensures
            c.inner == inner,
            c.wait_handler == wait_handler,
    {
        WaitConsumer { inner, wait_handler }
    }

    /// Makes one attempt to take a message, handles it if there is one, and decides what is next.
    pub fn try_handle<'f, T, F: FnMut(T) -> bool>(
        &self,
        f: &'f mut F,
        waiter: &mut W::W,
    ) -> (step: HandleStep) where C: HandsOver<'f, T, F>
        requires
            forall|v: T| #[trigger] call_requires(*old(f), (v,)),
        ensures
            exists|taken: Option<T>|
                {
                    &&& #[trigger] self.inner.gives(taken)
                    &&& attempt_ends_in(
                        self.wait_handler,
                        *old(f),
                        taken,
                        *old(waiter),
                        step,
                        *final(waiter),
                    )
                },
            *final(f) == *old(f),
    {
        let handled = self.inner.hand_over(f);
        after_attempt(&self.wait_handler, handled, waiter)
    }
}

/// Observes every message of a table, and waits with a wait handler while there is none to observe.
pub struct WaitStrongObserver<C, W: WaitHandler> {
    pub inner: C,
    pub wait_handler: W,
}

impl<C, W: WaitHandler> WaitStrongObserver<C, W> {
    pub fn new(inner: C, wait_handler: W) -> (o: Self)
        ensures
            o.inner == inner,
            o.wait_handler == wait_handler,
    {
        WaitStrongObserver { inner, wait_handler }
    }

    /// Makes one attempt to observe a message, handles it if there is one, and decides what is next.
    pub fn try_handle<'f, T, F: FnMut(T) -> bool>(
        &self,
        f: &'f mut F,
        waiter: &mut W::W,
    ) -> (step: HandleStep) where C: Shows<'f, T, F>
        requires
            forall|v: T| #[trigger] call_requires(*old(f), (v,)),
        ensures
            exists|seen: Option<T>|
                {
                    &&& #[trigger] self.inner.gives(seen)
                    &&& attempt_ends_in(
                        self.wait_handler,
                        *old(f),
                        seen,
                        *old(waiter),
                        step,
                        *final(waiter),
                    )
                },
            *final(f) == *old(f),
    {
        let handled = self.inner.show(f);
        after_attempt(&self.wait_handler, handled, waiter)
    }
}

/// What a producer that hands over by a call does after an attempt to put a message into a table.
#[derive(Debug)]
pub enum CallStep<T> {
    /// The table was full. Wait, then try again with the message that came back.
    Retry { value: T, wait: WaitAction },
    /// The message is in the table. Call the consumer.
    Call,
}

/// One send of a [`CallProducer`].
#[derive(Clone, Copy, Debug, PartialEq, Eq, Structural)]
pub struct CallSend {
    /// How many refusals are still answered by busy waiting.
    pub busy_left: usize,
}

impl CallSend {
    /// The send before its first attempt.
    pub open spec fn start() -> CallSend {
        CallSend { busy_left: (N_BUSY_LOOPS + 1) as usize }
    }

    /// How the next refusal is waited out.
    pub open spec fn next_wait(self) -> WaitAction {
        if self.busy_left > 0 {
            WaitAction::SpinLoop
        } else {
            WaitAction::YieldThread
        }
    }

    /// The send after one more refusal.
    pub open spec fn refused(self) -> CallSend {
        CallSend {
            busy_left: if self.busy_left > 0 {
                (self.busy_left - 1) as usize
            } else {
                0
            },
        }
    }

    /// The send after `k` refusals.
    pub open spec fn refused_times(k: nat) -> CallSend
        decreases k,
    {
        if k == 0 {
            CallSend::start()
        } else {
            CallSend::refused_times((k - 1) as nat).refused()
        }
    }

    /// Starts a send.
    pub fn new() -> (s: Self)
        ensures
            s == CallSend::start(),
    {
        CallSend { busy_left: N_BUSY_LOOPS + 1 }
    }

    /// Decides the next step of the send from what the attempt to put the message gave back.
    pub fn after_put<T>(&mut self, refused: Option<T>) -> (step: CallStep<T>)
        ensures
            refused matches Some(v) ==> step == (CallStep::Retry {
                value: v,
                wait: old(self).next_wait(),
            }) && *final(self) == old(self).refused(),
            refused is None ==> step == CallStep::<T>::Call && *final(self) == *old(self),
    {
        match refused {
            Some(value) => {
                if self.busy_left > 0 {
                    self.busy_left = self.busy_left - 1;
                    CallStep::Retry { value, wait: WaitAction::SpinLoop }
                } else {
                    CallStep::Retry { value, wait: WaitAction::YieldThread }
                }
            },
            None => CallStep::Call,
        }
    }
}

/// Puts messages into a table, and calls the consumer for each of them.
pub struct CallProducer<P> {
    pub inner: P,
}

impl<P> CallProducer<P> {
    pub fn new(inner: P) -> (p: Self)
        ensures
            p.inner == inner,
    {
        CallProducer { inner }
    }

    /// Makes one attempt to put a message into the table, and decides the next step of the send.
    pub fn try_send<T>(&self, v: T, send: &mut CallSend) -> (step: CallStep<T>) where P: Producer<T>
        ensures
            exists|refused: Option<T>|
                {
                    &&& #[trigger] call_ensures(P::try_put, (&self.inner, v), refused)
                    &&& refused matches Some(back) ==> step == (CallStep::Retry {
                        value: back,
                        wait: old(send).next_wait(),
                    }) && *final(send) == old(send).refused()
                    &&& refused is None ==> step == CallStep::<T>::Call && *final(send) == *old(
                        send,
                    )
                },
    {
        let refused = self.inner.try_put(v);
        send.after_put(refused)
    }
}

/// Where a consumer that is driven by calls leaves its callback for the producer.
pub struct CallbackSlot<F> {
    pub callback: Option<F>,
}

impl<F> CallbackSlot<F> {
    /// A slot without a callback.
    pub fn new() -> (slot: Self)
        ensures
            slot.callback is None,
    {
        CallbackSlot { callback: None }
    }

    /// Leaves a callback, in place of any earlier one.
    pub fn register(&mut self, f: F)
        ensures
            final(self).callback == Some(f),
    {
        self.callback = Some(f);
    }

    /// Calls the consumer once, if it has registered, and gives what the callback returned. Where it
    /// has not (`None`), the producer looks again. The callback stays in the slot, whatever it
    /// returned.
    pub fn try_call<T>(&mut self, v: T) -> (returned: Option<bool>) where F: FnMut(T) -> bool
        requires
            old(self).callback matches Some(f) ==> call_requires(f, (v,)),
        ensures
            handled_call(old(self).callback, v, returned),
            final(self).callback == old(self).callback,
    {
        match &mut self.callback {
            Some(f) => Some(f(v)),
            None => None,
        }
    }
}

/// What a call of the callback with `v` may return, and `None` where there is no callback.
pub open spec fn handled_call<T, F: FnMut(T) -> bool>(
    callback: Option<F>,
    v: T,
    returned: Option<bool>,
) -> bool {
    match callback {
        Some(f) => returned matches Some(b) && call_ensures(f, (v,), b),
        None => returned is None,
    }
}

/// Whether a receiver that is driven by calls has handled its last message. The thread that
/// registered it sleeps until then, and from then on it is handed nothing more.
#[derive(Clone, Copy, Debug, PartialEq, Eq, Structural)]
pub struct Completion {
    pub done: bool,
}

/// What the callback returns after a call, and whom it wakes up.
pub type CallOutcome = (bool, NotifyAction);

impl Completion {
    /// The receiver before its first message.
    pub open spec fn start() -> Completion {
        Completion { done: false }
    }

    /// The receiver after a call in which handling a message gave `handled`, or `None` where no
    /// message was handled.
    pub open spec fn called(self, handled: Option<bool>) -> Completion {
        Completion { done: self.done || handled == Some(true) }
    }

    /// What such a call ends in: the thread that registered the receiver is woken up by the message
    /// that finishes it.
    pub open spec fn outcome(handled: Option<bool>) -> CallOutcome {
        if handled == Some(true) {
            (true, NotifyAction::NotifyCondvar)
        } else {
            (false, NotifyAction::Nothing)
        }
    }

    pub fn new() -> (c: Self)
        ensures
            c == Completion::start(),
    {
        Completion { done: false }
    }

    /// Whether the registering thread has to go on sleeping.
    pub fn must_wait(&self) -> (wait: bool)
        ensures
            wait == !self.done,
    {
        !self.done
    }

    /// Whether the receiver still wants messages.
    pub fn wants_call(&self) -> (wants: bool)
        ensures
            wants == !self.done,
    {
        !self.done
    }

    /// Takes note of one call of the callback: `handled` is what handling a message gave, or `None`
    /// where there was no message to handle. Gives what the callback returns, and whether the
    /// registering thread has to be woken up.
    pub fn after_call(&mut self, handled: Option<bool>) -> (r: CallOutcome)
        ensures
            r == Completion::outcome(handled),
            *final(self) == old(self).called(handled),
    {
        match handled {
            Some(finish) => {
                if finish {
                    self.done = true;
                    (true, NotifyAction::NotifyCondvar)
                } else {
                    (false, NotifyAction::Nothing)
                }
            },
            None => (false, NotifyAction::Nothing),
        }
    }

    /// Handles one call of the producer that comes with its message: hands it to `f`, unless the
    /// receiver has finished.
    pub fn on_message<T, F: FnMut(T) -> bool>(&mut self, v: T, f: &mut F) -> (r: CallOutcome)
        requires
            !old(self).done ==> call_requires(*old(f), (v,)),
        ensures
            call_ends_in(*old(self), *old(f), Some(v), r, *final(self)),
            *final(f) == *old(f),
    {
        if self.wants_call() {
            let handled = handle_taken(Some(v), f);
            self.after_call(handled)
        } else {
            self.after_call(None)
        }
    }
}

/// Whether a call that comes with the message `taken`, if any, can end in `r` and leave the receiver
/// `next`. A receiver that has finished is handed nothing.
pub open spec fn call_ends_in<T, F: FnMut(T) -> bool>(
    c: Completion,
    f: F,
    taken: Option<T>,
    r: CallOutcome,
    next: Completion,
) -> bool {
    if c.done {
        r == Completion::outcome(None) && next == c
    } else {
        exists|handled: Option<bool>| #[trigger]
            handled_by(f, taken, handled) && r == Completion::outcome(handled) && next == c.called(
                handled,
            )
    }
}

/// Takes the messages of a table, one for each call of its producer.
pub struct CallConsumer<C> {
    pub inner: C,
}

impl<C> CallConsumer<C> {
    pub fn new(inner: C) -> (c: Self)
        ensures
            c.inner == inner,
    {
        CallConsumer { inner }
    }

    /// Handles one call of the producer: takes a message, if there is one, and hands it to `f`. A
    /// receiver that has finished leaves the table as it is.
    pub fn on_call<'f, T, F: FnMut(T) -> bool>(
        &self,
        completion: &mut Completion,
        f: &'f mut F,
    ) -> (r: CallOutcome) where C: HandsOver<'f, T, F>
        requires
            !old(completion).done ==> forall|v: T| #[trigger] call_requires(*old(f), (v,)),
        ensures
            old(completion).done ==> r == Completion::outcome(None) && *final(completion) == *old(
                completion,
            ),
            !old(completion).done ==> exists|taken: Option<T>|
                {
                    &&& #[trigger] self.inner.gives(taken)
                    &&& call_ends_in(*old(completion), *old(f), taken, r, *final(completion))
                },
            *final(f) == *old(f),
    {
        if completion.wants_call() {
            let handled = self.inner.hand_over(f);
            completion.after_call(handled)
        } else {
            completion.after_call(None)
        }
    }
}

/// Whether calls that each come with one of `messages`, in turn, can have ended in `outcomes`. The
/// receiver was as `states` say before each of them, and as the last one says after all.
pub open spec fn calls_in_a_row<T, F: FnMut(T) -> bool>(
    f: F,
    messages: Seq<T>,
    states: Seq<Completion>,
    outcomes: Seq<CallOutcome>,
) -> bool {
    &&& outcomes.len() == messages.len()
    &&& states.len() == messages.len() + 1
    &&& states[0] == Completion::start()
    &&& forall|i: int|
        0 <= i < messages.len() ==> #[trigger] call_ends_in(
            states[i],
            f,
            Some(messages[i]),
            outcomes[i],
            states[i + 1],
        )
}

/// The messages that are handed to the handler of a receiver that is as `states` say before each of
/// them: a receiver that has finished must not call its handler.
pub open spec fn handed_over<T>(messages: Seq<T>, states: Seq<Completion>) -> Seq<T>
    decreases messages.len(),
{
    if messages.len() == 0 {
        Seq::empty()
    } else {
        let before = handed_over(messages.drop_last(), states);
        if states[messages.len() - 1].done {
            before
        } else {
            before.push(messages.last())
        }
    }
}

/// Returning true finishes the stream of a receiver that is driven by calls: the messages up to the
/// first for which its handler returns true are handed over, in order, and none after it. Each call
/// returns what the handler returned; those after the finish return false, and wake up nobody.
pub proof fn law_finished_receiver_is_handed_nothing<T, F: FnMut(T) -> bool>(
    f: F,
    messages: Seq<T>,
    states: Seq<Completion>,
    outcomes: Seq<CallOutcome>,
    k: int,
)
    requires
        calls_in_a_row(f, messages, states, outcomes),
        0 <= k < messages.len(),
        forall|i: int| 0 <= i < k ==> !(#[trigger] outcomes[i]).0,
        outcomes[k].0,
    ensures
        handed_over(messages, states) == messages.take(k + 1),
        forall|i: int|
            0 <= i <= k ==> !(#[trigger] states[i]).done && call_ensures(
                f,
                (messages[i],),
                outcomes[i].0,
            ),
        forall|i: int|
            k < i < messages.len() ==> (#[trigger] states[i]).done && outcomes[i]
                == Completion::outcome(None),
{
    assert forall|i: int| 0 <= i <= k implies !(#[trigger] states[i]).done && call_ensures(
        f,
        (messages[i],),
        outcomes[i].0,
    ) by {
        lemma_not_done_before(f, messages, states, outcomes, k, i);
        assert(call_ends_in(states[i], f, Some(messages[i]), outcomes[i], states[i + 1]));
    }
    assert(states[k + 1].done) by {
        assert(!states[k].done);
        assert(call_ends_in(states[k], f, Some(messages[k]), outcomes[k], states[k + 1]));
    }
    assert forall|i: int| k < i < messages.len() implies (#[trigger] states[i]).done && outcomes[i]
        == Completion::outcome(None) by {
        lemma_done_after(f, messages, states, outcomes, k, i);
        assert(call_ends_in(states[i], f, Some(messages[i]), outcomes[i], states[i + 1]));
    }
    assert(handed_over(messages, states) == messages.take(k + 1)) by {
        lemma_handed_over(messages, states, k + 1);
    }
}

/// A receiver whose handler never returns true is handed every message, in order.
pub proof fn law_unfinished_receiver_is_handed_everything<T, F: FnMut(T) -> bool>(
    f: F,
    messages: Seq<T>,
    states: Seq<Completion>,
    outcomes: Seq<CallOutcome>,
)
    requires
        calls_in_a_row(f, messages, states, outcomes),
        forall|i: int| 0 <= i < messages.len() ==> !(#[trigger] outcomes[i]).0,
    ensures
        handed_over(messages, states) == messages,
{
    let n = messages.len() as int;
    assert forall|i: int| 0 <= i < n implies !(#[trigger] states[i]).done by {
        lemma_not_done_before(f, messages, states, outcomes, n - 1, i);
    }
    lemma_handed_over(messages, states, n);
    assert(messages.take(n) =~= messages);
}

proof fn lemma_handed_over<T>(messages: Seq<T>, states: Seq<Completion>, k: int)
    requires
        0 <= k <= messages.len(),
        forall|i: int| 0 <= i < k ==> !(#[trigger] states[i]).done,
        forall|i: int| k <= i < messages.len() ==> (#[trigger] states[i]).done,
    ensures
        handed_over(messages, states) == messages.take(k),
    decreases messages.len(),
{
    if messages.len() > 0 {
        let front = messages.drop_last();
        assert(states[messages.len() - 1].done <==> k < messages.len());
        if k < messages.len() {
            lemma_handed_over(front, states, k);
            assert(messages.take(k) =~= front.take(k));
        } else {
            lemma_handed_over(front, states, k - 1);
            assert(front.take(k - 1) =~= front);
            assert(messages.take(k) =~= front.push(messages.last()));
        }
    } else {
        assert(messages.take(k) =~= Seq::empty());
    }
}

proof fn lemma_not_done_before<T, F: FnMut(T) -> bool>(
    f: F,
    messages: Seq<T>,
    states: Seq<Completion>,
    outcomes: Seq<CallOutcome>,
    k: int,
    i: int,
)
    requires
        calls_in_a_row(f, messages, states, outcomes),
        0 <= i <= k < messages.len(),
        forall|j: int| 0 <= j < k ==> !(#[trigger] outcomes[j]).0,
    ensures
        !states[i].done,
    decreases i,
{
    if i > 0 {
        lemma_not_done_before(f, messages, states, outcomes, k, i - 1);
        assert(call_ends_in(
            states[i - 1],
            f,
            Some(messages[i - 1]),
            outcomes[i - 1],
            states[i - 1 + 1],
        ));
        assert(!outcomes[i - 1].0);
    }
}

proof fn lemma_done_after<T, F: FnMut(T) -> bool>(
    f: F,
    messages: Seq<T>,
    states: Seq<Completion>,
    outcomes: Seq<CallOutcome>,
    k: int,
    i: int,
)
    requires
        calls_in_a_row(f, messages, states, outcomes),
        0 <= k < i <= messages.len(),
        states[k + 1].done,
    ensures
        states[i].done,
    decreases i,
{
    if i > k + 1 {
        lemma_done_after(f, messages, states, outcomes, k, i - 1);
        assert(call_ends_in(
            states[i - 1],
            f,
            Some(messages[i - 1]),
            outcomes[i - 1],
            states[i - 1 + 1],
        ));
    }
}

/// The steps of a send whose attempts give `refusals` in turn.
pub open spec fn send_steps<T, W: WaitHandler>(
    handler: W,
    waiter: W::W,
    refusals: Seq<Option<T>>,
) -> Seq<SendStep<T>>
    decreases refusals.len(),
{
    if refusals.len() == 0 {
        Seq::empty()
    } else {
        let (step, next) = send_step(handler, refusals[0], waiter);
        match step {
            SendStep::Retry { .. } => seq![step] + send_steps(handler, next, refusals.skip(1)),
            SendStep::Sent { .. } => seq![step],
        }
    }
}

/// A send that is refused `k` times and then accepted waits `k` times, with one waiter from its
/// first round on, retries each time with what came back, and wakes up the others once, at its end.
pub proof fn law_send<T, W: WaitHandler>(handler: W, refusals: Seq<Option<T>>, k: nat)
    requires
        k < refusals.len(),
        forall|i: int| 0 <= i < k ==> refusals[i] is Some,
        refusals[k as int] is None,
    ensures
        send_steps(handler, handler.fresh_waiter(), refusals).len() == k + 1,
        forall|i: int|
            0 <= i < k ==> #[trigger] send_steps(handler, handler.fresh_waiter(), refusals)[i] == (
            SendStep::Retry {
                value: refusals[i]->0,
                wait: nth_action(handler.fresh_waiter(), i as nat),
            }),
        send_steps(handler, handler.fresh_waiter(), refusals)[k as int] == (SendStep::<T>::Sent {
            notify: handler.notification(),
        }),
{
    lemma_send(handler, refusals, k, 0);
    assert(refusals.skip(0) =~= refusals);
}

proof fn lemma_send<T, W: WaitHandler>(handler: W, refusals: Seq<Option<T>>, k: nat, from: nat)
    requires
        from <= k < refusals.len(),
        forall|i: int| 0 <= i < k ==> refusals[i] is Some,
        refusals[k as int] is None,
    ensures
        ({
            let w = waiter_after(handler.fresh_waiter(), from);
            let steps = send_steps(handler, w, refusals.skip(from as int));
            &&& steps.len() == k + 1 - from
            &&& forall|i: int|
                0 <= i < k - from ==> #[trigger] steps[i] == (SendStep::Retry {
                    value: refusals[from + i]->0,
                    wait: nth_action(handler.fresh_waiter(), (from + i) as nat),
                })
            &&& steps[k - from] == (SendStep::<T>::Sent { notify: handler.notification() })
        }),
    decreases k - from,
{
    let fresh = handler.fresh_waiter();
    let w = waiter_after(fresh, from);
    let rest = refusals.skip(from as int);
    let steps = send_steps(handler, w, rest);
    if from < k {
        lemma_send(handler, refusals, k, from + 1);
        assert(refusals[from as int] is Some);
        assert(rest.skip(1) =~= refusals.skip(from + 1int));
        let tail = send_steps(
            handler,
            waiter_after(fresh, from + 1),
            refusals.skip(from + 1int),
        );
        assert(steps =~= seq![send_step(handler, rest[0], w).0] + tail);
        assert forall|i: int| 0 <= i < k - from implies #[trigger] steps[i] == (SendStep::Retry {
            value: refusals[from + i]->0,
            wait: nth_action(fresh, (from + i) as nat),
        }) by {
            if i > 0 {
                assert(steps[i] == tail[i - 1]);
            }
        }
        assert(steps[k - from] == tail[k - from - 1]);
    }
}

/// The waiter of a receiver after attempts that gave `events` in turn.
pub open spec fn receiver_waiter<W: WaitHandler>(handler: W, events: Seq<Option<bool>>) -> W::W
    decreases events.len(),
{
    if events.len() == 0 {
        handler.fresh_waiter()
    } else {
        handle_step(handler, events.last(), receiver_waiter(handler, events.drop_last())).1
    }
}

/// The step that a receiver takes at its attempt number `i`, counted from zero.
pub open spec fn receiver_step<W: WaitHandler>(
    handler: W,
    events: Seq<Option<bool>>,
    i: int,
) -> HandleStep {
    handle_step(handler, events[i], receiver_waiter(handler, events.take(i))).0
}

/// Each wait of a receiver starts afresh: the attempts that find nothing after a handled message
/// are waited out by the rounds of a new waiter, counted from the first.
pub proof fn law_receiver_waits_afresh<W: WaitHandler>(
    handler: W,
    events: Seq<Option<bool>>,
    m: nat,
    j: nat,
)
    requires
        m + j < events.len(),
        m == 0 || events[m - 1] == Some(false),
        forall|i: int| m <= i <= m + j ==> events[i] is None,
    ensures
        receiver_step(handler, events, (m + j) as int) == HandleStep::Wait(
            nth_action(handler.fresh_waiter(), j),
        ),
{
    lemma_receiver_waiter(handler, events, m, j);
}

proof fn lemma_receiver_waiter<W: WaitHandler>(
    handler: W,
    events: Seq<Option<bool>>,
    m: nat,
    j: nat,
)
    requires
        m + j <= events.len(),
        m == 0 || events[m - 1] == Some(false),
        forall|i: int| m <= i < m + j ==> events[i] is None,
    ensures
        receiver_waiter(handler, events.take((m + j) as int)) == waiter_after(handler.fresh_waiter(), j),
    decreases j,
{
    let now = events.take((m + j) as int);
    if j > 0 {
        lemma_receiver_waiter(handler, events, m, (j - 1) as nat);
        assert(now.drop_last() =~= events.take(m + j - 1));
        assert(now.last() == events[m + j - 1]);
    } else if m > 0 {
        assert(now.last() == events[m - 1]);
    }
}

/// A receiver wakes up the others after each message but the one that finishes it, and stops at
/// exactly that one.
pub proof fn law_receiver_notifies_until_it_stops<W: WaitHandler>(
    handler: W,
    events: Seq<Option<bool>>,
    i: int,
)
    requires
        0 <= i < events.len(),
    ensures
        receiver_step(handler, events, i) == HandleStep::Stop <==> events[i] == Some(true),
        events[i] == Some(false) ==> receiver_step(handler, events, i) == HandleStep::Notify(
            handler.notification(),
        ),
{
}

/// Whether a polling consumer, from its first attempt on, can have taken `taken` in turn, its handler
/// `f` having made `handled` of it, and can have done `steps`.
pub open spec fn consumer_run<C: Consumer<T>, W: WaitHandler, T, F: FnMut(T) -> bool>(
    c: WaitConsumer<C, W>,
    f: F,
    taken: Seq<Option<T>>,
    handled: Seq<Option<bool>>,
    steps: Seq<HandleStep>,
) -> bool {
    &&& taken.len() == handled.len() == steps.len()
    &&& forall|i: int|
        0 <= i < steps.len() ==> {
            &&& call_ensures(C::try_take, (&c.inner,), taken[i])
            &&& handled_by(f, taken[i], handled[i])
            &&& #[trigger] steps[i] == receiver_step(c.wait_handler, handled, i)
        }
}

/// Whether a polling observer, from its first attempt on, can have seen `seen` in turn, its handler
/// `f` having made `handled` of it, and can have done `steps`.
pub open spec fn observer_run<C: StrongObserver<T>, W: WaitHandler, T, F: FnMut(T) -> bool>(
    o: WaitStrongObserver<C, W>,
    f: F,
    seen: Seq<Option<T>>,
    handled: Seq<Option<bool>>,
    steps: Seq<HandleStep>,
) -> bool {
    &&& seen.len() == handled.len() == steps.len()
    &&& forall|i: int|
        0 <= i < steps.len() ==> {
            &&& call_ensures(C::try_strong_observe, (&o.inner,), seen[i])
            &&& handled_by(f, seen[i], handled[i])
            &&& #[trigger] steps[i] == receiver_step(o.wait_handler, handled, i)
        }
}

/// A strong observer does as a consumer with the same wait handler does, where its table shows it
/// what the consumer's gives, and both handlers return the same: it takes the same steps in the same
/// order. Both wait once for each attempt that finds nothing, wake up the others after each message
/// but the one that finishes them, and stop at that one.
pub proof fn law_strong_observer_does_as_consumer<
    C: Consumer<T>,
    O: StrongObserver<T>,
    W: WaitHandler,
    T,
    F: FnMut(T) -> bool,
>(
    c: WaitConsumer<C, W>,
    o: WaitStrongObserver<O, W>,
    f: F,
    got: Seq<Option<T>>,
    handled: Seq<Option<bool>>,
    consumer_steps: Seq<HandleStep>,
    observer_steps: Seq<HandleStep>,
)
    requires
        c.wait_handler == o.wait_handler,
        consumer_run(c, f, got, handled, consumer_steps),
        observer_run(o, f, got, handled, observer_steps),
    ensures
        observer_steps == consumer_steps,
        forall|i: int|
            0 <= i < got.len() ==> {
                &&& got[i] is None <==> #[trigger] observer_steps[i] is Wait
                &&& got[i] is Some ==> handled[i] is Some
                &&& handled[i] == Some(false) ==> observer_steps[i] == HandleStep::Notify(
                    o.wait_handler.notification(),
                )
                &&& handled[i] == Some(true) <==> observer_steps[i] == HandleStep::Stop
            },
{
    assert forall|i: int| 0 <= i < got.len() implies consumer_steps[i] == observer_steps[i] by {
        assert(consumer_steps[i] == receiver_step(c.wait_handler, handled, i));
        assert(observer_steps[i] == receiver_step(o.wait_handler, handled, i));
    }
    assert(observer_steps =~= consumer_steps);
}

/// An attempt of a consumer or an observer that starts with the waiter its attempts so far have left
/// is the next attempt of its run: it takes the next step, and leaves the waiter for the one after.
pub proof fn law_attempts_continue_a_run<T, F: FnMut(T) -> bool, W: WaitHandler>(
    handler: W,
    f: F,
    handled: Seq<Option<bool>>,
    got: Option<T>,
    step: HandleStep,
    next: W::W,
)
    requires
        attempt_ends_in(handler, f, got, receiver_waiter(handler, handled), step, next),
    ensures
        exists|now: Option<bool>|
            {
                &&& #[trigger] handled_by(f, got, now)
                &&& step == receiver_step(handler, handled.push(now), handled.len() as int)
                &&& next == receiver_waiter(handler, handled.push(now))
            },
{
    let now = choose|now: Option<bool>| #[trigger]
        handled_by(f, got, now) && (step, next) == handle_step(
            handler,
            now,
            receiver_waiter(handler, handled),
        );
    let all = handled.push(now);
    assert(all.take(handled.len() as int) =~= handled);
    assert(all.drop_last() =~= handled);
    assert(handled_by(f, got, now));
}

/// A producer that hands over by calls answers a refusal by spinning as long as no more than
/// [`N_BUSY_LOOPS`] refusals came before it, and by yielding from there on.
pub proof fn law_call_send_spins_then_yields(k: nat)
    ensures
        CallSend::refused_times(k).next_wait() == (if k <= N_BUSY_LOOPS {
            WaitAction::SpinLoop
        } else {
            WaitAction::YieldThread
        }),
{
    lemma_call_send_state(k);
}

proof fn lemma_call_send_state(k: nat)
    ensures
        CallSend::refused_times(k).busy_left == (if k <= N_BUSY_LOOPS {
            N_BUSY_LOOPS + 1 - k
        } else {
            0
        }),
    decreases k,
{
    if k > 0 {
        lemma_call_send_state((k - 1) as nat);
    }
}

/// A handler is called for the message that was taken, and for none where none was, and what it
/// returned is passed on.
pub proof fn law_taken_message_is_handled<T, F: FnMut(T) -> bool>(
    f: F,
    taken: Option<T>,
    handled: Option<bool>,
)
    requires
        handled_by(f, taken, handled),
    ensures
        handled is Some <==> taken is Some,
        taken matches Some(v) ==> call_ensures(f, (v,), handled->0),
{
}

/// A callback that is registered is called with what was sent, and what it returned is passed on;
/// where none is, there is nothing to pass on.
pub proof fn law_registered_callback_is_called<T, F: FnMut(T) -> bool>(
    callback: Option<F>,
    v: T,
    returned: Option<bool>,
)
    requires
        handled_call(callback, v, returned),
    ensures
        returned is Some <==> callback is Some,
        callback matches Some(f) ==> call_ensures(f, (v,), returned->0),
{
}

/// The messages among what attempts gave.
pub open spec fn taken_messages<T>(taken: Seq<Option<T>>) -> Seq<T>
    decreases taken.len(),
{
    if taken.len() == 0 {
        Seq::empty()
    } else {
        match taken.last() {
            Some(v) => taken_messages(taken.drop_last()).push(v),
            None => taken_messages(taken.drop_last()),
        }
    }
}

/// A consumer of a table that gives out its `stream` in order, one message for each attempt that
/// finds one, handles that stream in order and without a gap: where `positions` say how many messages
/// the table has given out before each attempt, the messages that were taken are the stream up to the
/// last position, and the handler got each of them.
pub proof fn law_consumer_handles_the_stream<C: Consumer<T>, W: WaitHandler, T, F: FnMut(T) -> bool>(
    c: WaitConsumer<C, W>,
    f: F,
    stream: Seq<T>,
    positions: Seq<nat>,
    taken: Seq<Option<T>>,
    handled: Seq<Option<bool>>,
    steps: Seq<HandleStep>,
)
    requires
        consumer_run(c, f, taken, handled, steps),
        positions.len() == taken.len() + 1,
        positions[0] == 0,
        forall|i: int|
            0 <= i < taken.len() ==> match #[trigger] taken[i] {
                Some(v) => positions[i] < stream.len() && v == stream[positions[i] as int]
                    && positions[i + 1] == positions[i] + 1,
                None => positions[i + 1] == positions[i],
            },
    ensures
        positions.last() <= stream.len(),
        taken_messages(taken) == stream.take(positions.last() as int),
        forall|i: int|
            0 <= i < taken.len() ==> (#[trigger] taken[i] matches Some(v) ==> handled[i] is Some
                && call_ensures(f, (v,), handled[i]->0)),
{
    lemma_stream_is_taken(stream, positions, taken);
    assert forall|i: int| 0 <= i < taken.len() implies (#[trigger] taken[i] matches Some(v)
        ==> handled[i] is Some && call_ensures(f, (v,), handled[i]->0)) by {
        assert(steps[i] == receiver_step(c.wait_handler, handled, i));
    }
}

proof fn lemma_stream_is_taken<T>(stream: Seq<T>, positions: Seq<nat>, taken: Seq<Option<T>>)
    requires
        positions.len() == taken.len() + 1,
        positions[0] == 0,
        forall|i: int|
            0 <= i < taken.len() ==> match #[trigger] taken[i] {
                Some(v) => positions[i] < stream.len() && v == stream[positions[i] as int]
                    && positions[i + 1] == positions[i] + 1,
                None => positions[i + 1] == positions[i],
            },
    ensures
        positions.last() <= stream.len(),
        taken_messages(taken) == stream.take(positions.last() as int),
    decreases taken.len(),
{
    if taken.len() == 0 {
        assert(stream.take(0) =~= Seq::empty());
    } else {
        let n = taken.len() - 1;
        let front = taken.drop_last();
        assert forall|i: int| 0 <= i < front.len() implies match #[trigger] front[i] {
            Some(v) => positions.drop_last()[i] < stream.len() && v
                == stream[positions.drop_last()[i] as int] && positions.drop_last()[i + 1]
                == positions.drop_last()[i] + 1,
            None => positions.drop_last()[i + 1] == positions.drop_last()[i],
        } by {
            assert(front[i] == taken[i]);
        }
        lemma_stream_is_taken(stream, positions.drop_last(), front);
        assert(taken[n] == taken.last());
        assert(positions.drop_last().last() == positions[n]);
        if taken[n] is Some {
            assert(stream.take(positions[n] + 1int) =~= stream.take(positions[n] as int).push(
                stream[positions[n] as int],
            ));
        }
    }
}

} // verus!
