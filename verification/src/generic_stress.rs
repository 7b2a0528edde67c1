//! Stress runs: many threads pass messages through one transport, and the digests of what they sent
//! and received are compared at the end.
use crate::outlet::{
    done_through, law_messages_are_sent_once_with_a_pause, sent_messages, sent_with_pauses, Act,
    Outgoing, Outlet, Pauses,
};
use crate::table_ipc::{Cursor, WeakObserver};
use crate::timing::RunTime;
use crate::tracker::{
    hashes, law_tracking_step, message_hash, overall_digest, xor_all, MessageTracker, StressMessage,
};
use crate::wait_handler::NotifyAction;
use vstd::prelude::*;

verus! {

/// The receiving end of a transport.
pub trait TestReceiver<T: Copy + Send>: Send + Sized {
    /// Handle a stream of messages. Return true to finish.
    fn handle<F: FnMut(T) -> bool + Send + 'static>(self, f: F);
}

/// The sending end of a transport.
pub trait TestProducer<T: Copy + Send>: Send {
    fn send(&self, v: T);
}

/// How far a run has come.
#[derive(Clone, Copy, Debug, PartialEq, Eq, Structural)]
pub struct StressInnerState {
    pub running: bool,
    pub n_completed: usize,
}

/// Whether the threads of a run may start, and how many of them are through.
///
/// It is to be kept under a mutex with a condition variable. A thread that has to wait blocks on
/// the condition variable and asks again.
#[derive(Clone, Copy, Debug, PartialEq, Eq, Structural)]
pub struct StressState {
    pub inner: StressInnerState,
    pub expected_complete: usize,
}

impl StressState {
    /// The state of a run of `n` threads before it starts.
    pub open spec fn before_start(n: usize) -> StressState {
        StressState {
            inner: StressInnerState { running: false, n_completed: 0 },
            expected_complete: n,
        }
    }

    /// The state once the threads may start.
    pub open spec fn started(self) -> StressState {
        StressState { inner: StressInnerState { running: true, ..self.inner }, ..self }
    }

    /// The state after one more thread is through.
    pub open spec fn completed(self) -> StressState {
        StressState {
            inner: StressInnerState {
                n_completed: (self.inner.n_completed + 1) as usize,
                ..self.inner
            },
            ..self
        }
    }

    /// The state of a run of `expected_complete` threads, none of which may start yet.
    pub fn new(expected_complete: usize) -> (s: Self)
        ensures
            s == Self::before_start(expected_complete),
    {
        StressState {
            inner: StressInnerState { running: false, n_completed: 0 },
            expected_complete,
        }
    }

    /// Whether a thread of the run has to go on waiting for its start.
    pub fn wait_for_start(&self) -> (wait: bool)
        ensures
            wait == !self.inner.running,
    {
        !self.inner.running
    }

    /// Lets the threads start.
    pub fn trigger_start(&mut self) -> (notify: NotifyAction)
        ensures
            *final(self) == old(self).started(),
            notify == NotifyAction::NotifyCondvar,
    {
        self.inner.running = true;
        NotifyAction::NotifyCondvar
    }

    /// Whether the run has to go on waiting for some of its threads.
    pub fn wait_for_complete(&self) -> (wait: bool)
        ensures
            wait == (self.inner.n_completed < self.expected_complete),
    {
        self.inner.n_completed < self.expected_complete
    }

    /// Counts a thread that is through.
    pub fn complete(&mut self) -> (notify: NotifyAction)
        requires
            old(self).inner.n_completed < usize::MAX,
        ensures
            *final(self) == old(self).completed(),
            notify == NotifyAction::NotifyCondvar,
    {
        self.inner.n_completed = self.inner.n_completed + 1;
        NotifyAction::NotifyCondvar
    }
}

/// A run in which producers send to consumers, and how its messages are shared out.
#[derive(Clone, Copy, Debug, PartialEq, Eq, Structural)]
pub struct StressPlan {
    /// How many messages are sent in all.
    pub n_messages: usize,
    /// How many threads have to be through for the run to be over.
    pub expected_complete: usize,
    pub n_messages_per_producer: usize,
    pub n_messages_per_consumer: usize,
}

impl StressPlan {
    /// Whether a run can be shared out: there is somebody to send and to receive, and the number of
    /// messages is divisible by the number of producers and by that of consumers.
    pub open spec fn possible(
        n_producers: usize,
        n_consumers: usize,
        n_observers: usize,
        n_weak_observers: usize,
        n_messages: usize,
    ) -> bool {
        &&& n_producers > 0
        &&& n_consumers > 0
        &&& n_messages % n_producers == 0
        &&& n_messages % n_consumers == 0
        &&& n_producers + n_consumers + n_observers + n_weak_observers <= usize::MAX
    }

    /// Shares out a run in which producers send `n_messages` messages to consumers. Each message is
    /// received by one consumer and by every observer.
    pub fn new(
        n_producers: usize,
        n_consumers: usize,
        n_observers: usize,
        n_weak_observers: usize,
        n_messages: usize,
    ) -> (plan: Option<Self>)
        ensures
            plan is Some <==> Self::possible(
                n_producers,
                n_consumers,
                n_observers,
                n_weak_observers,
                n_messages,
            ),
            plan matches Some(p) ==> {
                &&& p.n_messages == n_messages
                &&& p.expected_complete == n_producers + n_consumers + n_observers
                    + n_weak_observers
                &&& p.n_messages_per_producer * n_producers == n_messages
                &&& p.n_messages_per_consumer * n_consumers == n_messages
            },
    {
        let some = n_producers.checked_add(n_consumers);
        let more = match some {
            Some(n) => n.checked_add(n_observers),
            None => None,
        };
        let all = match more {
            Some(n) => n.checked_add(n_weak_observers),
            None => None,
        };
        match all {
            Some(expected_complete) => {
                if n_producers == 0 || n_consumers == 0 {
                    return None;
                }
                if n_messages % n_producers != 0 || n_messages % n_consumers != 0 {
                    return None;
                }
                let n_messages_per_producer = n_messages / n_producers;
                let n_messages_per_consumer = n_messages / n_consumers;
                assert(n_messages_per_producer * n_producers == n_messages) by (nonlinear_arith)
                    requires
                        n_producers > 0,
                        n_messages % n_producers == 0,
                        n_messages_per_producer == n_messages / n_producers,
                ;
                assert(n_messages_per_consumer * n_consumers == n_messages) by (nonlinear_arith)
                    requires
                        n_consumers > 0,
                        n_messages % n_consumers == 0,
                        n_messages_per_consumer == n_messages / n_consumers,
                ;
                Some(
                    StressPlan {
                        n_messages,
                        expected_complete,
                        n_messages_per_producer,
                        n_messages_per_consumer,
                    },
                )
            },
            None => None,
        }
    }
}

/// The messages that producer number `src` sends, in order.
pub open spec fn produced(src: usize, n: usize) -> Seq<StressMessage> {
    Seq::new(n as nat, |i: int| StressMessage { src, x: i as usize })
}

/// A producer's progress through its messages.
#[derive(Debug)]
pub struct Producing {
    pub src: usize,
    pub n_messages: usize,
    /// How many messages are sent.
    pub sent: usize,
    pub tracker: MessageTracker,
}

impl Producing {
    /// The producer after it has sent the first `k` of its messages.
    pub open spec fn after(src: usize, n_messages: usize, checking: bool, k: usize) -> Producing {
        Producing {
            src,
            n_messages,
            sent: k,
            tracker: MessageTracker::of(checking, produced(src, k)),
        }
    }

    /// The producer after one more message.
    pub open spec fn advanced(self) -> Producing {
        Producing {
            sent: (self.sent + 1) as usize,
            tracker: self.tracker.having_handled(
                seq![StressMessage { src: self.src, x: self.sent }],
            ),
            ..self
        }
    }

    /// Producer number `src` before its first message.
    pub fn new(src: usize, n_messages: usize, checking: bool) -> (p: Self)
        ensures
            p == Self::after(src, n_messages, checking, 0),
    {
        assert(produced(src, 0) =~= Seq::empty());
        Producing { src, n_messages, sent: 0, tracker: MessageTracker::new(checking) }
    }

    /// The message to send next, and `None` when all are sent.
    pub fn next_message(&self) -> (v: Option<StressMessage>)
        ensures
            v == (if self.sent < self.n_messages {
                Some(StressMessage { src: self.src, x: self.sent })
            } else {
                None
            }),
    {
        if self.sent < self.n_messages {
            Some(StressMessage { src: self.src, x: self.sent })
        } else {
            None
        }
    }

    /// Takes note that the next message is sent.
    pub fn on_sent(&mut self)
        requires
            old(self).sent < old(self).n_messages,
        ensures
            *final(self) == old(self).advanced(),
    {
        let v = StressMessage { src: self.src, x: self.sent };
        proof {
            lemma_tracking_one(self.tracker, v);
        }
        self.tracker.update(v);
        self.sent = self.sent + 1;
    }
}

/// Sends the messages of producer number `src`, each of them once and in order, and pauses once after
/// each. Gives the tracker of what was sent.
pub fn produce<'p, O: Outlet<'p, StressMessage>, S: Pauses>(
    producer: O,
    src: usize,
    n_messages: usize,
    checking: bool,
    pause: S,
) -> (tracker: MessageTracker)
    requires
        call_requires(pause.pause(), ()),
    ensures
        tracker == MessageTracker::of(checking, produced(src, n_messages)),
        done_through(producer, pause, sent_with_pauses(produced(src, n_messages))),
        forall|i: int|
            0 <= i < n_messages ==> call_ensures(
                O::End::send,
                (producer.end(), #[trigger] produced(src, n_messages)[i]),
                (),
            ),
        n_messages > 0 ==> call_ensures(pause.pause(), (), ()),
{
    let ghost all = produced(src, n_messages);
    let ghost pausing = pause.pause();
    let mut out = producer.open(pause.hold());
    let mut progress = Producing::new(src, n_messages, checking);
    assert(sent_with_pauses(produced(src, 0)) =~= Seq::empty());
    loop
        invariant
            progress.sent <= n_messages,
            progress == Producing::after(src, n_messages, checking, progress.sent),
            all == produced(src, n_messages),
            pausing == pause.pause(),
            out.end() == producer.end(),
            out.pausing() == pausing,
            out.acts() == sent_with_pauses(produced(src, progress.sent)),
            call_requires(pausing, ()),
            forall|j: int|
                0 <= j < progress.sent ==> call_ensures(
                    O::End::send,
                    (producer.end(), #[trigger] all[j]),
                    (),
                ),
            progress.sent > 0 ==> call_ensures(pausing, (), ()),
        decreases n_messages - progress.sent,
    {
        match progress.next_message() {
            Some(v) => {
                out.send(v);
                proof {
                    assert(v == all[progress.sent as int]);
                    law_producing_advances(src, n_messages, checking, progress.sent);
                    let before = produced(src, progress.sent);
                    assert(produced(src, (progress.sent + 1) as usize) =~= before.push(v));
                    assert(sent_with_pauses(before).push(Act::Sent(v)).push(Act::Paused)
                        =~= sent_with_pauses(before.push(v)));
                }
                progress.on_sent();
                out.pause();
            },
            None => {
                let ghost closed = out;
                out.close();
                assert(done_through(producer, pause, sent_with_pauses(all)));
                return progress.tracker;
            },
        }
    }
}

proof fn lemma_tracking_one(t: MessageTracker, v: StressMessage)
    ensures
        t.having_handled(seq![v]).hash == (if t.checking {
            t.hash ^ message_hash(v)
        } else {
            t.hash
        }),
{
    law_tracking_step(t, Seq::empty(), v);
    let h = t.hash;
    assert(h ^ 0 == h) by (bit_vector);
    assert(Seq::<StressMessage>::empty().push(v) =~= seq![v]);
}

/// Message by message, a producer sends exactly its stream, and its tracker is that of the messages
/// sent so far.
pub proof fn law_producing_advances(src: usize, n_messages: usize, checking: bool, k: usize)
    requires
        k < n_messages,
    ensures
        Producing::after(src, n_messages, checking, k).advanced() == Producing::after(
            src,
            n_messages,
            checking,
            (k + 1) as usize,
        ),
        produced(src, n_messages)[k as int] == (StressMessage { src, x: k }),
{
    let v = StressMessage { src, x: k };
    let before = produced(src, k);
    assert(produced(src, (k + 1) as usize) =~= before.push(v));
    law_tracking_step(MessageTracker { hash: 0, checking }, before, v);
    lemma_tracking_one(MessageTracker::of(checking, before), v);
}

/// A thread that receives messages until it has handled its share.
#[derive(Debug)]
pub struct Receiving {
    /// How many messages are still to come.
    pub remaining: usize,
    pub tracker: MessageTracker,
}

impl Receiving {
    /// A receiver that has handled nothing yet.
    pub open spec fn expecting(n_messages: usize, checking: bool) -> Receiving {
        Receiving {
            remaining: n_messages,
            tracker: MessageTracker::of(checking, Seq::empty()),
        }
    }

    /// The receiver after it has handled `messages`.
    pub open spec fn having_handled(self, messages: Seq<StressMessage>) -> Receiving {
        Receiving {
            remaining: if messages.len() < self.remaining {
                (self.remaining - messages.len()) as usize
            } else {
                0
            },
            tracker: self.tracker.having_handled(messages),
        }
    }

    /// A receiver that is to handle `n_messages` messages.
    pub fn new(n_messages: usize, checking: bool) -> (r: Self)
        ensures
            r == Self::expecting(n_messages, checking),
    {
        Receiving { remaining: n_messages, tracker: MessageTracker::new(checking) }
    }

    /// Handles one message. Gives true to finish.
    pub fn on_message(&mut self, v: StressMessage) -> (finish: bool)
        ensures
            *final(self) == old(self).having_handled(seq![v]),
            finish == (old(self).remaining <= 1),
    {
        proof {
            lemma_tracking_one(self.tracker, v);
        }
        self.tracker.update(v);
        if self.remaining > 0 {
            self.remaining = self.remaining - 1;
        }
        self.remaining == 0
    }
}

/// One of the two threads of a ping-pong run.
#[derive(Debug)]
pub struct PingPong {
    pub receiving: Receiving,
}

/// The answer to a message of a ping-pong run.
pub open spec fn reply_to(v: StressMessage) -> StressMessage {
    StressMessage { src: v.src, x: (v.x + 1) as usize }
}

/// The message with which a ping-pong run starts.
pub open spec fn first_message() -> StressMessage {
    StressMessage { src: 0, x: 0 }
}

impl PingPong {
    /// A thread that is to answer `n_messages` messages.
    pub fn new(n_messages: usize, checking: bool) -> (p: Self)
        ensures
            p.receiving == Receiving::expecting(n_messages, checking),
    {
        PingPong { receiving: Receiving::new(n_messages, checking) }
    }

    /// Handles one message. Gives the answer to send, and true to finish after it.
    pub fn on_message(&mut self, v: StressMessage) -> (r: (StressMessage, bool))
        requires
            v.x < usize::MAX,
        ensures
            final(self).receiving == old(self).receiving.having_handled(seq![v]),
            r.0 == reply_to(v),
            r.1 == (old(self).receiving.remaining <= 1),
    {
        let finish = self.receiving.on_message(v);
        (StressMessage { src: v.src, x: v.x + 1 }, finish)
    }
}

/// A weak observer, and how long it pauses between two looks at the table, in nanoseconds.
pub struct TestWeakObserver<O: WeakObserver<StressMessage>> {
    pub inner: O,
    pub delay: u64,
}

/// The positions from `first` up to, and without, `last`.
pub open spec fn cursors(first: Cursor, last: Cursor) -> Seq<Cursor> {
    Seq::new(
        if first.index < last.index {
            (last.index - first.index) as nat
        } else {
            0
        },
        |i: int| Cursor { index: (first.index + i) as usize },
    )
}

/// The messages among what was found.
pub open spec fn present(seen: Seq<Option<StressMessage>>) -> Seq<StressMessage>
    decreases seen.len(),
{
    if seen.len() == 0 {
        Seq::empty()
    } else {
        match seen.last() {
            Some(v) => present(seen.drop_last()).push(v),
            None => present(seen.drop_last()),
        }
    }
}

/// Whether `seen` is what the observer found at the positions from `first` to `last`.
pub open spec fn observed<O: WeakObserver<StressMessage>>(
    observer: &O,
    first: Cursor,
    last: Cursor,
    seen: Seq<Option<StressMessage>>,
) -> bool {
    &&& seen.len() == cursors(first, last).len()
    &&& forall|i: int|
        0 <= i < seen.len() ==> call_ensures(
            O::weak_observe,
            (observer, cursors(first, last)[i]),
            #[trigger] seen[i],
        )
}

impl<O: WeakObserver<StressMessage>> TestWeakObserver<O> {
    /// Looks once at each position from `first` up to, and without, `last`, in order, and tracks
    /// the messages that are found.
    pub fn observe_range(&self, first: Cursor, last: Cursor, tracker: &mut MessageTracker)
        ensures
            exists|seen: Seq<Option<StressMessage>>|
                #[trigger] observed(&self.inner, first, last, seen) && *final(tracker) == old(
                    tracker,
                ).having_handled(present(seen)),
    {
        let ghost mut seen: Seq<Option<StressMessage>> = Seq::empty();
        let ghost before = *tracker;
        let mut i: usize = first.index();
        proof {
            let h = before.hash;
            assert(h ^ 0 == h) by (bit_vector);
        }
        while i < last.index()
            invariant
                before == *old(tracker),
                first.index <= i,
                first.index < last.index ==> i <= last.index,
                first.index >= last.index ==> i == first.index,
                seen.len() == i - first.index,
                forall|j: int|
                    0 <= j < seen.len() ==> call_ensures(
                        O::weak_observe,
                        (&self.inner, cursors(first, last)[j]),
                        #[trigger] seen[j],
                    ),
                *tracker == before.having_handled(present(seen)),
            decreases last.index - i,
        {
            let c = Cursor { index: i };
            let found = self.inner.weak_observe(c);
            let ghost was_seen = seen;
            proof {
                assert(cursors(first, last)[seen.len() as int] == c);
                seen = seen.push(found);
                assert(seen.drop_last() =~= was_seen);
            }
            if let Some(v) = found {
                tracker.update(v);
                proof {
                    law_tracking_step(before, present(was_seen), v);
                }
            }
            i += 1;
        }
        assert(observed(&self.inner, first, last, seen));
    }

    /// Makes one round of watching a run of `n_messages` messages. Where the table has already come
    /// to the last of them, the watch is over (false). Otherwise everything that the table holds is
    /// looked at once, and the caller pauses and goes on watching (true).
    pub fn watch(&self, n_messages: usize, tracker: &mut MessageTracker) -> (go_on: bool)
        requires
            n_messages > 0,
        ensures
            exists|now: Cursor|
                #[trigger] call_ensures(O::recent_cursor, (&self.inner,), now) && go_on == (
                now.index < n_messages - 1),
            !go_on ==> *final(tracker) == *old(tracker),
            go_on ==> exists|first: Cursor, last: Cursor, seen: Seq<Option<StressMessage>>|
                {
                    &&& call_ensures(O::oldest_cursor, (&self.inner,), first)
                    &&& call_ensures(O::recent_cursor, (&self.inner,), last)
                    &&& #[trigger] observed(&self.inner, first, last, seen)
                    &&& *final(tracker) == old(tracker).having_handled(present(seen))
                },
    {
        let now = self.inner.recent_cursor();
        if now.index() < n_messages - 1 {
            let first = self.inner.oldest_cursor();
            let last = self.inner.recent_cursor();
            self.observe_range(first, last, tracker);
            true
        } else {
            false
        }
    }
}

/// Everything that is attached to one table of a ping-pong run.
pub struct TableAttachments<P, C, O, W: WeakObserver<StressMessage>> {
    pub producer: P,
    pub consumer: C,
    pub observers: Vec<O>,
    pub weak_observers: Vec<TestWeakObserver<W>>,
}

/// What a run has measured. Durations are in nanoseconds.
#[derive(Clone, Copy, Debug, PartialEq, Eq, Structural)]
pub struct ExecutionStatistics {
    pub n_messages: usize,
    pub duration: u128,
    pub cpu_duration: u128,
}

/// How the digests of a run can disagree.
#[derive(Clone, Copy, Debug, PartialEq, Eq, Structural)]
pub enum StressFailure {
    /// The consumers together did not receive what the producers together sent.
    Consumed { produced: u64, consumed: u64 },
    /// This observer did not see what was sent.
    Observed { observer: usize, produced: u64, observed: u64 },
}

/// The statistics of a run that took `run_time`.
pub open spec fn statistics(n_messages: usize, run_time: RunTime) -> ExecutionStatistics {
    ExecutionStatistics {
        n_messages,
        duration: run_time.duration,
        cpu_duration: run_time.cpu_duration,
    }
}

/// Whether every observer saw messages with the digest `produced`.
pub open spec fn all_agree(produced: u64, observed: Seq<u64>) -> bool {
    forall|i: int| 0 <= i < observed.len() ==> observed[i] == produced
}

/// Whether `failure` is about the first observer whose digest is not `produced`.
pub open spec fn first_disagreement(
    produced: u64,
    observed: Seq<u64>,
    failure: StressFailure,
) -> bool {
    failure matches StressFailure::Observed { observer, produced: p, observed: o } && {
        &&& observer < observed.len()
        &&& p == produced
        &&& o == observed[observer as int]
        &&& o != produced
        &&& all_agree(produced, observed.take(observer as int))
    }
}

/// Finds the first observer whose digest is not `produced`.
pub fn check_observers(produced: u64, observers: &Vec<MessageTracker>) -> (failure: Option<
    StressFailure,
>)
    ensures
        failure is None <==> all_agree(produced, hashes(observers@)),
        failure matches Some(f) ==> first_disagreement(produced, hashes(observers@), f),
{
    let mut i: usize = 0;
    while i < observers.len()
        invariant
            i <= observers.len(),
            all_agree(produced, hashes(observers@).take(i as int)),
        decreases observers.len() - i,
    {
        let observed = observers[i].get();
        if observed != produced {
            assert(hashes(observers@)[i as int] == observed);
            return Some(StressFailure::Observed { observer: i, produced, observed });
        }
        assert(hashes(observers@).take(i + 1) =~= hashes(observers@).take(i as int).push(observed));
        i += 1;
    }
    assert(hashes(observers@).take(i as int) =~= hashes(observers@));
    None
}

/// Whether the digests of a run of producers and consumers agree.
pub open spec fn produce_consume_passes(
    produced: Seq<u64>,
    consumed: Seq<u64>,
    observed: Seq<u64>,
) -> bool {
    &&& xor_all(produced) == xor_all(consumed)
    &&& all_agree(xor_all(produced), observed)
}

impl StressPlan {
    /// The state of the run before it starts.
    pub fn state(&self) -> (s: StressState)
        ensures
            s == StressState::before_start(self.expected_complete),
    {
        StressState::new(self.expected_complete)
    }

    /// Does the work of producer number `src`: sends its share, and pauses after each message.
    pub fn run_producer<'p, O: Outlet<'p, StressMessage>, S: Pauses>(
        &self,
        producer: O,
        src: usize,
        checking: bool,
        pause: S,
    ) -> (tracker: MessageTracker)
        requires
            call_requires(pause.pause(), ()),
        ensures
            tracker == MessageTracker::of(checking, produced(src, self.n_messages_per_producer)),
            done_through(
                producer,
                pause,
                sent_with_pauses(produced(src, self.n_messages_per_producer)),
            ),
            forall|i: int|
                0 <= i < self.n_messages_per_producer ==> call_ensures(
                    O::End::send,
                    (producer.end(), #[trigger] produced(src, self.n_messages_per_producer)[i]),
                    (),
                ),
            self.n_messages_per_producer > 0 ==> call_ensures(pause.pause(), (), ()),
    {
        produce(producer, src, self.n_messages_per_producer, checking, pause)
    }

    /// A consumer of the run. Each message is received by one consumer, so it handles its share.
    pub fn consumer(&self, checking: bool) -> (r: Receiving)
        ensures
            r == Receiving::expecting(self.n_messages_per_consumer, checking),
    {
        Receiving::new(self.n_messages_per_consumer, checking)
    }

    /// An observer of the run. Each message is received by all observers, so it handles them all.
    pub fn observer(&self, checking: bool) -> (r: Receiving)
        ensures
            r == Receiving::expecting(self.n_messages, checking),
    {
        Receiving::new(self.n_messages, checking)
    }

    /// Ends the run: compares the digests of all threads, and gives the statistics if they agree.
    pub fn conclude(
        &self,
        producers: &Vec<MessageTracker>,
        consumers: &Vec<MessageTracker>,
        observers: &Vec<MessageTracker>,
        run_time: RunTime,
    ) -> (result: Result<ExecutionStatistics, StressFailure>)
        ensures
            result is Ok <==> produce_consume_passes(
                hashes(producers@),
                hashes(consumers@),
                hashes(observers@),
            ),
            match result {
                Ok(stats) => stats == statistics(self.n_messages, run_time),
                Err(failure) => {
                    let sent = xor_all(hashes(producers@));
                    let received = xor_all(hashes(consumers@));
                    if sent != received {
                        failure == (StressFailure::Consumed { produced: sent, consumed: received })
                    } else {
                        first_disagreement(sent, hashes(observers@), failure)
                    }
                },
            },
    {
        let produced = overall_digest(producers);
        let consumed = overall_digest(consumers);
        if produced != consumed {
            return Err(StressFailure::Consumed { produced, consumed });
        }
        match check_observers(produced, observers) {
            Some(failure) => Err(failure),
            None => Ok(
                ExecutionStatistics {
                    n_messages: self.n_messages,
                    duration: run_time.duration,
                    cpu_duration: run_time.cpu_duration,
                },
            ),
        }
    }
}

/// A run in which two threads answer each other over a call table and a reply table.
#[derive(Clone, Copy, Debug, PartialEq, Eq, Structural)]
pub struct PingPongPlan {
    /// How many messages each of the two threads answers.
    pub n_messages: usize,
    /// How many threads have to be through for the run to be over.
    pub expected_complete: usize,
}

impl PingPongPlan {
    /// Plans a run of the two threads that answer each other and the observers of both tables.
    /// `None` says that so many threads cannot be counted.
    pub fn new(
        call_observers: usize,
        call_weak_observers: usize,
        reply_observers: usize,
        reply_weak_observers: usize,
        n_messages: usize,
    ) -> (plan: Option<Self>)
        ensures
            ({
                let all = 2 + call_observers + call_weak_observers + reply_observers
                    + reply_weak_observers;
                plan == (if all <= usize::MAX {
                    Some(PingPongPlan { n_messages, expected_complete: all as usize })
                } else {
                    None
                })
            }),
    {
        let n = 2usize.checked_add(call_observers)?;
        let n = n.checked_add(call_weak_observers)?;
        let n = n.checked_add(reply_observers)?;
        let n = n.checked_add(reply_weak_observers)?;
        Some(PingPongPlan { n_messages, expected_complete: n })
    }

    /// The state of the run before it starts.
    pub fn state(&self) -> (s: StressState)
        ensures
            s == StressState::before_start(self.expected_complete),
    {
        StressState::new(self.expected_complete)
    }

    /// The message that has to be in the call table before the threads start.
    pub fn first(&self) -> (v: StressMessage)
        ensures
            v == first_message(),
    {
        StressMessage { src: 0, x: 0 }
    }

    /// One of the two threads that answer each other.
    pub fn player(&self, checking: bool) -> (p: PingPong)
        ensures
            p.receiving == Receiving::expecting(self.n_messages, checking),
    {
        PingPong::new(self.n_messages, checking)
    }

    /// An observer of one of the tables.
    pub fn observer(&self, checking: bool) -> (r: Receiving)
        ensures
            r == Receiving::expecting(self.n_messages, checking),
    {
        Receiving::new(self.n_messages, checking)
    }

    /// Ends the run: compares the digest of what the two threads handled with that of each observer,
    /// and gives the statistics if they agree.
    pub fn conclude(
        &self,
        players: &Vec<MessageTracker>,
        observers: &Vec<MessageTracker>,
        run_time: RunTime,
    ) -> (result: Result<ExecutionStatistics, StressFailure>)
        ensures
            result is Ok <==> all_agree(xor_all(hashes(players@)), hashes(observers@)),
            match result {
                Ok(stats) => stats == statistics(self.n_messages, run_time),
                Err(failure) => first_disagreement(
                    xor_all(hashes(players@)),
                    hashes(observers@),
                    failure,
                ),
            },
    {
        let handled = overall_digest(players);
        match check_observers(handled, observers) {
            Some(failure) => Err(failure),
            None => Ok(
                ExecutionStatistics {
                    n_messages: self.n_messages,
                    duration: run_time.duration,
                    cpu_duration: run_time.cpu_duration,
                },
            ),
        }
    }
}

/// A producer's stream has as many messages as it is to send, numbered from zero on without a gap, all
/// of them with the number of the producer, and no two alike.
pub proof fn law_stream_is_numbered(src: usize, n: usize)
    ensures
        produced(src, n).len() == n,
        forall|i: int|
            0 <= i < n ==> (#[trigger] produced(src, n)[i]).src == src && produced(src, n)[i].x
                == i,
        produced(src, n).no_duplicates(),
        forall|m: StressMessage| #[trigger]
            produced(src, n).contains(m) <==> m.src == src && m.x < n,
{
    assert forall|m: StressMessage| m.src == src && m.x < n implies #[trigger] produced(
        src,
        n,
    ).contains(m) by {
        assert(produced(src, n)[m.x as int] == m);
    }
}

/// What a producer has done through its end, once it is through, is to send each message of its
/// stream once and in order, `n` messages in all of which the one at place `i` has number `i`, and to
/// pause once after each.
pub proof fn law_producer_sends_each_message_once<'p, O: Outlet<'p, StressMessage>, S: Pauses>(
    producer: O,
    pause: S,
    src: usize,
    n: usize,
)
    requires
        done_through(producer, pause, sent_with_pauses(produced(src, n))),
    ensures
        exists|closed: Outgoing<'p, O::End, S::Pause, StressMessage>|
            {
                &&& #[trigger] call_ensures(
                    Outgoing::<'p, O::End, S::Pause, StressMessage>::close,
                    (closed,),
                    (),
                )
                &&& closed.end() == producer.end()
                &&& closed.pausing() == pause.pause()
                &&& closed.acts().len() == 2 * n
                &&& sent_messages(closed.acts()).len() == n
                &&& forall|i: int|
                    0 <= i < n ==> #[trigger] sent_messages(closed.acts())[i] == (StressMessage {
                        src,
                        x: i as usize,
                    })
                &&& forall|i: int|
                    0 <= i < n ==> #[trigger] closed.acts()[2 * i + 1] == Act::<
                        StressMessage,
                    >::Paused
            },
{
    law_messages_are_sent_once_with_a_pause(produced(src, n));
}

/// A run can be shared out exactly where there are equal whole shares for all producers and for all
/// consumers, and the threads can be counted.
pub proof fn law_run_is_shared_out_in_equal_shares(
    n_producers: usize,
    n_consumers: usize,
    n_observers: usize,
    n_weak_observers: usize,
    n_messages: usize,
)
    ensures
        StressPlan::possible(
            n_producers,
            n_consumers,
            n_observers,
            n_weak_observers,
            n_messages,
        ) <==> {
            &&& n_producers > 0
            &&& n_consumers > 0
            &&& exists|share: int| #[trigger] (share * n_producers) == n_messages
            &&& exists|share: int| #[trigger] (share * n_consumers) == n_messages
            &&& n_producers + n_consumers + n_observers + n_weak_observers <= usize::MAX
        },
{
    lemma_shares(n_messages as int, n_producers as int);
    lemma_shares(n_messages as int, n_consumers as int);
}

proof fn lemma_shares(n: int, d: int)
    ensures
        d > 0 ==> (n % d == 0 <==> exists|share: int| #[trigger] (share * d) == n),
{
    if d > 0 {
        vstd::arithmetic::div_mod::lemma_fundamental_div_mod(n, d);
        if n % d == 0 {
            assert((n / d) * d == n) by (nonlinear_arith)
                requires
                    n == d * (n / d) + n % d,
                    n % d == 0,
            ;
        }
        if exists|share: int| #[trigger] (share * d) == n {
            let share = choose|share: int| #[trigger] (share * d) == n;
            vstd::arithmetic::div_mod::lemma_mod_multiples_basic(share, d);
        }
    }
}

/// The positions that an observer looks at are those from the first up to, and without, the last, in
/// ascending order and without a gap.
pub proof fn law_every_position_is_looked_at(first: Cursor, last: Cursor)
    ensures
        forall|c: Cursor| #[trigger]
            cursors(first, last).contains(c) <==> first.index <= c.index < last.index,
        forall|i: int|
            0 <= i < cursors(first, last).len() ==> #[trigger] cursors(first, last)[i].index
                == first.index + i,
{
    assert forall|c: Cursor| first.index <= c.index < last.index implies #[trigger] cursors(
        first,
        last,
    ).contains(c) by {
        assert(cursors(first, last)[c.index - first.index] == c);
    }
}

/// What was found is looked through one by one: a message counts, and a place without one does not.
pub proof fn law_found_messages_are_all_there_is(
    a: Seq<Option<StressMessage>>,
    b: Seq<Option<StressMessage>>,
    v: StressMessage,
)
    ensures
        present(Seq::empty()) == Seq::<StressMessage>::empty(),
        present(seq![Some(v)]) == seq![v],
        present(seq![None::<StressMessage>]) == Seq::<StressMessage>::empty(),
        present(a + b) == present(a) + present(b),
    decreases b.len(),
{
    reveal_with_fuel(present, 2);
    assert(seq![Some(v)].drop_last() =~= Seq::<Option<StressMessage>>::empty());
    assert(seq![None::<StressMessage>].drop_last() =~= Seq::<Option<StressMessage>>::empty());
    assert(present(seq![Some(v)]) =~= seq![v]);
    if b.len() == 0 {
        assert(a + b =~= a);
        assert(present(a) + present(b) =~= present(a));
    } else {
        law_found_messages_are_all_there_is(a, b.drop_last(), v);
        assert((a + b).drop_last() =~= a + b.drop_last());
        assert(present(a + b) =~= present(a) + present(b));
    }
}

/// A run passes exactly where the consumers' digest and that of every single observer is the
/// producers'; so another observer is one more condition, and each of the others stays one.
pub proof fn law_every_digest_counts(
    sent: Seq<u64>,
    received: Seq<u64>,
    observed: Seq<u64>,
    i: int,
    another: u64,
)
    ensures
        produce_consume_passes(sent, received, observed) ==> xor_all(sent) == xor_all(received),
        produce_consume_passes(sent, received, observed) && 0 <= i < observed.len() ==> observed[i]
            == xor_all(sent),
        produce_consume_passes(sent, received, Seq::empty()) <==> xor_all(sent) == xor_all(
            received,
        ),
        produce_consume_passes(sent, received, observed.push(another)) <==> produce_consume_passes(
            sent,
            received,
            observed,
        ) && another == xor_all(sent),
{
    let more = observed.push(another);
    if produce_consume_passes(sent, received, more) {
        assert(more[observed.len() as int] == another);
        assert forall|j: int| 0 <= j < observed.len() implies observed[j] == xor_all(sent) by {
            assert(more[j] == observed[j]);
        }
    }
}

/// The failure that is reported is about an observer that did see something else, and about the first
/// such observer.
pub proof fn law_first_disagreement_is_reported(
    produced: u64,
    observed: Seq<u64>,
    failure: StressFailure,
    i: int,
)
    requires
        first_disagreement(produced, observed, failure),
    ensures
        failure matches StressFailure::Observed { observer, produced: p, observed: o } && {
            &&& p == produced
            &&& observer < observed.len()
            &&& o == observed[observer as int]
            &&& o != produced
            &&& 0 <= i < observer ==> observed[i] == produced
        },
{
    if let StressFailure::Observed { observer, .. } = failure {
        if 0 <= i < observer {
            assert(observed.take(observer as int)[i] == observed[i]);
        }
    }
}

/// The statistics of a run are its number of messages and its times, as they are.
pub proof fn law_statistics_are_as_measured(n_messages: usize, t: RunTime)
    ensures
        statistics(n_messages, t).n_messages == n_messages,
        statistics(n_messages, t).duration == t.duration,
        statistics(n_messages, t).cpu_duration == t.cpu_duration,
{
}

/// An answer has the next number, and the source of what it answers.
pub proof fn law_answer_counts_on(v: StressMessage)
    requires
        v.x < usize::MAX,
    ensures
        reply_to(v).x == v.x + 1,
        reply_to(v).src == v.src,
{
}

/// A receiver's share goes down by one with each message, whatever the message is, and stays at
/// nothing.
pub proof fn law_share_goes_down_by_one(r: Receiving, v: StressMessage)
    ensures
        r.remaining > 0 ==> r.having_handled(seq![v]).remaining == r.remaining - 1,
        r.remaining == 0 ==> r.having_handled(seq![v]).remaining == 0,
{
}

} // verus!
