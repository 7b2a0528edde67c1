//! Sending through an end of which nothing else is known, with an account of what was done.
use crate::generic_stress::TestProducer;
use vstd::prelude::*;

verus! {

/// Something that is done through a sending end.
pub enum Act<T> {
    Sent(T),
    Paused,
}

/// A pause that can only be made through a sending end in use.
pub struct Held<S> {
    pause: S,
}

impl<S> Held<S> {
    /// What is called for a pause.
    pub closed spec fn pause(self) -> S {
        self.pause
    }
}

/// A way of pausing. Holding it takes it away, so whoever has nothing else can hold it once only.
pub trait Pauses: Sized {
    type Pause: Fn();

    /// What is called for a pause.
    spec fn pause(self) -> Self::Pause;

    /// Keeps the pause for use with a sending end.
    fn hold(self) -> (held: Held<Self::Pause>)
        ensures
            held.pause() == self.pause(),
    ;
}

impl<S: Fn()> Pauses for S {
    type Pause = S;

    open spec fn pause(self) -> S {
        self
    }

    fn hold(self) -> (held: Held<S>) {
        Held { pause: self }
    }
}

/// A sending end in use. It cannot be copied, and whatever is done through it is in its account.
pub struct Outgoing<'p, P, S, T> {
    end: &'p P,
    pause: S,
    log: Ghost<Seq<Act<T>>>,
}

impl<'p, P, S, T> Outgoing<'p, P, S, T> {
    /// What was done through it so far, in order.
    pub closed spec fn acts(self) -> Seq<Act<T>> {
        self.log@
    }

    /// The end through which messages are sent.
    pub closed spec fn end(self) -> &'p P {
        self.end
    }

    /// What is called for a pause.
    pub closed spec fn pausing(self) -> S {
        self.pause
    }

    /// Ends the use of the end: nothing more can be done through it.
    pub fn close(self) {
    }
}

impl<'p, T: Copy + Send, P: TestProducer<T>, S: Fn()> Outgoing<'p, P, S, T> {
    /// Sends one message.
    pub fn send(&mut self, v: T)
        ensures
            final(self).acts() == old(self).acts().push(Act::Sent(v)),
            final(self).end() == old(self).end(),
            final(self).pausing() == old(self).pausing(),
            call_ensures(P::send, (old(self).end(), v), ()),
    {
        self.end.send(v);
        self.log = Ghost(self.log@.push(Act::Sent(v)));
    }

    /// Pauses once.
    pub fn pause(&mut self)
        requires
            call_requires(old(self).pausing(), ()),
        ensures
            final(self).acts() == old(self).acts().push(Act::Paused),
            final(self).end() == old(self).end(),
            final(self).pausing() == old(self).pausing(),
            call_ensures(old(self).pausing(), (), ()),
    {
        (self.pause)();
        self.log = Ghost(self.log@.push(Act::Paused));
    }
}

/// Something through which messages can be sent once it is opened. Opening takes it away, so whoever
/// has nothing else can open it once only, and everything that is done is in one account.
pub trait Outlet<'p, T: Copy + Send>: Sized {
    type End: TestProducer<T> + 'p;

    /// The end that is opened.
    spec fn end(self) -> &'p Self::End;

    /// Starts to use the end. Nothing is done yet.
    fn open<S: Fn()>(self, held: Held<S>) -> (out: Outgoing<'p, Self::End, S, T>)
        ensures
            out.acts() == Seq::<Act<T>>::empty(),
            out.end() == self.end(),
            out.pausing() == held.pause(),
    ;
}

impl<'p, T: Copy + Send, P: TestProducer<T>> Outlet<'p, T> for &'p P {
    type End = P;

    open spec fn end(self) -> &'p P {
        self
    }

    fn open<S: Fn()>(self, held: Held<S>) -> (out: Outgoing<'p, P, S, T>) {
        Outgoing { end: self, pause: held.pause, log: Ghost(Seq::empty()) }
    }
}

/// Whether `outlet` was opened and closed again, with exactly `acts` done in between, in this order
/// and each of them once.
pub open spec fn done_through<'p, T: Copy + Send, O: Outlet<'p, T>, Q: Pauses>(
    outlet: O,
    pauses: Q,
    acts: Seq<Act<T>>,
) -> bool {
    exists|closed: Outgoing<'p, O::End, Q::Pause, T>|
        {
            &&& #[trigger] call_ensures(
                Outgoing::<'p, O::End, Q::Pause, T>::close,
                (closed,),
                (),
            )
            &&& closed.end() == outlet.end()
            &&& closed.pausing() == pauses.pause()
            &&& closed.acts() == acts
        }
}

/// Each of `messages` sent once, in order, with one pause after each.
pub open spec fn sent_with_pauses<T>(messages: Seq<T>) -> Seq<Act<T>> {
    Seq::new(
        2 * messages.len(),
        |i: int|
            if i % 2 == 0 {
                Act::Sent(messages[i / 2])
            } else {
                Act::Paused
            },
    )
}

/// The messages among what was done.
pub open spec fn sent_messages<T>(acts: Seq<Act<T>>) -> Seq<T>
    decreases acts.len(),
{
    if acts.len() == 0 {
        Seq::empty()
    } else {
        match acts.last() {
            Act::Sent(v) => sent_messages(acts.drop_last()).push(v),
            Act::Paused => sent_messages(acts.drop_last()),
        }
    }
}

/// Messages that are sent with pauses are sent each once and in order, the one at place `i` followed
/// by its pause, and nothing else is done.
pub proof fn law_messages_are_sent_once_with_a_pause<T>(messages: Seq<T>)
    ensures
        sent_messages(sent_with_pauses(messages)) == messages,
        sent_with_pauses(messages).len() == 2 * messages.len(),
        forall|i: int|
            #![trigger messages[i]]
            0 <= i < messages.len() ==> sent_with_pauses(messages)[2 * i] == Act::Sent(messages[i])
                && sent_with_pauses(messages)[2 * i + 1] == Act::<T>::Paused,
    decreases messages.len(),
{
    if messages.len() > 0 {
        let front = messages.drop_last();
        law_messages_are_sent_once_with_a_pause(front);
        let acts = sent_with_pauses(messages);
        assert(acts.drop_last().drop_last() =~= sent_with_pauses(front));
        assert(acts.drop_last().last() == Act::Sent(messages.last()));
        reveal_with_fuel(sent_messages, 3);
        assert(messages =~= front.push(messages.last()));
    } else {
        assert(messages =~= Seq::empty());
    }
}

} // verus!
