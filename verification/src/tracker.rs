//! The messages of a stress run, and the order independent digest that tells whether what was
//! received is what was sent.
use std::collections::hash_map::DefaultHasher;
use std::hash::Hasher;
use vstd::endian::{endianness, EndianNat};
use vstd::layout::size_of;
use vstd::prelude::*;
use vstd::std_specs::hash::DefaultHasherAdditionalSpecFns;

verus! {

/// A message of a stress run: who sent it, and its number within that sender's stream.
#[derive(Clone, Copy, Debug, Hash, PartialEq, Eq, Structural)]
pub struct StressMessage {
    pub src: usize,
    pub x: usize,
}

impl Default for StressMessage {
    fn default() -> (m: Self)
        ensures
            m == (StressMessage { src: 0, x: 0 }),
    {
        StressMessage { src: 0, x: 0 }
    }
}

/// The bytes of an integer as they stand in memory, in the byte order of the machine.
pub open spec fn native_bytes(x: usize) -> Seq<u8> {
    EndianNat::<u8>::from_nat(x as nat, size_of::<usize>()).digits.map_values(|d: int| d as u8)
}

/// The bytes of an integer in the byte order of the machine, by [`usize::to_ne_bytes`]: as many as
/// the machine's integers have, from the least significant one on or from the most significant one
/// on.
#[verifier::external_body]
fn to_native_bytes(x: usize) -> (bytes: Vec<u8>)
    ensures
        bytes@ == native_bytes(x),
{
    x.to_ne_bytes().to_vec()
}

/// What the standard hasher makes of a message: the bytes of `src` are written first, then those of
/// `x`.
pub open spec fn message_hash(m: StressMessage) -> u64 {
    DefaultHasher::spec_finish(seq![native_bytes(m.src), native_bytes(m.x)])
}

/// The digest of a list of messages: the exclusive or of their hashes.
pub open spec fn digest(messages: Seq<StressMessage>) -> u64
    decreases messages.len(),
{
    if messages.len() == 0 {
        0
    } else {
        digest(messages.drop_last()) ^ message_hash(messages.last())
    }
}

/// The exclusive or of a list of digests.
pub open spec fn xor_all(hashes: Seq<u64>) -> u64
    decreases hashes.len(),
{
    if hashes.len() == 0 {
        0
    } else {
        xor_all(hashes.drop_last()) ^ hashes.last()
    }
}

/// Hashes one message with the standard hasher.
pub fn hash_message(m: StressMessage) -> (h: u64)
    ensures
        h == message_hash(m),
        h == DefaultHasher::spec_finish(seq![native_bytes(m.src), native_bytes(m.x)]),
{
    let mut hasher = DefaultHasher::new();
    let src = to_native_bytes(m.src);
    hasher.write(src.as_slice());
    let x = to_native_bytes(m.x);
    hasher.write(x.as_slice());
    assert(hasher@ =~= seq![native_bytes(m.src), native_bytes(m.x)]);
    hasher.finish()
}

/// Accumulates the digest of the messages that one participant of a run has handled.
///
/// Hashing every message is costly, so a tracker only does it where it was made to check, as it is
/// in a build with debug assertions; otherwise its digest stays as it is.
///
/// A tracker cannot be copied: threads that track together share one under a mutex, so that there is
/// one digest for all of them.
#[derive(Debug)]
pub struct MessageTracker {
    pub hash: u64,
    pub checking: bool,
}

impl MessageTracker {
    /// What this tracker holds once it has also handled `messages`.
    pub open spec fn having_handled(self, messages: Seq<StressMessage>) -> MessageTracker {
        MessageTracker {
            hash: if self.checking {
                self.hash ^ digest(messages)
            } else {
                self.hash
            },
            checking: self.checking,
        }
    }

    /// The tracker of a participant that has handled exactly `messages`.
    pub open spec fn of(checking: bool, messages: Seq<StressMessage>) -> MessageTracker {
        MessageTracker { hash: 0, checking }.having_handled(messages)
    }

    /// A tracker that has seen nothing.
    pub fn new(checking: bool) -> (t: Self)
        ensures
            t.hash == 0,
            t.checking == checking,
            t == Self::of(checking, Seq::empty()),
    {
        assert(0u64 ^ 0u64 == 0) by (bit_vector);
        MessageTracker { hash: 0, checking }
    }

    /// Adds one message to the digest.
    pub fn update(&mut self, v: StressMessage)
        ensures
            final(self).hash == (if old(self).checking {
                old(self).hash ^ message_hash(v)
            } else {
                old(self).hash
            }),
            final(self).checking == old(self).checking,
    {
        if self.checking {
            self.hash = self.hash ^ hash_message(v);
        }
    }

    /// Adds everything that `other` has seen to the digest.
    pub fn combine(&mut self, other: &Self)
        ensures
            final(self).hash == old(self).hash ^ other.hash,
            final(self).checking == old(self).checking,
    {
        self.hash = self.hash ^ other.hash;
    }

    /// The digest so far.
    pub fn get(&self) -> (h: u64)
        ensures
            h == self.hash,
    {
        self.hash
    }
}

/// The digests of a list of trackers, in order.
pub open spec fn hashes(trackers: Seq<MessageTracker>) -> Seq<u64> {
    trackers.map_values(|t: MessageTracker| t.hash)
}

/// The digest of all participants of one kind together.
pub fn overall_digest(trackers: &Vec<MessageTracker>) -> (h: u64)
    ensures
        h == xor_all(hashes(trackers@)),
{
    let mut overall = MessageTracker::new(true);
    let mut i: usize = 0;
    while i < trackers.len()
        invariant
            i <= trackers.len(),
            overall.hash == xor_all(hashes(trackers@).take(i as int)),
        decreases trackers.len() - i,
    {
        overall.combine(&trackers[i]);
        proof {
            let next = hashes(trackers@).take(i + 1);
            assert(next.drop_last() =~= hashes(trackers@).take(i as int));
            assert(next.last() == trackers@[i as int].hash);
        }
        i += 1;
    }
    assert(hashes(trackers@).take(i as int) =~= hashes(trackers@));
    overall.get()
}

/// The bytes of an integer hold all of it: read in the byte order of the machine, they give the
/// integer back. So different integers have different bytes, and all have equally many.
pub proof fn law_native_bytes_hold_the_integer(x: usize, y: usize)
    ensures
        native_bytes(x).len() == size_of::<usize>(),
        EndianNat::<u8>::new(
            endianness(),
            native_bytes(x).map_values(|b: u8| b as int),
        ).to_nat() == x,
        native_bytes(x) == native_bytes(y) ==> x == y,
{
    lemma_native_bytes(x);
    lemma_native_bytes(y);
}

proof fn lemma_native_bytes(x: usize)
    ensures
        native_bytes(x).len() == size_of::<usize>(),
        EndianNat::<u8>::new(
            endianness(),
            native_bytes(x).map_values(|b: u8| b as int),
        ).to_nat() == x,
{
    vstd::layout::unsigned_int_max_values();
    let n = size_of::<usize>();
    let number = EndianNat::<u8>::from_nat(x as nat, n);
    EndianNat::<u8>::from_nat_properties(x as nat, n);
    EndianNat::<u8>::from_nat_to_nat(x as nat, n);
    assert(native_bytes(x).map_values(|b: u8| b as int) =~= number.digits);
}

/// The hash of a message is what the standard hasher makes of the whole message, whatever message it
/// is: of the bytes of its source, and then of those of its number.
pub proof fn law_whole_message_is_hashed(m: StressMessage)
    ensures
        message_hash(m) == DefaultHasher::spec_finish(
            seq![native_bytes(m.src), native_bytes(m.x)],
        ),
        digest(seq![m]) == DefaultHasher::spec_finish(
            seq![native_bytes(m.src), native_bytes(m.x)],
        ),
{
    assert(seq![m].drop_last() =~= Seq::<StressMessage>::empty());
    reveal_with_fuel(digest, 2);
    let h = message_hash(m);
    assert(0u64 ^ h == h) by (bit_vector);
}

/// What the hasher is given differs for any two different messages: messages have the same hash only
/// where the hasher itself makes the same of different bytes.
pub proof fn law_different_messages_are_hashed_apart(a: StressMessage, b: StressMessage)
    requires
        a != b,
    ensures
        seq![native_bytes(a.src), native_bytes(a.x)] != seq![
            native_bytes(b.src),
            native_bytes(b.x),
        ],
{
    law_native_bytes_hold_the_integer(a.src, b.src);
    law_native_bytes_hold_the_integer(a.x, b.x);
    let of_a = seq![native_bytes(a.src), native_bytes(a.x)];
    let of_b = seq![native_bytes(b.src), native_bytes(b.x)];
    if of_a == of_b {
        assert(of_a[0] == of_b[0] && of_a[1] == of_b[1]);
    }
}

/// A message that takes the place of another, such as the double of one that takes the place of a
/// lost one, shows in the digest unless the hasher makes the same of both.
pub proof fn law_replaced_message_shows(s: Seq<StressMessage>, i: int, m: StressMessage)
    requires
        0 <= i < s.len(),
    ensures
        digest(s.update(i, m)) == digest(s) <==> DefaultHasher::spec_finish(
            seq![native_bytes(m.src), native_bytes(m.x)],
        ) == DefaultHasher::spec_finish(seq![native_bytes(s[i].src), native_bytes(s[i].x)]),
{
    law_lost_message_shows(s, i);
    law_lost_message_shows(s.update(i, m), i);
    assert(s.update(i, m).remove(i) =~= s.remove(i));
    let rest = digest(s.remove(i));
    let a = message_hash(m);
    let b = message_hash(s[i]);
    assert(rest ^ a == rest ^ b <==> a == b) by (bit_vector);
}

/// One more message, such as the double of another, shows in the digest unless its hash happens to
/// be zero.
pub proof fn law_added_message_shows(s: Seq<StressMessage>, i: int, m: StressMessage)
    requires
        0 <= i <= s.len(),
    ensures
        digest(s.insert(i, m)) == digest(s) <==> DefaultHasher::spec_finish(
            seq![native_bytes(m.src), native_bytes(m.x)],
        ) == 0,
{
    law_lost_message_shows(s.insert(i, m), i);
    assert(s.insert(i, m).remove(i) =~= s);
}

/// The exclusive or of digests is that of their parts: of none it is zero, of one that digest, and of
/// two lists together that of both.
pub proof fn law_exclusive_or_of_digests(a: Seq<u64>, b: Seq<u64>, x: u64)
    ensures
        xor_all(Seq::empty()) == 0,
        xor_all(seq![x]) == x,
        xor_all(a + b) == xor_all(a) ^ xor_all(b),
    decreases b.len(),
{
    assert(seq![x].drop_last() =~= Seq::<u64>::empty());
    reveal_with_fuel(xor_all, 2);
    assert(0u64 ^ x == x) by (bit_vector);
    let of_a = xor_all(a);
    if b.len() == 0 {
        assert(a + b =~= a);
        assert(of_a ^ 0 == of_a) by (bit_vector);
    } else {
        law_exclusive_or_of_digests(a, b.drop_last(), x);
        assert((a + b).drop_last() =~= a + b.drop_last());
        let front = xor_all(b.drop_last());
        let last = b.last();
        assert((of_a ^ front) ^ last == of_a ^ (front ^ last)) by (bit_vector);
    }
}

/// A tracker that checks adds to its digest what the hasher makes of each message, and nothing else;
/// one that does not check never changes.
pub proof fn law_tracker_adds_hashes(t: MessageTracker, messages: Seq<StressMessage>, v: StressMessage)
    ensures
        t.having_handled(Seq::empty()) == t,
        t.checking ==> t.having_handled(messages.push(v)).hash == t.having_handled(messages).hash
            ^ DefaultHasher::spec_finish(seq![native_bytes(v.src), native_bytes(v.x)]),
        !t.checking ==> t.having_handled(messages) == t,
        t.having_handled(messages).checking == t.checking,
        MessageTracker::of(t.checking, Seq::empty()).hash == 0,
{
    law_tracking_step(t, messages, v);
    law_whole_message_is_hashed(v);
    let h = t.hash;
    assert(h ^ 0 == h) by (bit_vector);
    assert(0u64 ^ 0u64 == 0) by (bit_vector);
}

/// Appending messages appends to the digest: combining two trackers gives what one tracker of both
/// streams would hold.
pub proof fn law_digest_of_concatenation(a: Seq<StressMessage>, b: Seq<StressMessage>)
    ensures
        digest(a + b) == digest(a) ^ digest(b),
    decreases b.len(),
{
    let da = digest(a);
    if b.len() == 0 {
        assert(a + b =~= a);
        assert(da ^ 0 == da) by (bit_vector);
    } else {
        law_digest_of_concatenation(a, b.drop_last());
        assert((a + b).drop_last() =~= a + b.drop_last());
        let db = digest(b.drop_last());
        let h = message_hash(b.last());
        assert((da ^ db) ^ h == da ^ (db ^ h)) by (bit_vector);
    }
}

/// Without one of its messages, the digest of a stream is that of the stream and the message. So the
/// loss of a single message shows, unless its hash happens to be zero.
pub proof fn law_lost_message_shows(s: Seq<StressMessage>, i: int)
    requires
        0 <= i < s.len(),
    ensures
        digest(s) == digest(s.remove(i)) ^ message_hash(s[i]),
        digest(s) == digest(s.remove(i)) <==> message_hash(s[i]) == 0,
{
    let front = s.take(i);
    let back = s.skip(i + 1);
    let one = seq![s[i]];
    assert(s =~= front + one + back);
    assert(s.remove(i) =~= front + back);
    law_digest_of_concatenation(front + one, back);
    law_digest_of_concatenation(front, one);
    law_digest_of_concatenation(front, back);
    let f = digest(front);
    let b = digest(back);
    let h = message_hash(s[i]);
    assert(one.drop_last() =~= Seq::<StressMessage>::empty());
    reveal_with_fuel(digest, 2);
    assert(digest(one) == 0u64 ^ h);
    assert(((f ^ (0u64 ^ h)) ^ b) == ((f ^ b) ^ h)) by (bit_vector);
    let rest = f ^ b;
    assert(rest ^ h == rest <==> h == 0) by (bit_vector);
}

/// The digest does not depend on the order in which messages are handled.
pub proof fn law_digest_ignores_order(a: Seq<StressMessage>, b: Seq<StressMessage>)
    requires
        a.to_multiset() == b.to_multiset(),
    ensures
        digest(a) == digest(b),
    decreases a.len(),
{
    broadcast use vstd::seq_lib::group_to_multiset_ensures;

    assert(a.len() == a.to_multiset().len());
    assert(b.len() == b.to_multiset().len());
    if a.len() > 0 {
        let m = a.last();
        assert(a.contains(m));
        assert(a.to_multiset().contains(m));
        assert(b.contains(m));
        let i = choose|i: int| 0 <= i < b.len() && b[i] == m;
        law_lost_message_shows(b, i);
        assert(a.remove(a.len() - 1) =~= a.drop_last());
        assert(a.drop_last().to_multiset() =~= a.to_multiset().remove(m));
        assert(b.remove(i).to_multiset() =~= b.to_multiset().remove(m));
        law_digest_ignores_order(a.drop_last(), b.remove(i));
    }
}

/// Handling the same messages twice leaves no trace in the digest.
pub proof fn law_digest_cancels(messages: Seq<StressMessage>)
    ensures
        digest(messages + messages) == 0,
{
    law_digest_of_concatenation(messages, messages);
    let d = digest(messages);
    assert(d ^ d == 0) by (bit_vector);
}

/// Updating a tracker message by message is the same as tracking the whole stream.
pub proof fn law_tracking_step(t: MessageTracker, messages: Seq<StressMessage>, v: StressMessage)
    ensures
        t.having_handled(messages.push(v)).hash == (if t.checking {
            t.having_handled(messages).hash ^ message_hash(v)
        } else {
            t.having_handled(messages).hash
        }),
{
    assert(messages.push(v).drop_last() =~= messages);
    let d = digest(messages);
    let h = message_hash(v);
    let s = t.hash;
    assert(s ^ (d ^ h) == (s ^ d) ^ h) by (bit_vector);
}

/// The combined digest of participants that have handled the given streams is the digest of all
/// their messages together.
pub proof fn law_combined_digest(checking: bool, streams: Seq<Seq<StressMessage>>)
    ensures
        xor_all(
            hashes(streams.map_values(|s: Seq<StressMessage>| MessageTracker::of(checking, s))),
        ) == MessageTracker::of(checking, streams.flatten()).hash,
    decreases streams.len(),
{
    let made = |s: Seq<StressMessage>| MessageTracker::of(checking, s);
    let all = hashes(streams.map_values(made));
    assert(0u64 ^ 0u64 == 0) by (bit_vector);
    if streams.len() == 0 {
        assert(all =~= Seq::empty());
        assert(streams.flatten() =~= Seq::empty());
    } else {
        let front = streams.drop_last();
        let last = streams.last();
        law_combined_digest(checking, front);
        assert(all.drop_last() =~= hashes(front.map_values(made)));
        assert(all.last() == made(last).hash);
        streams.lemma_flatten_and_flatten_alt_are_equivalent();
        front.lemma_flatten_and_flatten_alt_are_equivalent();
        assert(streams.flatten() =~= front.flatten() + last);
        law_digest_of_concatenation(front.flatten(), last);
        let f = digest(front.flatten());
        let l = digest(last);
        assert((0u64 ^ f) ^ (0u64 ^ l) == 0u64 ^ (f ^ l)) by (bit_vector);
    }
}

/// The digests of a list of trackers are those of all its trackers, each at its place.
pub proof fn law_every_tracker_counts(trackers: Seq<MessageTracker>)
    ensures
        hashes(trackers).len() == trackers.len(),
        forall|i: int| 0 <= i < trackers.len() ==> #[trigger] hashes(trackers)[i] == trackers[i].hash,
{
}

} // verus!
