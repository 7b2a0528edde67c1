//! What holds of a stress run as a whole.
use crate::generic_stress::{
    all_agree, first_message, produce_consume_passes, produced, reply_to, Receiving,
    StressState,
};
use crate::tracker::{
    digest, hashes, law_combined_digest, law_digest_ignores_order, law_digest_of_concatenation,
    law_replaced_message_shows, message_hash, native_bytes, xor_all, MessageTracker, StressMessage,
};
use std::collections::hash_map::DefaultHasher;
use vstd::prelude::*;
use vstd::std_specs::hash::DefaultHasherAdditionalSpecFns;

verus! {

/// A state after `k` more threads are through.
pub open spec fn after_completions(s: StressState, k: nat) -> StressState
    decreases k,
{
    if k == 0 {
        s
    } else {
        after_completions(s, (k - 1) as nat).completed()
    }
}

/// A run is over when as many threads are through as it has, and not before; until it is started
/// every thread waits, and from then on none does, however many are through.
pub proof fn law_run_is_over_when_all_are_through(n: usize, k: nat)
    requires
        k <= usize::MAX,
    ensures
        ({
            let s = after_completions(StressState::before_start(n).started(), k);
            &&& s.inner.running
            &&& s.inner.n_completed == k
            &&& s.expected_complete == n
            &&& (s.inner.n_completed < s.expected_complete <==> k < n)
        }),
        !after_completions(StressState::before_start(n), k).inner.running,
    decreases k,
{
    if k > 0 {
        law_run_is_over_when_all_are_through(n, (k - 1) as nat);
    }
}

/// Tracking one stream after another is tracking both.
pub proof fn law_tracking_composes(
    t: MessageTracker,
    a: Seq<StressMessage>,
    b: Seq<StressMessage>,
)
    ensures
        t.having_handled(a).having_handled(b) == t.having_handled(a + b),
{
    law_digest_of_concatenation(a, b);
    let h = t.hash;
    let da = digest(a);
    let db = digest(b);
    assert((h ^ da) ^ db == h ^ (da ^ db)) by (bit_vector);
}

/// Receiving one stream after another is receiving both.
pub proof fn law_receiving_composes(r: Receiving, a: Seq<StressMessage>, b: Seq<StressMessage>)
    ensures
        r.having_handled(a).having_handled(b) == r.having_handled(a + b),
{
    law_tracking_composes(r.tracker, a, b);
}

/// A receiver with a share of `n` messages wants to finish at the `n`-th one and at none before
/// it, and by then its tracker is that of exactly these messages. (One with no share finishes at
/// the first message.)
pub proof fn law_receiver_finishes_after_its_share(
    n: usize,
    checking: bool,
    messages: Seq<StressMessage>,
    k: nat,
)
    requires
        k < messages.len(),
    ensures
        ({
            let start = Receiving::expecting(n, checking);
            let before = start.having_handled(messages.take(k as int));
            let after = before.having_handled(seq![messages[k as int]]);
            &&& before.remaining <= 1 <==> k + 1 >= n
            &&& after.tracker == MessageTracker::of(checking, messages.take(k + 1int))
        }),
{
    let start = Receiving::expecting(n, checking);
    law_receiving_composes(start, messages.take(k as int), seq![messages[k as int]]);
    assert(messages.take(k as int) + seq![messages[k as int]] =~= messages.take(k + 1int));
    assert(0u64 ^ 0u64 == 0) by (bit_vector);
    assert(start.tracker == (MessageTracker { hash: 0, checking }));
}

/// What the producers of a run send, producer by producer.
pub open spec fn all_produced(n_producers: usize, per_producer: usize) -> Seq<Seq<StressMessage>> {
    Seq::new(n_producers as nat, |t: int| produced(t as usize, per_producer))
}

/// The trackers of participants that have handled the given streams.
pub open spec fn trackers_of(checking: bool, streams: Seq<Seq<StressMessage>>) -> Seq<
    MessageTracker,
> {
    streams.map_values(|s: Seq<StressMessage>| MessageTracker::of(checking, s))
}

/// No two messages of a run are the same.
pub proof fn law_produced_messages_are_distinct(
    n_producers: usize,
    per_producer: usize,
    t: int,
    i: int,
    u: int,
    j: int,
)
    requires
        0 <= t < n_producers,
        0 <= u < n_producers,
        0 <= i < per_producer,
        0 <= j < per_producer,
        all_produced(n_producers, per_producer)[t][i] == all_produced(n_producers, per_producer)[u][j],
    ensures
        t == u,
        i == j,
{
}

/// The producers of a run together send as many messages as the run has.
pub proof fn law_producers_send_all_messages(n_producers: usize, per_producer: usize)
    ensures
        all_produced(n_producers, per_producer).flatten().len() == n_producers * per_producer,
{
    lemma_flatten_len(all_produced(n_producers, per_producer), per_producer as nat);
}

proof fn lemma_flatten_len<A>(streams: Seq<Seq<A>>, n: nat)
    requires
        forall|t: int| 0 <= t < streams.len() ==> (#[trigger] streams[t]).len() == n,
    ensures
        streams.flatten().len() == streams.len() * n,
    decreases streams.len(),
{
    streams.lemma_flatten_and_flatten_alt_are_equivalent();
    if streams.len() > 0 {
        let front = streams.drop_last();
        front.lemma_flatten_and_flatten_alt_are_equivalent();
        lemma_flatten_len(front, n);
        assert(streams.last().len() == n);
        assert((streams.len() - 1) * n + n == streams.len() * n) by (nonlinear_arith);
    }
}

/// A run in which nothing is lost, doubled or changed passes: if the consumers together received
/// what was sent, in whatever order and however shared out, and each observer saw what was sent, in
/// whatever order, then the digests agree.
pub proof fn law_lossless_run_passes(
    checking: bool,
    sent: Seq<Seq<StressMessage>>,
    received: Seq<Seq<StressMessage>>,
    observed: Seq<Seq<StressMessage>>,
)
    requires
        received.flatten().to_multiset() == sent.flatten().to_multiset(),
        forall|i: int|
            0 <= i < observed.len() ==> (#[trigger] observed[i]).to_multiset()
                == sent.flatten().to_multiset(),
    ensures
        produce_consume_passes(
            hashes(trackers_of(checking, sent)),
            hashes(trackers_of(checking, received)),
            hashes(trackers_of(checking, observed)),
        ),
{
    law_combined_digest(checking, sent);
    law_combined_digest(checking, received);
    law_digest_ignores_order(received.flatten(), sent.flatten());
    let seen = hashes(trackers_of(checking, observed));
    let produced = xor_all(hashes(trackers_of(checking, sent)));
    assert forall|i: int| 0 <= i < seen.len() implies seen[i] == produced by {
        law_digest_ignores_order(observed[i], sent.flatten());
    }
}

/// A checked run passes only where the digests of everything that was sent, of everything that was
/// received, and of what each observer saw are the same.
pub proof fn law_run_with_other_messages_fails(
    sent: Seq<Seq<StressMessage>>,
    received: Seq<Seq<StressMessage>>,
    observed: Seq<Seq<StressMessage>>,
    i: int,
)
    requires
        digest(received.flatten()) != digest(sent.flatten()) || (0 <= i < observed.len() && digest(
            observed[i],
        ) != digest(sent.flatten())),
    ensures
        !produce_consume_passes(
            hashes(trackers_of(true, sent)),
            hashes(trackers_of(true, received)),
            hashes(trackers_of(true, observed)),
        ),
{
    law_combined_digest(true, sent);
    law_combined_digest(true, received);
    let s = digest(sent.flatten());
    let r = digest(received.flatten());
    assert(0u64 ^ s == s) by (bit_vector);
    assert(0u64 ^ r == r) by (bit_vector);
    let seen = hashes(trackers_of(true, observed));
    if 0 <= i < observed.len() {
        let o = digest(observed[i]);
        assert(0u64 ^ o == o) by (bit_vector);
        assert(seen[i] == o);
    }
}

/// A run of one producer and one consumer in which one message is replaced by another fails, unless
/// the standard hasher makes the same of both messages. So does one in which a message comes twice
/// while another is lost.
pub proof fn law_run_with_a_replaced_message_fails(
    sent: Seq<StressMessage>,
    k: int,
    m: StressMessage,
)
    requires
        0 <= k < sent.len(),
        DefaultHasher::spec_finish(seq![native_bytes(m.src), native_bytes(m.x)])
            != DefaultHasher::spec_finish(
            seq![native_bytes(sent[k].src), native_bytes(sent[k].x)],
        ),
    ensures
        !produce_consume_passes(
            hashes(trackers_of(true, seq![sent])),
            hashes(trackers_of(true, seq![sent.update(k, m)])),
            Seq::empty(),
        ),
{
    law_replaced_message_shows(sent, k, m);
    let received = sent.update(k, m);
    lemma_flatten_one(sent);
    lemma_flatten_one(received);
    let nobody = Seq::<Seq<StressMessage>>::empty();
    law_run_with_other_messages_fails(seq![sent], seq![received], nobody, 0);
    assert(hashes(trackers_of(true, nobody)) =~= Seq::empty());
}

proof fn lemma_flatten_one<A>(s: Seq<A>)
    ensures
        seq![s].flatten() == s,
{
    seq![s].lemma_flatten_and_flatten_alt_are_equivalent();
    reveal_with_fuel(Seq::flatten_alt, 2);
    assert(seq![s].drop_last() =~= Seq::<Seq<A>>::empty());
    assert(seq![s].flatten() =~= s);
}

/// A run whose trackers do not check always passes.
pub proof fn law_unchecked_run_passes(
    sent: Seq<Seq<StressMessage>>,
    received: Seq<Seq<StressMessage>>,
    observed: Seq<Seq<StressMessage>>,
)
    ensures
        produce_consume_passes(
            hashes(trackers_of(false, sent)),
            hashes(trackers_of(false, received)),
            hashes(trackers_of(false, observed)),
        ),
{
    law_combined_digest(false, sent);
    law_combined_digest(false, received);
}

/// The message of a ping-pong run after `k` answers.
pub open spec fn rally(k: nat) -> StressMessage
    decreases k,
{
    if k == 0 {
        first_message()
    } else {
        reply_to(rally((k - 1) as nat))
    }
}

/// After `k` answers the message carries the number `k`, and still the source it started with.
pub proof fn law_rally_counts(k: nat)
    requires
        k <= usize::MAX,
    ensures
        rally(k) == (StressMessage { src: 0, x: k as usize }),
    decreases k,
{
    if k > 0 {
        law_rally_counts((k - 1) as nat);
    }
}

/// The messages of a ping-pong run that the consumer of the call table handles (`turn` is zero), or
/// that of the reply table (`turn` is one), each of which handles `n` messages.
pub open spec fn rally_turns(n: nat, turn: nat) -> Seq<StressMessage> {
    Seq::new(n, |i: int| rally((2 * i + turn) as nat))
}

/// All messages of a ping-pong run, in the order in which they are handled.
pub open spec fn whole_rally(n: nat) -> Seq<StressMessage> {
    Seq::new(2 * n, |i: int| rally(i as nat))
}

/// What the two threads of a ping-pong run handled is, taken together, the whole rally: an observer
/// that saw all of it agrees with them.
pub proof fn law_ping_pong_handles_the_rally(checking: bool, n: nat)
    ensures
        all_agree(
            xor_all(hashes(trackers_of(checking, seq![rally_turns(n, 0), rally_turns(n, 1)]))),
            hashes(trackers_of(checking, seq![whole_rally(n)])),
        ),
{
    let turns = seq![rally_turns(n, 0), rally_turns(n, 1)];
    law_combined_digest(checking, turns);
    turns.lemma_flatten_and_flatten_alt_are_equivalent();
    reveal_with_fuel(Seq::flatten_alt, 3);
    assert(turns.drop_last() =~= seq![rally_turns(n, 0)]);
    assert(turns.drop_last().drop_last() =~= Seq::empty());
    assert(turns.flatten() =~= rally_turns(n, 0) + rally_turns(n, 1));
    law_digest_of_concatenation(rally_turns(n, 0), rally_turns(n, 1));
    lemma_rally_digest(n);
}

proof fn lemma_rally_digest(n: nat)
    ensures
        digest(rally_turns(n, 0)) ^ digest(rally_turns(n, 1)) == digest(whole_rally(n)),
    decreases n,
{
    if n == 0 {
        assert(0u64 ^ 0u64 == 0) by (bit_vector);
    } else {
        let m = (n - 1) as nat;
        lemma_rally_digest(m);
        assert(rally_turns(n, 0).drop_last() =~= rally_turns(m, 0));
        assert(rally_turns(n, 1).drop_last() =~= rally_turns(m, 1));
        let whole = whole_rally(n);
        assert(whole.drop_last().drop_last() =~= whole_rally(m));
        reveal_with_fuel(digest, 3);
        let a = digest(rally_turns(m, 0));
        let b = digest(rally_turns(m, 1));
        let p = message_hash(rally((2 * m) as nat));
        let q = message_hash(rally((2 * m + 1) as nat));
        assert(whole.drop_last().last() == rally((2 * m) as nat));
        assert(whole.last() == rally((2 * m + 1) as nat));
        assert((a ^ p) ^ (b ^ q) == ((a ^ b) ^ p) ^ q) by (bit_vector);
    }
}

} // verus!
