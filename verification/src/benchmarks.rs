//! The benchmarks by name: what each of them runs on, and who takes part in it.
use crate::config::{Config, ConfigView};
use itertools::Itertools;
use vstd::prelude::*;
use vstd::string::StringExecFns;

verus! {

/// Who talks to whom.
#[derive(Clone, Copy, Debug, PartialEq, Eq, Structural)]
pub enum Workload {
    /// A producer sends to a consumer.
    ProduceConsume,
    /// Two threads answer each other over a call table and a reply table.
    PingPong,
}

/// How a thread waits once it has busy waited.
#[derive(Clone, Copy, Debug, PartialEq, Eq, Structural)]
pub enum NextWait {
    Yield,
    CondVar,
    Park,
}

/// How the threads that are attached to a table wait for it.
#[derive(Clone, Copy, Debug, PartialEq, Eq, Structural)]
pub enum Waiting {
    Busy,
    /// Busy wait for `n` loops, and then wait otherwise.
    BusyAndThen { next: NextWait, n: u32 },
}

/// How a consumer learns that there is something in its table.
#[derive(Clone, Copy, Debug, PartialEq, Eq, Structural)]
pub enum Delivery {
    /// It looks, and waits where there is nothing.
    Polling { waiting: Waiting },
    /// The producer calls it.
    Callback,
}

/// How a table is made.
#[derive(Clone, Copy, Debug, PartialEq, Eq, Structural)]
pub struct TableShape {
    pub queue_length: usize,
    pub n_strong_observers: usize,
    pub n_weak_observers: usize,
    /// Whether the table is of the kind that can have weak observers at all.
    pub supports_weak_observers: bool,
}

/// What the messages go through.
#[derive(Clone, Copy, Debug, PartialEq, Eq, Structural)]
pub enum Transport {
    /// The unbounded channel of the standard library.
    Channel,
    /// The bounded channel of the standard library.
    SyncChannel { bound: usize },
    /// The bounded channel of `kanal`.
    KanalBounded { bound: usize },
    /// A single-producer single-consumer table.
    Table { shape: TableShape, delivery: Delivery },
    /// A plain call of the consumer.
    DirectCall,
}

/// What a benchmark runs.
#[derive(Debug)]
pub struct Benchmark {
    pub workload: Workload,
    pub transport: Transport,
    /// How many strong observers are attached.
    pub n_strong_observers: usize,
    /// For each weak observer that is attached, its pause between two looks, in nanoseconds.
    pub weak_observer_delays: Vec<u64>,
}

/// The contents of a [`Benchmark`].
#[verifier::ext_equal]
pub struct BenchmarkView {
    pub workload: Workload,
    pub transport: Transport,
    pub n_strong_observers: usize,
    pub weak_observer_delays: Seq<u64>,
}

impl View for Benchmark {
    type V = BenchmarkView;

    open spec fn view(&self) -> BenchmarkView {
        BenchmarkView {
            workload: self.workload,
            transport: self.transport,
            n_strong_observers: self.n_strong_observers,
            weak_observer_delays: self.weak_observer_delays@,
        }
    }
}

/// Who observes one table.
#[derive(Debug)]
pub struct Observers {
    pub n_strong: usize,
    /// For each weak observer, its pause between two looks, in nanoseconds.
    pub weak_delays: Vec<u64>,
}

/// The contents of [`Observers`].
#[verifier::ext_equal]
pub struct ObserversView {
    pub n_strong: usize,
    pub weak_delays: Seq<u64>,
}

impl View for Observers {
    type V = ObserversView;

    open spec fn view(&self) -> ObserversView {
        ObserversView { n_strong: self.n_strong, weak_delays: self.weak_delays@ }
    }
}

/// The observers of each table that a benchmark runs on; each table also has one producer and one
/// consumer. A ping-pong run has a call table, which nobody observes, and a reply table, in this
/// order. A benchmark that does not run on tables has none.
pub open spec fn tables_of(b: BenchmarkView) -> Seq<ObserversView> {
    let all = ObserversView {
        n_strong: b.n_strong_observers,
        weak_delays: b.weak_observer_delays,
    };
    match (b.transport, b.workload) {
        (Transport::Table { .. }, Workload::ProduceConsume) => seq![all],
        (Transport::Table { .. }, Workload::PingPong) => seq![
            ObserversView { n_strong: 0, weak_delays: Seq::empty() },
            all,
        ],
        _ => Seq::empty(),
    }
}

/// The contents of a list of [`Observers`].
pub open spec fn observers_view(tables: Seq<Observers>) -> Seq<ObserversView> {
    tables.map_values(|o: Observers| o@)
}

/// A table whose users poll it, with room for all observers of the configuration.
pub open spec fn polled_table(c: ConfigView, waiting: Waiting) -> Transport {
    Transport::Table {
        shape: TableShape {
            queue_length: c.queue_length,
            n_strong_observers: c.n_strong_observers,
            n_weak_observers: c.weak_observer_delays.len() as usize,
            supports_weak_observers: true,
        },
        delivery: Delivery::Polling { waiting },
    }
}

/// A table whose producer calls the consumer. It has no room for strong observers.
pub open spec fn callback_table(c: ConfigView, supports_weak_observers: bool) -> Transport {
    Transport::Table {
        shape: TableShape {
            queue_length: c.queue_length,
            n_strong_observers: 0,
            n_weak_observers: c.weak_observer_delays.len() as usize,
            supports_weak_observers,
        },
        delivery: Delivery::Callback,
    }
}

/// Busy waiting for the configured number of loops, and then waiting otherwise.
pub open spec fn busy_and_then(c: ConfigView, next: NextWait) -> Waiting {
    Waiting::BusyAndThen { next, n: c.busy_wait_iterations }
}

/// The pauses of the weak observers.
pub open spec fn delays_in_nanos(c: ConfigView) -> Seq<u64> {
    c.weak_observer_delays.map_values(|d: usize| d as u64)
}

/// The benchmark that a configuration asks for, if there is one of that name.
pub open spec fn benchmark_of(c: ConfigView) -> Option<BenchmarkView> {
    if c.impl_name == "std mpsc::channel"@ {
        Some(
            BenchmarkView {
                workload: Workload::ProduceConsume,
                transport: Transport::Channel,
                n_strong_observers: 0,
                weak_observer_delays: Seq::empty(),
            },
        )
    } else if c.impl_name == "std mpsc::sync_channel"@ {
        Some(
            BenchmarkView {
                workload: Workload::ProduceConsume,
                transport: Transport::SyncChannel { bound: c.queue_length },
                n_strong_observers: 0,
                weak_observer_delays: Seq::empty(),
            },
        )
    } else if c.impl_name == "kanal::bounded"@ {
        Some(
            BenchmarkView {
                workload: Workload::ProduceConsume,
                transport: Transport::KanalBounded { bound: c.queue_length },
                n_strong_observers: 0,
                weak_observer_delays: Seq::empty(),
            },
        )
    } else if c.impl_name == "spsc::SpscTable yield"@ {
        Some(
            BenchmarkView {
                workload: Workload::ProduceConsume,
                transport: polled_table(c, busy_and_then(c, NextWait::Yield)),
                n_strong_observers: c.n_strong_observers,
                weak_observer_delays: delays_in_nanos(c),
            },
        )
    } else if c.impl_name == "spsc::SpscTable yield weak"@ {
        Some(
            BenchmarkView {
                workload: Workload::ProduceConsume,
                transport: polled_table(c, busy_and_then(c, NextWait::Yield)),
                n_strong_observers: c.n_strong_observers,
                weak_observer_delays: delays_in_nanos(c),
            },
        )
    } else if c.impl_name == "ping-pong spsc::SpscTable yield"@ {
        Some(
            BenchmarkView {
                workload: Workload::PingPong,
                transport: polled_table(c, busy_and_then(c, NextWait::Yield)),
                n_strong_observers: c.n_strong_observers,
                weak_observer_delays: delays_in_nanos(c),
            },
        )
    } else if c.impl_name == "spsc::SpscTable condvar"@ {
        Some(
            BenchmarkView {
                workload: Workload::ProduceConsume,
                transport: polled_table(c, busy_and_then(c, NextWait::CondVar)),
                n_strong_observers: c.n_strong_observers,
                weak_observer_delays: delays_in_nanos(c),
            },
        )
    } else if c.impl_name == "spsc::SpscTable spin"@ {
        Some(
            BenchmarkView {
                workload: Workload::ProduceConsume,
                transport: polled_table(c, Waiting::Busy),
                n_strong_observers: c.n_strong_observers,
                weak_observer_delays: Seq::empty(),
            },
        )
    } else if c.impl_name == "spsc::SpscTable park"@ {
        Some(
            BenchmarkView {
                workload: Workload::ProduceConsume,
                transport: polled_table(c, busy_and_then(c, NextWait::Park)),
                n_strong_observers: c.n_strong_observers,
                weak_observer_delays: delays_in_nanos(c),
            },
        )
    } else if c.impl_name == "spsc::SpscTable call"@ {
        Some(
            BenchmarkView {
                workload: Workload::ProduceConsume,
                transport: callback_table(c, true),
                n_strong_observers: 0,
                weak_observer_delays: delays_in_nanos(c),
            },
        )
    } else if c.impl_name == "spsc::SpscTable call no weak"@ {
        Some(
            BenchmarkView {
                workload: Workload::ProduceConsume,
                transport: callback_table(c, false),
                n_strong_observers: 0,
                weak_observer_delays: delays_in_nanos(c),
            },
        )
    } else if c.impl_name == "direct call"@ {
        Some(
            BenchmarkView {
                workload: Workload::ProduceConsume,
                transport: Transport::DirectCall,
                n_strong_observers: 0,
                weak_observer_delays: Seq::empty(),
            },
        )
    } else {
        None
    }
}

/// The names of all benchmarks.
pub open spec fn benchmark_names() -> Seq<Seq<char>> {
    seq![
        "std mpsc::channel"@,
        "std mpsc::sync_channel"@,
        "kanal::bounded"@,
        "spsc::SpscTable yield"@,
        "spsc::SpscTable yield weak"@,
        "ping-pong spsc::SpscTable yield"@,
        "spsc::SpscTable condvar"@,
        "spsc::SpscTable spin"@,
        "spsc::SpscTable park"@,
        "spsc::SpscTable call"@,
        "spsc::SpscTable call no weak"@,
        "direct call"@,
    ]
}

fn is_named(config: &Config, name: &str) -> (b: bool)
    ensures
        b == (config@.impl_name == name@),
{
    config.impl_name == name.to_owned()
}

fn make_polled_table(config: &Config, waiting: Waiting) -> (t: Transport)
    ensures
        t == polled_table(config@, waiting),
{
    Transport::Table {
        shape: TableShape {
            queue_length: config.queue_length,
            n_strong_observers: config.n_strong_observers,
            n_weak_observers: config.weak_observer_delays.len(),
            supports_weak_observers: true,
        },
        delivery: Delivery::Polling { waiting },
    }
}

fn make_callback_table(config: &Config, supports_weak_observers: bool) -> (t: Transport)
    ensures
        t == callback_table(config@, supports_weak_observers),
{
    Transport::Table {
        shape: TableShape {
            queue_length: config.queue_length,
            n_strong_observers: 0,
            n_weak_observers: config.weak_observer_delays.len(),
            supports_weak_observers,
        },
        delivery: Delivery::Callback,
    }
}

fn make_busy_and_then(config: &Config, next: NextWait) -> (w: Waiting)
    ensures
        w == busy_and_then(config@, next),
{
    Waiting::BusyAndThen { next, n: config.busy_wait_iterations }
}

fn make_delays(config: &Config) -> (delays: Vec<u64>)
    ensures
        delays@ == delays_in_nanos(config@),
{
    let mut delays: Vec<u64> = Vec::new();
    let mut i: usize = 0;
    while i < config.weak_observer_delays.len()
        invariant
            i <= config.weak_observer_delays.len(),
            delays@ =~= delays_in_nanos(config@).take(i as int),
        decreases config.weak_observer_delays.len() - i,
    {
        delays.push(config.weak_observer_delays[i] as u64);
        i += 1;
    }
    delays
}

impl Benchmark {
    /// Finds the benchmark that a configuration asks for.
    pub fn select(config: &Config) -> (b: Option<Benchmark>)
        ensures
            b is Some <==> benchmark_of(config@) is Some,
            b matches Some(b) ==> benchmark_of(config@) == Some(b@),
    {
        if is_named(config, "std mpsc::channel") {
            Some(
                Benchmark {
                    workload: Workload::ProduceConsume,
                    transport: Transport::Channel,
                    n_strong_observers: 0,
                    weak_observer_delays: Vec::new(),
                },
            )
        } else if is_named(config, "std mpsc::sync_channel") {
            Some(
                Benchmark {
                    workload: Workload::ProduceConsume,
                    transport: Transport::SyncChannel { bound: config.queue_length },
                    n_strong_observers: 0,
                    weak_observer_delays: Vec::new(),
                },
            )
        } else if is_named(config, "kanal::bounded") {
            Some(
                Benchmark {
                    workload: Workload::ProduceConsume,
                    transport: Transport::KanalBounded { bound: config.queue_length },
                    n_strong_observers: 0,
                    weak_observer_delays: Vec::new(),
                },
            )
        } else if is_named(config, "spsc::SpscTable yield") {
            Some(
                Benchmark {
                    workload: Workload::ProduceConsume,
                    transport: make_polled_table(config, make_busy_and_then(config, NextWait::Yield)),
                    n_strong_observers: config.n_strong_observers,
                    weak_observer_delays: make_delays(config),
                },
            )
        } else if is_named(config, "spsc::SpscTable yield weak") {
            Some(
                Benchmark {
                    workload: Workload::ProduceConsume,
                    transport: make_polled_table(config, make_busy_and_then(config, NextWait::Yield)),
                    n_strong_observers: config.n_strong_observers,
                    weak_observer_delays: make_delays(config),
                },
            )
        } else if is_named(config, "ping-pong spsc::SpscTable yield") {
            Some(
                Benchmark {
                    workload: Workload::PingPong,
                    transport: make_polled_table(config, make_busy_and_then(config, NextWait::Yield)),
                    n_strong_observers: config.n_strong_observers,
                    weak_observer_delays: make_delays(config),
                },
            )
        } else if is_named(config, "spsc::SpscTable condvar") {
            Some(
                Benchmark {
                    workload: Workload::ProduceConsume,
                    transport: make_polled_table(config, make_busy_and_then(config, NextWait::CondVar)),
                    n_strong_observers: config.n_strong_observers,
                    weak_observer_delays: make_delays(config),
                },
            )
        } else if is_named(config, "spsc::SpscTable spin") {
            Some(
                Benchmark {
                    workload: Workload::ProduceConsume,
                    transport: make_polled_table(config, Waiting::Busy),
                    n_strong_observers: config.n_strong_observers,
                    weak_observer_delays: Vec::new(),
                },
            )
        } else if is_named(config, "spsc::SpscTable park") {
            Some(
                Benchmark {
                    workload: Workload::ProduceConsume,
                    transport: make_polled_table(config, make_busy_and_then(config, NextWait::Park)),
                    n_strong_observers: config.n_strong_observers,
                    weak_observer_delays: make_delays(config),
                },
            )
        } else if is_named(config, "spsc::SpscTable call") {
            Some(
                Benchmark {
                    workload: Workload::ProduceConsume,
                    transport: make_callback_table(config, true),
                    n_strong_observers: 0,
                    weak_observer_delays: make_delays(config),
                },
            )
        } else if is_named(config, "spsc::SpscTable call no weak") {
            Some(
                Benchmark {
                    workload: Workload::ProduceConsume,
                    transport: make_callback_table(config, false),
                    n_strong_observers: 0,
                    weak_observer_delays: make_delays(config),
                },
            )
        } else if is_named(config, "direct call") {
            Some(
                Benchmark {
                    workload: Workload::ProduceConsume,
                    transport: Transport::DirectCall,
                    n_strong_observers: 0,
                    weak_observer_delays: Vec::new(),
                },
            )
        } else {
            None
        }
    }
}

impl Benchmark {
    /// Tells, for each table that the benchmark runs on, who observes it.
    pub fn tables(&self) -> (tables: Vec<Observers>)
        ensures
            observers_view(tables@) == tables_of(self@),
    {
        let mut tables: Vec<Observers> = Vec::new();
        if let Transport::Table { .. } = self.transport {
            if let Workload::PingPong = self.workload {
                tables.push(Observers { n_strong: 0, weak_delays: Vec::new() });
            }
            let weak_delays = self.weak_observer_delays.clone();
            assert(weak_delays@ =~= self.weak_observer_delays@);
            tables.push(Observers { n_strong: self.n_strong_observers, weak_delays });
        }
        assert(observers_view(tables@) =~= tables_of(self@));
        tables
    }
}

/// A benchmark runs on tables exactly where its transport is a table: on one, or on two for a
/// ping-pong run. Its observers are all attached to the last of them, and to no other.
pub proof fn law_observers_are_attached_once(b: BenchmarkView)
    ensures
        tables_of(b).len() == (if !(b.transport is Table) {
            0int
        } else if b.workload is PingPong {
            2int
        } else {
            1int
        }),
        forall|i: int|
            0 <= i < tables_of(b).len() - 1 ==> #[trigger] tables_of(b)[i] == (ObserversView {
                n_strong: 0,
                weak_delays: Seq::empty(),
            }),
        b.transport is Table ==> tables_of(b).last() == (ObserversView {
            n_strong: b.n_strong_observers,
            weak_delays: b.weak_observer_delays,
        }),
{
}

/// The texts of a list of strings.
pub open spec fn texts(names: Seq<&'static str>) -> Seq<Seq<char>> {
    names.map_values(|s: &'static str| s@)
}

/// The names of all benchmarks.
pub fn all_names() -> (names: Vec<&'static str>)
    ensures
        texts(names@) == benchmark_names(),
{
    let names = vec![
        "std mpsc::channel",
        "std mpsc::sync_channel",
        "kanal::bounded",
        "spsc::SpscTable yield",
        "spsc::SpscTable yield weak",
        "ping-pong spsc::SpscTable yield",
        "spsc::SpscTable condvar",
        "spsc::SpscTable spin",
        "spsc::SpscTable park",
        "spsc::SpscTable call",
        "spsc::SpscTable call no weak",
        "direct call",
    ];
    assert(texts(names@) =~= benchmark_names());
    names
}

/// The order of texts: by the first character in which they differ, and a text before its
/// continuations.
pub open spec fn text_le(a: Seq<char>, b: Seq<char>) -> bool
    decreases a.len(),
{
    if a.len() == 0 {
        true
    } else if b.len() == 0 {
        false
    } else if a[0] == b[0] {
        text_le(a.skip(1), b.skip(1))
    } else {
        a[0] < b[0]
    }
}

/// Sorts strings with `itertools::Itertools::sorted`: the result holds the same strings, each as
/// often as before, in ascending order.
#[verifier::external_body]
fn sorted(names: Vec<&'static str>) -> (r: Vec<&'static str>)
    ensures
        texts(r@).to_multiset() == texts(names@).to_multiset(),
        forall|i: int, j: int|
            0 <= i <= j < r@.len() ==> text_le(#[trigger] texts(r@)[i], #[trigger] texts(r@)[j]),
{
    names.into_iter().sorted().collect()
}

/// What to tell a user who has asked for a benchmark that there is not.
#[derive(Debug)]
pub struct UnknownBenchmark {
    /// The line above the list of names.
    pub headline: String,
    /// The names that there are.
    pub supported: Vec<&'static str>,
    /// The error with which the program ends.
    pub error: String,
}

impl UnknownBenchmark {
    pub fn new(name: &str) -> (u: Self)
        ensures
            u.headline@ == "Unknown configuration: "@ + name@
                + ". The supported configurations are:"@,
            u.error@ == "Unknown configuration: "@ + name@,
            texts(u.supported@).to_multiset() == benchmark_names().to_multiset(),
            forall|i: int, j: int|
                0 <= i <= j < u.supported@.len() ==> text_le(
                    #[trigger] texts(u.supported@)[i],
                    #[trigger] texts(u.supported@)[j],
                ),
    {
        let mut error = "Unknown configuration: ".to_owned();
        error.append(name);
        let mut headline = error.clone();
        headline.append(". The supported configurations are:");
        UnknownBenchmark { headline, supported: sorted(all_names()), error }
    }
}

/// There is a benchmark for exactly the names in the list.
pub proof fn law_benchmarks_are_those_named(c: ConfigView)
    ensures
        benchmark_of(c) is Some <==> benchmark_names().contains(c.impl_name),
{
    let names = benchmark_names();
    if names.contains(c.impl_name) {
        let i = choose|i: int| 0 <= i < names.len() && names[i] == c.impl_name;
        assert(0 <= i < 12);
    }
    if benchmark_of(c) is Some {
        assert(exists|i: int| 0 <= i < 12 && #[trigger] names[i] == c.impl_name);
    }
}

/// No two benchmarks have the same name.
pub proof fn law_names_are_distinct()
    ensures
        benchmark_names().no_duplicates(),
{
    reveal_strlit("std mpsc::channel");
    reveal_strlit("std mpsc::sync_channel");
    reveal_strlit("kanal::bounded");
    reveal_strlit("spsc::SpscTable yield");
    reveal_strlit("spsc::SpscTable yield weak");
    reveal_strlit("ping-pong spsc::SpscTable yield");
    reveal_strlit("spsc::SpscTable condvar");
    reveal_strlit("spsc::SpscTable spin");
    reveal_strlit("spsc::SpscTable park");
    reveal_strlit("spsc::SpscTable call");
    reveal_strlit("spsc::SpscTable call no weak");
    reveal_strlit("direct call");
    let names = benchmark_names();
    // All but three are told apart by their lengths, and those three by their last words.
    assert forall|i: int, j: int| 0 <= i < 12 && 0 <= j < 12 && i != j implies names[i]
        != names[j] by {
        assert(names[i].len() != names[j].len() || names[i][16] != names[j][16]);
    }
}

/// What a benchmark runs on is made as the configuration says: its size, its room for observers and
/// its busy waiting are those that are configured, whatever they are. A table that is polled has all
/// strong observers, and nothing else has any; every table but the one that is polled by busy waiting
/// alone has all weak observers, each with its own pause, and nothing else has any.
pub proof fn law_benchmark_takes_the_configuration(c: ConfigView, b: BenchmarkView)
    requires
        benchmark_of(c) == Some(b),
        c.weak_observer_delays.len() <= usize::MAX,
    ensures
        b.transport matches Transport::SyncChannel { bound } ==> bound == c.queue_length,
        b.transport matches Transport::KanalBounded { bound } ==> bound == c.queue_length,
        b.transport matches Transport::Table { shape, .. } ==> {
            &&& shape.queue_length == c.queue_length
            &&& shape.n_strong_observers == b.n_strong_observers
            &&& shape.n_weak_observers == c.weak_observer_delays.len()
        },
        b.transport matches Transport::Table {
            delivery: Delivery::Polling { waiting: Waiting::BusyAndThen { n, .. } },
            ..
        } ==> n == c.busy_wait_iterations,
        b.n_strong_observers == (if b.transport matches Transport::Table { delivery, .. }
            && delivery is Polling {
            c.n_strong_observers
        } else {
            0
        }),
        ({
            let watched = b.transport matches Transport::Table { delivery, .. } && delivery
                != (Delivery::Polling { waiting: Waiting::Busy });
            &&& watched ==> b.weak_observer_delays.len() == c.weak_observer_delays.len() && (
            forall|i: int|
                0 <= i < b.weak_observer_delays.len() ==> #[trigger] b.weak_observer_delays[i]
                    == c.weak_observer_delays[i])
            &&& !watched ==> b.weak_observer_delays.len() == 0
        }),
{
}

/// What a benchmark runs on tells its name: no other name gives it.
pub proof fn law_benchmark_is_what_its_name_says(c: ConfigView, b: BenchmarkView)
    requires
        benchmark_of(c) == Some(b),
    ensures
        b.workload is PingPong <==> c.impl_name == "ping-pong spsc::SpscTable yield"@,
        b.transport is Channel ==> c.impl_name == "std mpsc::channel"@,
        b.transport is SyncChannel ==> c.impl_name == "std mpsc::sync_channel"@,
        b.transport is KanalBounded ==> c.impl_name == "kanal::bounded"@,
        b.transport is DirectCall ==> c.impl_name == "direct call"@,
        b.transport matches Transport::Table { shape, delivery } ==> match delivery {
            Delivery::Callback => c.impl_name == (if shape.supports_weak_observers {
                "spsc::SpscTable call"@
            } else {
                "spsc::SpscTable call no weak"@
            }),
            Delivery::Polling { waiting } => shape.supports_weak_observers && match waiting {
                Waiting::Busy => c.impl_name == "spsc::SpscTable spin"@,
                Waiting::BusyAndThen { next, .. } => match next {
                    NextWait::CondVar => c.impl_name == "spsc::SpscTable condvar"@,
                    NextWait::Park => c.impl_name == "spsc::SpscTable park"@,
                    NextWait::Yield => c.impl_name == "spsc::SpscTable yield"@ || c.impl_name
                        == "spsc::SpscTable yield weak"@ || c.impl_name
                        == "ping-pong spsc::SpscTable yield"@,
                },
            },
        },
{
    law_names_are_distinct();
    let names = benchmark_names();
    assert(names[5] != names[0] && names[5] != names[1] && names[5] != names[2] && names[5]
        != names[3] && names[5] != names[4]);
}

/// Texts are ordered as words in a dictionary: a text comes before its continuations, the first
/// character that differs decides, and any two different texts come one strictly before the other.
pub proof fn law_texts_are_ordered(a: Seq<char>, b: Seq<char>, c: Seq<char>)
    ensures
        text_le(a, a + b),
        text_le(a, b) || text_le(b, a),
        text_le(a, b) && text_le(b, a) ==> a == b,
        text_le(a, b) && text_le(b, c) ==> text_le(a, c),
        a.len() > 0 && b.len() > 0 && a[0] < b[0] ==> text_le(a, b) && !text_le(b, a),
        a.len() > 0 ==> !text_le(a, Seq::empty()),
    decreases a.len(),
{
    if a.len() > 0 {
        assert((a + b).skip(1) =~= a.skip(1) + b);
        law_texts_are_ordered(a.skip(1), b, c);
        if b.len() > 0 {
            if c.len() > 0 {
                law_texts_are_ordered(a.skip(1), b.skip(1), c.skip(1));
            } else {
                law_texts_are_ordered(a.skip(1), b.skip(1), c);
            }
            if a[0] == b[0] && a.skip(1) == b.skip(1) {
                assert(a =~= seq![a[0]] + a.skip(1));
                assert(b =~= seq![b[0]] + b.skip(1));
            }
        }
    } else {
        if b.len() == 0 {
            assert(a =~= b);
        }
    }
}

} // verus!
