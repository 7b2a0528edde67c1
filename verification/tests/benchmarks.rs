use ldos_tables::benchmarks::{
    all_names, Benchmark, Delivery, NextWait, TableShape, Transport, UnknownBenchmark, Waiting,
    Workload,
};
use ldos_tables::config::Config;

fn config(name: &str) -> Config {
    Config {
        n_messages: 100,
        delay: 0,
        queue_length: 8,
        n_producers: 1,
        n_consumers: 1,
        n_strong_observers: 2,
        weak_observer_delays: vec![10, 20, 30],
        impl_name: name.to_string(),
        busy_wait_iterations: 64,
    }
}

fn table(strong: usize, supports_weak_observers: bool, delivery: Delivery) -> Transport {
    Transport::Table {
        shape: TableShape {
            queue_length: 8,
            n_strong_observers: strong,
            n_weak_observers: 3,
            supports_weak_observers,
        },
        delivery,
    }
}

fn polled(waiting: Waiting) -> Transport {
    table(2, true, Delivery::Polling { waiting })
}

fn check(name: &str, workload: Workload, transport: Transport, strong: usize, weak: &[u64]) {
    let b = Benchmark::select(&config(name)).unwrap();
    assert_eq!(b.workload, workload);
    assert_eq!(b.transport, transport);
    assert_eq!(b.n_strong_observers, strong);
    assert_eq!(b.weak_observer_delays, weak);
}

/// The observers of each table: how many are strong, and the pauses of the weak ones.
fn tables(name: &str) -> Vec<(usize, Vec<u64>)> {
    let b = Benchmark::select(&config(name)).unwrap();
    b.tables().into_iter().map(|o| (o.n_strong, o.weak_delays)).collect()
}

#[test]
fn each_table_has_its_observers() {
    let all = vec![10, 20, 30];
    assert_eq!(tables("spsc::SpscTable yield"), vec![(2, all.clone())]);
    assert_eq!(tables("spsc::SpscTable spin"), vec![(2, vec![])]);
    assert_eq!(tables("spsc::SpscTable call"), vec![(0, all.clone())]);
    assert_eq!(tables("ping-pong spsc::SpscTable yield"), vec![(0, vec![]), (2, all)]);
    assert_eq!(tables("std mpsc::channel"), vec![]);
    assert_eq!(tables("direct call"), vec![]);
}

#[test]
fn channels_have_no_observers() {
    let w = Workload::ProduceConsume;
    check("std mpsc::channel", w, Transport::Channel, 0, &[]);
    check("std mpsc::sync_channel", w, Transport::SyncChannel { bound: 8 }, 0, &[]);
    check("kanal::bounded", w, Transport::KanalBounded { bound: 8 }, 0, &[]);
    check("direct call", w, Transport::DirectCall, 0, &[]);
}

#[test]
fn polled_tables_have_all_observers() {
    let w = Workload::ProduceConsume;
    let all = [10, 20, 30];
    let then = |next| polled(Waiting::BusyAndThen { next, n: 64 });
    check("spsc::SpscTable yield", w, then(NextWait::Yield), 2, &all);
    check("spsc::SpscTable yield weak", w, then(NextWait::Yield), 2, &all);
    check("spsc::SpscTable condvar", w, then(NextWait::CondVar), 2, &all);
    check("spsc::SpscTable park", w, then(NextWait::Park), 2, &all);
    check("spsc::SpscTable spin", w, polled(Waiting::Busy), 2, &[]);
    check(
        "ping-pong spsc::SpscTable yield",
        Workload::PingPong,
        then(NextWait::Yield),
        2,
        &all,
    );
}

#[test]
fn called_tables_have_no_strong_observers() {
    let w = Workload::ProduceConsume;
    let all = [10, 20, 30];
    check("spsc::SpscTable call", w, table(0, true, Delivery::Callback), 0, &all);
    check("spsc::SpscTable call no weak", w, table(0, false, Delivery::Callback), 0, &all);
}

#[test]
fn every_name_and_no_other_is_known() {
    let names = all_names();
    assert_eq!(names.len(), 12);
    for (i, name) in names.iter().enumerate() {
        assert!(!names[..i].contains(name));
        assert!(Benchmark::select(&config(name)).is_some());
    }
    assert!(Benchmark::select(&config("")).is_none());
    assert!(Benchmark::select(&config("spsc::SpscTable")).is_none());
    assert!(Benchmark::select(&config("direct call ")).is_none());
}

#[test]
fn unknown_name_is_reported_with_the_sorted_names() {
    let u = UnknownBenchmark::new("nope");
    assert_eq!(u.headline, "Unknown configuration: nope. The supported configurations are:");
    assert_eq!(u.error, "Unknown configuration: nope");
    assert_eq!(
        u.supported,
        vec![
            "direct call",
            "kanal::bounded",
            "ping-pong spsc::SpscTable yield",
            "spsc::SpscTable call",
            "spsc::SpscTable call no weak",
            "spsc::SpscTable condvar",
            "spsc::SpscTable park",
            "spsc::SpscTable spin",
            "spsc::SpscTable yield",
            "spsc::SpscTable yield weak",
            "std mpsc::channel",
            "std mpsc::sync_channel",
        ]
    );
}
