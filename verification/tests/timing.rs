use ldos_tables::timing::{measure_run_time, run_time, RunTime};
use std::cell::Cell;
use std::time::{Duration, Instant};

#[test]
fn run_time_is_the_difference_of_the_readings() {
    assert_eq!(
        run_time(70, Some(100), Some(130)),
        Some(RunTime { duration: 70, cpu_duration: 30 })
    );
    assert_eq!(run_time(0, Some(5), Some(5)), Some(RunTime { duration: 0, cpu_duration: 0 }));
    assert_eq!(run_time(70, Some(130), Some(100)), None);
    assert_eq!(run_time(70, None, Some(100)), None);
    assert_eq!(run_time(70, Some(100), None), None);
}

#[test]
fn measuring_calls_once_and_takes_the_time() {
    let calls = Cell::new(0);
    let t = measure_run_time(|| {
        calls.set(calls.get() + 1);
        let start = Instant::now();
        while start.elapsed() < Duration::from_millis(20) {
            std::hint::spin_loop();
        }
    })
    .unwrap();
    assert_eq!(calls.get(), 1);
    assert!(t.duration >= 20_000_000);
    assert!(t.cpu_duration > 0);
}
