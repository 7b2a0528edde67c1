//! How long something took.
use std::time::Instant;
use vstd::prelude::*;

verus! {

/// How long a run took by the clock on the wall, and how much processor time the process used
/// meanwhile. Both are in nanoseconds.
#[derive(Clone, Copy, Debug, PartialEq, Eq, Structural)]
pub struct RunTime {
    pub duration: u128,
    pub cpu_duration: u128,
}

/// A reading of the standard library's monotonic clock.
#[verifier::external_type_specification]
#[verifier::external_body]
pub struct ExInstant(Instant);

/// Reads the monotonic clock with [`Instant::now`]. Nothing is claimed of the reading: it is the
/// time at which the call is made.
#[verifier::external_body]
pub fn clock_now() -> (now: Instant) {
    Instant::now()
}

/// The nanoseconds since a reading of the monotonic clock, by [`Instant::elapsed`]. Nothing is
/// claimed of the number: it depends on the time at which the call is made.
#[verifier::external_body]
pub fn nanos_since(start: &Instant) -> (nanos: u128) {
    start.elapsed().as_nanos()
}

/// The processor time that the process has used so far, in nanoseconds, by
/// [`cpu_time::ProcessTime::try_now`], and `None` where the system has no such clock. Nothing is
/// claimed of the number: it depends on what the process has done until the call.
#[verifier::external_body]
pub fn process_nanos() -> (nanos: Option<u128>) {
    cpu_time::ProcessTime::try_now().ok().map(|t| t.as_duration().as_nanos())
}

/// The run time, from the wall clock time and the readings of the processor time clock at the start
/// and at the end. There is none where that clock could not be read, or ran backwards.
pub open spec fn time_between(
    duration: u128,
    start_cpu: Option<u128>,
    end_cpu: Option<u128>,
) -> Option<RunTime> {
    match (start_cpu, end_cpu) {
        (Some(start), Some(end)) => if start <= end {
            Some(RunTime { duration, cpu_duration: (end - start) as u128 })
        } else {
            None
        },
        _ => None,
    }
}

/// Makes the run time of the wall clock time and the readings of the processor time clock.
pub fn run_time(duration: u128, start_cpu: Option<u128>, end_cpu: Option<u128>) -> (t: Option<
    RunTime,
>)
    ensures
        t == time_between(duration, start_cpu, end_cpu),
{
    match (start_cpu, end_cpu) {
        (Some(start), Some(end)) => {
            if start <= end {
                Some(RunTime { duration, cpu_duration: end - start })
            } else {
                None
            }
        },
        _ => None,
    }
}

/// Whether `t` is the run time by some reading `start` of the wall clock, the time `duration` since
/// then, and the readings `start_cpu` and `end_cpu` of the processor time clock.
pub open spec fn measured(
    start: Instant,
    duration: u128,
    start_cpu: Option<u128>,
    end_cpu: Option<u128>,
    t: Option<RunTime>,
) -> bool {
    &&& call_ensures(process_nanos, (), start_cpu)
    &&& call_ensures(clock_now, (), start)
    &&& call_ensures(nanos_since, (&start,), duration)
    &&& call_ensures(process_nanos, (), end_cpu)
    &&& t == time_between(duration, start_cpu, end_cpu)
}

/// The readings of both clocks that are made before something is called.
pub struct Started {
    pub cpu: Option<u128>,
    pub wall: Instant,
}

/// The readings that were made before something was called that has returned since.
pub struct Returned {
    pub started: Started,
}

/// Reads both clocks.
pub fn start_clocks() -> (started: Started)
    ensures
        call_ensures(process_nanos, (), started.cpu),
        call_ensures(clock_now, (), started.wall),
{
    let cpu = process_nanos();
    let wall = clock_now();
    Started { cpu, wall }
}

/// Calls `f` once, with the clocks read already. The readings stay what they are.
pub fn call_timed<F: FnOnce()>(started: Started, f: F) -> (returned: Returned)
    requires
        call_requires(f, ()),
    ensures
        call_ensures(f, (), ()),
        returned.started == started,
{
    f();
    Returned { started }
}

/// Reads both clocks again, once what was called has returned, and gives the time between the
/// readings.
pub fn stop_clocks(returned: Returned) -> (t: Option<RunTime>)
    ensures
        exists|duration: u128, end_cpu: Option<u128>|
            {
                &&& #[trigger] call_ensures(nanos_since, (&returned.started.wall,), duration)
                &&& #[trigger] call_ensures(process_nanos, (), end_cpu)
                &&& t == time_between(duration, returned.started.cpu, end_cpu)
            },
{
    let duration = nanos_since(&returned.started.wall);
    let end_cpu = process_nanos();
    run_time(duration, returned.started.cpu, end_cpu)
}

/// Whether `t` was measured around a call of `f`: the clocks were read, with these readings at hand
/// `f` was called, and with what that left the clocks were read again. Each of the three calls needs
/// what the one before it gave, so they were made in this order.
pub open spec fn measured_around<F: FnOnce()>(
    f: F,
    started: Started,
    returned: Returned,
    t: Option<RunTime>,
) -> bool {
    &&& call_ensures(start_clocks, (), started)
    &&& call_ensures(call_timed::<F>, (started, f), returned)
    &&& call_ensures(stop_clocks, (returned,), t)
}

/// Calls `f` once, and measures how long that took. The processor time includes the reading of the
/// wall clock; the wall clock time is that of `f` alone.
pub fn measure_run_time<F: FnOnce()>(f: F) -> (t: Option<RunTime>)
    requires
        call_requires(f, ()),
    ensures
        call_ensures(f, (), ()),
        exists|started: Started, returned: Returned| measured_around(f, started, returned, t),
        exists|start: Instant, duration: u128, start_cpu: Option<u128>, end_cpu: Option<u128>|
            measured(start, duration, start_cpu, end_cpu, t),
{
    let started = start_clocks();
    let ghost at_start = started;
    let returned = call_timed(started, f);
    let ghost at_return = returned;
    let t = stop_clocks(returned);
    proof {
        assert(measured_around(f, at_start, at_return, t));
        law_run_is_timed_from_before_to_after(f, at_start, at_return, t);
    }
    t
}

/// What is measured around a call spans it: the first reading of each clock is one that was there
/// before the call, which the call and what follows it leave as it is, and the last is made with
/// what the call has left. The run time is what lies between these readings.
pub proof fn law_run_is_timed_from_before_to_after<F: FnOnce()>(
    f: F,
    started: Started,
    returned: Returned,
    t: Option<RunTime>,
)
    requires
        measured_around(f, started, returned, t),
    ensures
        call_ensures(f, (), ()),
        returned.started == started,
        exists|duration: u128, end_cpu: Option<u128>|
            {
                &&& #[trigger] measured(started.wall, duration, started.cpu, end_cpu, t)
                &&& t is Some <==> started.cpu is Some && end_cpu is Some && started.cpu->0
                    <= end_cpu->0
                &&& t matches Some(t) ==> t.duration == duration && started.cpu->0 + t.cpu_duration
                    == end_cpu->0
            },
{
    let (duration, end_cpu) = choose|duration: u128, end_cpu: Option<u128>|
        {
            &&& #[trigger] call_ensures(nanos_since, (&returned.started.wall,), duration)
            &&& #[trigger] call_ensures(process_nanos, (), end_cpu)
            &&& t == time_between(duration, returned.started.cpu, end_cpu)
        };
    assert(measured(started.wall, duration, started.cpu, end_cpu, t));
}

/// There is a run time exactly where both readings of the processor time clock are there and it did
/// not run backwards. The wall clock time is taken as it is, and the processor time is what leads
/// from the first reading to the last.
pub proof fn law_run_time_is_what_lies_between(
    duration: u128,
    start_cpu: Option<u128>,
    end_cpu: Option<u128>,
)
    ensures
        time_between(duration, start_cpu, end_cpu) is Some <==> (start_cpu matches Some(start)
            && end_cpu matches Some(end) && start <= end),
        time_between(duration, start_cpu, end_cpu) matches Some(t) ==> t.duration == duration
            && start_cpu->0 + t.cpu_duration == end_cpu->0,
{
}

/// The processor times of two runs of which one starts as the other ends add up to that of both
/// together.
pub proof fn law_run_times_add_up(d: u128, e: u128, start: u128, between: u128, end: u128)
    requires
        start <= between <= end,
    ensures
        time_between(d, Some(start), Some(between))->0.cpu_duration + time_between(
            e,
            Some(between),
            Some(end),
        )->0.cpu_duration == time_between(d, Some(start), Some(end))->0.cpu_duration,
{
}

} // verus!
