# LDOS table benchmarks

A benchmark suite for LDOS tables: producers, consumers and observers pass messages through a table
or a channel, and the program measures how long that takes and checks that no message was lost.

`src/` is the verified library. It holds everything that is decided or computed:

* `tracker`: messages, and the order independent digest of a stream of messages.
* `generic_stress`, `stress_laws`: how a stress run is shared out among threads, when each of them
  finishes, how the digests are compared at the end, and what holds of a run as a whole.
* `wait_handler`: ways of waiting (busy, yielding, on a condition variable, parked).
* `transport`: the steps of the loops in which messages are sent and received.
* `table_ipc`: the roles in which a thread can be attached to a table.
* `expression`, `config`, `benchmarks`: configurations, which are written as integer expressions, and
  the benchmarks that they ask for.
* `git_info`, `timing`: what goes with a result.

Whatever blocks, prints, sleeps or starts a thread is in `app/`, which runs the loops of the library
and performs the actions that it decides on. The table itself is not part of this project: `app/`
attaches to whatever implements its `Table` trait.
