//! Verified core of a benchmark suite for table based inter-process communication: the messages and
//! digests of a stress run, the ways of waiting, the steps of senders and receivers, and the
//! configurations by which benchmarks are chosen.

pub mod benchmarks;
pub mod config;
pub mod expression;
pub mod generic_stress;
pub mod git_info;
pub mod outlet;
pub mod stress_laws;
pub mod table_ipc;
pub mod timing;
pub mod tracker;
pub mod transport;
pub mod wait_handler;
