//! A verified model of a fixed-size worker thread pool.
//!
//! The pool owns an unbounded FIFO job queue and a fixed set of workers.
//! Every scheduler step — a worker taking the dequeue lock, removing a job,
//! running it, and the close-then-join teardown — is an explicit operation
//! with a contract, so that the pool's guarantees (each job runs exactly
//! once, no two workers ever hold the same job instance, teardown leaves
//! every worker exited and the pool closed to new work) are machine-checked.
//!
//! The shell that runs real OS threads around this model is ordinary,
//! unverified Rust and lives outside this crate's sources.

pub mod job;
pub mod laws;
pub mod pool;
pub mod worker;
