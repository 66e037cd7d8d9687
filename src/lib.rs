//! A benchmark harness that measures the throughput of a repeatable unit of
//! work (a game of War) run by a pool of workers, and grades how stable the
//! collected throughput samples are.
pub mod wg;
pub mod stats;
pub mod pool;
pub mod monitor;
