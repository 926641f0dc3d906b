//! Storage benchmarking core: the trial protocol of the throughput
//! benchmarks, the aggregation of timed samples into a speed, the latency
//! probes and the order in which a work tree is taken down.
//!
//! Nothing here touches a disk or a clock. Each benchmark is a value that
//! says which step comes next and takes back what the step gave; the caller
//! carries the steps out.

pub mod bench;
pub mod cleanup;
pub mod host;
pub mod latency;
pub mod names;
pub mod payload;
pub mod sample;
pub mod tree;
