//! Telemetry collection for benchmarking a program natively and inside an
//! enclave: the records, parsers, decision rules and merging of probe
//! outputs, with machine-checked contracts.

pub mod text;
pub mod number;
pub mod stats;
pub mod records;
pub mod signal;
pub mod constants;
pub mod common;
pub mod metrics;
pub mod tracer;
pub mod energy;
pub mod output;
pub mod watcher;
pub mod collector;
pub mod experiment;
pub mod profiler;
