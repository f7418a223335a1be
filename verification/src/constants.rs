//! Fixed texts: the headers of the CSV files and the counters that are
//! always collected.

use vstd::prelude::*;

verus! {

/// The header of an energy series' CSV file.
pub const ENERGY_CSV_HEADER: &'static str = "timestamp (ns),energy (microjoule)";

/// The header of the CSV file with the I/O metrics of a run.
pub const IO_CSV_HEADER: &'static str = "dimension,unit,value,description";

/// The header of the CSV file with the events of a deep trace.
pub const TRACE_CSV_HEADER: &'static str = "timestamp (ns),event";

/// The hardware counters that are always collected: branch and cache
/// misses, cycles, elapsed time, instructions, stalled front-end cycles, and
/// the time spent in system and in user mode.
pub const DEFAULT_PERF_EVENTS: [&'static str; 8] = [
    "branch-misses",
    "cache-misses",
    "cpu-cycles",
    "duration_time",
    "instructions",
    "stalled-cycles-frontend",
    "system_time",
    "user_time",
];

} // verus!
