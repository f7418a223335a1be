//! Merging what the probes of a run hand back into one record.

use vstd::prelude::*;
use vstd::string::*;
use crate::energy::EnergySeries;
use crate::number::{parse_u64, parse_unsigned};
use crate::records::{known_operations, percentage, DiskCounter, IoCounter, OP_READ, OP_WRITE};
use crate::stats::{
    device_name, partition_name, DeepTraceEvent, DiskStats, DiskStatsView, LowLevelSgxCounters,
    Partition, SGXStats,
};
use crate::tracer::TraceResult;
use crate::text::{
    read_lines, span_is, split_whitespace, text_lines, texts, to_chars, tokens, trim, trim_span,
    Span,
};

verus! {

/// The number that the token at position `at` writes; `None` where there is
/// no such token or it is not a number that fits.
pub open spec fn count_at(t: Seq<Seq<char>>, at: int) -> Option<u64> {
    if 0 <= at < t.len() {
        match parse_unsigned(t[at], u64::MAX as nat) {
            Some(v) => Some(v as u64),
            None => None,
        }
    } else {
        None
    }
}

/// Whether a line of the enclave loader's output reports a count: after
/// leading whitespace it begins with `#`.
pub open spec fn is_report_line(line: Seq<char>) -> bool {
    trim(line).len() > 0 && trim(line)[0] == '#'
}

/// The statistics after one more line of the enclave loader's output.
///
/// A report line names its metric in the third token. The count follows in
/// the fourth token, or in the fifth for the two kinds of signals. Any other
/// line, and a report line without a count, leaves the statistics as they
/// are.
pub open spec fn with_report_line(stats: SGXStats, line: Seq<char>) -> SGXStats {
    let t = tokens(line);
    if !is_report_line(line) || t.len() < 3 {
        stats
    } else if t[2] == "EENTERs:"@ {
        match count_at(t, 3) {
            Some(v) => SGXStats { eenter: v, ..stats },
            None => stats,
        }
    } else if t[2] == "EEXITs:"@ {
        match count_at(t, 3) {
            Some(v) => SGXStats { eexit: v, ..stats },
            None => stats,
        }
    } else if t[2] == "AEXs"@ {
        match count_at(t, 3) {
            Some(v) => SGXStats { aexit: v, ..stats },
            None => stats,
        }
    } else if t[2] == "sync"@ {
        match count_at(t, 4) {
            Some(v) => SGXStats { sync_signals: v, ..stats },
            None => stats,
        }
    } else if t[2] == "async"@ {
        match count_at(t, 4) {
            Some(v) => SGXStats { async_signals: v, ..stats },
            None => stats,
        }
    } else {
        stats
    }
}

/// Statistics in which every count is zero.
pub open spec fn no_sgx_stats() -> SGXStats {
    SGXStats {
        eenter: 0,
        eexit: 0,
        aexit: 0,
        sync_signals: 0,
        async_signals: 0,
        counters: LowLevelSgxCounters { encl_load_page: 0, encl_wb: 0, vma_access: 0, vma_fault: 0 },
    }
}

/// The statistics that the lines of the enclave loader's output report:
/// all zero at first, then changed by each line in turn, so that a later
/// report of a metric replaces an earlier one.
pub open spec fn reported_stats(lines: Seq<Seq<char>>) -> SGXStats
    decreases lines.len(),
{
    if lines.len() == 0 {
        no_sgx_stats()
    } else {
        with_report_line(reported_stats(lines.drop_last()), lines.last())
    }
}

/// Reads the count in the token at position `at`.
fn read_count(chars: &Vec<char>, spans: &Vec<Span>, at: usize, Ghost(t): Ghost<Seq<Seq<char>>>) -> (r:
    Option<u64>)
    requires
        spans@.len() == t.len(),
        forall|k: int|
            0 <= k < spans@.len() ==> (#[trigger] spans@[k]).within(chars@.len()) && spans@[k].of(
                chars@,
            ) == t[k],
    ensures
        r == count_at(t, at as int),
{
    if at < spans.len() {
        parse_u64(chars, spans[at])
    } else {
        None
    }
}

/// Takes one line of the enclave loader's output into account.
fn read_report_line(stats: SGXStats, line: &str) -> (r: SGXStats)
    ensures
        r == with_report_line(stats, line@),
{
    let chars = to_chars(line);
    let whole = Span { start: 0, end: chars.len() };
    assert(whole.of(chars@) == line@);
    let inner = trim_span(&chars, whole);
    if inner.start == inner.end || chars[inner.start] != '#' {
        assert(inner.of(chars@).len() == inner.end - inner.start);
        return stats;
    }
    assert(inner.of(chars@)[0] == chars@[inner.start as int]);
    let spans = split_whitespace(&chars, whole);
    if spans.len() < 3 {
        return stats;
    }
    let ghost t = tokens(line@);
    let metric = spans[2];
    let mut r = stats;
    if span_is(&chars, metric, "EENTERs:") {
        match read_count(&chars, &spans, 3, Ghost(t)) {
            Some(v) => {
                r.eenter = v;
            },
            None => {},
        }
    } else if span_is(&chars, metric, "EEXITs:") {
        match read_count(&chars, &spans, 3, Ghost(t)) {
            Some(v) => {
                r.eexit = v;
            },
            None => {},
        }
    } else if span_is(&chars, metric, "AEXs") {
        match read_count(&chars, &spans, 3, Ghost(t)) {
            Some(v) => {
                r.aexit = v;
            },
            None => {},
        }
    } else if span_is(&chars, metric, "sync") {
        match read_count(&chars, &spans, 4, Ghost(t)) {
            Some(v) => {
                r.sync_signals = v;
            },
            None => {},
        }
    } else if span_is(&chars, metric, "async") {
        match read_count(&chars, &spans, 4, Ghost(t)) {
            Some(v) => {
                r.async_signals = v;
            },
            None => {},
        }
    }
    r
}

/// Reads the counts that the enclave loader printed to its error stream
/// when the enclave ended.
pub fn extract_sgx_counters_from_stderr(stderr: &[u8]) -> (stats: SGXStats)
    ensures
        stats == reported_stats(text_lines(stderr@)),
        stats.counters == no_sgx_stats().counters,
{
    let lines = read_lines(stderr);
    let mut stats = SGXStats::default();
    let mut i: usize = 0;
    assert(texts(lines@).take(0) == Seq::<Seq<char>>::empty());
    while i < lines.len()
        invariant
            i <= lines@.len(),
            stats == reported_stats(texts(lines@).take(i as int)),
            stats.counters == no_sgx_stats().counters,
        decreases lines@.len() - i,
    {
        proof {
            let read = texts(lines@).take(i as int + 1);
            assert(read.drop_last() == texts(lines@).take(i as int));
            assert(read.last() == lines@[i as int]@);
        }
        stats = read_report_line(stats, lines[i].as_str());
        i = i + 1;
    }
    assert(texts(lines@).take(i as int) == texts(lines@));
    stats
}

/// The statistics of an enclave's run: the counts that its loader printed
/// to the error stream, together with the tracer's counters.
pub fn get_sgx_stats(stderr: &[u8], sgx_counters: LowLevelSgxCounters) -> (stats: SGXStats)
    ensures
        stats == (SGXStats { counters: sgx_counters, ..reported_stats(text_lines(stderr@)) }),
{
    let mut sgx_stats = extract_sgx_counters_from_stderr(stderr);
    sgx_stats.counters = sgx_counters;
    sgx_stats
}

/// The statistics of the device `dev` with the counters `c`: the device's
/// name from the partition index, the bytes written, and the shares of
/// random and of sequential accesses.
pub open spec fn disk_stats_of(parts: Seq<Partition>, dev: u32, c: DiskCounter) -> DiskStatsView {
    DiskStatsView {
        name: device_name(parts, dev),
        bytes: c.bytes,
        perc_random: percentage(c.random as nat, c.accesses()) as u32,
        perc_seq: percentage(c.sequential as nat, c.accesses()) as u32,
    }
}

/// Turns the tracer's per-device counters into statistics, one for each
/// entry and in the same order.
pub fn process_disk_stats(partitions: &[Partition], disk_stats: Vec<(u32, DiskCounter)>) -> (r: Vec<
    DiskStats,
>)
    ensures
        r@.len() == disk_stats@.len(),
        forall|i: int|
            0 <= i < r@.len() ==> (#[trigger] r@[i])@ == disk_stats_of(
                partitions@,
                disk_stats@[i].0,
                disk_stats@[i].1,
            ),
{
    let mut r: Vec<DiskStats> = Vec::new();
    let mut i: usize = 0;
    while i < disk_stats.len()
        invariant
            i <= disk_stats@.len(),
            r@.len() == i,
            forall|k: int|
                0 <= k < r@.len() ==> (#[trigger] r@[k])@ == disk_stats_of(
                    partitions@,
                    disk_stats@[k].0,
                    disk_stats@[k].1,
                ),
        decreases disk_stats@.len() - i,
    {
        let devid: u32 = disk_stats[i].0;
        let stats: DiskCounter = disk_stats[i].1;
        let entry = DiskStats {
            name: partition_name(partitions, devid),
            bytes: stats.bytes,
            perc_random: stats.perc_random(),
            perc_seq: stats.perc_seq(),
        };
        r.push(entry);
        i = i + 1;
    }
    r
}

/// The counter of the last entry for the operation `op`, if there is one.
pub open spec fn last_counter(stats: Seq<(u32, IoCounter)>, op: u32) -> Option<IoCounter>
    decreases stats.len(),
{
    if stats.len() == 0 {
        None
    } else if stats.last().0 == op {
        Some(stats.last().1)
    } else {
        last_counter(stats.drop_last(), op)
    }
}

/// The number of calls that a counter holds; zero where there is none.
pub open spec fn calls(c: Option<IoCounter>) -> u64 {
    match c {
        Some(c) => c.count,
        None => 0,
    }
}

/// The mean duration that a counter holds; zero where there is none.
pub open spec fn mean_duration(c: Option<IoCounter>) -> u64 {
    match c {
        Some(c) => c.average(),
        None => 0,
    }
}

/// Sums up the tracer's system call counters: the number of writes and
/// their mean duration, then the number of reads and their mean duration.
/// Where an operation has several entries, the last one counts.
pub fn process_mem_stats(mem_stats: Vec<(u32, IoCounter)>) -> (r: (u64, u64, u64, u64))
    requires
        known_operations(mem_stats@),
    ensures
        r.0 == calls(last_counter(mem_stats@, OP_WRITE)),
        r.1 == mean_duration(last_counter(mem_stats@, OP_WRITE)),
        r.2 == calls(last_counter(mem_stats@, OP_READ)),
        r.3 == mean_duration(last_counter(mem_stats@, OP_READ)),
{
    let mut sys_write_count: u64 = 0;
    let mut sys_write_avg: u64 = 0;
    let mut sys_read_count: u64 = 0;
    let mut sys_read_avg: u64 = 0;
    let mut i: usize = 0;
    assert(mem_stats@.take(0) == Seq::<(u32, IoCounter)>::empty());
    while i < mem_stats.len()
        invariant
            i <= mem_stats@.len(),
            known_operations(mem_stats@),
            sys_write_count == calls(last_counter(mem_stats@.take(i as int), OP_WRITE)),
            sys_write_avg == mean_duration(last_counter(mem_stats@.take(i as int), OP_WRITE)),
            sys_read_count == calls(last_counter(mem_stats@.take(i as int), OP_READ)),
            sys_read_avg == mean_duration(last_counter(mem_stats@.take(i as int), OP_READ)),
        decreases mem_stats@.len() - i,
    {
        let op: u32 = mem_stats[i].0;
        let stat: IoCounter = mem_stats[i].1;
        proof {
            let read = mem_stats@.take(i as int + 1);
            assert(read.drop_last() == mem_stats@.take(i as int));
            assert(read.last() == mem_stats@[i as int]);
        }
        if op == OP_WRITE {
            sys_write_count = stat.count;
            sys_write_avg = stat.average_duration();
        } else {
            sys_read_count = stat.count;
            sys_read_avg = stat.average_duration();
        }
        i = i + 1;
    }
    assert(mem_stats@.take(i as int) == mem_stats@);
    (sys_write_count, sys_write_avg, sys_read_count, sys_read_avg)
}

/// Everything that was measured in one run of the target program.
pub struct Metrics {
    /// The samples of each energy domain.
    pub energy_stats: Vec<EnergySeries>,
    /// What the target wrote to its output stream.
    pub stdout: Vec<u8>,
    /// What the target wrote to its error stream.
    pub stderr: Vec<u8>,
    /// The report of the hardware counters.
    pub perf_output: Vec<u8>,
    pub sys_write_count: u64,
    /// The mean duration of a write, in nanoseconds.
    pub sys_write_avg: u64,
    pub sys_read_count: u64,
    /// The mean duration of a read, in nanoseconds.
    pub sys_read_avg: u64,
    /// The statistics of each device that was accessed.
    pub disk_stats: Vec<DiskStats>,
    /// The enclave's statistics, for a run inside an enclave.
    pub sgx_stats: Option<SGXStats>,
    /// The events of the run, for a deep trace.
    pub deep_stats: Option<Vec<DeepTraceEvent>>,
}

/// The enclave statistics of a run: none where the trace probe reported no
/// enclave counters, else those counters with the counts from the error
/// stream.
pub open spec fn merged_sgx_stats(stderr: Seq<u8>, counters: Option<LowLevelSgxCounters>) -> Option<
    SGXStats,
> {
    match counters {
        Some(c) => Some(SGXStats { counters: c, ..reported_stats(text_lines(stderr)) }),
        None => None,
    }
}

/// Merges what the four probes of a run handed back into one record.
///
/// Devices get their names from the partition index, counters become counts,
/// means and percentages, and the enclave's statistics are present exactly
/// where the trace probe reported enclave counters. The captured streams,
/// the hardware counter report, the energy series and the events of a deep
/// trace pass through as they are.
pub fn collect_metrics(
    partitions: &[Partition],
    stdout: Vec<u8>,
    stderr: Vec<u8>,
    trace_result: TraceResult,
    energy_stats: Vec<EnergySeries>,
    perf_output: Vec<u8>,
) -> (m: Metrics)
    requires
        trace_result.wf(),
    ensures
        m.stdout == stdout,
        m.stderr == stderr,
        m.perf_output == perf_output,
        m.energy_stats == energy_stats,
        m.deep_stats == trace_result.deep_stats,
        m.sgx_stats == merged_sgx_stats(stderr@, trace_result.sgx_counters),
        m.sys_write_count == calls(last_counter(trace_result.mem_counters@, OP_WRITE)),
        m.sys_write_avg == mean_duration(last_counter(trace_result.mem_counters@, OP_WRITE)),
        m.sys_read_count == calls(last_counter(trace_result.mem_counters@, OP_READ)),
        m.sys_read_avg == mean_duration(last_counter(trace_result.mem_counters@, OP_READ)),
        m.disk_stats@.len() == trace_result.disk_counters@.len(),
        forall|i: int|
            0 <= i < m.disk_stats@.len() ==> (#[trigger] m.disk_stats@[i])@ == disk_stats_of(
                partitions@,
                trace_result.disk_counters@[i].0,
                trace_result.disk_counters@[i].1,
            ),
{
    let TraceResult { mem_counters, disk_counters, sgx_counters, deep_stats } = trace_result;
    let disk_stats = process_disk_stats(partitions, disk_counters);
    let (sys_write_count, sys_write_avg, sys_read_count, sys_read_avg) = process_mem_stats(
        mem_counters,
    );
    let sgx_stats = match sgx_counters {
        Some(counters) => Some(get_sgx_stats(stderr.as_slice(), counters)),
        None => None,
    };
    Metrics {
        stdout,
        stderr,
        perf_output,
        energy_stats,
        disk_stats,
        sgx_stats,
        sys_read_avg,
        sys_write_avg,
        sys_read_count,
        sys_write_count,
        deep_stats,
    }
}

} // verus!
