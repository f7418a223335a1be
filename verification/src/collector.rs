//! The collector: which runs it makes of a target program, in what order,
//! and when it gives up.

use vstd::prelude::*;
use vstd::string::*;
use crate::common::Interval;
use crate::constants::DEFAULT_PERF_EVENTS;
use crate::number::{decimal, to_decimal};
use crate::signal::StopSignal;
use crate::stats::{partition_views, Partition, PartitionView};
use crate::text::{join, join_strings, pair_texts, str_eq, texts};

verus! {

/// `items` without repetitions: of equal items only the first stays.
pub open spec fn dedup(items: Seq<Seq<char>>) -> Seq<Seq<char>>
    decreases items.len(),
{
    if items.len() == 0 {
        Seq::empty()
    } else {
        let d = dedup(items.drop_last());
        if d.contains(items.last()) {
            d
        } else {
            d.push(items.last())
        }
    }
}

/// `dedup` keeps every item once and adds none.
pub proof fn lemma_dedup(items: Seq<Seq<char>>)
    ensures
        dedup(items).no_duplicates(),
        forall|x: Seq<char>| dedup(items).contains(x) <==> items.contains(x),
    decreases items.len(),
{
    if items.len() > 0 {
        let init = items.drop_last();
        let d = dedup(init);
        lemma_dedup(init);
        assert forall|x: Seq<char>| dedup(items).contains(x) <==> items.contains(x) by {
            if items.contains(x) {
                let i = choose|i: int| 0 <= i < items.len() && items[i] == x;
                if i < init.len() {
                    assert(init[i] == x);
                    assert(init.contains(x));
                    assert(d.contains(x));
                    if !d.contains(items.last()) {
                        let j = choose|j: int| 0 <= j < d.len() && d[j] == x;
                        assert(d.push(items.last())[j] == x);
                    }
                } else {
                    if !d.contains(items.last()) {
                        assert(d.push(items.last())[d.len() as int] == x);
                    }
                }
            }
            if dedup(items).contains(x) {
                let j = choose|j: int| 0 <= j < dedup(items).len() && dedup(items)[j] == x;
                if j < d.len() {
                    assert(d[j] == x);
                    assert(d.contains(x));
                    assert(init.contains(x));
                    let i = choose|i: int| 0 <= i < init.len() && init[i] == x;
                    assert(items[i] == x);
                } else {
                    assert(items[items.len() - 1] == x);
                }
            }
        }
    }
}

/// Whether a list of strings holds the string `s`.
fn contains_text(list: &Vec<String>, s: &str) -> (b: bool)
    ensures
        b == texts(list@).contains(s@),
{
    let mut i: usize = 0;
    while i < list.len()
        invariant
            i <= list@.len(),
            forall|k: int| 0 <= k < i ==> texts(list@)[k] != s@,
        decreases list@.len() - i,
    {
        if str_eq(list[i].as_str(), s) {
            assert(texts(list@)[i as int] == s@);
            return true;
        }
        i = i + 1;
    }
    false
}

/// The hardware counters that are always collected.
pub open spec fn default_events() -> Seq<Seq<char>> {
    seq![
        "branch-misses"@,
        "cache-misses"@,
        "cpu-cycles"@,
        "duration_time"@,
        "instructions"@,
        "stalled-cycles-frontend"@,
        "system_time"@,
        "user_time"@,
    ]
}

/// The hardware counters of a collector: the default ones, then the extra
/// ones that the configuration names, each once.
pub open spec fn merged_events(extra: Option<Seq<Seq<char>>>) -> Seq<Seq<char>> {
    dedup(
        default_events() + match extra {
            Some(more) => more,
            None => Seq::empty(),
        },
    )
}

/// Settles the hardware counters to collect.
pub fn perf_events(extra_perf_events: Option<Vec<String>>) -> (events: Vec<String>)
    ensures
        texts(events@) == merged_events(
            match extra_perf_events {
                Some(more) => Some(texts(more@)),
                None => None,
            },
        ),
        texts(events@).no_duplicates(),
{
    let mut all: Vec<String> = Vec::new();
    let mut k: usize = 0;
    while k < 8
        invariant
            k <= 8,
            texts(all@) == default_events().take(k as int),
        decreases 8 - k,
    {
        let ghost before = texts(all@);
        all.push(String::from_str(DEFAULT_PERF_EVENTS[k]));
        assert(texts(all@) == before.push(DEFAULT_PERF_EVENTS[k as int]@));
        assert(default_events().take(k as int + 1) == before.push(default_events()[k as int]));
        k = k + 1;
    }
    assert(default_events().take(8) == default_events());
    let ghost more: Seq<Seq<char>> = match &extra_perf_events {
        Some(more) => texts(more@),
        None => Seq::empty(),
    };
    match extra_perf_events {
        Some(mut extra) => {
            let ghost head = texts(all@);
            all.append(&mut extra);
            assert(texts(all@) == head + more);
        },
        None => {
            assert(texts(all@) == texts(all@) + more);
        },
    }
    let mut events: Vec<String> = Vec::new();
    let mut i: usize = 0;
    assert(texts(all@).take(0) == Seq::<Seq<char>>::empty());
    assert(texts(events@) == Seq::<Seq<char>>::empty());
    while i < all.len()
        invariant
            i <= all@.len(),
            texts(events@) == dedup(texts(all@).take(i as int)),
        decreases all@.len() - i,
    {
        proof {
            let read = texts(all@).take(i as int + 1);
            assert(read.drop_last() == texts(all@).take(i as int));
            assert(read.last() == all@[i as int]@);
        }
        if !contains_text(&events, all[i].as_str()) {
            let ghost before = texts(events@);
            events.push(all[i].clone());
            assert(texts(events@) == before.push(all@[i as int]@));
        }
        i = i + 1;
    }
    proof {
        assert(texts(all@).take(i as int) == texts(all@));
        lemma_dedup(texts(all@));
    }
    events
}

/// How the run of the hardware counter tool ended.
pub enum PerfOutcome {
    /// The tool ran and exited; `report` is what it wrote to its error
    /// stream.
    Exited { success: bool, report: Vec<u8> },
    /// The tool could not be started.
    NotStarted,
}

/// The report of the hardware counters: what the tool wrote to its error
/// stream, whatever its exit status; nothing where it could not be started.
pub open spec fn report_of(outcome: PerfOutcome) -> Seq<u8> {
    match outcome {
        PerfOutcome::Exited { success, report } => report@,
        PerfOutcome::NotStarted => Seq::empty(),
    }
}

/// Whether the tool's run is a failure to note in the log: it could not be
/// started, or exited with a status other than success.
pub open spec fn is_perf_failure(outcome: PerfOutcome) -> bool {
    match outcome {
        PerfOutcome::Exited { success, report } => !success,
        PerfOutcome::NotStarted => true,
    }
}

/// Tells whether the tool's run is a failure to note in the log. A failure
/// does not end the run of the target.
pub fn perf_failed(outcome: &PerfOutcome) -> (b: bool)
    ensures
        b == is_perf_failure(*outcome),
{
    match outcome {
        PerfOutcome::Exited { success, report: _ } => !*success,
        PerfOutcome::NotStarted => true,
    }
}

/// Takes the report of the hardware counters from the run of the tool.
pub fn perf_report(outcome: PerfOutcome) -> (report: Vec<u8>)
    ensures
        report@ == report_of(outcome),
{
    match outcome {
        PerfOutcome::Exited { success: _, report } => report,
        PerfOutcome::NotStarted => Vec::new(),
    }
}

/// The name under which the enclave loader is started.
pub open spec fn sgx_loader() -> Seq<char> {
    "gramine-sgx"@
}

/// Whether a program is the enclave loader, so that a run of it is a run
/// inside an enclave.
pub fn is_sgx_program(program: &str) -> (b: bool)
    ensures
        b == (program@ == sgx_loader()),
{
    str_eq(program, "gramine-sgx")
}

/// Whether a run is left out: a run of the enclave loader, on a host whose
/// environment sets the option to skip enclaves to `1`.
pub fn skips_run(program: &str, skip_option: Option<&str>) -> (b: bool)
    ensures
        b == (program@ == sgx_loader() && match skip_option {
            Some(v) => v@ == "1"@,
            None => false,
        }),
{
    if !is_sgx_program(program) {
        return false;
    }
    match skip_option {
        Some(v) => str_eq(v, "1"),
        None => false,
    }
}

/// Where a collector stands in the runs of one task.
#[derive(Clone, Copy, Debug, PartialEq, Eq, Structural)]
pub enum RunState {
    /// No run has been made yet.
    Idle,
    /// The sample with this number, counted from one.
    Running(u32),
    /// The run with event tracing that follows the samples.
    DeepTraceRun,
    /// No run is left.
    Done,
}

/// How many runs of a collector's schedule lie behind a state once the
/// state's own run is over.
pub open spec fn runs_behind(sample_size: u32, state: RunState) -> int {
    match state {
        RunState::Idle => 0,
        RunState::Running(i) => i as int,
        RunState::DeepTraceRun => sample_size + 1,
        RunState::Done => sample_size + 1,
    }
}

/// Whether a state can occur for a collector: a sample's number lies
/// between one and the number of samples, and only a collector with event
/// tracing makes the run for it.
pub open spec fn valid_state(sample_size: u32, deep_trace: bool, state: RunState) -> bool {
    match state {
        RunState::Running(i) => 1 <= i <= sample_size,
        RunState::DeepTraceRun => deep_trace,
        _ => true,
    }
}

/// The state that follows `state`. `cancelled` says whether the collector's
/// stop signal was seen set when the run of `state` was over.
///
/// A collector that was asked to stop makes no further run. Otherwise the
/// samples follow each other, then comes the run with event tracing if the
/// collector makes one, and then nothing.
pub open spec fn next_state(
    sample_size: u32,
    deep_trace: bool,
    state: RunState,
    cancelled: bool,
) -> RunState {
    if cancelled {
        RunState::Done
    } else {
        match state {
            RunState::Idle => if sample_size >= 1 {
                RunState::Running(1)
            } else if deep_trace {
                RunState::DeepTraceRun
            } else {
                RunState::Done
            },
            RunState::Running(i) => if i < sample_size {
                RunState::Running((i + 1) as u32)
            } else if deep_trace {
                RunState::DeepTraceRun
            } else {
                RunState::Done
            },
            RunState::DeepTraceRun => RunState::Done,
            RunState::Done => RunState::Done,
        }
    }
}

/// Decides the state that follows `state`.
pub fn advance(sample_size: u32, deep_trace: bool, state: RunState, cancelled: bool) -> (next:
    RunState)
    ensures
        next == next_state(sample_size, deep_trace, state, cancelled),
        cancelled ==> next == RunState::Done,
        valid_state(sample_size, deep_trace, state) ==> valid_state(sample_size, deep_trace, next),
{
    if cancelled {
        return RunState::Done;
    }
    match state {
        RunState::Idle => {
            if sample_size >= 1 {
                RunState::Running(1)
            } else if deep_trace {
                RunState::DeepTraceRun
            } else {
                RunState::Done
            }
        },
        RunState::Running(i) => {
            if i < sample_size {
                RunState::Running(i + 1)
            } else if deep_trace {
                RunState::DeepTraceRun
            } else {
                RunState::Done
            }
        },
        RunState::DeepTraceRun => RunState::Done,
        RunState::Done => RunState::Done,
    }
}

/// The runs that a collector makes when nothing stops it: the samples from
/// one up, then the run with event tracing if it makes one.
pub open spec fn schedule(sample_size: u32, deep_trace: bool) -> Seq<RunState> {
    Seq::new(sample_size as nat, |i: int| RunState::Running((i + 1) as u32)) + if deep_trace {
        seq![RunState::DeepTraceRun]
    } else {
        Seq::empty()
    }
}

/// The runs that a collector makes from `state` on. `flags` holds what it
/// sees of its stop signal each time it decides on a next run, in order; it
/// makes no run beyond the last of these decisions.
pub open spec fn runs_made(
    sample_size: u32,
    deep_trace: bool,
    state: RunState,
    flags: Seq<bool>,
) -> Seq<RunState>
    decreases flags.len(),
{
    if flags.len() == 0 {
        Seq::empty()
    } else {
        let next = next_state(sample_size, deep_trace, state, flags[0]);
        if next == RunState::Done {
            Seq::empty()
        } else {
            seq![next] + runs_made(sample_size, deep_trace, next, flags.drop_first())
        }
    }
}

/// The least of two numbers.
pub open spec fn least(a: int, b: int) -> int {
    if a <= b {
        a
    } else {
        b
    }
}

/// From any state, the runs made are a stretch of the schedule: it begins
/// after the runs that lie behind the state and is as long as the stop
/// signal was seen clear, or ends with the schedule.
pub proof fn lemma_runs_made(
    sample_size: u32,
    deep_trace: bool,
    state: RunState,
    flags: Seq<bool>,
    clear: int,
)
    requires
        valid_state(sample_size, deep_trace, state),
        state != RunState::Done,
        0 <= clear <= flags.len(),
        forall|j: int| 0 <= j < clear ==> !flags[j],
        clear < flags.len() ==> flags[clear],
    ensures
        runs_behind(sample_size, state) <= schedule(sample_size, deep_trace).len(),
        runs_made(sample_size, deep_trace, state, flags) == schedule(
            sample_size,
            deep_trace,
        ).subrange(
            runs_behind(sample_size, state),
            least(
                runs_behind(sample_size, state) + clear,
                schedule(sample_size, deep_trace).len() as int,
            ),
        ),
    decreases clear,
{
    let all = schedule(sample_size, deep_trace);
    let behind = runs_behind(sample_size, state);
    let made = runs_made(sample_size, deep_trace, state, flags);
    if flags.len() == 0 || clear == 0 {
        assert(made == all.subrange(behind, behind));
    } else {
        let next = next_state(sample_size, deep_trace, state, false);
        assert(!flags[0]);
        if behind >= all.len() {
            assert(next == RunState::Done);
            assert(made == all.subrange(behind, behind));
        } else {
            assert(next == all[behind]);
            let rest = flags.drop_first();
            assert forall|j: int| 0 <= j < clear - 1 implies !rest[j] by {
                assert(rest[j] == flags[j + 1]);
            }
            if clear - 1 < rest.len() {
                assert(rest[clear - 1] == flags[clear]);
            }
            lemma_runs_made(sample_size, deep_trace, next, rest, clear - 1);
            assert(made == seq![next] + runs_made(sample_size, deep_trace, next, rest));
            assert(made == all.subrange(behind, least(behind + clear, all.len() as int)));
        }
    }
}

/// A collector that is asked to stop before it decides on its run number
/// `k`, counted from one with the run for event tracing last, makes exactly
/// the runs before `k` of its schedule, or all of them where the schedule
/// is shorter: no run from `k` on is made, and the runs before are those of
/// a collector that nothing stops.
pub proof fn lemma_cancelled_runs(sample_size: u32, deep_trace: bool, flags: Seq<bool>, k: int)
    requires
        1 <= k <= flags.len(),
        forall|j: int| 0 <= j < k - 1 ==> !flags[j],
        flags[k - 1],
    ensures
        runs_made(sample_size, deep_trace, RunState::Idle, flags) == schedule(
            sample_size,
            deep_trace,
        ).take(least(k - 1, schedule(sample_size, deep_trace).len() as int)),
{
    lemma_runs_made(sample_size, deep_trace, RunState::Idle, flags, k - 1);
}

/// How many times in a row, from the first decision on, the stop signal
/// was seen clear.
pub open spec fn seen_clear(flags: Seq<bool>) -> nat
    decreases flags.len(),
{
    if flags.len() == 0 || flags[0] {
        0
    } else {
        1 + seen_clear(flags.drop_first())
    }
}

/// `seen_clear` counts a run of clear signals that ends at the first set
/// one, or with the decisions.
pub proof fn lemma_seen_clear(flags: Seq<bool>)
    ensures
        seen_clear(flags) <= flags.len(),
        forall|j: int| 0 <= j < seen_clear(flags) ==> !flags[j],
        seen_clear(flags) < flags.len() ==> flags[seen_clear(flags) as int],
    decreases flags.len(),
{
    if flags.len() > 0 && !flags[0] {
        let rest = flags.drop_first();
        lemma_seen_clear(rest);
        assert forall|j: int| 0 <= j < seen_clear(flags) implies !flags[j] by {
            if j > 0 {
                assert(rest[j - 1] == flags[j]);
            }
        }
        if seen_clear(flags) < flags.len() {
            assert(rest[seen_clear(rest) as int] == flags[seen_clear(flags) as int]);
        }
    }
}

/// Whatever a collector saw of its stop signal, it makes the runs of its
/// schedule in order and leaves none out before it ends. Once it sees the
/// signal set before its run number `k`, counted from one with the run for
/// event tracing last, it makes no run from `k` on.
pub proof fn lemma_no_run_after_cancellation(
    sample_size: u32,
    deep_trace: bool,
    flags: Seq<bool>,
    k: int,
)
    requires
        1 <= k <= flags.len(),
        flags[k - 1],
    ensures
        runs_made(sample_size, deep_trace, RunState::Idle, flags).len() <= k - 1,
        runs_made(sample_size, deep_trace, RunState::Idle, flags) == schedule(
            sample_size,
            deep_trace,
        ).take(runs_made(sample_size, deep_trace, RunState::Idle, flags).len() as int),
{
    lemma_seen_clear(flags);
    let clear = seen_clear(flags) as int;
    if clear > k - 1 {
        assert(!flags[k - 1]);
    }
    lemma_runs_made(sample_size, deep_trace, RunState::Idle, flags, clear);
}

/// What a `DefaultCollector` stands for.
pub struct CollectorView {
    pub sample_size: u32,
    pub deep_trace: bool,
    pub perf_events: Seq<Seq<char>>,
    pub rapl_paths: Seq<(Seq<char>, Seq<char>)>,
    pub energy_sample_interval: Interval,
    pub partitions: Seq<PartitionView>,
}

/// Collects the metrics of a target program over a number of runs.
pub struct DefaultCollector {
    sample_size: u32,
    deep_trace: bool,
    perf_events: Vec<String>,
    rapl_paths: Vec<(String, String)>,
    energy_sample_interval: Interval,
    partitions: Vec<Partition>,
    stop: StopSignal,
}

impl View for DefaultCollector {
    type V = CollectorView;

    closed spec fn view(&self) -> CollectorView {
        CollectorView {
            sample_size: self.sample_size,
            deep_trace: self.deep_trace,
            perf_events: texts(self.perf_events@),
            rapl_paths: pair_texts(self.rapl_paths@),
            energy_sample_interval: self.energy_sample_interval,
            partitions: partition_views(self.partitions@),
        }
    }
}

impl DefaultCollector {
    /// A collector that makes `sample_size` runs of each experiment, and one
    /// more with event tracing if `deep_trace` is set.
    ///
    /// `partitions` is the host's partition index. `rapl_paths` holds the
    /// host's energy domains, each with its name and the path of its
    /// counter.
    pub fn new(
        sample_size: u32,
        deep_trace: bool,
        energy_sample_interval: Interval,
        extra_perf_events: Option<Vec<String>>,
        partitions: Vec<Partition>,
        rapl_paths: Vec<(String, String)>,
    ) -> (c: Self)
        ensures
            c@.sample_size == sample_size,
            c@.deep_trace == deep_trace,
            c@.energy_sample_interval == energy_sample_interval,
            c@.perf_events == merged_events(
                match extra_perf_events {
                    Some(more) => Some(texts(more@)),
                    None => None,
                },
            ),
            c@.perf_events.no_duplicates(),
            c@.partitions == partition_views(partitions@),
            c@.rapl_paths == pair_texts(rapl_paths@),
    {
        DefaultCollector {
            sample_size,
            stop: StopSignal::new(),
            partitions,
            deep_trace,
            energy_sample_interval,
            perf_events: perf_events(extra_perf_events),
            rapl_paths,
        }
    }

    /// The number of samples of each experiment.
    pub fn sample_size(&self) -> (n: u32)
        ensures
            n == self@.sample_size,
    {
        self.sample_size
    }

    /// Whether a run with event tracing follows the samples.
    pub fn deep_trace(&self) -> (b: bool)
        ensures
            b == self@.deep_trace,
    {
        self.deep_trace
    }

    /// The time between two readings of the energy counters.
    pub fn energy_sample_interval(&self) -> (r: Interval)
        ensures
            r == self@.energy_sample_interval,
    {
        self.energy_sample_interval
    }

    /// The hardware counters that are collected.
    pub fn perf_events(&self) -> (events: &Vec<String>)
        ensures
            texts(events@) == self@.perf_events,
    {
        &self.perf_events
    }

    /// The host's energy domains, each with its name and the path of its
    /// counter.
    pub fn rapl_paths(&self) -> (paths: &Vec<(String, String)>)
        ensures
            pair_texts(paths@) == self@.rapl_paths,
    {
        &self.rapl_paths
    }

    /// The host's partition index.
    pub fn partitions(&self) -> (parts: &Vec<Partition>)
        ensures
            partition_views(parts@) == self@.partitions,
    {
        &self.partitions
    }

    /// The arguments with which the hardware counter tool is started for
    /// the process `pid`: it reports the collector's counters, separated by
    /// commas, in comma-separated form.
    pub fn perf_arguments(&self, pid: u32) -> (args: Vec<String>)
        ensures
            texts(args@) == seq![
                "stat"@,
                "--field-separator"@,
                ","@,
                "--event"@,
                join(self@.perf_events, ","@),
                "--pid"@,
                decimal(pid as nat),
            ],
    {
        let mut args: Vec<String> = Vec::new();
        args.push(String::from_str("stat"));
        args.push(String::from_str("--field-separator"));
        args.push(String::from_str(","));
        args.push(String::from_str("--event"));
        args.push(join_strings(&self.perf_events, ","));
        args.push(String::from_str("--pid"));
        args.push(to_decimal(pid as u128));
        assert(texts(args@) =~= seq![
            "stat"@,
            "--field-separator"@,
            ","@,
            "--event"@,
            join(self@.perf_events, ","@),
            "--pid"@,
            decimal(pid as nat),
        ]);
        args
    }

    /// Asks the collector to stop: the run under way ends, and no further
    /// run is made. May be called from any thread.
    pub fn stop(&self) {
        self.stop.set();
    }

    /// Whether the collector has been seen asked to stop.
    pub fn is_stopped(&self) -> (seen: bool) {
        self.stop.is_set()
    }

    /// Decides the run that follows `state`, looking at the collector's
    /// stop signal once.
    pub fn next_run(&self, state: RunState) -> (next: RunState)
        ensures
            next == next_state(self@.sample_size, self@.deep_trace, state, true) || next
                == next_state(self@.sample_size, self@.deep_trace, state, false),
            valid_state(self@.sample_size, self@.deep_trace, state) ==> valid_state(
                self@.sample_size,
                self@.deep_trace,
                next,
            ),
    {
        let cancelled = self.stop.is_set();
        advance(self.sample_size, self.deep_trace, state, cancelled)
    }
}

/// The name of the directory that receives the results of a run: the
/// sample's number, or `deep-trace` for the run with event tracing. The
/// states without a run have none.
pub open spec fn run_directory_name(state: RunState) -> Option<Seq<char>> {
    match state {
        RunState::Running(i) => Some(decimal(i as nat)),
        RunState::DeepTraceRun => Some("deep-trace"@),
        _ => None,
    }
}

/// Names the directory that receives the results of a run.
pub fn run_directory(state: RunState) -> (name: Option<String>)
    ensures
        match name {
            Some(n) => run_directory_name(state) == Some(n@),
            None => run_directory_name(state) is None,
        },
{
    match state {
        RunState::Running(i) => Some(to_decimal(i as u128)),
        RunState::DeepTraceRun => Some(String::from_str("deep-trace")),
        _ => None,
    }
}

/// Whether the run of a state traces events.
pub fn traces_events(state: RunState) -> (b: bool)
    ensures
        b == (state == RunState::DeepTraceRun),
{
    match state {
        RunState::DeepTraceRun => true,
        _ => false,
    }
}

/// Whether the commands that a task sets around its runs are run around
/// the run of a state: they are for the samples alone.
pub fn runs_commands(state: RunState) -> (b: bool)
    ensures
        b == (state is Running),
{
    match state {
        RunState::Running(_) => true,
        _ => false,
    }
}

} // verus!
