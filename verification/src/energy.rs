//! The energy probe: reading the platform's energy counters into one series
//! of samples for each energy domain.
//!
//! The counters are files that the probe's driver reads. The driver hands
//! each round of readings to `EnergyLog::tick`, together with the time and
//! with what it saw of the run's stop signal.

use vstd::prelude::*;
use vstd::string::*;
use crate::number::{parse_u64, parse_unsigned};
use crate::stats::EnergySample;
use crate::text::{span_starts_with, str_eq, to_chars, trim, trim_span, Span};

verus! {

/// The samples of one energy domain, oldest first.
pub struct EnergySeries {
    pub name: String,
    pub samples: Vec<EnergySample>,
}

/// What an `EnergySeries` stands for.
pub struct SeriesView {
    pub name: Seq<char>,
    pub samples: Seq<EnergySample>,
}

impl View for EnergySeries {
    type V = SeriesView;

    open spec fn view(&self) -> SeriesView {
        SeriesView { name: self.name@, samples: self.samples@ }
    }
}

/// The views of a sequence of series.
pub open spec fn series_views(series: Seq<EnergySeries>) -> Seq<SeriesView> {
    series.map_values(|s: EnergySeries| s@)
}

/// What one look at the counter of an energy domain gave.
pub struct Reading {
    /// The domain's name.
    pub name: String,
    /// The text of the counter's file, `None` where it could not be read.
    pub text: Option<String>,
}

/// What a `Reading` stands for.
pub struct ReadingView {
    pub name: Seq<char>,
    pub text: Option<Seq<char>>,
}

impl View for Reading {
    type V = ReadingView;

    open spec fn view(&self) -> ReadingView {
        ReadingView {
            name: self.name@,
            text: match self.text {
                Some(t) => Some(t@),
                None => None,
            },
        }
    }
}

/// The views of a sequence of readings.
pub open spec fn reading_views(readings: Seq<Reading>) -> Seq<ReadingView> {
    readings.map_values(|r: Reading| r@)
}

/// The value of an energy counter from the text of its file: the number
/// that the text writes once the whitespace around it is taken away.
pub open spec fn parsed_energy(text: Seq<char>) -> Option<u64> {
    match parse_unsigned(trim(text), u64::MAX as nat) {
        Some(v) => Some(v as u64),
        None => None,
    }
}

/// Reads the value of an energy counter from the text of its file.
pub fn parse_energy(text: &str) -> (r: Option<u64>)
    ensures
        r == parsed_energy(text@),
{
    let chars = to_chars(text);
    let whole = Span { start: 0, end: chars.len() };
    assert(whole.of(chars@) == text@);
    let inner = trim_span(&chars, whole);
    parse_u64(&chars, inner)
}

/// No two series have the same name.
pub open spec fn distinct_names(log: Seq<SeriesView>) -> bool {
    forall|i: int, j: int|
        0 <= i < j < log.len() ==> (#[trigger] log[i]).name != (#[trigger] log[j]).name
}

/// Whether the log has a series with this name.
pub open spec fn has_series(log: Seq<SeriesView>, name: Seq<char>) -> bool {
    exists|i: int| 0 <= i < log.len() && (#[trigger] log[i]).name == name
}

/// The log with one more sample for the domain `name`: at the end of the
/// domain's series, or in a new series after all others where the domain
/// has none yet.
pub open spec fn with_sample(log: Seq<SeriesView>, name: Seq<char>, sample: EnergySample) -> Seq<
    SeriesView,
> {
    if has_series(log, name) {
        Seq::new(
            log.len(),
            |i: int|
                if log[i].name == name {
                    SeriesView { name: name, samples: log[i].samples.push(sample) }
                } else {
                    log[i]
                },
        )
    } else {
        log.push(SeriesView { name: name, samples: seq![sample] })
    }
}

/// The log after one reading taken at `timestamp`: with one more sample
/// where the counter's file was read and holds a number, unchanged
/// otherwise.
pub open spec fn with_reading(log: Seq<SeriesView>, timestamp: u128, reading: ReadingView) -> Seq<
    SeriesView,
> {
    match reading.text {
        Some(text) => match parsed_energy(text) {
            Some(value) => with_sample(
                log,
                reading.name,
                EnergySample { timestamp: timestamp, energy_uj: value },
            ),
            None => log,
        },
        None => log,
    }
}

/// The log after a round of readings, all taken at `timestamp`.
pub open spec fn with_readings(
    log: Seq<SeriesView>,
    timestamp: u128,
    readings: Seq<ReadingView>,
) -> Seq<SeriesView>
    decreases readings.len(),
{
    if readings.len() == 0 {
        log
    } else {
        with_reading(
            with_readings(log, timestamp, readings.drop_last()),
            timestamp,
            readings.last(),
        )
    }
}

/// Within each series, no sample is older than the one before it.
pub open spec fn chronological(log: Seq<SeriesView>) -> bool {
    forall|i: int, a: int, b: int|
        0 <= i < log.len() && 0 <= a <= b < log[i].samples.len() ==> (
        #[trigger] log[i].samples[a]).timestamp <= (#[trigger] log[i].samples[b]).timestamp
}

/// No sample of the log was taken after `timestamp`.
pub open spec fn not_after(log: Seq<SeriesView>, timestamp: u128) -> bool {
    forall|i: int, a: int|
        0 <= i < log.len() && 0 <= a < log[i].samples.len() ==> (
        #[trigger] log[i].samples[a]).timestamp <= timestamp
}

/// A sample that is no older than any sample of the log keeps every series
/// in the order of time.
pub proof fn lemma_sample_keeps_order(log: Seq<SeriesView>, name: Seq<char>, sample: EnergySample)
    requires
        chronological(log),
        not_after(log, sample.timestamp),
    ensures
        chronological(with_sample(log, name, sample)),
        not_after(with_sample(log, name, sample), sample.timestamp),
{
    let next = with_sample(log, name, sample);
    assert forall|i: int, a: int, b: int|
        0 <= i < next.len() && 0 <= a <= b < next[i].samples.len() implies (
    #[trigger] next[i].samples[a]).timestamp <= (#[trigger] next[i].samples[b]).timestamp by {
        if i < log.len() {
            if a < log[i].samples.len() {
                assert(log[i].samples[a].timestamp <= sample.timestamp);
            }
            if b < log[i].samples.len() {
                assert(log[i].samples[a].timestamp <= log[i].samples[b].timestamp);
            }
        }
    }
    assert forall|i: int, a: int| 0 <= i < next.len() && 0 <= a < next[i].samples.len() implies (
    #[trigger] next[i].samples[a]).timestamp <= sample.timestamp by {
        if i < log.len() && a < log[i].samples.len() {
            assert(log[i].samples[a].timestamp <= sample.timestamp);
        }
    }
}

/// Readings keep every series in the order of time, as long as the clock
/// that stamps them has not gone back behind a sample already taken.
pub proof fn lemma_readings_keep_order(
    log: Seq<SeriesView>,
    timestamp: u128,
    readings: Seq<ReadingView>,
)
    requires
        chronological(log),
        not_after(log, timestamp),
    ensures
        chronological(with_readings(log, timestamp, readings)),
        not_after(with_readings(log, timestamp, readings), timestamp),
    decreases readings.len(),
{
    if readings.len() > 0 {
        lemma_readings_keep_order(log, timestamp, readings.drop_last());
        let before = with_readings(log, timestamp, readings.drop_last());
        match readings.last().text {
            Some(text) => match parsed_energy(text) {
                Some(value) => {
                    lemma_sample_keeps_order(
                        before,
                        readings.last().name,
                        EnergySample { timestamp: timestamp, energy_uj: value },
                    );
                },
                None => {},
            },
            None => {},
        }
    }
}

/// One round of the probe: what it saw of the run's stop signal, the time,
/// and the readings of the round.
pub struct TickView {
    pub stop: bool,
    pub timestamp: u128,
    pub readings: Seq<ReadingView>,
}

/// The log after one round: unchanged once the stop signal was seen set,
/// else with the round's readings.
pub open spec fn after_tick(log: Seq<SeriesView>, tick: TickView) -> Seq<SeriesView> {
    if tick.stop {
        log
    } else {
        with_readings(log, tick.timestamp, tick.readings)
    }
}

/// The log of a probe after the rounds `ticks`, from an empty log on.
pub open spec fn after_ticks(ticks: Seq<TickView>) -> Seq<SeriesView>
    decreases ticks.len(),
{
    if ticks.len() == 0 {
        Seq::empty()
    } else {
        after_tick(after_ticks(ticks.drop_last()), ticks.last())
    }
}

/// As long as the clock that stamps the rounds never goes back, every
/// series of a probe is in the order of time.
pub proof fn lemma_series_in_order_of_time(ticks: Seq<TickView>)
    requires
        forall|i: int, j: int|
            0 <= i <= j < ticks.len() ==> (#[trigger] ticks[i]).timestamp <= (
            #[trigger] ticks[j]).timestamp,
    ensures
        chronological(after_ticks(ticks)),
        ticks.len() > 0 ==> not_after(after_ticks(ticks), ticks.last().timestamp),
    decreases ticks.len(),
{
    if ticks.len() > 0 {
        let init = ticks.drop_last();
        let last = ticks.last();
        assert forall|i: int, j: int| 0 <= i <= j < init.len() implies (
        #[trigger] init[i]).timestamp <= (#[trigger] init[j]).timestamp by {
            assert(init[i] == ticks[i]);
            assert(init[j] == ticks[j]);
        }
        lemma_series_in_order_of_time(init);
        let before = after_ticks(init);
        if init.len() > 0 {
            assert(init.last() == ticks[init.len() - 1]);
            assert(ticks[init.len() - 1].timestamp <= ticks[ticks.len() - 1].timestamp);
        }
        assert(not_after(before, last.timestamp));
        if !last.stop {
            lemma_readings_keep_order(before, last.timestamp, last.readings);
        }
    }
}

/// The rounds from the first one on that saw the stop signal set add no
/// sample: the log is the one of the rounds before.
pub proof fn lemma_no_samples_after_stop(ticks: Seq<TickView>, k: int)
    requires
        0 <= k <= ticks.len(),
        forall|j: int| k <= j < ticks.len() ==> (#[trigger] ticks[j]).stop,
    ensures
        after_ticks(ticks) == after_ticks(ticks.take(k)),
    decreases ticks.len() - k,
{
    if k < ticks.len() {
        let init = ticks.drop_last();
        assert(ticks.last() == ticks[ticks.len() - 1]);
        assert forall|j: int| k <= j < init.len() implies (#[trigger] init[j]).stop by {
            assert(init[j] == ticks[j]);
        }
        lemma_no_samples_after_stop(init, k);
        assert(init.take(k) == ticks.take(k));
    } else {
        assert(ticks.take(k) == ticks);
    }
}

/// A new sample leaves the names of the log distinct.
pub proof fn lemma_sample_keeps_names(log: Seq<SeriesView>, name: Seq<char>, sample: EnergySample)
    requires
        distinct_names(log),
    ensures
        distinct_names(with_sample(log, name, sample)),
{
    let next = with_sample(log, name, sample);
    assert forall|i: int, j: int| 0 <= i < j < next.len() implies (#[trigger] next[i]).name != (
    #[trigger] next[j]).name by {
        if has_series(log, name) {
            assert(next[i].name == log[i].name);
            assert(next[j].name == log[j].name);
        } else {
            if j < log.len() {
                assert(next[i] == log[i]);
                assert(next[j] == log[j]);
            } else {
                assert(next[i] == log[i]);
            }
        }
    }
}

/// What the energy probe does after a tick.
#[derive(Clone, Copy, Debug, PartialEq, Eq, Structural)]
pub enum EnergyStep {
    /// Sleep for the sampling interval, then read the counters again.
    Sleep,
    /// The run is over: hand in the series.
    Finish,
}

/// The series of a run, one for each energy domain that has been read, in
/// the order in which the domains were first read.
pub struct EnergyLog {
    series: Vec<EnergySeries>,
}

impl View for EnergyLog {
    type V = Seq<SeriesView>;

    closed spec fn view(&self) -> Seq<SeriesView> {
        series_views(self.series@)
    }
}

impl EnergyLog {
    /// No two series of the log have the same name.
    pub open spec fn wf(&self) -> bool {
        distinct_names(self@)
    }

    /// A log without series.
    pub fn new() -> (log: Self)
        ensures
            log@ == Seq::<SeriesView>::empty(),
            log.wf(),
    {
        let log = EnergyLog { series: Vec::new() };
        assert(log@ =~= Seq::<SeriesView>::empty());
        log
    }

    /// Adds a sample to the series of the domain `name`.
    pub fn record(&mut self, name: &str, sample: EnergySample)
        requires
            old(self).wf(),
        ensures
            final(self).wf(),
            final(self)@ == with_sample(old(self)@, name@, sample),
    {
        let ghost before = self@;
        proof {
            lemma_sample_keeps_names(before, name@, sample);
        }
        let mut i: usize = 0;
        while i < self.series.len()
            invariant
                i <= self.series@.len(),
                self@ == before,
                before == old(self)@,
                distinct_names(before),
                distinct_names(with_sample(before, name@, sample)),
                forall|k: int| 0 <= k < i ==> (#[trigger] before[k]).name != name@,
            decreases self.series@.len() - i,
        {
            if str_eq(self.series[i].name.as_str(), name) {
                assert(before[i as int].name == name@);
                let mut entry = self.series.remove(i);
                entry.samples.push(sample);
                self.series.insert(i, entry);
                assert(self@ =~= with_sample(before, name@, sample)) by {
                    assert forall|k: int| 0 <= k < before.len() && k != i implies (
                    #[trigger] before[k]).name != name@ by {
                        if k < i {
                        } else {
                            assert(before[i as int].name != before[k].name);
                        }
                    }
                }
                return ;
            }
            assert(before[i as int].name != name@);
            i = i + 1;
        }
        assert(!has_series(before, name@));
        let mut samples: Vec<EnergySample> = Vec::new();
        samples.push(sample);
        self.series.push(EnergySeries { name: String::from_str(name), samples });
        assert(self@ =~= with_sample(before, name@, sample));
    }

    /// Takes one round of readings into the log, unless the run is over.
    ///
    /// `stop` says whether the run's stop signal was seen set before the
    /// counters were read. Once it was, the log stays as it is, whatever the
    /// readings hold. Otherwise every reading that holds a number adds a
    /// sample with the time `timestamp`.
    pub fn tick(&mut self, stop: bool, timestamp: u128, readings: &Vec<Reading>) -> (step:
        EnergyStep)
        requires
            old(self).wf(),
        ensures
            final(self).wf(),
            final(self)@ == after_tick(
                old(self)@,
                TickView {
                    stop: stop,
                    timestamp: timestamp,
                    readings: reading_views(readings@),
                },
            ),
            stop ==> step == EnergyStep::Finish && final(self)@ == old(self)@,
            !stop ==> step == EnergyStep::Sleep,
            chronological(old(self)@) && not_after(old(self)@, timestamp) ==> chronological(
                final(self)@,
            ) && not_after(final(self)@, timestamp),
    {
        if stop {
            return EnergyStep::Finish;
        }
        let ghost before = self@;
        let mut i: usize = 0;
        assert(reading_views(readings@).take(0) == Seq::<ReadingView>::empty());
        while i < readings.len()
            invariant
                i <= readings@.len(),
                self.wf(),
                self@ == with_readings(before, timestamp, reading_views(readings@).take(i as int)),
            decreases readings@.len() - i,
        {
            proof {
                let read = reading_views(readings@).take(i as int + 1);
                assert(read.drop_last() == reading_views(readings@).take(i as int));
                assert(read.last() == readings@[i as int]@);
            }
            match &readings[i].text {
                Some(text) => match parse_energy(text.as_str()) {
                    Some(value) => {
                        self.record(
                            readings[i].name.as_str(),
                            EnergySample { timestamp, energy_uj: value },
                        );
                    },
                    None => {},
                },
                None => {},
            }
            i = i + 1;
        }
        proof {
            assert(reading_views(readings@).take(i as int) == reading_views(readings@));
            if chronological(before) && not_after(before, timestamp) {
                lemma_readings_keep_order(before, timestamp, reading_views(readings@));
            }
        }
        EnergyStep::Sleep
    }

    /// Hands in the series.
    pub fn into_series(self) -> (series: Vec<EnergySeries>)
        ensures
            series_views(series@) == self@,
    {
        self.series
    }
}

/// Whether an entry of the platform's energy directory is an energy domain:
/// a directory whose name begins with `intel-rapl:`.
pub fn is_rapl_domain(file_name: &str, is_dir: bool) -> (b: bool)
    ensures
        b == (is_dir && "intel-rapl:"@.is_prefix_of(file_name@)),
{
    if !is_dir {
        return false;
    }
    let chars = to_chars(file_name);
    let whole = Span { start: 0, end: chars.len() };
    assert(whole.of(chars@) == file_name@);
    span_starts_with(&chars, whole, "intel-rapl:")
}

/// The name of an energy domain from the text of its `name` file: the text
/// without the whitespace around it.
pub fn domain_name(text: &str) -> (name: String)
    ensures
        name@ == trim(text@),
{
    let chars = to_chars(text);
    let whole = Span { start: 0, end: chars.len() };
    assert(whole.of(chars@) == text@);
    let inner = trim_span(&chars, whole);
    String::from_str(text.substring_char(inner.start, inner.end))
}

/// The name of an energy domain that lies inside another: the outer name,
/// a hyphen, and the inner name.
pub fn subdomain_name(parent: &str, child: &str) -> (name: String)
    ensures
        name@ == parent@ + "-"@ + child@,
{
    let mut name = String::from_str(parent);
    name.append("-");
    name.append(child);
    name
}

} // verus!
