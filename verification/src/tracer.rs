//! The kernel trace probe: what it does next, and how the maps and events
//! that it reads become typed samples.
//!
//! The tracer itself is reached from outside this library. The probe's
//! driver asks `trace_step` what to do, performs it, and at the end hands
//! the raw contents of the tracer's maps to `trace_result`.

use vstd::prelude::*;
use crate::records::{
    decode_key, decoded_key, has_known_operations, known_operations, ByteOrder, DiskCounter,
    IoCounter, Record,
};
use crate::stats::{DeepTraceEvent, LowLevelSgxCounters};

verus! {

/// How long the probe waits for events of a deep trace, in milliseconds.
pub const POLL_TIMEOUT_MS: u64 = 250;

/// How long the probe sleeps between two looks at the stop signal where no
/// events are consumed, in milliseconds.
pub const IDLE_SLEEP_MS: u64 = 1000;

/// What the trace probe does next.
#[derive(Clone, Copy, Debug, PartialEq, Eq, Structural)]
pub enum TraceStep {
    /// Wait on the event stream for at most this long, consuming what comes.
    Poll { timeout_ms: u64 },
    /// Sleep for this long.
    Sleep { millis: u64 },
    /// The run is over: read the maps and hand in the result.
    ReadMaps,
}

/// The probe's next step: it goes on until it sees the run's stop signal,
/// polling the event stream in a deep trace and sleeping otherwise.
pub open spec fn next_trace_step(deep_trace: bool, stop: bool) -> TraceStep {
    if stop {
        TraceStep::ReadMaps
    } else if deep_trace {
        TraceStep::Poll { timeout_ms: POLL_TIMEOUT_MS }
    } else {
        TraceStep::Sleep { millis: IDLE_SLEEP_MS }
    }
}

/// Decides the probe's next step from the kind of run and from whether the
/// run's stop signal was seen set.
pub fn trace_step(deep_trace: bool, stop: bool) -> (step: TraceStep)
    ensures
        step == next_trace_step(deep_trace, stop),
        stop <==> step == TraceStep::ReadMaps,
{
    if stop {
        TraceStep::ReadMaps
    } else if deep_trace {
        TraceStep::Poll { timeout_ms: POLL_TIMEOUT_MS }
    } else {
        TraceStep::Sleep { millis: IDLE_SLEEP_MS }
    }
}

/// Takes one record of the event stream into the list of events. A record
/// that is too short to hold an event is passed over.
pub fn record_event(events: &mut Vec<DeepTraceEvent>, bytes: &[u8], order: ByteOrder)
    ensures
        final(events)@ == match DeepTraceEvent::decoded(bytes@, order) {
            Some(event) => old(events)@.push(event),
            None => old(events)@,
        },
{
    match DeepTraceEvent::decode(bytes, order) {
        Some(event) => {
            events.push(event);
        },
        None => {},
    }
}

/// A key of one of the tracer's maps with what a lookup of it gave.
pub struct RawEntry {
    pub key: Vec<u8>,
    /// The bytes stored under the key, `None` where the lookup found
    /// nothing.
    pub value: Option<Vec<u8>>,
}

/// Why an entry of a map could not be read.
#[derive(Clone, Copy, Debug, PartialEq, Eq, Structural)]
pub enum DecodeError {
    /// The key has fewer bytes than a key needs.
    ShortKey,
    /// The value has fewer bytes than the record needs.
    ShortValue,
}

/// What an entry holds: nothing where the lookup found nothing, else the
/// key and the record, or the reason why they cannot be read. The key is
/// looked at first.
pub open spec fn decoded_entry<T: Record>(entry: RawEntry, order: ByteOrder) -> Option<
    Result<(u32, T), DecodeError>,
> {
    match entry.value {
        None => None,
        Some(value) => Some(
            match decoded_key(entry.key@, order) {
                None => Err(DecodeError::ShortKey),
                Some(key) => match T::decoded(value@, order) {
                    None => Err(DecodeError::ShortValue),
                    Some(record) => Ok((key, record)),
                },
            },
        ),
    }
}

/// What the entries of a map hold, in order: every key that has a value,
/// with its record. The first entry that cannot be read decides the error.
pub open spec fn decoded_entries<T: Record>(entries: Seq<RawEntry>, order: ByteOrder) -> Result<
    Seq<(u32, T)>,
    DecodeError,
>
    decreases entries.len(),
{
    if entries.len() == 0 {
        Ok(Seq::empty())
    } else {
        match decoded_entries::<T>(entries.drop_last(), order) {
            Err(e) => Err(e),
            Ok(init) => match decoded_entry::<T>(entries.last(), order) {
                None => Ok(init),
                Some(Err(e)) => Err(e),
                Some(Ok(pair)) => Ok(init.push(pair)),
            },
        }
    }
}

/// Once the beginning of a map cannot be read, the whole cannot, and for
/// the same reason.
pub proof fn lemma_decoded_entries_fails<T: Record>(
    entries: Seq<RawEntry>,
    order: ByteOrder,
    k: int,
)
    requires
        0 <= k <= entries.len(),
        decoded_entries::<T>(entries.take(k), order) is Err,
    ensures
        decoded_entries::<T>(entries, order) == decoded_entries::<T>(entries.take(k), order),
    decreases entries.len() - k,
{
    if k < entries.len() {
        assert(entries.take(k + 1).drop_last() == entries.take(k));
        lemma_decoded_entries_fails::<T>(entries, order, k + 1);
    } else {
        assert(entries.take(k) == entries);
    }
}

/// Reads the entries of one of the tracer's maps.
pub fn get_map_result<T: Record>(entries: &Vec<RawEntry>, order: ByteOrder) -> (r: Result<
    Vec<(u32, T)>,
    DecodeError,
>)
    ensures
        match r {
            Ok(pairs) => decoded_entries::<T>(entries@, order) == Ok::<Seq<(u32, T)>, DecodeError>(
                pairs@,
            ),
            Err(e) => decoded_entries::<T>(entries@, order) == Err::<Seq<(u32, T)>, DecodeError>(
                e,
            ),
        },
{
    let mut result: Vec<(u32, T)> = Vec::new();
    let mut i: usize = 0;
    assert(entries@.take(0) == Seq::<RawEntry>::empty());
    while i < entries.len()
        invariant
            i <= entries@.len(),
            decoded_entries::<T>(entries@.take(i as int), order) == Ok::<
                Seq<(u32, T)>,
                DecodeError,
            >(result@),
        decreases entries@.len() - i,
    {
        proof {
            let read = entries@.take(i as int + 1);
            assert(read.drop_last() == entries@.take(i as int));
            assert(read.last() == entries@[i as int]);
        }
        match &entries[i].value {
            None => {},
            Some(value) => {
                let key = match decode_key(entries[i].key.as_slice(), order) {
                    Some(key) => key,
                    None => {
                        proof {
                            lemma_decoded_entries_fails::<T>(entries@, order, i as int + 1);
                        }
                        return Err(DecodeError::ShortKey);
                    },
                };
                let record = match T::decode(value.as_slice(), order) {
                    Some(record) => record,
                    None => {
                        proof {
                            lemma_decoded_entries_fails::<T>(entries@, order, i as int + 1);
                        }
                        return Err(DecodeError::ShortValue);
                    },
                };
                result.push((key, record));
            },
        }
        i = i + 1;
    }
    assert(entries@.take(i as int) == entries@);
    Ok(result)
}

/// The enclave counters of a run. A run outside an enclave has none. For a
/// run inside one they are read from the tracer's single slot, and are all
/// zero where the slot is absent or holds too few bytes.
pub open spec fn slot_counters(is_sgx: bool, slot: Option<Seq<u8>>, order: ByteOrder) -> Option<
    LowLevelSgxCounters,
> {
    if !is_sgx {
        None
    } else {
        let zero = LowLevelSgxCounters { encl_load_page: 0, encl_wb: 0, vma_access: 0, vma_fault: 0 };
        match slot {
            None => Some(zero),
            Some(bytes) => match LowLevelSgxCounters::decoded(bytes, order) {
                Some(counters) => Some(counters),
                None => Some(zero),
            },
        }
    }
}

/// Reads the enclave counters of a run from the tracer's single slot.
pub fn sgx_counters(is_sgx: bool, slot: Option<&[u8]>, order: ByteOrder) -> (r: Option<
    LowLevelSgxCounters,
>)
    ensures
        r == slot_counters(
            is_sgx,
            match slot {
                Some(bytes) => Some(bytes@),
                None => None,
            },
            order,
        ),
        r is Some <==> is_sgx,
{
    if !is_sgx {
        return None;
    }
    match slot {
        None => Some(LowLevelSgxCounters::default()),
        Some(bytes) => match LowLevelSgxCounters::decode(bytes, order) {
            Some(counters) => Some(counters),
            None => Some(LowLevelSgxCounters::default()),
        },
    }
}

/// What the trace probe hands back at the end of a run.
pub struct TraceResult {
    /// The system call counters, keyed by operation code.
    pub mem_counters: Vec<(u32, IoCounter)>,
    /// The disk counters, keyed by device.
    pub disk_counters: Vec<(u32, DiskCounter)>,
    /// The enclave counters, for a run inside an enclave.
    pub sgx_counters: Option<LowLevelSgxCounters>,
    /// The events of the run, for a deep trace.
    pub deep_stats: Option<Vec<DeepTraceEvent>>,
}

impl TraceResult {
    /// Every system call counter is keyed by a known operation code.
    pub open spec fn wf(&self) -> bool {
        known_operations(self.mem_counters@)
    }
}

/// Why the trace probe has no result.
#[derive(Clone, Copy, Debug, PartialEq, Eq, Structural)]
pub enum TraceError {
    /// The map of system call counters could not be read.
    IoMap(DecodeError),
    /// A system call counter is keyed by a code that stands for no
    /// operation.
    UnknownOperation,
    /// The map of disk counters could not be read.
    DiskMap(DecodeError),
}

/// The events of a run: those that were consumed, for a run that traces
/// events; none for any other run.
pub open spec fn run_events(deep_trace: bool, events: Seq<DeepTraceEvent>) -> Option<
    Seq<DeepTraceEvent>,
> {
    if deep_trace {
        Some(events)
    } else {
        None
    }
}

/// Puts the probe's result together from the raw contents of the tracer's
/// maps, the slot of enclave counters and the events consumed.
///
/// The map of system call counters is read first, then the map of disk
/// counters; the first failure decides the error. The result holds events
/// exactly for a run that traces events.
pub fn trace_result(
    io_entries: &Vec<RawEntry>,
    disk_entries: &Vec<RawEntry>,
    is_sgx: bool,
    sgx_slot: Option<&[u8]>,
    deep_trace: bool,
    events: Vec<DeepTraceEvent>,
    order: ByteOrder,
) -> (r: Result<TraceResult, TraceError>)
    ensures
        match r {
            Ok(result) => {
                &&& result.wf()
                &&& decoded_entries::<IoCounter>(io_entries@, order) == Ok::<
                    Seq<(u32, IoCounter)>,
                    DecodeError,
                >(result.mem_counters@)
                &&& decoded_entries::<DiskCounter>(disk_entries@, order) == Ok::<
                    Seq<(u32, DiskCounter)>,
                    DecodeError,
                >(result.disk_counters@)
                &&& result.sgx_counters == slot_counters(
                    is_sgx,
                    match sgx_slot {
                        Some(bytes) => Some(bytes@),
                        None => None,
                    },
                    order,
                )
                &&& result.deep_stats is Some <==> deep_trace
                &&& match result.deep_stats {
                    Some(kept) => run_events(deep_trace, events@) == Some(kept@),
                    None => run_events(deep_trace, events@) is None,
                }
            },
            Err(TraceError::IoMap(e)) => decoded_entries::<IoCounter>(io_entries@, order) == Err::<
                Seq<(u32, IoCounter)>,
                DecodeError,
            >(e),
            Err(TraceError::UnknownOperation) => match decoded_entries::<IoCounter>(
                io_entries@,
                order,
            ) {
                Ok(pairs) => !known_operations(pairs),
                Err(_) => false,
            },
            Err(TraceError::DiskMap(e)) => {
                &&& decoded_entries::<IoCounter>(io_entries@, order) matches Ok(pairs)
                &&& known_operations(pairs)
                &&& decoded_entries::<DiskCounter>(disk_entries@, order) == Err::<
                    Seq<(u32, DiskCounter)>,
                    DecodeError,
                >(e)
            },
        },
{
    let mem_counters = match get_map_result::<IoCounter>(io_entries, order) {
        Ok(pairs) => pairs,
        Err(e) => {
            return Err(TraceError::IoMap(e));
        },
    };
    if !has_known_operations(&mem_counters) {
        return Err(TraceError::UnknownOperation);
    }
    let disk_counters = match get_map_result::<DiskCounter>(disk_entries, order) {
        Ok(pairs) => pairs,
        Err(e) => {
            return Err(TraceError::DiskMap(e));
        },
    };
    let sgx_counters = sgx_counters(is_sgx, sgx_slot, order);
    let deep_stats = if deep_trace {
        Some(events)
    } else {
        None
    };
    Ok(TraceResult { mem_counters, disk_counters, sgx_counters, deep_stats })
}

} // verus!
