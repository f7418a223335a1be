//! The fixed-layout records that the kernel tracer hands out, and how their
//! bytes are read.
//!
//! A record is a run of unsigned integer fields, each stored in the byte
//! order of the machine that the tracer runs on. The caller names that order;
//! bytes beyond a record's size are not looked at.

use vstd::prelude::*;
use crate::stats::{DeepTraceEvent, LowLevelSgxCounters};

verus! {

/// The order in which the bytes of an integer are stored.
#[derive(Clone, Copy, Debug, PartialEq, Eq, Structural)]
pub enum ByteOrder {
    /// Least significant byte first.
    Little,
    /// Most significant byte first.
    Big,
}

/// The number that four bytes store.
pub open spec fn word32(b: Seq<u8>, order: ByteOrder) -> nat
    recommends
        b.len() == 4,
{
    match order {
        ByteOrder::Little => (b[0] + b[1] * 0x100 + b[2] * 0x1_0000 + b[3] * 0x100_0000) as nat,
        ByteOrder::Big => (b[3] + b[2] * 0x100 + b[1] * 0x1_0000 + b[0] * 0x100_0000) as nat,
    }
}

/// The number that eight bytes store.
pub open spec fn word64(b: Seq<u8>, order: ByteOrder) -> nat
    recommends
        b.len() == 8,
{
    match order {
        ByteOrder::Little => word32(b.subrange(0, 4), order) + word32(b.subrange(4, 8), order)
            * 0x1_0000_0000,
        ByteOrder::Big => word32(b.subrange(4, 8), order) + word32(b.subrange(0, 4), order)
            * 0x1_0000_0000,
    }
}

/// The 32-bit field that starts at `offset`.
pub open spec fn field32(b: Seq<u8>, offset: int, order: ByteOrder) -> u32 {
    word32(b.subrange(offset, offset + 4), order) as u32
}

/// The 64-bit field that starts at `offset`.
pub open spec fn field64(b: Seq<u8>, offset: int, order: ByteOrder) -> u64 {
    word64(b.subrange(offset, offset + 8), order) as u64
}

/// Reads the 32-bit field that starts at `offset`.
pub fn read_u32(bytes: &[u8], offset: usize, order: ByteOrder) -> (r: u32)
    requires
        offset + 4 <= bytes@.len(),
    ensures
        r == field32(bytes@, offset as int, order),
        r == word32(bytes@.subrange(offset as int, offset + 4), order),
{
    let len: usize = bytes.len();
    assert(offset + 4 <= len);
    let b0: u32 = bytes[offset] as u32;
    let b1: u32 = bytes[offset + 1] as u32;
    let b2: u32 = bytes[offset + 2] as u32;
    let b3: u32 = bytes[offset + 3] as u32;
    match order {
        ByteOrder::Little => b0 + b1 * 0x100 + b2 * 0x1_0000 + b3 * 0x100_0000,
        ByteOrder::Big => b3 + b2 * 0x100 + b1 * 0x1_0000 + b0 * 0x100_0000,
    }
}

/// Reads the 64-bit field that starts at `offset`.
pub fn read_u64(bytes: &[u8], offset: usize, order: ByteOrder) -> (r: u64)
    requires
        offset + 8 <= bytes@.len(),
    ensures
        r == field64(bytes@, offset as int, order),
        r == word64(bytes@.subrange(offset as int, offset + 8), order),
{
    let len: usize = bytes.len();
    assert(offset + 4 <= len);
    let first: u64 = read_u32(bytes, offset, order) as u64;
    let second: u64 = read_u32(bytes, offset + 4, order) as u64;
    proof {
        let b = bytes@.subrange(offset as int, offset + 8);
        assert(b.subrange(0, 4) == bytes@.subrange(offset as int, offset + 4));
        assert(b.subrange(4, 8) == bytes@.subrange(offset + 4, offset + 8));
    }
    match order {
        ByteOrder::Little => first + second * 0x1_0000_0000,
        ByteOrder::Big => second + first * 0x1_0000_0000,
    }
}

/// The four bytes that store the number `value`.
pub open spec fn bytes32(value: u32, order: ByteOrder) -> Seq<u8> {
    let b0 = (value % 0x100) as u8;
    let b1 = (value / 0x100 % 0x100) as u8;
    let b2 = (value / 0x1_0000 % 0x100) as u8;
    let b3 = (value / 0x100_0000) as u8;
    match order {
        ByteOrder::Little => seq![b0, b1, b2, b3],
        ByteOrder::Big => seq![b3, b2, b1, b0],
    }
}

/// What is written as a 32-bit number reads back as the same number.
pub proof fn lemma_bytes32_read_back(value: u32, order: ByteOrder)
    ensures
        bytes32(value, order).len() == 4,
        word32(bytes32(value, order), order) == value,
{
}

/// Writes a 32-bit number as four bytes.
pub fn write_u32(value: u32, order: ByteOrder) -> (bytes: Vec<u8>)
    ensures
        bytes@ == bytes32(value, order),
{
    let b0: u8 = (value % 0x100) as u8;
    let b1: u8 = (value / 0x100 % 0x100) as u8;
    let b2: u8 = (value / 0x1_0000 % 0x100) as u8;
    let b3: u8 = (value / 0x100_0000) as u8;
    let mut bytes: Vec<u8> = Vec::new();
    match order {
        ByteOrder::Little => {
            bytes.push(b0);
            bytes.push(b1);
            bytes.push(b2);
            bytes.push(b3);
        },
        ByteOrder::Big => {
            bytes.push(b3);
            bytes.push(b2);
            bytes.push(b1);
            bytes.push(b0);
        },
    }
    assert(bytes@ =~= bytes32(value, order));
    bytes
}

/// The size in bytes of the settings that the tracer is given before it is
/// loaded.
pub const TRACER_SETTINGS_SIZE: usize = 8;

/// The settings of the tracer as it reads them: the target's process id as
/// a 32-bit number, one byte that is 1 where the tracer emits events and 0
/// where it does not, and three bytes of zero that fill the record.
pub open spec fn settings_bytes(pid: u32, deep_trace: bool, order: ByteOrder) -> Seq<u8> {
    bytes32(pid, order) + seq![
        if deep_trace {
            1u8
        } else {
            0u8
        },
        0u8,
        0u8,
        0u8,
    ]
}

/// Writes the settings that the tracer is given before it is loaded: the
/// process to trace, and whether to emit events.
pub fn tracer_settings(pid: u32, deep_trace: bool, order: ByteOrder) -> (settings: Vec<u8>)
    ensures
        settings@ == settings_bytes(pid, deep_trace, order),
        settings@.len() == TRACER_SETTINGS_SIZE,
{
    let mut settings = write_u32(pid, order);
    settings.push(if deep_trace {
        1
    } else {
        0
    });
    settings.push(0);
    settings.push(0);
    settings.push(0);
    assert(settings@ =~= settings_bytes(pid, deep_trace, order));
    settings
}

/// A record of the tracer that is read from a map's value.
pub trait Record: Sized {
    /// The record that `bytes` store; `None` where they are too few.
    spec fn decoded(bytes: Seq<u8>, order: ByteOrder) -> Option<Self>;

    /// Reads a record from the bytes of a map's value.
    fn decode(bytes: &[u8], order: ByteOrder) -> (r: Option<Self>)
        ensures
            r == Self::decoded(bytes@, order),
    ;
}

/// How often one kind of system call ran, and for how long in all.
#[derive(Clone, Copy, Debug, PartialEq, Eq, Structural)]
pub struct IoCounter {
    pub count: u64,
    /// The time spent in all the calls together, in nanoseconds.
    pub total_duration: u64,
}

/// The size of an `IoCounter` record in bytes.
pub const IO_COUNTER_SIZE: usize = 16;

impl IoCounter {
    /// The mean duration of a call; zero where there was no call.
    pub open spec fn average(self) -> u64 {
        if self.count == 0 {
            0
        } else {
            self.total_duration / self.count
        }
    }

    /// The mean duration of a call in nanoseconds, rounded down; zero where
    /// there was no call.
    pub fn average_duration(&self) -> (avg: u64)
        ensures
            avg == self.average(),
            self.count == 0 ==> avg == 0,
            self.count > 0 ==> avg == self.total_duration as nat / self.count as nat,
    {
        if self.count == 0 {
            0
        } else {
            self.total_duration / self.count
        }
    }
}

impl Record for IoCounter {
    open spec fn decoded(bytes: Seq<u8>, order: ByteOrder) -> Option<Self> {
        if bytes.len() < IO_COUNTER_SIZE {
            None
        } else {
            Some(
                IoCounter {
                    count: field64(bytes, 0, order),
                    total_duration: field64(bytes, 8, order),
                },
            )
        }
    }

    fn decode(bytes: &[u8], order: ByteOrder) -> (r: Option<Self>) {
        if bytes.len() < IO_COUNTER_SIZE {
            return None;
        }
        Some(
            IoCounter {
                count: read_u64(bytes, 0, order),
                total_duration: read_u64(bytes, 8, order),
            },
        )
    }
}

/// The operation code under which the tracer counts writes.
pub const OP_WRITE: u32 = 0;

/// The operation code under which the tracer counts reads.
pub const OP_READ: u32 = 1;

/// Whether every entry is keyed by the code for writes or for reads.
pub open spec fn known_operations(stats: Seq<(u32, IoCounter)>) -> bool {
    forall|i: int| 0 <= i < stats.len() ==> (#[trigger] stats[i]).0 <= 1
}

/// Tells whether every entry is keyed by a known operation code.
pub fn has_known_operations(mem_stats: &Vec<(u32, IoCounter)>) -> (b: bool)
    ensures
        b == known_operations(mem_stats@),
{
    let mut i: usize = 0;
    while i < mem_stats.len()
        invariant
            i <= mem_stats@.len(),
            forall|k: int| 0 <= k < i ==> (#[trigger] mem_stats@[k]).0 <= 1,
        decreases mem_stats@.len() - i,
    {
        if mem_stats[i].0 > 1 {
            return false;
        }
        i = i + 1;
    }
    true
}

/// How much was written to one device, and in what pattern.
#[derive(Clone, Copy, Debug, PartialEq, Eq, Structural)]
pub struct DiskCounter {
    pub bytes: u64,
    /// The number of accesses that did not follow the one before.
    pub random: u64,
    /// The number of accesses that followed the one before.
    pub sequential: u64,
}

/// The size of a `DiskCounter` record in bytes.
pub const DISK_COUNTER_SIZE: usize = 24;

/// `part` as a percentage of `total`, rounded down; zero where `total` is
/// zero.
pub open spec fn percentage(part: nat, total: nat) -> nat {
    if total == 0 {
        0
    } else {
        part * 100 / total
    }
}

/// Computes `part` as a percentage of `part + rest`.
fn share(part: u64, rest: u64) -> (p: u32)
    ensures
        p == percentage(part as nat, (part + rest) as nat),
        p <= 100,
{
    let total: u128 = part as u128 + rest as u128;
    if total == 0 {
        0
    } else {
        let scaled: u128 = part as u128 * 100;
        let p: u128 = scaled / total;
        assert(p <= 100) by (nonlinear_arith)
            requires
                p == scaled / total,
                scaled == part * 100,
                0 < total,
                part <= total,
        ;
        p as u32
    }
}

impl DiskCounter {
    /// The number of accesses of both kinds.
    pub open spec fn accesses(self) -> nat {
        (self.random + self.sequential) as nat
    }

    /// The share of random accesses among all accesses, in percent and
    /// rounded down; zero where there was no access.
    pub fn perc_random(&self) -> (p: u32)
        ensures
            p == percentage(self.random as nat, self.accesses()),
            p <= 100,
            self.accesses() == 0 ==> p == 0,
    {
        share(self.random, self.sequential)
    }

    /// The share of sequential accesses among all accesses, in percent and
    /// rounded down; zero where there was no access.
    pub fn perc_seq(&self) -> (p: u32)
        ensures
            p == percentage(self.sequential as nat, self.accesses()),
            p <= 100,
            self.accesses() == 0 ==> p == 0,
    {
        share(self.sequential, self.random)
    }
}

impl Record for DiskCounter {
    open spec fn decoded(bytes: Seq<u8>, order: ByteOrder) -> Option<Self> {
        if bytes.len() < DISK_COUNTER_SIZE {
            None
        } else {
            Some(
                DiskCounter {
                    bytes: field64(bytes, 0, order),
                    random: field64(bytes, 8, order),
                    sequential: field64(bytes, 16, order),
                },
            )
        }
    }

    fn decode(bytes: &[u8], order: ByteOrder) -> (r: Option<Self>) {
        if bytes.len() < DISK_COUNTER_SIZE {
            return None;
        }
        Some(
            DiskCounter {
                bytes: read_u64(bytes, 0, order),
                random: read_u64(bytes, 8, order),
                sequential: read_u64(bytes, 16, order),
            },
        )
    }
}

/// The size of a `LowLevelSgxCounters` record in bytes.
pub const SGX_COUNTERS_SIZE: usize = 32;

impl Record for LowLevelSgxCounters {
    open spec fn decoded(bytes: Seq<u8>, order: ByteOrder) -> Option<Self> {
        if bytes.len() < SGX_COUNTERS_SIZE {
            None
        } else {
            Some(
                LowLevelSgxCounters {
                    encl_load_page: field64(bytes, 0, order),
                    encl_wb: field64(bytes, 8, order),
                    vma_access: field64(bytes, 16, order),
                    vma_fault: field64(bytes, 24, order),
                },
            )
        }
    }

    fn decode(bytes: &[u8], order: ByteOrder) -> (r: Option<Self>) {
        if bytes.len() < SGX_COUNTERS_SIZE {
            return None;
        }
        Some(
            LowLevelSgxCounters {
                encl_load_page: read_u64(bytes, 0, order),
                encl_wb: read_u64(bytes, 8, order),
                vma_access: read_u64(bytes, 16, order),
                vma_fault: read_u64(bytes, 24, order),
            },
        )
    }
}

/// The size of a `DeepTraceEvent` record in bytes: the kind, four bytes of
/// padding, then the timestamp.
pub const DEEP_TRACE_EVENT_SIZE: usize = 16;

impl Record for DeepTraceEvent {
    open spec fn decoded(bytes: Seq<u8>, order: ByteOrder) -> Option<Self> {
        if bytes.len() < DEEP_TRACE_EVENT_SIZE {
            None
        } else {
            Some(
                DeepTraceEvent {
                    ev_type: field32(bytes, 0, order),
                    timestamp: field64(bytes, 8, order),
                },
            )
        }
    }

    fn decode(bytes: &[u8], order: ByteOrder) -> (r: Option<Self>) {
        if bytes.len() < DEEP_TRACE_EVENT_SIZE {
            return None;
        }
        Some(
            DeepTraceEvent {
                ev_type: read_u32(bytes, 0, order),
                timestamp: read_u64(bytes, 8, order),
            },
        )
    }
}

/// The size of a map's key in bytes.
pub const KEY_SIZE: usize = 4;

/// The key that `bytes` store; `None` where they are too few.
pub open spec fn decoded_key(bytes: Seq<u8>, order: ByteOrder) -> Option<u32> {
    if bytes.len() < KEY_SIZE {
        None
    } else {
        Some(field32(bytes, 0, order))
    }
}

/// Reads a map's key.
pub fn decode_key(bytes: &[u8], order: ByteOrder) -> (r: Option<u32>)
    ensures
        r == decoded_key(bytes@, order),
{
    if bytes.len() < KEY_SIZE {
        None
    } else {
        Some(read_u32(bytes, 0, order))
    }
}

} // verus!
