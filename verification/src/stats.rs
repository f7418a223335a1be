//! The samples that a run produces, and how each is written as CSV rows.

use vstd::prelude::*;
use vstd::string::*;
use crate::number::{decimal, parse_u32, parse_unsigned, to_decimal};
use crate::text::{
    read_lines, span_starts_with, split_whitespace, text_lines, texts, to_chars, tokens, trim,
    trim_span, Span,
};

verus! {

/// A value that can be written as rows of a CSV file.
pub trait ToCsv {
    /// The rows, each as its text.
    spec fn csv_rows(&self) -> Seq<Seq<char>>;

    /// Writes the value as CSV rows.
    fn to_csv_rows(&self) -> (rows: Vec<String>)
        ensures
            texts(rows@) == self.csv_rows(),
    ;
}

/// `prefix`, then `value` in decimal, then `suffix`.
pub open spec fn number_row(prefix: Seq<char>, value: nat, suffix: Seq<char>) -> Seq<char> {
    prefix + decimal(value) + suffix
}

/// Writes `prefix`, then `value` in decimal, then `suffix`.
pub(crate) fn write_number_row(prefix: &str, value: u128, suffix: &str) -> (row: String)
    ensures
        row@ == number_row(prefix@, value as nat, suffix@),
{
    let mut row = String::from_str(prefix);
    let number = to_decimal(value);
    row.append(number.as_str());
    row.append(suffix);
    row
}

/// A block device of the host, as the operating system lists it.
#[derive(Clone)]
pub struct Partition {
    pub name: String,
    pub dev: u32,
}

/// What a `Partition` stands for: the device's name and its identifier.
pub struct PartitionView {
    pub name: Seq<char>,
    pub dev: u32,
}

impl View for Partition {
    type V = PartitionView;

    open spec fn view(&self) -> PartitionView {
        PartitionView { name: self.name@, dev: self.dev }
    }
}

/// The identifier under which the tracer reports a device: the major number
/// shifted left by twenty bits, or-ed with the minor number.
pub open spec fn device_id(major: u32, minor: u32) -> u32 {
    (major << 20) | minor
}

/// The views of a sequence of partitions.
pub open spec fn partition_views(parts: Seq<Partition>) -> Seq<PartitionView> {
    parts.map_values(|p: Partition| p@)
}

/// The label for a device that no partition matches.
pub open spec fn unknown_device() -> Seq<char> {
    "unknown device"@
}

/// The name of the first partition in `parts` with identifier `dev`, or the
/// label for an unknown device where there is none.
pub open spec fn device_name(parts: Seq<Partition>, dev: u32) -> Seq<char>
    decreases parts.len(),
{
    if parts.len() == 0 {
        unknown_device()
    } else if parts[0].dev == dev {
        parts[0].name@
    } else {
        device_name(parts.drop_first(), dev)
    }
}

/// A device that no partition matches gets the label for an unknown device.
pub proof fn lemma_unseen_device(parts: Seq<Partition>, dev: u32)
    requires
        forall|i: int| 0 <= i < parts.len() ==> (#[trigger] parts[i]).dev != dev,
    ensures
        device_name(parts, dev) == unknown_device(),
    decreases parts.len(),
{
    if parts.len() > 0 {
        assert(parts[0].dev != dev);
        assert forall|i: int| 0 <= i < parts.drop_first().len() implies (
        #[trigger] parts.drop_first()[i]).dev != dev by {
            assert(parts.drop_first()[i] == parts[i + 1]);
        }
        lemma_unseen_device(parts.drop_first(), dev);
    }
}

/// Looks up the name of the device `dev` in the partition index.
pub fn partition_name(partitions: &[Partition], dev: u32) -> (name: String)
    ensures
        name@ == device_name(partitions@, dev),
        (forall|i: int| 0 <= i < partitions@.len() ==> (#[trigger] partitions@[i]).dev != dev)
            ==> name@ == unknown_device(),
{
    let mut i: usize = 0;
    assert(partitions@.skip(0) == partitions@);
    while i < partitions.len()
        invariant
            i <= partitions@.len(),
            device_name(partitions@, dev) == device_name(partitions@.skip(i as int), dev),
        decreases partitions@.len() - i,
    {
        if partitions[i].dev == dev {
            return partitions[i].name.clone();
        }
        assert(partitions@.skip(i as int).drop_first() == partitions@.skip(i as int + 1));
        i = i + 1;
    }
    proof {
        if forall|i: int| 0 <= i < partitions@.len() ==> (#[trigger] partitions@[i]).dev != dev {
            lemma_unseen_device(partitions@, dev);
        }
    }
    String::from_str("unknown device")
}

impl Partition {
    /// What a line of the partition listing says: four tokens, of which the
    /// first two are the major and minor number and the last is the name.
    /// `None` for any other line.
    pub open spec fn parse_line(line: Seq<char>) -> Option<PartitionView> {
        let t = tokens(line);
        if t.len() == 4 {
            match (parse_unsigned(t[0], u32::MAX as nat), parse_unsigned(t[1], u32::MAX as nat)) {
                (Some(major), Some(minor)) => Some(
                    PartitionView { name: t[3], dev: device_id(major as u32, minor as u32) },
                ),
                _ => None,
            }
        } else {
            None
        }
    }

    /// Whether a line of the listing describes a device: the header, which
    /// begins with `major`, and empty lines do not.
    pub open spec fn is_entry(line: Seq<char>) -> bool {
        line.len() > 0 && !"major"@.is_prefix_of(line)
    }

    /// The partitions that the lines of a listing describe, in order; `None`
    /// where a line that should describe a device cannot be read.
    pub open spec fn parse_lines(lines: Seq<Seq<char>>) -> Option<Seq<PartitionView>>
        decreases lines.len(),
    {
        if lines.len() == 0 {
            Some(Seq::empty())
        } else {
            match Self::parse_lines(lines.drop_last()) {
                None => None,
                Some(init) => if !Self::is_entry(lines.last()) {
                    Some(init)
                } else {
                    match Self::parse_line(trim(lines.last())) {
                        Some(p) => Some(init.push(p)),
                        None => None,
                    }
                },
            }
        }
    }

    /// Reads the part of `line` that `span` selects as one line of the
    /// partition listing.
    fn parse_span(line: &str, chars: &Vec<char>, span: Span) -> (r: Option<Partition>)
        requires
            chars@ == line@,
            span.within(chars@.len()),
        ensures
            match r {
                Some(p) => Self::parse_line(span.of(chars@)) == Some(p@),
                None => Self::parse_line(span.of(chars@)) is None,
            },
    {
        let spans = split_whitespace(chars, span);
        if spans.len() != 4 {
            return None;
        }
        let major = match parse_u32(chars, spans[0]) {
            Some(v) => v,
            None => {
                return None;
            },
        };
        let minor = match parse_u32(chars, spans[1]) {
            Some(v) => v,
            None => {
                return None;
            },
        };
        let name = String::from_str(line.substring_char(spans[3].start, spans[3].end));
        Some(Partition { name, dev: (major << 20) | minor })
    }

    /// Reads one line of the partition listing, `None` where it does not
    /// describe a device.
    pub fn parse(value: &str) -> (r: Option<Partition>)
        ensures
            match r {
                Some(p) => Self::parse_line(value@) == Some(p@),
                None => Self::parse_line(value@) is None,
            },
    {
        let chars = to_chars(value);
        let whole = Span { start: 0, end: chars.len() };
        assert(whole.of(chars@) == value@);
        Self::parse_span(value, &chars, whole)
    }

    /// Creates a partition from a line of the partition listing.
    pub fn from_str(value: &str) -> (p: Partition)
        requires
            Self::parse_line(value@) is Some,
        ensures
            Self::parse_line(value@) == Some(p@),
    {
        match Self::parse(value) {
            Some(p) => p,
            None => vstd::pervasive::unreached(),
        }
    }

    /// Reads the operating system's partition listing. Empty lines and the
    /// header are passed over; every other line must describe a device.
    pub fn parse_listing(listing: &[u8]) -> (r: Option<Vec<Partition>>)
        ensures
            match r {
                Some(parts) => Self::parse_lines(text_lines(listing@)) == Some(
                    partition_views(parts@),
                ),
                None => Self::parse_lines(text_lines(listing@)) is None,
            },
    {
        let lines = read_lines(listing);
        let mut parts: Vec<Partition> = Vec::new();
        let mut i: usize = 0;
        assert(texts(lines@).take(0) == Seq::<Seq<char>>::empty());
        while i < lines.len()
            invariant
                i <= lines@.len(),
                texts(lines@) == text_lines(listing@),
                Self::parse_lines(texts(lines@).take(i as int)) == Some(partition_views(parts@)),
            decreases lines@.len() - i,
        {
            let line = lines[i].as_str();
            let chars = to_chars(line);
            let whole = Span { start: 0, end: chars.len() };
            proof {
                assert(whole.of(chars@) == line@);
                assert(texts(lines@).take(i as int + 1).drop_last() == texts(lines@).take(
                    i as int,
                ));
                assert(texts(lines@).take(i as int + 1).last() == line@);
            }
            if chars.len() > 0 && !span_starts_with(&chars, whole, "major") {
                let inner = trim_span(&chars, whole);
                match Self::parse_span(line, &chars, inner) {
                    Some(p) => {
                        let ghost before = partition_views(parts@);
                        parts.push(p);
                        assert(partition_views(parts@) == before.push(p@));
                    },
                    None => {
                        proof {
                            let read = texts(lines@).take(i as int + 1);
                            assert(inner.of(chars@) == trim(read.last()));
                            assert(Self::is_entry(read.last()));
                            assert(Self::parse_lines(read) is None);
                            lemma_parse_lines_fails(texts(lines@), i as int + 1);
                        }
                        return None;
                    },
                }
            }
            i = i + 1;
        }
        assert(texts(lines@).take(i as int) == texts(lines@));
        Some(parts)
    }
}

/// Once the beginning of a listing cannot be read, the whole cannot.
pub proof fn lemma_parse_lines_fails(lines: Seq<Seq<char>>, k: int)
    requires
        0 <= k <= lines.len(),
        Partition::parse_lines(lines.take(k)) is None,
    ensures
        Partition::parse_lines(lines) is None,
    decreases lines.len() - k,
{
    if k < lines.len() {
        assert(lines.take(k + 1).drop_last() == lines.take(k));
        lemma_parse_lines_fails(lines, k + 1);
    } else {
        assert(lines.take(k) == lines);
    }
}

/// How one device was accessed during a run.
#[derive(Clone)]
pub struct DiskStats {
    pub name: String,
    pub bytes: u64,
    pub perc_random: u32,
    pub perc_seq: u32,
}

/// What a `DiskStats` stands for.
pub struct DiskStatsView {
    pub name: Seq<char>,
    pub bytes: u64,
    pub perc_random: u32,
    pub perc_seq: u32,
}

impl View for DiskStats {
    type V = DiskStatsView;

    open spec fn view(&self) -> DiskStatsView {
        DiskStatsView {
            name: self.name@,
            bytes: self.bytes,
            perc_random: self.perc_random,
            perc_seq: self.perc_seq,
        }
    }
}

impl ToCsv for DiskStats {
    open spec fn csv_rows(&self) -> Seq<Seq<char>> {
        seq![
            number_row("disk_write_seq,%,"@, self.perc_seq as nat, ","@) + self.name@,
            number_row("disk_write_rand,%,"@, self.perc_random as nat, ","@) + self.name@,
            number_row("disk_tot_written_bytes,%,"@, self.bytes as nat, ","@) + self.name@,
        ]
    }

    fn to_csv_rows(&self) -> (rows: Vec<String>) {
        let mut seq_row = write_number_row("disk_write_seq,%,", self.perc_seq as u128, ",");
        seq_row.append(self.name.as_str());
        let mut rand_row = write_number_row("disk_write_rand,%,", self.perc_random as u128, ",");
        rand_row.append(self.name.as_str());
        let mut bytes_row = write_number_row("disk_tot_written_bytes,%,", self.bytes as u128, ",");
        bytes_row.append(self.name.as_str());
        let mut rows: Vec<String> = Vec::new();
        rows.push(seq_row);
        rows.push(rand_row);
        rows.push(bytes_row);
        assert(texts(rows@) =~= self.csv_rows());
        rows
    }
}

/// One event of the tracer's event stream.
#[derive(Clone, Copy, Debug, Default, PartialEq, Eq, Structural)]
pub struct DeepTraceEvent {
    pub ev_type: u32,
    pub timestamp: u64,
}

/// The name of an event kind; `unknown` for a kind that has none.
pub open spec fn event_label(ev_type: u32) -> Seq<char> {
    if ev_type == 0 {
        "sys-read"@
    } else if ev_type == 1 {
        "sys-write"@
    } else if ev_type == 2 {
        "mm-page-alloc"@
    } else if ev_type == 3 {
        "mm-page-free"@
    } else if ev_type == 4 {
        "kmalloc"@
    } else if ev_type == 5 {
        "kfree"@
    } else if ev_type == 6 {
        "disk-read"@
    } else if ev_type == 7 {
        "disk-write"@
    } else {
        "unknown"@
    }
}

impl DeepTraceEvent {
    /// The name of the event's kind.
    pub fn label(&self) -> (s: &'static str)
        ensures
            s@ == event_label(self.ev_type),
    {
        match self.ev_type {
            0 => "sys-read",
            1 => "sys-write",
            2 => "mm-page-alloc",
            3 => "mm-page-free",
            4 => "kmalloc",
            5 => "kfree",
            6 => "disk-read",
            7 => "disk-write",
            _ => "unknown",
        }
    }
}

impl ToCsv for DeepTraceEvent {
    open spec fn csv_rows(&self) -> Seq<Seq<char>> {
        seq![number_row(Seq::empty(), self.timestamp as nat, ","@) + event_label(self.ev_type)]
    }

    fn to_csv_rows(&self) -> (rows: Vec<String>) {
        let mut row = write_number_row("", self.timestamp as u128, ",");
        row.append(self.label());
        let mut rows: Vec<String> = Vec::new();
        rows.push(row);
        proof {
            reveal_strlit("");
            assert(""@ =~= Seq::<char>::empty());
            assert(texts(rows@) =~= self.csv_rows());
        }
        rows
    }
}

/// Counters that the tracer keeps for an enclave.
#[derive(Clone, Copy, Debug, PartialEq, Eq, Structural)]
pub struct LowLevelSgxCounters {
    pub encl_load_page: u64,
    pub encl_wb: u64,
    pub vma_access: u64,
    pub vma_fault: u64,
}

impl Default for LowLevelSgxCounters {
    fn default() -> (c: Self)
        ensures
            c == (LowLevelSgxCounters { encl_load_page: 0, encl_wb: 0, vma_access: 0, vma_fault: 0 }),
    {
        LowLevelSgxCounters { encl_load_page: 0, encl_wb: 0, vma_access: 0, vma_fault: 0 }
    }
}

impl ToCsv for LowLevelSgxCounters {
    open spec fn csv_rows(&self) -> Seq<Seq<char>> {
        seq![
            number_row("sgx_encl_load_page,#,"@, self.encl_load_page as nat, ","@),
            number_row("sgx_encl_wb,#,"@, self.encl_wb as nat, ","@),
            number_row("sgx_vma_access,#,"@, self.vma_access as nat, ","@),
            number_row("sgx_vma_fault,#,"@, self.vma_fault as nat, ","@),
        ]
    }

    fn to_csv_rows(&self) -> (rows: Vec<String>) {
        let mut rows: Vec<String> = Vec::new();
        rows.push(write_number_row("sgx_encl_load_page,#,", self.encl_load_page as u128, ","));
        rows.push(write_number_row("sgx_encl_wb,#,", self.encl_wb as u128, ","));
        rows.push(write_number_row("sgx_vma_access,#,", self.vma_access as u128, ","));
        rows.push(write_number_row("sgx_vma_fault,#,", self.vma_fault as u128, ","));
        assert(texts(rows@) =~= self.csv_rows());
        rows
    }
}

/// What is known of an enclave's run: the counts that the enclave loader
/// prints when it ends, and the tracer's counters.
#[derive(Clone, Copy, Debug, PartialEq, Eq, Structural)]
pub struct SGXStats {
    pub eenter: u64,
    pub eexit: u64,
    pub aexit: u64,
    pub sync_signals: u64,
    pub async_signals: u64,
    pub counters: LowLevelSgxCounters,
}

impl Default for SGXStats {
    fn default() -> (s: Self)
        ensures
            s == (SGXStats {
                eenter: 0,
                eexit: 0,
                aexit: 0,
                sync_signals: 0,
                async_signals: 0,
                counters: LowLevelSgxCounters {
                    encl_load_page: 0,
                    encl_wb: 0,
                    vma_access: 0,
                    vma_fault: 0,
                },
            }),
    {
        SGXStats {
            eenter: 0,
            eexit: 0,
            aexit: 0,
            sync_signals: 0,
            async_signals: 0,
            counters: LowLevelSgxCounters::default(),
        }
    }
}

impl ToCsv for SGXStats {
    open spec fn csv_rows(&self) -> Seq<Seq<char>> {
        seq![
            number_row("sgx_enter,#,"@, self.eenter as nat, ","@),
            number_row("sgx_eexit,#,"@, self.eexit as nat, ","@),
            number_row("sgx_aexit,#,"@, self.aexit as nat, ","@),
            number_row("sgx_sync_signals,#,"@, self.sync_signals as nat, ","@),
            number_row("sgx_async_signals,#,"@, self.async_signals as nat, ","@),
        ] + self.counters.csv_rows()
    }

    fn to_csv_rows(&self) -> (rows: Vec<String>) {
        let mut rows: Vec<String> = Vec::new();
        rows.push(write_number_row("sgx_enter,#,", self.eenter as u128, ","));
        rows.push(write_number_row("sgx_eexit,#,", self.eexit as u128, ","));
        rows.push(write_number_row("sgx_aexit,#,", self.aexit as u128, ","));
        rows.push(write_number_row("sgx_sync_signals,#,", self.sync_signals as u128, ","));
        rows.push(write_number_row("sgx_async_signals,#,", self.async_signals as u128, ","));
        let mut low = self.counters.to_csv_rows();
        let ghost head = texts(rows@);
        let ghost tail = texts(low@);
        rows.append(&mut low);
        assert(texts(rows@) =~= head + tail);
        assert(texts(rows@) =~= self.csv_rows());
        rows
    }
}

/// One reading of an energy counter.
#[derive(Clone, Copy, Debug, PartialEq, Eq, Structural)]
pub struct EnergySample {
    /// When the reading was taken, in nanoseconds since the Unix epoch.
    pub timestamp: u128,
    /// The counter's value, in microjoules.
    pub energy_uj: u64,
}

impl ToCsv for EnergySample {
    open spec fn csv_rows(&self) -> Seq<Seq<char>> {
        seq![
            number_row(Seq::empty(), self.timestamp as nat, ","@) + decimal(
                self.energy_uj as nat,
            ),
        ]
    }

    fn to_csv_rows(&self) -> (rows: Vec<String>) {
        let mut row = write_number_row("", self.timestamp, ",");
        let energy = to_decimal(self.energy_uj as u128);
        row.append(energy.as_str());
        let mut rows: Vec<String> = Vec::new();
        rows.push(row);
        proof {
            reveal_strlit("");
            assert(""@ =~= Seq::<char>::empty());
            assert(texts(rows@) =~= self.csv_rows());
        }
        rows
    }
}

} // verus!
