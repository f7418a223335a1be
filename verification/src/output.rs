//! The text of the CSV files in which a run's metrics are kept.

use vstd::prelude::*;
use vstd::string::*;
use crate::constants::{ENERGY_CSV_HEADER, IO_CSV_HEADER, TRACE_CSV_HEADER};
use crate::metrics::Metrics;
use crate::stats::{number_row, write_number_row, DeepTraceEvent, EnergySample, ToCsv};
use crate::text::{join, join_strings, texts};

verus! {

/// The rows of a sequence of values, one value after the other.
pub open spec fn rows_of<T: ToCsv>(items: Seq<T>) -> Seq<Seq<char>>
    decreases items.len(),
{
    if items.len() == 0 {
        Seq::empty()
    } else {
        rows_of(items.drop_last()) + items.last().csv_rows()
    }
}

/// Writes each value of a list as CSV rows.
pub fn csv_rows_of<T: ToCsv>(items: &Vec<T>) -> (rows: Vec<String>)
    ensures
        texts(rows@) == rows_of(items@),
{
    let mut rows: Vec<String> = Vec::new();
    let mut i: usize = 0;
    assert(items@.take(0) == Seq::<T>::empty());
    assert(texts(rows@) == Seq::<Seq<char>>::empty());
    while i < items.len()
        invariant
            i <= items@.len(),
            texts(rows@) == rows_of(items@.take(i as int)),
        decreases items@.len() - i,
    {
        proof {
            let read = items@.take(i as int + 1);
            assert(read.drop_last() == items@.take(i as int));
            assert(read.last() == items@[i as int]);
        }
        let mut more = items[i].to_csv_rows();
        let ghost head = texts(rows@);
        let ghost tail = texts(more@);
        rows.append(&mut more);
        assert(texts(rows@) == head + tail);
        i = i + 1;
    }
    assert(items@.take(i as int) == items@);
    rows
}

/// Rows as the text of a file in which a line feed ends each row.
pub open spec fn terminated(rows: Seq<Seq<char>>) -> Seq<char>
    decreases rows.len(),
{
    if rows.len() == 0 {
        Seq::empty()
    } else {
        terminated(rows.drop_last()) + rows.last() + "\n"@
    }
}

/// Writes rows one after the other, each with a line feed after it.
fn write_terminated(rows: &Vec<String>) -> (s: String)
    ensures
        s@ == terminated(texts(rows@)),
{
    let mut s = String::new();
    let mut i: usize = 0;
    assert(texts(rows@).take(0) == Seq::<Seq<char>>::empty());
    while i < rows.len()
        invariant
            i <= rows@.len(),
            s@ == terminated(texts(rows@).take(i as int)),
        decreases rows@.len() - i,
    {
        proof {
            let read = texts(rows@).take(i as int + 1);
            assert(read.drop_last() == texts(rows@).take(i as int));
            assert(read.last() == rows@[i as int]@);
        }
        s.append(rows[i].as_str());
        s.append("\n");
        i = i + 1;
    }
    assert(texts(rows@).take(i as int) == texts(rows@));
    s
}

/// The rows of the file with a run's I/O metrics: the header, the tracer's
/// enclave counters for a run inside an enclave, the number and the mean
/// duration of reads and of writes, and the rows of each device.
pub open spec fn io_rows(m: Metrics) -> Seq<Seq<char>> {
    seq![IO_CSV_HEADER@] + (match m.sgx_stats {
        Some(sgx) => sgx.counters.csv_rows(),
        None => Seq::empty(),
    }) + seq![
        number_row("sys_read,#,"@, m.sys_read_count as nat, ","@),
        number_row("sys_read,ns,"@, m.sys_read_avg as nat, ","@),
        number_row("sys_write,#,"@, m.sys_write_count as nat, ","@),
        number_row("sys_write,ns,"@, m.sys_write_avg as nat, ","@),
    ] + rows_of(m.disk_stats@)
}

/// The text of the file with a run's I/O metrics.
pub fn io_metrics_csv(metrics: &Metrics) -> (s: String)
    ensures
        s@ == terminated(io_rows(*metrics)),
{
    let mut rows: Vec<String> = Vec::new();
    rows.push(String::from_str(IO_CSV_HEADER));
    assert(texts(rows@) == seq![IO_CSV_HEADER@]);
    match &metrics.sgx_stats {
        Some(sgx) => {
            let mut low = sgx.counters.to_csv_rows();
            let ghost head = texts(rows@);
            let ghost tail = texts(low@);
            rows.append(&mut low);
            assert(texts(rows@) == head + tail);
        },
        None => {
            assert(texts(rows@) == texts(rows@) + Seq::<Seq<char>>::empty());
        },
    }
    let ghost head = texts(rows@);
    rows.push(write_number_row("sys_read,#,", metrics.sys_read_count as u128, ","));
    rows.push(write_number_row("sys_read,ns,", metrics.sys_read_avg as u128, ","));
    rows.push(write_number_row("sys_write,#,", metrics.sys_write_count as u128, ","));
    rows.push(write_number_row("sys_write,ns,", metrics.sys_write_avg as u128, ","));
    assert(texts(rows@) == head + seq![
        number_row("sys_read,#,"@, metrics.sys_read_count as nat, ","@),
        number_row("sys_read,ns,"@, metrics.sys_read_avg as nat, ","@),
        number_row("sys_write,#,"@, metrics.sys_write_count as nat, ","@),
        number_row("sys_write,ns,"@, metrics.sys_write_avg as nat, ","@),
    ]);
    let mut disks = csv_rows_of(&metrics.disk_stats);
    let ghost head = texts(rows@);
    let ghost tail = texts(disks@);
    rows.append(&mut disks);
    assert(texts(rows@) == head + tail);
    assert(texts(rows@) == io_rows(*metrics));
    write_terminated(&rows)
}

/// A header and rows as the text of a file: a line feed after the header and
/// between each two rows, none at the end.
pub open spec fn with_header(header: Seq<char>, rows: Seq<Seq<char>>) -> Seq<char> {
    header + "\n"@ + join(rows, "\n"@)
}

/// Writes a header and the rows of a list of values.
fn write_with_header<T: ToCsv>(header: &str, items: &Vec<T>) -> (s: String)
    ensures
        s@ == with_header(header@, rows_of(items@)),
{
    let rows = csv_rows_of(items);
    let body = join_strings(&rows, "\n");
    let mut s = String::from_str(header);
    s.append("\n");
    s.append(body.as_str());
    s
}

/// The text of the file with the samples of one energy domain.
pub fn energy_csv(samples: &Vec<EnergySample>) -> (s: String)
    ensures
        s@ == with_header(ENERGY_CSV_HEADER@, rows_of(samples@)),
{
    write_with_header(ENERGY_CSV_HEADER, samples)
}

/// The text of the file with the events of a deep trace.
pub fn deep_stats_csv(stats: &Vec<DeepTraceEvent>) -> (s: String)
    ensures
        s@ == with_header(TRACE_CSV_HEADER@, rows_of(stats@)),
{
    write_with_header(TRACE_CSV_HEADER, stats)
}

} // verus!
