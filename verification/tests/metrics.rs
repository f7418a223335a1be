use enclave_benchmark::energy::EnergySeries;
use enclave_benchmark::metrics::{
    collect_metrics, extract_sgx_counters_from_stderr, get_sgx_stats, process_disk_stats,
    process_mem_stats,
};
use enclave_benchmark::records::{has_known_operations, DiskCounter, IoCounter};
use enclave_benchmark::stats::{
    DeepTraceEvent, EnergySample, LowLevelSgxCounters, Partition, SGXStats,
};
use enclave_benchmark::tracer::TraceResult;

const GRAMINE_STDERR: &[u8] = b"Gramine is starting. Parsing TOML manifest file, this may take some time...\n\
----- Total SGX stats -----\n\
  # of EENTERs:        139328\n\
  # of EEXITs:         139250\n\
  # of AEXs:           5377\n\
  # of sync signals:   72\n\
  # of async signals:  0\n";

#[test]
fn sgx_counts_from_single_lines() {
    let stats = extract_sgx_counters_from_stderr(b"# of EENTERs:        139328");
    assert_eq!(stats.eenter, 139328);
    assert_eq!(stats, SGXStats { eenter: 139328, ..SGXStats::default() });

    let stats = extract_sgx_counters_from_stderr(b"# of sync signals:   72");
    assert_eq!(stats.sync_signals, 72);
    assert_eq!(stats, SGXStats { sync_signals: 72, ..SGXStats::default() });

    let stats = extract_sgx_counters_from_stderr(b"# of EEXITs:         139250\n");
    assert_eq!(stats, SGXStats { eexit: 139250, ..SGXStats::default() });

    let stats = extract_sgx_counters_from_stderr(b"# of async signals:  5\n");
    assert_eq!(stats, SGXStats { async_signals: 5, ..SGXStats::default() });

    let stats = extract_sgx_counters_from_stderr(b"# of AEXs 5377\n");
    assert_eq!(stats, SGXStats { aexit: 5377, ..SGXStats::default() });
}

#[test]
fn sgx_counts_from_the_loader_output() {
    let stats = extract_sgx_counters_from_stderr(GRAMINE_STDERR);
    assert_eq!(stats.eenter, 139328);
    assert_eq!(stats.eexit, 139250);
    assert_eq!(stats.sync_signals, 72);
    assert_eq!(stats.async_signals, 0);
    assert_eq!(stats.counters, LowLevelSgxCounters::default());
}

#[test]
fn sgx_metric_is_matched_as_a_whole_token() {
    let stats = extract_sgx_counters_from_stderr(GRAMINE_STDERR);
    assert_eq!(stats.aexit, 0);
    let stats = extract_sgx_counters_from_stderr(b"# of EENTERs 5\n# of eenters: 6\n# of sync 7 8\n");
    assert_eq!(stats, SGXStats { sync_signals: 8, ..SGXStats::default() });
}

#[test]
fn sgx_lines_not_starting_with_hash_are_ignored() {
    let stats = extract_sgx_counters_from_stderr(
        b"of EENTERs: 5 6\nx # of EENTERs: 7\n\n   \nEENTERs: sync async 9 9\n",
    );
    assert_eq!(stats, SGXStats::default());
    assert_eq!(extract_sgx_counters_from_stderr(b""), SGXStats::default());
}

#[test]
fn sgx_report_lines_without_a_count_are_ignored() {
    let stats = extract_sgx_counters_from_stderr(
        b"#\n# of\n# of EENTERs:\n# of EENTERs: many\n# of sync signals:\n# of EEXITs: -3\n# of async signals: 18446744073709551616\n",
    );
    assert_eq!(stats, SGXStats::default());
}

#[test]
fn sgx_hash_may_be_part_of_the_first_token() {
    let stats = extract_sgx_counters_from_stderr(b"  #count of EENTERs: 11\n");
    assert_eq!(stats.eenter, 11);
}

#[test]
fn sgx_later_report_replaces_earlier_one() {
    let stats = extract_sgx_counters_from_stderr(
        b"# of EENTERs: 1\n# of EENTERs: 2\n# of EENTERs: broken\n",
    );
    assert_eq!(stats.eenter, 2);
}

#[test]
fn sgx_counts_stop_at_bytes_that_are_no_text() {
    let stats = extract_sgx_counters_from_stderr(b"# of EENTERs: 1\n\xff\n# of EEXITs: 2\n");
    assert_eq!(stats, SGXStats { eenter: 1, ..SGXStats::default() });
}

#[test]
fn sgx_stats_take_the_tracer_counters() {
    let counters =
        LowLevelSgxCounters { encl_load_page: 1, encl_wb: 2, vma_access: 3, vma_fault: 4 };
    let stats = get_sgx_stats(GRAMINE_STDERR, counters);
    assert_eq!(
        stats,
        SGXStats {
            eenter: 139328,
            eexit: 139250,
            aexit: 0,
            sync_signals: 72,
            async_signals: 0,
            counters,
        }
    );
}

fn partitions() -> Vec<Partition> {
    vec![
        Partition { name: "nvme0n1".to_string(), dev: 271581184 },
        Partition { name: "sda".to_string(), dev: 8388608 },
    ]
}

#[test]
fn disk_stats_name_devices_and_take_shares() {
    let stats = process_disk_stats(
        &partitions(),
        vec![
            (8388608, DiskCounter { bytes: 4096, random: 1, sequential: 3 }),
            (42, DiskCounter { bytes: 10, random: 0, sequential: 0 }),
            (271581184, DiskCounter { bytes: 0, random: 2, sequential: 1 }),
        ],
    );
    assert_eq!(stats.len(), 3);
    assert_eq!(stats[0].name, "sda");
    assert_eq!(stats[0].bytes, 4096);
    assert_eq!(stats[0].perc_random, 25);
    assert_eq!(stats[0].perc_seq, 75);
    assert_eq!(stats[1].name, "unknown device");
    assert_eq!(stats[1].bytes, 10);
    assert_eq!(stats[1].perc_random, 0);
    assert_eq!(stats[1].perc_seq, 0);
    assert_eq!(stats[2].name, "nvme0n1");
    assert_eq!(stats[2].perc_random, 66);
    assert_eq!(stats[2].perc_seq, 33);
}

#[test]
fn disk_stats_of_nothing() {
    assert_eq!(process_disk_stats(&partitions(), vec![]).len(), 0);
    assert_eq!(process_disk_stats(&[], vec![]).len(), 0);
}

#[test]
fn mem_stats_give_writes_then_reads() {
    let summary = process_mem_stats(vec![
        (1, IoCounter { count: 4, total_duration: 1000 }),
        (0, IoCounter { count: 3, total_duration: 1000 }),
    ]);
    assert_eq!(summary, (3, 333, 4, 250));
}

#[test]
fn mem_stats_of_nothing_are_zero() {
    assert_eq!(process_mem_stats(vec![]), (0, 0, 0, 0));
    assert_eq!(process_mem_stats(vec![(1, IoCounter { count: 0, total_duration: 9 })]), (0, 0, 0, 0));
    assert_eq!(process_mem_stats(vec![(0, IoCounter { count: 2, total_duration: 9 })]), (2, 4, 0, 0));
}

#[test]
fn mem_stats_take_the_last_entry_of_an_operation() {
    let summary = process_mem_stats(vec![
        (0, IoCounter { count: 1, total_duration: 10 }),
        (1, IoCounter { count: 5, total_duration: 50 }),
        (0, IoCounter { count: 2, total_duration: 40 }),
    ]);
    assert_eq!(summary, (2, 20, 5, 10));
}

#[test]
fn known_operations_are_zero_and_one() {
    let counter = IoCounter { count: 1, total_duration: 1 };
    assert!(has_known_operations(&vec![]));
    assert!(has_known_operations(&vec![(0, counter), (1, counter), (0, counter)]));
    assert!(!has_known_operations(&vec![(0, counter), (2, counter)]));
    assert!(!has_known_operations(&vec![(u32::MAX, counter)]));
}

#[test]
fn metrics_of_a_run_without_io() {
    let trace = TraceResult {
        mem_counters: vec![],
        disk_counters: vec![],
        sgx_counters: None,
        deep_stats: None,
    };
    let metrics = collect_metrics(&partitions(), vec![], vec![], trace, vec![], vec![]);
    assert!(metrics.stdout.is_empty());
    assert!(metrics.stderr.is_empty());
    assert!(metrics.perf_output.is_empty());
    assert!(metrics.energy_stats.is_empty());
    assert!(metrics.disk_stats.is_empty());
    assert!(metrics.sgx_stats.is_none());
    assert!(metrics.deep_stats.is_none());
    assert_eq!(
        (
            metrics.sys_write_count,
            metrics.sys_write_avg,
            metrics.sys_read_count,
            metrics.sys_read_avg
        ),
        (0, 0, 0, 0)
    );
}

#[test]
fn metrics_merge_the_probe_outputs() {
    let counters =
        LowLevelSgxCounters { encl_load_page: 1, encl_wb: 2, vma_access: 3, vma_fault: 4 };
    let events = vec![
        DeepTraceEvent { ev_type: 6, timestamp: 10 },
        DeepTraceEvent { ev_type: 99, timestamp: 11 },
    ];
    let trace = TraceResult {
        mem_counters: vec![
            (0, IoCounter { count: 3, total_duration: 1000 }),
            (1, IoCounter { count: 4, total_duration: 1000 }),
        ],
        disk_counters: vec![(8388608, DiskCounter { bytes: 4096, random: 1, sequential: 3 })],
        sgx_counters: Some(counters),
        deep_stats: Some(events.clone()),
    };
    let energy = vec![EnergySeries {
        name: "package-0".to_string(),
        samples: vec![EnergySample { timestamp: 1, energy_uj: 2 }],
    }];
    let metrics = collect_metrics(
        &partitions(),
        b"out".to_vec(),
        GRAMINE_STDERR.to_vec(),
        trace,
        energy,
        b"1,2,3".to_vec(),
    );
    assert_eq!(metrics.stdout, b"out");
    assert_eq!(metrics.stderr, GRAMINE_STDERR);
    assert_eq!(metrics.perf_output, b"1,2,3");
    assert_eq!(metrics.energy_stats.len(), 1);
    assert_eq!(metrics.energy_stats[0].name, "package-0");
    assert_eq!(metrics.energy_stats[0].samples, vec![EnergySample { timestamp: 1, energy_uj: 2 }]);
    assert_eq!(metrics.sys_write_count, 3);
    assert_eq!(metrics.sys_write_avg, 333);
    assert_eq!(metrics.sys_read_count, 4);
    assert_eq!(metrics.sys_read_avg, 250);
    assert_eq!(metrics.disk_stats.len(), 1);
    assert_eq!(metrics.disk_stats[0].name, "sda");
    assert_eq!(metrics.disk_stats[0].perc_random, 25);
    assert_eq!(metrics.deep_stats, Some(events));
    let sgx = metrics.sgx_stats.unwrap();
    assert_eq!(sgx.eenter, 139328);
    assert_eq!(sgx.sync_signals, 72);
    assert_eq!(sgx.counters, counters);
}

#[test]
fn metrics_outside_an_enclave_have_no_sgx_stats() {
    let trace = TraceResult {
        mem_counters: vec![],
        disk_counters: vec![],
        sgx_counters: None,
        deep_stats: None,
    };
    let metrics =
        collect_metrics(&[], vec![], GRAMINE_STDERR.to_vec(), trace, vec![], vec![]);
    assert!(metrics.sgx_stats.is_none());
}
