use enclave_benchmark::metrics::Metrics;
use enclave_benchmark::output::{csv_rows_of, deep_stats_csv, energy_csv, io_metrics_csv};
use enclave_benchmark::stats::{
    DeepTraceEvent, DiskStats, EnergySample, LowLevelSgxCounters, SGXStats,
};

fn metrics() -> Metrics {
    Metrics {
        energy_stats: vec![],
        stdout: vec![],
        stderr: vec![],
        perf_output: vec![],
        sys_write_count: 3,
        sys_write_avg: 333,
        sys_read_count: 4,
        sys_read_avg: 250,
        disk_stats: vec![],
        sgx_stats: None,
        deep_stats: None,
    }
}

#[test]
fn io_file_of_a_native_run() {
    assert_eq!(
        io_metrics_csv(&metrics()),
        "dimension,unit,value,description\n\
         sys_read,#,4,\n\
         sys_read,ns,250,\n\
         sys_write,#,3,\n\
         sys_write,ns,333,\n"
    );
}

#[test]
fn io_file_of_an_enclave_run_with_disks() {
    let mut m = metrics();
    m.sgx_stats = Some(SGXStats {
        eenter: 9,
        eexit: 9,
        aexit: 9,
        sync_signals: 9,
        async_signals: 9,
        counters: LowLevelSgxCounters { encl_load_page: 1, encl_wb: 2, vma_access: 3, vma_fault: 4 },
    });
    m.disk_stats = vec![
        DiskStats { name: "sda".to_string(), bytes: 4096, perc_random: 25, perc_seq: 75 },
        DiskStats { name: "unknown device".to_string(), bytes: 0, perc_random: 0, perc_seq: 0 },
    ];
    assert_eq!(
        io_metrics_csv(&m),
        "dimension,unit,value,description\n\
         sgx_encl_load_page,#,1,\n\
         sgx_encl_wb,#,2,\n\
         sgx_vma_access,#,3,\n\
         sgx_vma_fault,#,4,\n\
         sys_read,#,4,\n\
         sys_read,ns,250,\n\
         sys_write,#,3,\n\
         sys_write,ns,333,\n\
         disk_write_seq,%,75,sda\n\
         disk_write_rand,%,25,sda\n\
         disk_tot_written_bytes,%,4096,sda\n\
         disk_write_seq,%,0,unknown device\n\
         disk_write_rand,%,0,unknown device\n\
         disk_tot_written_bytes,%,0,unknown device\n"
    );
}

#[test]
fn energy_file() {
    let samples = vec![
        EnergySample { timestamp: 1000, energy_uj: 5 },
        EnergySample { timestamp: 2000, energy_uj: 7 },
    ];
    assert_eq!(energy_csv(&samples), "timestamp (ns),energy (microjoule)\n1000,5\n2000,7");
    assert_eq!(energy_csv(&vec![]), "timestamp (ns),energy (microjoule)\n");
}

#[test]
fn trace_file() {
    let events = vec![
        DeepTraceEvent { ev_type: 6, timestamp: 10 },
        DeepTraceEvent { ev_type: 99, timestamp: 11 },
        DeepTraceEvent { ev_type: 0, timestamp: 12 },
    ];
    assert_eq!(
        deep_stats_csv(&events),
        "timestamp (ns),event\n10,disk-read\n11,unknown\n12,sys-read"
    );
    assert_eq!(deep_stats_csv(&vec![]), "timestamp (ns),event\n");
}

#[test]
fn rows_of_a_list_follow_each_other() {
    let samples = vec![
        EnergySample { timestamp: 1, energy_uj: 2 },
        EnergySample { timestamp: 3, energy_uj: 4 },
    ];
    assert_eq!(csv_rows_of(&samples), vec!["1,2", "3,4"]);
    assert_eq!(csv_rows_of(&Vec::<EnergySample>::new()), Vec::<String>::new());
}
