use enclave_benchmark::stats::{
    partition_name, DeepTraceEvent, DiskStats, EnergySample, LowLevelSgxCounters, Partition,
    SGXStats, ToCsv,
};

#[test]
fn test_partition_from_string() {
    let raw = r#" 259        0  250059096 nvme0n1"#;
    let partition = Partition::from_str(raw);

    assert_eq!(partition.name, "nvme0n1");
    assert_eq!(partition.dev, 271581184);
}

#[test]
fn partition_device_id_combines_major_and_minor() {
    let partition = Partition::from_str("8 17 976760832 sdb1");
    assert_eq!(partition.name, "sdb1");
    assert_eq!(partition.dev, (8 << 20) | 17);
    assert_eq!(partition.dev, 8388625);
}

#[test]
fn partition_parse_accepts_what_from_str_accepts() {
    let partition = Partition::parse("\t259 3\t224367616   nvme0n1p3  ").unwrap();
    assert_eq!(partition.name, "nvme0n1p3");
    assert_eq!(partition.dev, 271581187);
}

#[test]
fn partition_parse_rejects_other_lines() {
    assert!(Partition::parse("").is_none());
    assert!(Partition::parse("   ").is_none());
    assert!(Partition::parse("259 0 250059096").is_none());
    assert!(Partition::parse("259 0 250059096 nvme0n1 extra").is_none());
    assert!(Partition::parse("major minor  #blocks  name").is_none());
    assert!(Partition::parse("-1 0 250059096 nvme0n1").is_none());
    assert!(Partition::parse("259 x 250059096 nvme0n1").is_none());
    assert!(Partition::parse("4294967296 0 1 big").is_none());
}

#[test]
fn partition_parse_does_not_read_the_block_count() {
    let partition = Partition::parse("8 0 many sda").unwrap();
    assert_eq!(partition.name, "sda");
    assert_eq!(partition.dev, 8388608);
}

#[test]
fn partition_parse_takes_a_plus_sign_and_leading_zeros() {
    let partition = Partition::parse("+8 0001 1 sda1").unwrap();
    assert_eq!(partition.dev, 8388609);
}

#[test]
fn partition_major_wraps_at_thirty_two_bits() {
    let partition = Partition::parse("4096 5 1 odd").unwrap();
    assert_eq!(partition.dev, 5);
}

#[test]
fn partition_listing_skips_header_and_empty_lines() {
    let listing = b"major minor  #blocks  name\n\n 259        0  250059096 nvme0n1\n 259        1     524288 nvme0n1p1\n   8        0  976762584 sda\n";
    let partitions = Partition::parse_listing(listing).unwrap();
    assert_eq!(partitions.len(), 3);
    assert_eq!(partitions[0].name, "nvme0n1");
    assert_eq!(partitions[0].dev, 271581184);
    assert_eq!(partitions[1].name, "nvme0n1p1");
    assert_eq!(partitions[1].dev, 271581185);
    assert_eq!(partitions[2].name, "sda");
    assert_eq!(partitions[2].dev, 8388608);
}

#[test]
fn partition_listing_of_nothing_is_empty() {
    assert_eq!(Partition::parse_listing(b"").unwrap().len(), 0);
    assert_eq!(Partition::parse_listing(b"major minor  #blocks  name\n").unwrap().len(), 0);
}

#[test]
fn partition_listing_takes_carriage_returns_and_a_last_line_without_end() {
    let partitions = Partition::parse_listing(b"8 0 1 sda\r\n8 1 1 sda1").unwrap();
    assert_eq!(partitions.len(), 2);
    assert_eq!(partitions[0].name, "sda");
    assert_eq!(partitions[1].name, "sda1");
}

#[test]
fn partition_listing_fails_on_a_line_that_is_no_device() {
    assert!(Partition::parse_listing(b"8 0 1 sda\nnonsense\n").is_none());
    assert!(Partition::parse_listing(b"8 0 1 sda\n   \n").is_none());
}

#[test]
fn partition_listing_stops_at_bytes_that_are_no_text() {
    let partitions = Partition::parse_listing(b"8 0 1 sda\n\xff\xfe\n8 1 1 sda1\n").unwrap();
    assert_eq!(partitions.len(), 1);
    assert_eq!(partitions[0].name, "sda");
}

fn sample_partitions() -> Vec<Partition> {
    vec![
        Partition { name: "nvme0n1".to_string(), dev: 271581184 },
        Partition { name: "sda".to_string(), dev: 8388608 },
        Partition { name: "shadow".to_string(), dev: 8388608 },
    ]
}

#[test]
fn partition_lookup_finds_the_first_match() {
    let partitions = sample_partitions();
    assert_eq!(partition_name(&partitions, 271581184), "nvme0n1");
    assert_eq!(partition_name(&partitions, 8388608), "sda");
}

#[test]
fn partition_lookup_of_unseen_device_is_unknown() {
    let partitions = sample_partitions();
    assert_eq!(partition_name(&partitions, 1), "unknown device");
    assert_eq!(partition_name(&partitions, u32::MAX), "unknown device");
    assert_eq!(partition_name(&[], 271581184), "unknown device");
}

#[test]
fn deep_trace_event_labels() {
    let labels = [
        "sys-read",
        "sys-write",
        "mm-page-alloc",
        "mm-page-free",
        "kmalloc",
        "kfree",
        "disk-read",
        "disk-write",
    ];
    for (ev_type, label) in labels.iter().enumerate() {
        let event = DeepTraceEvent { ev_type: ev_type as u32, timestamp: 0 };
        assert_eq!(event.label(), *label);
    }
    assert_eq!(DeepTraceEvent { ev_type: 8, timestamp: 0 }.label(), "unknown");
    assert_eq!(DeepTraceEvent { ev_type: 99, timestamp: 0 }.label(), "unknown");
    assert_eq!(DeepTraceEvent { ev_type: u32::MAX, timestamp: 0 }.label(), "unknown");
}

#[test]
fn deep_trace_event_renders_its_kind() {
    let read = DeepTraceEvent { ev_type: 6, timestamp: 1700000000123 };
    assert_eq!(read.to_csv_rows(), vec!["1700000000123,disk-read".to_string()]);
    let other = DeepTraceEvent { ev_type: 99, timestamp: 0 };
    assert_eq!(other.to_csv_rows(), vec!["0,unknown".to_string()]);
}

#[test]
fn disk_stats_rows() {
    let stats = DiskStats { name: "sda".to_string(), bytes: 4096, perc_random: 25, perc_seq: 75 };
    assert_eq!(
        stats.to_csv_rows(),
        vec![
            "disk_write_seq,%,75,sda".to_string(),
            "disk_write_rand,%,25,sda".to_string(),
            "disk_tot_written_bytes,%,4096,sda".to_string(),
        ]
    );
}

#[test]
fn low_level_counter_rows() {
    let counters =
        LowLevelSgxCounters { encl_load_page: 1, encl_wb: 20, vma_access: 300, vma_fault: u64::MAX };
    assert_eq!(
        counters.to_csv_rows(),
        vec![
            "sgx_encl_load_page,#,1,".to_string(),
            "sgx_encl_wb,#,20,".to_string(),
            "sgx_vma_access,#,300,".to_string(),
            "sgx_vma_fault,#,18446744073709551615,".to_string(),
        ]
    );
}

#[test]
fn sgx_stats_rows() {
    let stats = SGXStats {
        eenter: 139328,
        eexit: 139250,
        aexit: 5377,
        sync_signals: 72,
        async_signals: 0,
        counters: LowLevelSgxCounters { encl_load_page: 1, encl_wb: 2, vma_access: 3, vma_fault: 4 },
    };
    assert_eq!(
        stats.to_csv_rows(),
        vec![
            "sgx_enter,#,139328,".to_string(),
            "sgx_eexit,#,139250,".to_string(),
            "sgx_aexit,#,5377,".to_string(),
            "sgx_sync_signals,#,72,".to_string(),
            "sgx_async_signals,#,0,".to_string(),
            "sgx_encl_load_page,#,1,".to_string(),
            "sgx_encl_wb,#,2,".to_string(),
            "sgx_vma_access,#,3,".to_string(),
            "sgx_vma_fault,#,4,".to_string(),
        ]
    );
}

#[test]
fn defaults_are_all_zero() {
    let stats = SGXStats::default();
    assert_eq!(stats.eenter, 0);
    assert_eq!(stats.eexit, 0);
    assert_eq!(stats.aexit, 0);
    assert_eq!(stats.sync_signals, 0);
    assert_eq!(stats.async_signals, 0);
    assert_eq!(stats.counters, LowLevelSgxCounters::default());
    assert_eq!(
        LowLevelSgxCounters::default(),
        LowLevelSgxCounters { encl_load_page: 0, encl_wb: 0, vma_access: 0, vma_fault: 0 }
    );
}

#[test]
fn energy_sample_row() {
    let sample = EnergySample { timestamp: 1700000000000000000, energy_uj: 52342 };
    assert_eq!(sample.to_csv_rows(), vec!["1700000000000000000,52342".to_string()]);
    let late = EnergySample { timestamp: u128::MAX, energy_uj: 0 };
    assert_eq!(
        late.to_csv_rows(),
        vec!["340282366920938463463374607431768211455,0".to_string()]
    );
}
