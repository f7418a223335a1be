use enclave_benchmark::records::{ByteOrder, DiskCounter, IoCounter};
use enclave_benchmark::stats::{DeepTraceEvent, LowLevelSgxCounters};
use enclave_benchmark::tracer::{
    get_map_result, record_event, sgx_counters, trace_result, trace_step, DecodeError, RawEntry,
    TraceError, TraceStep,
};

fn entry(key: u32, words: &[u64]) -> RawEntry {
    let mut value = Vec::new();
    for word in words {
        value.extend_from_slice(&word.to_le_bytes());
    }
    RawEntry { key: key.to_le_bytes().to_vec(), value: Some(value) }
}

#[test]
fn probe_goes_on_until_the_stop_signal() {
    assert_eq!(trace_step(true, false), TraceStep::Poll { timeout_ms: 250 });
    assert_eq!(trace_step(false, false), TraceStep::Sleep { millis: 1000 });
    assert_eq!(trace_step(true, true), TraceStep::ReadMaps);
    assert_eq!(trace_step(false, true), TraceStep::ReadMaps);
}

#[test]
fn events_are_appended_in_order() {
    let mut events = Vec::new();
    let mut first = Vec::new();
    first.extend_from_slice(&0u32.to_le_bytes());
    first.extend_from_slice(&[0; 4]);
    first.extend_from_slice(&100u64.to_le_bytes());
    let mut second = first.clone();
    second[0] = 7;
    second[8] = 101;
    record_event(&mut events, &first, ByteOrder::Little);
    record_event(&mut events, &second, ByteOrder::Little);
    assert_eq!(
        events,
        vec![
            DeepTraceEvent { ev_type: 0, timestamp: 100 },
            DeepTraceEvent { ev_type: 7, timestamp: 101 },
        ]
    );
}

#[test]
fn short_event_records_are_passed_over() {
    let mut events = vec![DeepTraceEvent { ev_type: 1, timestamp: 1 }];
    record_event(&mut events, &[0; 15], ByteOrder::Little);
    record_event(&mut events, &[], ByteOrder::Big);
    assert_eq!(events, vec![DeepTraceEvent { ev_type: 1, timestamp: 1 }]);
}

#[test]
fn map_entries_become_samples() {
    let entries = vec![entry(1, &[4, 1000]), entry(0, &[3, 999])];
    let result = get_map_result::<IoCounter>(&entries, ByteOrder::Little).unwrap();
    assert_eq!(
        result,
        vec![
            (1, IoCounter { count: 4, total_duration: 1000 }),
            (0, IoCounter { count: 3, total_duration: 999 }),
        ]
    );
    let disks = vec![entry(8388608, &[4096, 1, 3])];
    let result = get_map_result::<DiskCounter>(&disks, ByteOrder::Little).unwrap();
    assert_eq!(result, vec![(8388608, DiskCounter { bytes: 4096, random: 1, sequential: 3 })]);
}

#[test]
fn map_entries_in_big_endian() {
    let mut value = Vec::new();
    value.extend_from_slice(&4u64.to_be_bytes());
    value.extend_from_slice(&1000u64.to_be_bytes());
    let entries = vec![RawEntry { key: 1u32.to_be_bytes().to_vec(), value: Some(value) }];
    let result = get_map_result::<IoCounter>(&entries, ByteOrder::Big).unwrap();
    assert_eq!(result, vec![(1, IoCounter { count: 4, total_duration: 1000 })]);
}

#[test]
fn map_keys_without_a_value_are_left_out() {
    let entries = vec![
        RawEntry { key: vec![9, 9, 9, 9], value: None },
        entry(0, &[3, 999]),
        RawEntry { key: vec![], value: None },
    ];
    let result = get_map_result::<IoCounter>(&entries, ByteOrder::Little).unwrap();
    assert_eq!(result, vec![(0, IoCounter { count: 3, total_duration: 999 })]);
    assert_eq!(get_map_result::<IoCounter>(&vec![], ByteOrder::Little).unwrap(), vec![]);
}

#[test]
fn map_entries_that_are_too_short_are_errors() {
    let short_key = vec![
        entry(0, &[3, 999]),
        RawEntry { key: vec![1, 0, 0], value: Some(vec![0; 16]) },
    ];
    assert_eq!(
        get_map_result::<IoCounter>(&short_key, ByteOrder::Little),
        Err(DecodeError::ShortKey)
    );
    let short_value = vec![RawEntry { key: vec![1, 0, 0, 0], value: Some(vec![0; 15]) }];
    assert_eq!(
        get_map_result::<IoCounter>(&short_value, ByteOrder::Little),
        Err(DecodeError::ShortValue)
    );
    let both = vec![RawEntry { key: vec![], value: Some(vec![]) }];
    assert_eq!(get_map_result::<DiskCounter>(&both, ByteOrder::Little), Err(DecodeError::ShortKey));
    let first_wins = vec![
        RawEntry { key: vec![1, 0, 0, 0], value: Some(vec![0; 3]) },
        RawEntry { key: vec![1], value: Some(vec![0; 24]) },
    ];
    assert_eq!(
        get_map_result::<DiskCounter>(&first_wins, ByteOrder::Little),
        Err(DecodeError::ShortValue)
    );
}

#[test]
fn enclave_counters_default_to_zero() {
    let zero = LowLevelSgxCounters { encl_load_page: 0, encl_wb: 0, vma_access: 0, vma_fault: 0 };
    assert_eq!(sgx_counters(true, None, ByteOrder::Little), Some(zero));
    assert_eq!(sgx_counters(true, Some(&[1; 31]), ByteOrder::Little), Some(zero));
    assert_eq!(sgx_counters(false, None, ByteOrder::Little), None);
    assert_eq!(sgx_counters(false, Some(&[1; 32]), ByteOrder::Little), None);
}

#[test]
fn enclave_counters_from_the_slot() {
    let mut slot = Vec::new();
    for word in [1u64, 2, 3, 4] {
        slot.extend_from_slice(&word.to_le_bytes());
    }
    assert_eq!(
        sgx_counters(true, Some(&slot), ByteOrder::Little),
        Some(LowLevelSgxCounters { encl_load_page: 1, encl_wb: 2, vma_access: 3, vma_fault: 4 })
    );
}

#[test]
fn trace_result_holds_the_four_collections() {
    let io = vec![entry(0, &[3, 999])];
    let disks = vec![entry(8388608, &[4096, 1, 3])];
    let events = vec![DeepTraceEvent { ev_type: 2, timestamp: 5 }];
    let result =
        trace_result(&io, &disks, true, None, true, events.clone(), ByteOrder::Little).unwrap();
    assert_eq!(result.mem_counters, vec![(0, IoCounter { count: 3, total_duration: 999 })]);
    assert_eq!(
        result.disk_counters,
        vec![(8388608, DiskCounter { bytes: 4096, random: 1, sequential: 3 })]
    );
    assert_eq!(result.sgx_counters, Some(LowLevelSgxCounters::default()));
    assert_eq!(result.deep_stats, Some(events));
}

#[test]
fn trace_result_of_a_target_without_io() {
    let result =
        trace_result(&vec![], &vec![], false, None, false, vec![], ByteOrder::Little).unwrap();
    assert!(result.mem_counters.is_empty());
    assert!(result.disk_counters.is_empty());
    assert!(result.sgx_counters.is_none());
    assert!(result.deep_stats.is_none());
}

#[test]
fn trace_result_errors() {
    let good_io = vec![entry(0, &[3, 999])];
    let good_disks = vec![entry(8388608, &[4096, 1, 3])];
    let bad = vec![RawEntry { key: vec![1, 0, 0, 0], value: Some(vec![0; 3]) }];
    let unknown = vec![entry(2, &[3, 999])];
    let order = ByteOrder::Little;
    assert_eq!(
        trace_result(&bad, &good_disks, false, None, false, vec![], order).err(),
        Some(TraceError::IoMap(DecodeError::ShortValue))
    );
    assert_eq!(
        trace_result(&bad, &bad, false, None, false, vec![], order).err(),
        Some(TraceError::IoMap(DecodeError::ShortValue))
    );
    assert_eq!(
        trace_result(&unknown, &bad, false, None, false, vec![], order).err(),
        Some(TraceError::UnknownOperation)
    );
    assert_eq!(
        trace_result(&good_io, &bad, false, None, false, vec![], order).err(),
        Some(TraceError::DiskMap(DecodeError::ShortValue))
    );
}

#[test]
fn trace_result_holds_events_exactly_for_a_deep_trace() {
    let events = vec![DeepTraceEvent { ev_type: 2, timestamp: 5 }];
    let order = ByteOrder::Little;
    let traced = trace_result(&vec![], &vec![], false, None, true, events.clone(), order).unwrap();
    assert_eq!(traced.deep_stats, Some(events.clone()));
    let quiet = trace_result(&vec![], &vec![], false, None, true, vec![], order).unwrap();
    assert_eq!(quiet.deep_stats, Some(vec![]));
    let plain = trace_result(&vec![], &vec![], false, None, false, events, order).unwrap();
    assert_eq!(plain.deep_stats, None);
}
