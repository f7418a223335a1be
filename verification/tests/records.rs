use enclave_benchmark::records::{
    decode_key, read_u32, read_u64, tracer_settings, write_u32, ByteOrder, DiskCounter, IoCounter,
    Record,
};
use enclave_benchmark::stats::{DeepTraceEvent, LowLevelSgxCounters};

#[test]
fn fields_in_both_byte_orders() {
    let bytes = [0x01, 0x02, 0x03, 0x04, 0x05, 0x06, 0x07, 0x08, 0x09];
    assert_eq!(read_u32(&bytes, 0, ByteOrder::Little), 0x04030201);
    assert_eq!(read_u32(&bytes, 0, ByteOrder::Big), 0x01020304);
    assert_eq!(read_u32(&bytes, 5, ByteOrder::Little), 0x09080706);
    assert_eq!(read_u64(&bytes, 0, ByteOrder::Little), 0x0807060504030201);
    assert_eq!(read_u64(&bytes, 0, ByteOrder::Big), 0x0102030405060708);
    assert_eq!(read_u64(&bytes, 1, ByteOrder::Big), 0x0203040506070809);
}

#[test]
fn fields_agree_with_the_standard_library() {
    let values = [0u64, 1, 255, 256, 0xDEADBEEF, 0x0123456789ABCDEF, u64::MAX];
    for value in values {
        assert_eq!(read_u64(&value.to_le_bytes(), 0, ByteOrder::Little), value);
        assert_eq!(read_u64(&value.to_be_bytes(), 0, ByteOrder::Big), value);
        let short = value as u32;
        assert_eq!(read_u32(&short.to_le_bytes(), 0, ByteOrder::Little), short);
        assert_eq!(read_u32(&short.to_be_bytes(), 0, ByteOrder::Big), short);
    }
}

fn words(values: &[u64], order: ByteOrder) -> Vec<u8> {
    let mut bytes = Vec::new();
    for value in values {
        match order {
            ByteOrder::Little => bytes.extend_from_slice(&value.to_le_bytes()),
            ByteOrder::Big => bytes.extend_from_slice(&value.to_be_bytes()),
        }
    }
    bytes
}

#[test]
fn io_counter_from_bytes() {
    for order in [ByteOrder::Little, ByteOrder::Big] {
        let bytes = words(&[12, 3456], order);
        assert_eq!(
            IoCounter::decode(&bytes, order),
            Some(IoCounter { count: 12, total_duration: 3456 })
        );
    }
}

#[test]
fn io_counter_needs_sixteen_bytes() {
    let bytes = words(&[12, 3456], ByteOrder::Little);
    assert_eq!(IoCounter::decode(&bytes[..15], ByteOrder::Little), None);
    assert_eq!(IoCounter::decode(&[], ByteOrder::Little), None);
    let mut long = bytes.clone();
    long.push(0xAA);
    assert_eq!(
        IoCounter::decode(&long, ByteOrder::Little),
        Some(IoCounter { count: 12, total_duration: 3456 })
    );
}

#[test]
fn io_counter_average() {
    assert_eq!(IoCounter { count: 4, total_duration: 1000 }.average_duration(), 250);
    assert_eq!(IoCounter { count: 3, total_duration: 1000 }.average_duration(), 333);
    assert_eq!(IoCounter { count: 1000, total_duration: 999 }.average_duration(), 0);
    assert_eq!(IoCounter { count: 1, total_duration: u64::MAX }.average_duration(), u64::MAX);
}

#[test]
fn io_counter_average_without_calls_is_zero() {
    assert_eq!(IoCounter { count: 0, total_duration: 0 }.average_duration(), 0);
    assert_eq!(IoCounter { count: 0, total_duration: 1000 }.average_duration(), 0);
    assert_eq!(IoCounter { count: 0, total_duration: u64::MAX }.average_duration(), 0);
}

#[test]
fn disk_counter_from_bytes() {
    for order in [ByteOrder::Little, ByteOrder::Big] {
        let bytes = words(&[4096, 1, 3], order);
        assert_eq!(
            DiskCounter::decode(&bytes, order),
            Some(DiskCounter { bytes: 4096, random: 1, sequential: 3 })
        );
        assert_eq!(DiskCounter::decode(&bytes[..23], order), None);
    }
}

#[test]
fn disk_counter_percentages() {
    let counter = DiskCounter { bytes: 0, random: 1, sequential: 3 };
    assert_eq!(counter.perc_random(), 25);
    assert_eq!(counter.perc_seq(), 75);
    let thirds = DiskCounter { bytes: 0, random: 1, sequential: 2 };
    assert_eq!(thirds.perc_random(), 33);
    assert_eq!(thirds.perc_seq(), 66);
    let all = DiskCounter { bytes: 0, random: 7, sequential: 0 };
    assert_eq!(all.perc_random(), 100);
    assert_eq!(all.perc_seq(), 0);
}

#[test]
fn disk_counter_percentages_without_accesses_are_zero() {
    for bytes in [0, 1, u64::MAX] {
        let counter = DiskCounter { bytes, random: 0, sequential: 0 };
        assert_eq!(counter.perc_random(), 0);
        assert_eq!(counter.perc_seq(), 0);
    }
}

#[test]
fn disk_counter_percentages_of_large_counts() {
    let counter = DiskCounter { bytes: 0, random: u64::MAX, sequential: u64::MAX };
    assert_eq!(counter.perc_random(), 50);
    assert_eq!(counter.perc_seq(), 50);
    let skewed = DiskCounter { bytes: 0, random: u64::MAX, sequential: 1 };
    assert_eq!(skewed.perc_random(), 99);
    assert_eq!(skewed.perc_seq(), 0);
}

#[test]
fn sgx_counters_from_bytes() {
    for order in [ByteOrder::Little, ByteOrder::Big] {
        let bytes = words(&[1, 2, 3, u64::MAX], order);
        assert_eq!(
            LowLevelSgxCounters::decode(&bytes, order),
            Some(LowLevelSgxCounters {
                encl_load_page: 1,
                encl_wb: 2,
                vma_access: 3,
                vma_fault: u64::MAX
            })
        );
        assert_eq!(LowLevelSgxCounters::decode(&bytes[..31], order), None);
    }
}

#[test]
fn deep_trace_event_from_bytes() {
    let mut bytes = Vec::new();
    bytes.extend_from_slice(&6u32.to_le_bytes());
    bytes.extend_from_slice(&[0xEE; 4]);
    bytes.extend_from_slice(&1700000000123u64.to_le_bytes());
    assert_eq!(
        DeepTraceEvent::decode(&bytes, ByteOrder::Little),
        Some(DeepTraceEvent { ev_type: 6, timestamp: 1700000000123 })
    );
    assert_eq!(DeepTraceEvent::decode(&bytes[..15], ByteOrder::Little), None);

    let mut big = Vec::new();
    big.extend_from_slice(&7u32.to_be_bytes());
    big.extend_from_slice(&[0; 4]);
    big.extend_from_slice(&5u64.to_be_bytes());
    assert_eq!(
        DeepTraceEvent::decode(&big, ByteOrder::Big),
        Some(DeepTraceEvent { ev_type: 7, timestamp: 5 })
    );
}

#[test]
fn keys_from_bytes() {
    assert_eq!(decode_key(&271581184u32.to_le_bytes(), ByteOrder::Little), Some(271581184));
    assert_eq!(decode_key(&271581184u32.to_be_bytes(), ByteOrder::Big), Some(271581184));
    assert_eq!(decode_key(&[1, 0, 0], ByteOrder::Little), None);
    assert_eq!(decode_key(&[1, 0, 0, 0, 9, 9], ByteOrder::Little), Some(1));
}

#[test]
fn numbers_are_written_in_both_byte_orders() {
    assert_eq!(write_u32(0x04030201, ByteOrder::Little), vec![1, 2, 3, 4]);
    assert_eq!(write_u32(0x04030201, ByteOrder::Big), vec![4, 3, 2, 1]);
    assert_eq!(write_u32(0, ByteOrder::Little), vec![0, 0, 0, 0]);
    assert_eq!(write_u32(u32::MAX, ByteOrder::Big), vec![255, 255, 255, 255]);
}

#[test]
fn written_numbers_read_back() {
    for value in [0u32, 1, 255, 256, 65535, 65536, 4242, 0xDEADBEEF, u32::MAX] {
        for order in [ByteOrder::Little, ByteOrder::Big] {
            assert_eq!(read_u32(&write_u32(value, order), 0, order), value);
        }
        assert_eq!(write_u32(value, ByteOrder::Little), value.to_le_bytes());
        assert_eq!(write_u32(value, ByteOrder::Big), value.to_be_bytes());
    }
}

#[test]
fn tracer_settings_hold_the_process_and_the_kind_of_trace() {
    assert_eq!(tracer_settings(4242, false, ByteOrder::Little), vec![0x92, 0x10, 0, 0, 0, 0, 0, 0]);
    assert_eq!(tracer_settings(4242, true, ByteOrder::Little), vec![0x92, 0x10, 0, 0, 1, 0, 0, 0]);
    assert_eq!(tracer_settings(4242, true, ByteOrder::Big), vec![0, 0, 0x10, 0x92, 1, 0, 0, 0]);
    assert_eq!(tracer_settings(0, false, ByteOrder::Big), vec![0; 8]);
    let pid: u32 = 70000;
    let mut expected = (pid as i32).to_le_bytes().to_vec();
    expected.extend_from_slice(&[1, 0, 0, 0]);
    assert_eq!(tracer_settings(pid, true, ByteOrder::Little), expected);
}
