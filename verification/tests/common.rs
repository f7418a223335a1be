use enclave_benchmark::common::{
    default_energy_sample_interval, default_storage_type, storage_types_or_default, Interval,
    StorageType,
};

#[test]
fn default_interval_is_half_a_second() {
    assert_eq!(default_energy_sample_interval(), Interval { secs: 0, nanos: 500_000_000 });
}

#[test]
fn intervals_from_milliseconds() {
    assert_eq!(Interval::from_millis(0), Interval { secs: 0, nanos: 0 });
    assert_eq!(Interval::from_millis(250), Interval { secs: 0, nanos: 250_000_000 });
    assert_eq!(Interval::from_millis(1000), Interval { secs: 1, nanos: 0 });
    assert_eq!(Interval::from_millis(61_999), Interval { secs: 61, nanos: 999_000_000 });
    assert_eq!(
        Interval::from_millis(u64::MAX),
        Interval { secs: 18446744073709551, nanos: 615_000_000 }
    );
}

#[test]
fn intervals_agree_with_the_standard_library() {
    for millis in [0u64, 1, 500, 999, 1000, 1001, 86_400_000, u64::MAX] {
        let interval = Interval::from_millis(millis);
        let duration = std::time::Duration::from_millis(millis);
        assert_eq!(interval.secs, duration.as_secs());
        assert_eq!(interval.nanos, duration.subsec_nanos());
    }
}

#[test]
fn default_storage_is_untrusted() {
    assert_eq!(default_storage_type(), vec![StorageType::Untrusted]);
}

#[test]
fn storage_types_default_where_none_are_named() {
    assert_eq!(storage_types_or_default(None), vec![StorageType::Untrusted]);
    assert_eq!(storage_types_or_default(Some(vec![])), vec![StorageType::Untrusted]);
    assert_eq!(
        storage_types_or_default(Some(vec![StorageType::Encrypted])),
        vec![StorageType::Encrypted]
    );
    assert_eq!(
        storage_types_or_default(Some(vec![StorageType::Tmpfs, StorageType::Tmpfs])),
        vec![StorageType::Tmpfs, StorageType::Tmpfs]
    );
}

#[test]
fn storage_type_names() {
    assert_eq!(StorageType::Encrypted.name(), "encrypted");
    assert_eq!(StorageType::Tmpfs.name(), "tmpfs");
    assert_eq!(StorageType::Untrusted.name(), "untrusted");
    assert_eq!(StorageType::Encrypted.to_string(), "encrypted");
    assert_eq!(StorageType::Tmpfs.to_string(), "tmpfs");
    assert_eq!(StorageType::Untrusted.to_string(), "untrusted");
}

#[test]
fn storage_mount_points() {
    assert_eq!(StorageType::Encrypted.mount_point(), "/encrypted/");
    assert_eq!(StorageType::Untrusted.mount_point(), "/untrusted/");
    assert_eq!(StorageType::Tmpfs.mount_point(), "/tmp/");
}
