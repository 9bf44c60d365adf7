use osh_tools::codec::UtcTime;
use osh_tools::device_store::{
    ConfigError, DeviceInfo, DeviceStatus, DeviceStore, DevicesConfig, LoadError, StoreError,
};

fn now() -> UtcTime {
    let t = chrono::Utc::now();
    UtcTime { secs: t.timestamp(), nanos: t.timestamp_subsec_nanos() }
}

fn device(id: &str, alias: Option<&str>, name: &str, status: DeviceStatus) -> DeviceInfo {
    DeviceInfo {
        device_id: id.to_string(),
        alias: alias.map(|a| a.to_string()),
        device_name: name.to_string(),
        platform: "linux".to_string(),
        shell: "bash".to_string(),
        status,
        created_at: UtcTime { secs: 1_700_000_000, nanos: 0 },
        last_seen: UtcTime { secs: 1_700_000_000, nanos: 0 },
    }
}

fn store_with(devices: Vec<DeviceInfo>, max: usize) -> DeviceStore {
    let config = DevicesConfig { max_devices: max, secret_key: "s3cret".to_string(), devices };
    DeviceStore::new("devices.json", Some(config)).unwrap()
}

#[test]
fn test_validate_config_duplicate_id() {
    let config = DevicesConfig {
        max_devices: 10,
        secret_key: "test".to_string(),
        devices: vec![
            DeviceInfo {
                device_id: "same-id".to_string(),
                alias: None,
                device_name: "Device 1".to_string(),
                platform: "windows".to_string(),
                shell: "powershell".to_string(),
                status: DeviceStatus::Approved,
                created_at: now(),
                last_seen: now(),
            },
            DeviceInfo {
                device_id: "same-id".to_string(),
                alias: None,
                device_name: "Device 2".to_string(),
                platform: "linux".to_string(),
                shell: "bash".to_string(),
                status: DeviceStatus::Pending,
                created_at: now(),
                last_seen: now(),
            },
        ],
    };

    let result = DeviceStore::validate_config(&config);
    assert!(result.is_err());
    assert!(result.unwrap_err().message().contains("Duplicate device_id"));
}

#[test]
fn test_validate_config_duplicate_alias() {
    let config = DevicesConfig {
        max_devices: 10,
        secret_key: "test".to_string(),
        devices: vec![
            DeviceInfo {
                device_id: "id-1".to_string(),
                alias: Some("mypc".to_string()),
                device_name: "Device 1".to_string(),
                platform: "windows".to_string(),
                shell: "powershell".to_string(),
                status: DeviceStatus::Approved,
                created_at: now(),
                last_seen: now(),
            },
            DeviceInfo {
                device_id: "id-2".to_string(),
                alias: Some("mypc".to_string()),
                device_name: "Device 2".to_string(),
                platform: "linux".to_string(),
                shell: "bash".to_string(),
                status: DeviceStatus::Pending,
                created_at: now(),
                last_seen: now(),
            },
        ],
    };

    let result = DeviceStore::validate_config(&config);
    assert!(result.is_err());
    assert!(result.unwrap_err().message().contains("Duplicate alias"));
}

#[test]
fn duplicate_id_message_names_both_devices() {
    let config = DevicesConfig {
        max_devices: 10,
        secret_key: "k".to_string(),
        devices: vec![
            device("a", None, "First", DeviceStatus::Approved),
            device("b", None, "Other", DeviceStatus::Approved),
            device("a", None, "Second", DeviceStatus::Pending),
        ],
    };
    match DeviceStore::validate_config(&config) {
        Err(e) => {
            assert_eq!(e.message(), "Duplicate device_id 'a': found in 'First' and 'Second'");
            assert!(matches!(e, ConfigError::DuplicateDeviceId { .. }));
        }
        Ok(()) => panic!("duplicate accepted"),
    }
}

#[test]
fn duplicate_alias_message_names_both_devices() {
    let config = DevicesConfig {
        max_devices: 10,
        secret_key: "k".to_string(),
        devices: vec![
            device("a", Some("pc"), "First", DeviceStatus::Approved),
            device("b", Some("pc"), "Second", DeviceStatus::Pending),
        ],
    };
    let e = DeviceStore::validate_config(&config).unwrap_err();
    assert_eq!(e.message(), "Duplicate alias 'pc': found in 'First' and 'Second'");
}

#[test]
fn valid_config_passes() {
    let config = DevicesConfig {
        max_devices: 10,
        secret_key: "k".to_string(),
        devices: vec![
            device("a", Some("x"), "A", DeviceStatus::Approved),
            device("b", Some("y"), "B", DeviceStatus::Pending),
            device("c", None, "C", DeviceStatus::Rejected),
        ],
    };
    assert!(DeviceStore::validate_config(&config).is_ok());
}

#[test]
fn missing_file_gives_default_config() {
    let store = DeviceStore::new("devices.json", None).unwrap();
    assert_eq!(store.get_max_devices(), 10);
    assert_eq!(store.get_secret_key(), "change-me-in-production");
    assert_eq!(store.get_device_count(), 0);
    let d = DevicesConfig::default();
    assert_eq!(d.max_devices, 10);
    assert_eq!(d.secret_key, "change-me-in-production");
    assert!(d.devices.is_empty());
}

#[test]
fn find_device_prefers_exact_id_then_alias_then_unique_prefix() {
    let store = store_with(
        vec![
            device("abc123", Some("home"), "Home", DeviceStatus::Approved),
            device("abd456", Some("abc123x"), "Work", DeviceStatus::Pending),
            device("zzz", Some("abc123"), "Alias clash", DeviceStatus::Pending),
        ],
        10,
    );
    // exact id wins over an alias with the same text
    assert_eq!(store.find_device("abc123").unwrap().device_name, "Home");
    // alias
    assert_eq!(store.find_device("abc123x").unwrap().device_name, "Work");
    assert_eq!(store.find_device("home").unwrap().device_id, "abc123");
    // unique prefix
    assert_eq!(store.find_device("abd").unwrap().device_id, "abd456");
    // ambiguous prefix
    assert!(store.find_device("ab").is_none());
    assert!(store.find_device("nothing").is_none());
}

#[test]
fn get_device_by_id_is_exact() {
    let store = store_with(vec![device("abc123", Some("home"), "Home", DeviceStatus::Approved)], 10);
    assert!(store.get_device_by_id("abc").is_none());
    assert!(store.get_device_by_id("home").is_none());
    assert_eq!(store.get_device_by_id("abc123").unwrap().device_name, "Home");
    assert!(store.device_exists("abc123"));
    assert!(!store.device_exists("abc"));
}

#[test]
fn upsert_adds_then_updates_keeping_status_and_alias() {
    let mut store = store_with(vec![], 10);
    let mut d = device("dev1", Some("pc"), "Old name", DeviceStatus::Approved);
    assert!(store.upsert_device(d.clone()).is_ok());
    assert_eq!(store.get_device_count(), 1);

    d.device_name = "New name".to_string();
    d.alias = None;
    d.status = DeviceStatus::Rejected;
    d.last_seen = UtcTime { secs: 1_800_000_000, nanos: 5 };
    assert!(store.upsert_device(d).is_ok());
    assert_eq!(store.get_device_count(), 1);
    let got = store.get_device_by_id("dev1").unwrap();
    assert_eq!(got.device_name, "New name");
    assert_eq!(got.alias.as_deref(), Some("pc"));
    assert_eq!(got.status, DeviceStatus::Approved);
    assert_eq!(got.last_seen, UtcTime { secs: 1_800_000_000, nanos: 5 });
}

#[test]
fn upsert_refuses_new_device_beyond_limit() {
    let mut store = store_with(vec![device("a", None, "A", DeviceStatus::Pending)], 1);
    let r = store.upsert_device(device("b", None, "B", DeviceStatus::Pending));
    assert_eq!(r, Err(StoreError::DeviceLimitReached));
    assert_eq!(store.get_device_count(), 1);
    // an existing device can still be updated at the limit
    assert!(store.upsert_device(device("a", None, "A2", DeviceStatus::Pending)).is_ok());
    assert_eq!(store.get_device_by_id("a").unwrap().device_name, "A2");
}

#[test]
fn set_last_seen_only_touches_known_devices() {
    let mut store = store_with(vec![device("a", None, "A", DeviceStatus::Pending)], 10);
    let t = UtcTime { secs: 42, nanos: 7 };
    assert!(store.set_last_seen("a", t));
    assert_eq!(store.get_device_by_id("a").unwrap().last_seen, t);
    assert!(!store.set_last_seen("b", t));
    assert!(store.update_last_seen("a"));
    assert!(!store.update_last_seen("b"));
}

#[test]
fn approval_and_listing() {
    let store = store_with(
        vec![
            device("a", None, "A", DeviceStatus::Approved),
            device("b", None, "B", DeviceStatus::Pending),
        ],
        10,
    );
    assert!(store.is_device_approved("a"));
    assert!(!store.is_device_approved("b"));
    assert!(!store.is_device_approved("c"));
    let all = store.get_all_devices();
    assert_eq!(all.len(), 2);
    assert_eq!(all[0].device_id, "a");
    assert_eq!(all[1].device_id, "b");
}

#[test]
fn reload_replaces_or_keeps_config() {
    let mut store = store_with(vec![device("a", None, "A", DeviceStatus::Approved)], 10);
    let next = DevicesConfig {
        max_devices: 3,
        secret_key: "other".to_string(),
        devices: vec![
            device("x", None, "X", DeviceStatus::Pending),
            device("y", None, "Y", DeviceStatus::Pending),
        ],
    };
    assert_eq!(store.reload(Ok(Some(next))).unwrap(), 2);
    assert_eq!(store.get_secret_key(), "other");

    let bad = DevicesConfig {
        max_devices: 3,
        secret_key: "bad".to_string(),
        devices: vec![
            device("x", None, "X", DeviceStatus::Pending),
            device("x", None, "X2", DeviceStatus::Pending),
        ],
    };
    match store.reload(Ok(Some(bad))) {
        Err(LoadError::Invalid(e)) => assert!(e.message().contains("Duplicate device_id")),
        _ => panic!("invalid config accepted"),
    }
    assert_eq!(store.get_secret_key(), "other");
    assert_eq!(store.get_device_count(), 2);

    match store.reload(Err("Failed to read devices.json".to_string())) {
        Err(e) => assert_eq!(e.message(), "Failed to read devices.json"),
        Ok(_) => panic!("read error ignored"),
    }
    assert_eq!(store.get_device_count(), 2);

    assert_eq!(store.reload(Ok(None)).unwrap(), 0);
    assert_eq!(store.get_secret_key(), "change-me-in-production");
}
