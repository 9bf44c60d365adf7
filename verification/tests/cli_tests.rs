use osh_tools::cli_config::{
    load_config, reload_reply_outcome, remove_device_entry, set_device_alias, set_device_status,
    AdminError, ConfigError, ReloadFailure, StatusChange,
};
use osh_tools::cli_exec::{exec_step, exec_tick, ExecStep, ExecTick};
use osh_tools::cli_listing::{format_device_list, listing_order};
use osh_tools::cli_protocol::{
    decode_and_filter_payload, Device, DeviceStatus, DevicesConfig, ExecRequest, HeartbeatMessage,
    InputMessage, RelayResponse, ResizeMessage,
};
use osh_tools::codec::{decode_payload, encode_payload, PayloadError};

fn dev(id: &str, alias: Option<&str>, status: DeviceStatus, created: &str) -> Device {
    Device {
        device_id: id.to_string(),
        alias: alias.map(|a| a.to_string()),
        device_name: format!("n-{}", id),
        platform: "linux".to_string(),
        shell: "bash".to_string(),
        status,
        created_at: created.to_string(),
        last_seen: "2024-01-01T00:00:00.000000Z".to_string(),
    }
}

fn config(devices: Vec<Device>) -> DevicesConfig {
    DevicesConfig { max_devices: 5, secret_key: "k".to_string(), devices }
}

#[test]
fn find_device_tries_alias_then_id_then_unique_prefix() {
    let c = config(vec![
        dev("abc123", Some("home"), DeviceStatus::Approved, "1"),
        dev("abd456", Some("abc123"), DeviceStatus::Pending, "2"),
    ]);
    // an alias wins over a device id with the same text
    assert_eq!(c.find_device("abc123").unwrap().device_id, "abd456");
    assert_eq!(c.find_device("home").unwrap().device_id, "abc123");
    assert_eq!(c.find_device("abd456").unwrap().device_id, "abd456");
    assert_eq!(c.find_device("abd").unwrap().device_id, "abd456");
    assert!(c.find_device("ab").is_none());
    assert!(c.find_device("x").is_none());
    assert!(c.is_alias_used("home"));
    assert!(!c.is_alias_used("abd456"));
}

#[test]
fn remove_and_mutate_devices() {
    let mut c = config(vec![
        dev("abc123", Some("home"), DeviceStatus::Approved, "1"),
        dev("zzz", None, DeviceStatus::Pending, "2"),
    ]);
    c.find_device_mut("zz").unwrap().status = DeviceStatus::Rejected;
    assert_eq!(c.devices[1].status, DeviceStatus::Rejected);
    let removed = c.remove_device("home").unwrap();
    assert_eq!(removed.device_id, "abc123");
    assert_eq!(c.devices.len(), 1);
    assert!(c.remove_device("home").is_none());
}

#[test]
fn approve_and_reject() {
    let mut c = config(vec![dev("abc123", None, DeviceStatus::Pending, "1")]);
    match set_device_status(&mut c, "abc", DeviceStatus::Approved) {
        Ok(StatusChange::Changed(id)) => assert_eq!(id, "abc123"),
        other => panic!("unexpected {:?}", other),
    }
    assert_eq!(c.devices[0].status, DeviceStatus::Approved);
    match set_device_status(&mut c, "abc123", DeviceStatus::Approved) {
        Ok(StatusChange::AlreadySet(id)) => assert_eq!(id, "abc123"),
        other => panic!("unexpected {:?}", other),
    }
    match set_device_status(&mut c, "nope", DeviceStatus::Rejected) {
        Err(AdminError::DeviceNotFound(d)) => assert_eq!(d, "nope"),
        other => panic!("unexpected {:?}", other),
    }
}

#[test]
fn alias_rules() {
    let mut c = config(vec![
        dev("abc123", Some("home"), DeviceStatus::Approved, "1"),
        dev("def456", None, DeviceStatus::Approved, "2"),
    ]);
    match set_device_alias(&mut c, "def", "home") {
        Err(AdminError::AliasInUse(a, owner)) => {
            assert_eq!(a, "home");
            assert_eq!(owner, "abc123");
        }
        other => panic!("unexpected {:?}", other),
    }
    assert_eq!(c.devices[1].alias, None);
    // the owner may set its own alias again
    assert_eq!(set_device_alias(&mut c, "abc", "home").unwrap(), "abc123");
    assert_eq!(set_device_alias(&mut c, "def", "work").unwrap(), "def456");
    assert_eq!(c.devices[1].alias.as_deref(), Some("work"));
    assert!(matches!(set_device_alias(&mut c, "zzz", "x"), Err(AdminError::DeviceNotFound(_))));
}

#[test]
fn remove_entry() {
    let mut c = config(vec![dev("abc123", None, DeviceStatus::Approved, "1")]);
    assert_eq!(remove_device_entry(&mut c, "abc").unwrap().device_id, "abc123");
    assert!(c.devices.is_empty());
    assert!(matches!(remove_device_entry(&mut c, "abc"), Err(AdminError::DeviceNotFound(_))));
}

#[test]
fn load_config_refuses_duplicates() {
    let c = config(vec![
        dev("a", None, DeviceStatus::Approved, "1"),
        dev("a", None, DeviceStatus::Approved, "2"),
    ]);
    match load_config(c) {
        Err(e @ ConfigError::DuplicateDeviceId(_)) => {
            assert_eq!(e.message(), "Duplicate device_id found: a")
        }
        other => panic!("unexpected {:?}", other),
    }
    let c = config(vec![
        dev("a", Some("x"), DeviceStatus::Approved, "1"),
        dev("b", Some("x"), DeviceStatus::Approved, "2"),
    ]);
    match load_config(c) {
        Err(e) => assert_eq!(e.message(), "Duplicate alias found: x"),
        Ok(_) => panic!("duplicate alias accepted"),
    }
    let c = config(vec![dev("a", Some("x"), DeviceStatus::Approved, "1")]);
    assert_eq!(load_config(c).unwrap().devices.len(), 1);
}

#[test]
fn device_list_table() {
    let c = config(vec![
        dev("b-approved", None, DeviceStatus::Approved, "2024-01-01"),
        dev("a-pending-late", Some("pl"), DeviceStatus::Pending, "2024-03-01"),
        dev("c-pending-early", None, DeviceStatus::Pending, "2024-02-01"),
        dev("d-rejected", None, DeviceStatus::Rejected, "2023-12-01"),
    ]);
    assert_eq!(listing_order(&c.devices), vec![2, 1, 3, 0]);
    let mut expected = String::new();
    expected.push_str("Max devices: 5\nTotal devices: 4\n\n");
    expected.push_str(&format!(
        "{:<36}  {:<12}  {:<10}  {:<10}  {:<10}  {}\n",
        "Device ID", "Alias", "Name", "Platform", "Status", "Last Seen"
    ));
    expected.push_str(&format!("{}\n", "-".repeat(100)));
    for (id, alias, name, status) in [
        ("c-pending-early", "-", "n-c-pen...", "⏳ pending"),
        ("a-pending-late", "pl", "n-a-pen...", "⏳ pending"),
        ("d-rejected", "-", "n-d-rej...", "✗ rejected"),
        ("b-approved", "-", "n-b-app...", "✓ approved"),
    ] {
        expected.push_str(&format!(
            "{:<36}  {:<12}  {:<10}  {:<10}  {:<10}  {}\n",
            id, alias, name, "linux", status, "2024-01-01T00:00:00"
        ));
    }
    assert_eq!(format_device_list(&c), expected);
}

#[test]
fn empty_device_list() {
    let c = config(vec![]);
    assert_eq!(
        format_device_list(&c),
        "Max devices: 5\nTotal devices: 0\n\nNo devices registered.\n"
    );
}

#[test]
fn status_display() {
    assert_eq!(DeviceStatus::Pending.display_string(), "pending");
    assert_eq!(DeviceStatus::Approved.display_string(), "approved");
    assert_eq!(DeviceStatus::Rejected.display_string(), "rejected");
}

#[test]
fn request_constructors() {
    let e = ExecRequest::new("dev".to_string(), "r".to_string(), "ls".to_string(), 80, 24, true);
    assert_eq!(e.msg_type, "EXEC");
    assert_eq!((e.cols, e.rows, e.pty), (80, 24, true));
    let i = InputMessage::new("r".to_string(), b"hello");
    assert_eq!(i.msg_type, "INPUT");
    assert_eq!(i.payload, "aGVsbG8=");
    let r = ResizeMessage::new("r".to_string(), 100, 40);
    assert_eq!((r.msg_type.as_str(), r.cols, r.rows), ("RESIZE", 100, 40));
}

#[test]
fn filtered_payload() {
    let data = b"\x1b[?25lhi\x1b[?25h\x1b]0;title\x07!".to_vec();
    let p = encode_payload(&data);
    assert_eq!(decode_and_filter_payload(&p).unwrap(), b"hi!".to_vec());
    assert_eq!(decode_and_filter_payload("***"), Err(PayloadError::InvalidBase64));
}

#[test]
fn exec_session_steps() {
    let data = RelayResponse::DATA { req_id: "me".to_string(), payload: encode_payload(b"out") };
    match exec_step(&data, "me").unwrap() {
        ExecStep::Output(v) => assert_eq!(v, b"out".to_vec()),
        other => panic!("unexpected {:?}", other),
    }
    assert!(matches!(exec_step(&data, "other").unwrap(), ExecStep::Continue));
    let empty = RelayResponse::DATA { req_id: "me".to_string(), payload: String::new() };
    assert!(matches!(exec_step(&empty, "me").unwrap(), ExecStep::Continue));
    let bad = RelayResponse::DATA { req_id: "me".to_string(), payload: "%%".to_string() };
    assert_eq!(exec_step(&bad, "me").unwrap_err(), PayloadError::InvalidBase64);

    let exit = RelayResponse::EXIT { req_id: "me".to_string(), exit_code: 42 };
    match exec_step(&exit, "me").unwrap() {
        ExecStep::Finish { exit_code, notice } => {
            assert_eq!(exit_code, 42);
            assert!(notice.is_none());
        }
        other => panic!("unexpected {:?}", other),
    }
    let cases = [
        (RelayResponse::ERROR { req_id: "me".to_string(), message: "m".to_string() }, "Error: m"),
        (
            RelayResponse::DEVICE_OFFLINE { req_id: "me".to_string(), message: "m".to_string() },
            "Device offline: m",
        ),
        (
            RelayResponse::DEVICE_NOT_APPROVED { req_id: "me".to_string(), message: "m".to_string() },
            "Device not approved: m",
        ),
        (
            RelayResponse::DEVICE_NOT_FOUND { req_id: "me".to_string(), message: "m".to_string() },
            "Device not found: m",
        ),
        (
            RelayResponse::INVALID_REQ_ID { req_id: "me".to_string(), message: "m".to_string() },
            "Invalid request: m",
        ),
    ];
    for (resp, text) in cases.iter() {
        match exec_step(resp, "me").unwrap() {
            ExecStep::Finish { exit_code, notice } => {
                assert_eq!(exit_code, 1);
                assert_eq!(notice.as_deref(), Some(*text));
            }
            other => panic!("unexpected {:?}", other),
        }
        assert!(matches!(exec_step(resp, "else").unwrap(), ExecStep::Continue));
    }
    match exec_step(&RelayResponse::PING { ts: 5 }, "me").unwrap() {
        ExecStep::Reply(m) => assert_eq!(m, HeartbeatMessage::PONG { ts: 5 }),
        other => panic!("unexpected {:?}", other),
    }
    assert!(matches!(exec_step(&RelayResponse::PONG { ts: 5 }, "me").unwrap(), ExecStep::Continue));
    let ok = RelayResponse::ADMIN_RELOAD_OK { message: "x".to_string() };
    assert!(matches!(exec_step(&ok, "me").unwrap(), ExecStep::Continue));
}

#[test]
fn exec_heartbeat() {
    assert!(matches!(exec_tick(2_000_000_001), ExecTick::TimedOut));
    match exec_tick(10) {
        ExecTick::Ping(HeartbeatMessage::PING { ts }) => assert!(ts > 0),
        other => panic!("unexpected {:?}", other),
    }
}

#[test]
fn reload_reply() {
    assert_eq!(
        reload_reply_outcome(RelayResponse::ADMIN_RELOAD_OK { message: "Reloaded 3 devices".to_string() })
            .unwrap(),
        "Reloaded 3 devices"
    );
    match reload_reply_outcome(RelayResponse::ADMIN_RELOAD_ERROR { message: "bad".to_string() }) {
        Err(f) => assert_eq!(f.message(), "Reload failed: bad"),
        Ok(_) => panic!("error reported as success"),
    }
    match reload_reply_outcome(RelayResponse::PONG { ts: 1 }) {
        Err(f @ ReloadFailure::Unexpected) => {
            assert_eq!(f.message(), "Unexpected response from Relay Service")
        }
        other => panic!("unexpected {:?}", other),
    }
}

#[test]
fn payload_round_trip() {
    let bytes: Vec<u8> = (0u8..=255).collect();
    let text = encode_payload(&bytes);
    assert_eq!(decode_payload(&text).unwrap(), bytes);
}

#[test]
fn alias_held_by_another_device_is_refused() {
    let mut c = config(vec![
        dev("abcd", Some("pc"), DeviceStatus::Approved, "1"),
        dev("x", Some("abc"), DeviceStatus::Approved, "2"),
    ]);
    // "abc" names device x (alias first); "pc" belongs to abcd
    match set_device_alias(&mut c, "abc", "pc") {
        Err(AdminError::AliasInUse(a, owner)) => {
            assert_eq!(a, "pc");
            assert_eq!(owner, "abcd");
        }
        other => panic!("unexpected {:?}", other),
    }
    assert_eq!(c.devices[1].alias.as_deref(), Some("abc"));
    // after a successful rename the aliases are still distinct and loadable
    assert_eq!(set_device_alias(&mut c, "x", "laptop").unwrap(), "x");
    assert!(load_config(c.clone()).is_ok());
    // an alias held by nobody on an unknown device: not found
    assert!(matches!(set_device_alias(&mut c, "nope", "fresh"), Err(AdminError::DeviceNotFound(_))));
    // an alias held by someone, on an unknown device: in use
    assert!(matches!(set_device_alias(&mut c, "nope", "pc"), Err(AdminError::AliasInUse(_, _))));
}
