use osh_tools::codec::{decode_payload, UtcTime};
use osh_tools::device_store::{DeviceInfo, DeviceStatus, DeviceStore, DevicesConfig};
use osh_tools::relay::{
    connection_tick, ClientStep, ConnectionTick, OshStep, Outgoing, PairDecision, RelayService,
};
use osh_tools::relay_protocol::{ClientMessage, OshMessage, RelayToClientMessage, RelayToOshMessage};

fn device(id: &str, alias: Option<&str>, status: DeviceStatus) -> DeviceInfo {
    DeviceInfo {
        device_id: id.to_string(),
        alias: alias.map(|a| a.to_string()),
        device_name: format!("{} box", id),
        platform: "linux".to_string(),
        shell: "bash".to_string(),
        status,
        created_at: UtcTime { secs: 1_700_000_000, nanos: 0 },
        last_seen: UtcTime { secs: 1_700_000_000, nanos: 0 },
    }
}

fn relay_with(devices: Vec<DeviceInfo>, max: usize) -> RelayService {
    let config = DevicesConfig { max_devices: max, secret_key: "psk".to_string(), devices };
    RelayService::new(DeviceStore::new("devices.json", Some(config)).unwrap())
}

fn pair(relay: &mut RelayService, conn: u64, id: &str, key: &str) -> PairDecision {
    let msg = ClientMessage::PAIR_REQUEST {
        device_id: id.to_string(),
        device_name: format!("{} box", id),
        platform: "linux".to_string(),
        shell: "bash".to_string(),
        secret_key: key.to_string(),
    };
    match relay.handle_client_message(conn, msg) {
        ClientStep::Pairing(d) => d,
        ClientStep::Sent(_) => panic!("pairing request not decided"),
    }
}

fn osh_sent(step: OshStep) -> Vec<Outgoing> {
    match step {
        OshStep::Sent(v) => v,
        OshStep::ReloadRequested => panic!("unexpected reload"),
    }
}

fn client_sent(step: ClientStep) -> Vec<Outgoing> {
    match step {
        ClientStep::Sent(v) => v,
        ClientStep::Pairing(_) => panic!("unexpected pairing"),
    }
}

fn exec(device: &str, req_id: &str, cmd: &str) -> OshMessage {
    OshMessage::EXEC {
        device: device.to_string(),
        req_id: req_id.to_string(),
        cmd: cmd.to_string(),
        cols: Some(100),
        rows: Some(30),
        pty: true,
    }
}

#[test]
fn wrong_secret_is_refused_without_storing() {
    let mut relay = relay_with(vec![], 10);
    match pair(&mut relay, 1, "dev1", "wrong") {
        PairDecision::Refused { response: RelayToClientMessage::PAIR_AUTH_FAILED { message } } => {
            assert_eq!(message.as_deref(), Some("Invalid secret key"));
        }
        other => panic!("unexpected {:?}", other),
    }
    assert_eq!(relay.device_store.get_device_count(), 0);
}

#[test]
fn new_device_is_registered_pending() {
    let mut relay = relay_with(vec![], 10);
    match pair(&mut relay, 1, "dev1", "psk") {
        PairDecision::Accepted { device_id, approved, response, disconnect } => {
            assert_eq!(device_id, "dev1");
            assert!(!approved);
            assert!(!disconnect);
            match response {
                RelayToClientMessage::PAIR_PENDING { message } => assert_eq!(
                    message.as_deref(),
                    Some("Device registered, waiting for admin approval")
                ),
                other => panic!("unexpected {:?}", other),
            }
        }
        other => panic!("unexpected {:?}", other),
    }
    let stored = relay.device_store.get_device_by_id("dev1").unwrap();
    assert_eq!(stored.status, DeviceStatus::Pending);
}

#[test]
fn device_limit_text_counts_devices() {
    let mut relay = relay_with(vec![device("a", None, DeviceStatus::Approved)], 1);
    match pair(&mut relay, 1, "b", "psk") {
        PairDecision::Refused { response: RelayToClientMessage::PAIR_LIMIT_EXCEEDED { message } } => {
            assert_eq!(message.as_deref(), Some("Device limit reached (1/1)"));
        }
        other => panic!("unexpected {:?}", other),
    }
    // a known device may pair again at the limit
    match pair(&mut relay, 2, "a", "psk") {
        PairDecision::Accepted { approved, response, .. } => {
            assert!(approved);
            match response {
                RelayToClientMessage::PAIR_APPROVED { message } => {
                    assert_eq!(message.as_deref(), Some("Welcome back"))
                }
                other => panic!("unexpected {:?}", other),
            }
        }
        other => panic!("unexpected {:?}", other),
    }
}

#[test]
fn rejected_device_is_told_and_disconnected() {
    let mut relay = relay_with(vec![device("bad", None, DeviceStatus::Rejected)], 10);
    match pair(&mut relay, 1, "bad", "psk") {
        PairDecision::Accepted { approved, response, disconnect, .. } => {
            assert!(!approved);
            assert!(disconnect);
            match response {
                RelayToClientMessage::PAIR_REJECTED { message } => {
                    assert_eq!(message.as_deref(), Some("Device was rejected"))
                }
                other => panic!("unexpected {:?}", other),
            }
        }
        other => panic!("unexpected {:?}", other),
    }
}

#[test]
fn exec_routes_to_device_and_output_back() {
    let mut relay = relay_with(vec![device("dev1", Some("box"), DeviceStatus::Approved)], 10);
    relay.complete_pairing(7, "dev1".to_string(), true);
    relay.register_osh_connection(100);
    assert_eq!(relay.get_connected_count(), 1);

    let out = osh_sent(relay.handle_osh_message(100, exec("box", "r1", "ls")));
    assert_eq!(out.len(), 1);
    match &out[0] {
        Outgoing::ToClient {
            conn,
            msg: RelayToClientMessage::SPAWN { req_id, payload, cols, rows, pty },
        } => {
            assert_eq!(*conn, 7);
            assert_eq!(req_id, "r1");
            assert_eq!(decode_payload(payload.as_ref().unwrap()).unwrap(), b"ls".to_vec());
            assert_eq!(*cols, Some(100));
            assert_eq!(*rows, Some(30));
            assert!(*pty);
        }
        other => panic!("unexpected {:?}", other),
    }
    assert_eq!(relay.get_session_count(), 1);

    let out = client_sent(relay.handle_client_message(
        7,
        ClientMessage::DATA { req_id: "r1".to_string(), payload: "aGk=".to_string() },
    ));
    match &out[..] {
        [Outgoing::ToOsh { conn: 100, msg: RelayToOshMessage::DATA { req_id, payload } }] => {
            assert_eq!(req_id, "r1");
            assert_eq!(payload, "aGk=");
        }
        other => panic!("unexpected {:?}", other),
    }

    let out = client_sent(relay.handle_client_message(
        7,
        ClientMessage::EXIT { req_id: "r1".to_string(), exit_code: 3 },
    ));
    match &out[..] {
        [Outgoing::ToOsh { conn: 100, msg: RelayToOshMessage::EXIT { req_id, exit_code: 3 } }] => {
            assert_eq!(req_id, "r1")
        }
        other => panic!("unexpected {:?}", other),
    }
    // the session is over: input for it is refused
    assert_eq!(relay.get_session_count(), 0);
    let out = osh_sent(relay.handle_osh_message(
        100,
        OshMessage::INPUT { req_id: "r1".to_string(), payload: "eA==".to_string() },
    ));
    match &out[..] {
        [Outgoing::ToOsh { conn: 100, msg: RelayToOshMessage::INVALID_REQ_ID { req_id, message } }] => {
            assert_eq!(req_id, "r1");
            assert_eq!(message, "Unknown request ID");
        }
        other => panic!("unexpected {:?}", other),
    }
}

#[test]
fn exec_errors_name_the_device() {
    let mut relay = relay_with(
        vec![
            device("p", None, DeviceStatus::Pending),
            device("q", None, DeviceStatus::Approved),
        ],
        10,
    );
    let out = osh_sent(relay.handle_osh_message(1, exec("nope", "r", "ls")));
    match &out[..] {
        [Outgoing::ToOsh { conn: 1, msg: RelayToOshMessage::DEVICE_NOT_FOUND { message, .. } }] => {
            assert_eq!(message, "Device 'nope' not found")
        }
        other => panic!("unexpected {:?}", other),
    }
    let out = osh_sent(relay.handle_osh_message(1, exec("p", "r", "ls")));
    match &out[..] {
        [Outgoing::ToOsh { msg: RelayToOshMessage::DEVICE_NOT_APPROVED { message, .. }, .. }] => {
            assert_eq!(message, "Device 'p' is not approved")
        }
        other => panic!("unexpected {:?}", other),
    }
    let out = osh_sent(relay.handle_osh_message(1, exec("q", "r", "ls")));
    match &out[..] {
        [Outgoing::ToOsh { msg: RelayToOshMessage::DEVICE_OFFLINE { message, .. }, .. }] => {
            assert_eq!(message, "Device 'q' is offline")
        }
        other => panic!("unexpected {:?}", other),
    }
    assert_eq!(relay.get_session_count(), 0);
}

#[test]
fn client_error_without_text_reports_unknown_error() {
    let mut relay = relay_with(vec![device("d", None, DeviceStatus::Approved)], 10);
    relay.complete_pairing(5, "d".to_string(), true);
    let _ = relay.handle_osh_message(9, exec("d", "r", "x"));
    let out = client_sent(relay.handle_client_message(
        5,
        ClientMessage::ERROR { req_id: "r".to_string(), error: None },
    ));
    match &out[..] {
        [Outgoing::ToOsh { conn: 9, msg: RelayToOshMessage::ERROR { message, .. } }] => {
            assert_eq!(message, "Unknown error")
        }
        other => panic!("unexpected {:?}", other),
    }
    assert_eq!(relay.get_session_count(), 0);
}

#[test]
fn daemon_disconnect_tells_osh_and_ends_sessions() {
    let mut relay = relay_with(vec![device("d", None, DeviceStatus::Approved)], 10);
    relay.complete_pairing(5, "d".to_string(), true);
    let _ = relay.handle_osh_message(9, exec("d", "r1", "x"));
    let _ = relay.handle_osh_message(10, exec("d", "r2", "y"));
    let out = relay.on_client_disconnect("d");
    assert_eq!(out.len(), 2);
    for o in &out {
        match o {
            Outgoing::ToOsh { msg: RelayToOshMessage::DEVICE_OFFLINE { message, .. }, .. } => {
                assert_eq!(message, "Device disconnected")
            }
            other => panic!("unexpected {:?}", other),
        }
    }
    assert_eq!(relay.get_session_count(), 0);
    assert_eq!(relay.get_connected_count(), 0);
}

#[test]
fn osh_disconnect_kills_its_sessions_only() {
    let mut relay = relay_with(vec![device("d", None, DeviceStatus::Approved)], 10);
    relay.complete_pairing(5, "d".to_string(), true);
    relay.register_osh_connection(9);
    relay.register_osh_connection(10);
    let _ = relay.handle_osh_message(9, exec("d", "r1", "x"));
    let _ = relay.handle_osh_message(10, exec("d", "r2", "y"));
    let out = relay.handle_osh_disconnect(9);
    match &out[..] {
        [Outgoing::ToClient { conn: 5, msg: RelayToClientMessage::KILL { req_id } }] => {
            assert_eq!(req_id, "r1")
        }
        other => panic!("unexpected {:?}", other),
    }
    assert_eq!(relay.get_session_count(), 1);
}

#[test]
fn heartbeats_are_answered() {
    let mut relay = relay_with(vec![], 10);
    let out = client_sent(relay.handle_client_message(3, ClientMessage::PING { ts: 77 }));
    assert!(matches!(
        &out[..],
        [Outgoing::ToClient { conn: 3, msg: RelayToClientMessage::PONG { ts: 77 } }]
    ));
    let out = osh_sent(relay.handle_osh_message(4, OshMessage::PING { ts: 78 }));
    assert!(matches!(&out[..], [Outgoing::ToOsh { conn: 4, msg: RelayToOshMessage::PONG { ts: 78 } }]));
    assert!(matches!(relay.handle_osh_message(4, OshMessage::ADMIN_RELOAD), OshStep::ReloadRequested));
}

#[test]
fn reload_tells_clients_whose_approval_changed() {
    let mut relay = relay_with(
        vec![device("a", None, DeviceStatus::Pending), device("b", None, DeviceStatus::Approved)],
        10,
    );
    relay.complete_pairing(1, "a".to_string(), false);
    relay.complete_pairing(2, "b".to_string(), true);
    let next = DevicesConfig {
        max_devices: 10,
        secret_key: "psk".to_string(),
        devices: vec![device("a", None, DeviceStatus::Approved), device("b", None, DeviceStatus::Rejected)],
    };
    let out = relay.admin_reload(50, Ok(Some(next)));
    assert_eq!(out.len(), 3);
    match &out[0] {
        Outgoing::ToClient { conn: 1, msg: RelayToClientMessage::PAIR_APPROVED { message } } => {
            assert_eq!(message.as_deref(), Some("Device approved"))
        }
        other => panic!("unexpected {:?}", other),
    }
    match &out[1] {
        Outgoing::ToClient { conn: 2, msg: RelayToClientMessage::PAIR_REJECTED { message } } => {
            assert_eq!(message.as_deref(), Some("Approval revoked"))
        }
        other => panic!("unexpected {:?}", other),
    }
    match &out[2] {
        Outgoing::ToOsh { conn: 50, msg: RelayToOshMessage::ADMIN_RELOAD_OK { message } } => {
            assert_eq!(message, "Reloaded 2 devices")
        }
        other => panic!("unexpected {:?}", other),
    }
}

#[test]
fn failed_reload_reports_error_and_keeps_devices() {
    let mut relay = relay_with(vec![device("a", None, DeviceStatus::Approved)], 10);
    let out = relay.admin_reload(50, Err("Failed to read devices.json".to_string()));
    match &out[..] {
        [Outgoing::ToOsh { conn: 50, msg: RelayToOshMessage::ADMIN_RELOAD_ERROR { message } }] => {
            assert_eq!(message, "Failed to reload: Failed to read devices.json")
        }
        other => panic!("unexpected {:?}", other),
    }
    assert_eq!(relay.device_store.get_device_count(), 1);
}

#[test]
fn connection_times_out_after_two_seconds() {
    assert_eq!(connection_tick(2_000_000_001), ConnectionTick::TimedOut);
    assert!(matches!(connection_tick(2_000_000_000), ConnectionTick::Ping(_)));
    match connection_tick(0) {
        ConnectionTick::Ping(ts) => assert!(ts > 1_600_000_000_000),
        ConnectionTick::TimedOut => panic!("timed out at once"),
    }
}
