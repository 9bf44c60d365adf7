use osh_tools::codec::{decode_payload, encode_payload, PayloadError};
use osh_tools::daemon_logic::{
    cmd_event_report, handle_command, handle_message, handle_pair_response, heartbeat_tick,
    is_powershell, next_reconnect, pty_event_report, receive_step, reconnect_delay, shell_args,
    CmdEvent, CommandAction, ConnEvent, DaemonError, DaemonState, DisconnectReason,
    HeartbeatAction, LoopControl, MessageAction, PayloadCommand, ProcessReport, PtyEvent,
    ReconnectPlan, ReconnectStage, StatusUpdate,
};
use osh_tools::daemon_protocol::{
    CommandType, DataResponse, ErrorResponse, ExitResponse, GenericMessage, PairRequest,
    PairResponse, PairResponseType, PingMessage, PongMessage, VpsCommand,
};

fn msg(t: &str) -> GenericMessage {
    GenericMessage {
        msg_type: t.to_string(),
        req_id: None,
        ts: None,
        message: None,
        payload: None,
        cols: None,
        rows: None,
        exit_code: None,
        error: None,
        pty: None,
    }
}

fn command(t: &str, req_id: &str, payload: Option<&str>) -> GenericMessage {
    let mut m = msg(t);
    m.req_id = Some(req_id.to_string());
    m.payload = payload.map(|p| p.to_string());
    m
}

#[test]
fn pairing_responses_move_the_state() {
    let mut state = DaemonState::WaitingForPairing;
    let o = handle_pair_response(&msg("PAIR_APPROVED"), &mut state);
    assert_eq!(state, DaemonState::Approved);
    assert_eq!(o.status, Some(StatusUpdate::Connected));
    assert!(o.result.is_ok());

    let o = handle_pair_response(&msg("PAIR_PENDING"), &mut state);
    assert_eq!(state, DaemonState::WaitingForPairing);
    assert_eq!(o.status, Some(StatusUpdate::Waiting));

    let o = handle_pair_response(&msg("PAIR_REJECTED"), &mut state);
    assert_eq!(state, DaemonState::Disconnected);
    assert_eq!(o.status, Some(StatusUpdate::Rejected));
    assert_eq!(o.result.unwrap_err().message(), "Pairing rejected");

    let mut state = DaemonState::WaitingForPairing;
    let o = handle_pair_response(&msg("PAIR_AUTH_FAILED"), &mut state);
    assert_eq!(o.status, Some(StatusUpdate::AuthFailed));
    assert_eq!(o.result.unwrap_err().message(), "Authentication failed");

    let mut state = DaemonState::WaitingForPairing;
    let o = handle_pair_response(&msg("PAIR_LIMIT_EXCEEDED"), &mut state);
    assert_eq!(o.status, Some(StatusUpdate::LimitExceeded));
    assert_eq!(o.result.unwrap_err(), DaemonError::DeviceLimitExceeded);
    assert_eq!(state, DaemonState::Disconnected);

    let mut state = DaemonState::Approved;
    let o = handle_pair_response(&msg("PAIR_SOMETHING"), &mut state);
    assert_eq!(state, DaemonState::Approved);
    assert_eq!(o.status, None);
}

#[test]
fn status_updates_have_wire_texts() {
    assert_eq!(StatusUpdate::Connecting.wire_text(), "CONNECTING");
    assert_eq!(StatusUpdate::Waiting.wire_text(), "WAITING");
    assert_eq!(StatusUpdate::Connected.wire_text(), "CONNECTED");
    assert_eq!(StatusUpdate::Reconnecting.wire_text(), "RECONNECTING");
    assert_eq!(StatusUpdate::Stopped.wire_text(), "STOPPED");
    assert_eq!(StatusUpdate::Rejected.wire_text(), "REJECTED");
    assert_eq!(StatusUpdate::AuthFailed.wire_text(), "AUTH_FAILED");
    assert_eq!(StatusUpdate::LimitExceeded.wire_text(), "LIMIT_EXCEEDED");
}

#[test]
fn ping_is_answered_with_its_timestamp() {
    let mut state = DaemonState::WaitingForPairing;
    let mut m = msg("PING");
    m.ts = Some(1234);
    match handle_message(&m, &mut state) {
        MessageAction::Reply(p) => {
            assert_eq!(p.msg_type, "PONG");
            assert_eq!(p.ts, 1234);
        }
        other => panic!("unexpected {:?}", other),
    }
    assert_eq!(state, DaemonState::WaitingForPairing);
    assert!(matches!(handle_message(&msg("PONG"), &mut state), MessageAction::Heartbeat));
    assert!(matches!(handle_message(&msg("HELLO"), &mut state), MessageAction::Nothing));
}

#[test]
fn commands_are_ignored_until_approved() {
    let mut state = DaemonState::WaitingForPairing;
    let m = command("KILL", "r1", None);
    assert!(matches!(handle_message(&m, &mut state), MessageAction::NotApproved));
    let mut state = DaemonState::Approved;
    match handle_message(&m, &mut state) {
        MessageAction::Command(Ok(CommandAction::Kill { req_id })) => assert_eq!(req_id, "r1"),
        other => panic!("unexpected {:?}", other),
    }
    match handle_message(&msg("PAIR_REJECTED"), &mut state) {
        MessageAction::Pairing(o) => assert!(o.result.is_err()),
        other => panic!("unexpected {:?}", other),
    }
    assert_eq!(state, DaemonState::Disconnected);
}

#[test]
fn spawn_decodes_the_command() {
    let payload = encode_payload("echo hi".as_bytes());
    let mut m = command("SPAWN", "r1", Some(&payload));
    match handle_command(&m).unwrap() {
        CommandAction::SpawnPlain { req_id, command } => {
            assert_eq!(req_id, "r1");
            assert_eq!(command, "echo hi");
        }
        other => panic!("unexpected {:?}", other),
    }
    m.pty = Some(true);
    m.cols = Some(132);
    match handle_command(&m).unwrap() {
        CommandAction::SpawnPty { command, cols, rows, .. } => {
            assert_eq!(command, "echo hi");
            assert_eq!(cols, 132);
            assert_eq!(rows, 24);
        }
        other => panic!("unexpected {:?}", other),
    }
}

#[test]
fn command_errors() {
    let m = command("SPAWN", "r1", None);
    let e = handle_command(&m).unwrap_err();
    assert_eq!(e, DaemonError::MissingPayload(PayloadCommand::Spawn));
    assert_eq!(e.message(), "SPAWN missing payload");

    let m = command("DATA", "r1", None);
    assert_eq!(handle_command(&m).unwrap_err().message(), "DATA missing payload");

    let m = command("SPAWN", "r1", Some("!!notbase64"));
    assert_eq!(handle_command(&m).unwrap_err(), DaemonError::BadPayload(PayloadError::InvalidBase64));

    let bad_utf8 = encode_payload(&[0xff, 0xfe]);
    let m = command("SPAWN", "r1", Some(&bad_utf8));
    let e = handle_command(&m).unwrap_err();
    assert_eq!(e, DaemonError::BadPayload(PayloadError::InvalidUtf8));
    assert_eq!(e.message(), "Invalid UTF-8 in command");
}

#[test]
fn other_commands() {
    let data = encode_payload(&[1, 2, 3]);
    match handle_command(&command("DATA", "r", Some(&data))).unwrap() {
        CommandAction::Input { req_id, data } => {
            assert_eq!(req_id, "r");
            assert_eq!(data, vec![1, 2, 3]);
        }
        other => panic!("unexpected {:?}", other),
    }
    match handle_command(&command("RESIZE", "r", None)).unwrap() {
        CommandAction::Resize { cols, rows, .. } => {
            assert_eq!((cols, rows), (80, 24));
        }
        other => panic!("unexpected {:?}", other),
    }
    assert!(matches!(
        handle_command(&command("INVALID_REQ_ID", "r", None)).unwrap(),
        CommandAction::KillQuietly { .. }
    ));
    assert!(matches!(handle_command(&command("FOO", "r", None)).unwrap(), CommandAction::Unknown));
    // no request id: ignored, even when the payload is missing
    assert!(matches!(handle_command(&msg("SPAWN")).unwrap(), CommandAction::Ignore));
    assert!(matches!(handle_command(&command("SPAWN", "", None)).unwrap(), CommandAction::Ignore));
}

#[test]
fn pty_output_is_escaped_and_encoded() {
    let r = pty_event_report(PtyEvent::Data { req_id: "r".to_string(), data: vec![0x1b, b'[', b'A', b'\n'] });
    match r {
        ProcessReport::Data(d) => {
            assert_eq!(d.req_id, "r");
            assert_eq!(d.msg_type, "DATA");
            assert_eq!(decode_payload(&d.payload).unwrap(), b"\\x1b[A\n".to_vec());
        }
        other => panic!("unexpected {:?}", other),
    }
    match pty_event_report(PtyEvent::Exit { req_id: "r".to_string(), exit_code: 2 }) {
        ProcessReport::Exit(e) => {
            assert_eq!(e.exit_code, 2);
            assert_eq!(e.msg_type, "EXIT");
        }
        other => panic!("unexpected {:?}", other),
    }
    match pty_event_report(PtyEvent::Error { req_id: "r".to_string(), error: "boom".to_string() }) {
        ProcessReport::Error(e) => assert_eq!(e.error, "boom"),
        other => panic!("unexpected {:?}", other),
    }
}

#[test]
fn plain_output_is_sent_as_is() {
    match cmd_event_report(CmdEvent::Data { req_id: "r".to_string(), data: vec![0x1b, 0x07] }) {
        ProcessReport::Data(d) => assert_eq!(decode_payload(&d.payload).unwrap(), vec![0x1b, 0x07]),
        other => panic!("unexpected {:?}", other),
    }
}

#[test]
fn reconnect_backs_off_in_three_stages() {
    assert_eq!(reconnect_delay(1), (ReconnectStage::Fast, 10));
    assert_eq!(reconnect_delay(3), (ReconnectStage::Fast, 10));
    assert_eq!(reconnect_delay(4), (ReconnectStage::Medium, 60));
    assert_eq!(reconnect_delay(13), (ReconnectStage::Medium, 60));
    assert_eq!(reconnect_delay(14), (ReconnectStage::Slow, 600));
    assert_eq!(next_reconnect(DisconnectReason::UserInitiated, 5), ReconnectPlan::Stop);
    assert_eq!(
        next_reconnect(DisconnectReason::HeartbeatTimeout, 3),
        ReconnectPlan::Retry { attempt: 4, stage: ReconnectStage::Medium, wait_secs: 60 }
    );
    assert_eq!(
        next_reconnect(DisconnectReason::ServerClosed, 0),
        ReconnectPlan::Retry { attempt: 1, stage: ReconnectStage::Fast, wait_secs: 10 }
    );
    let mut last = 0;
    for n in 0..30 {
        if let ReconnectPlan::Retry { wait_secs, .. } = next_reconnect(DisconnectReason::Other, n) {
            assert!(wait_secs >= last);
            last = wait_secs;
        }
    }
}

#[test]
fn heartbeat_times_out_after_two_seconds() {
    let mut state = DaemonState::Approved;
    let mut reason = DisconnectReason::Other;
    assert_eq!(heartbeat_tick(&mut state, &mut reason, 2_000_000_000), HeartbeatAction::Ping);
    assert_eq!(heartbeat_tick(&mut state, &mut reason, 2_000_000_001), HeartbeatAction::TimedOut);
    assert_eq!(state, DaemonState::Disconnected);
    assert_eq!(reason, DisconnectReason::HeartbeatTimeout);
    assert_eq!(heartbeat_tick(&mut state, &mut reason, 0), HeartbeatAction::Stop);
}

#[test]
fn receive_loop_records_why_it_ended() {
    let mut state = DaemonState::Approved;
    let mut reason = DisconnectReason::Other;
    assert_eq!(receive_step(ConnEvent::Received, &mut state, &mut reason), LoopControl::Continue);
    assert_eq!(
        receive_step(ConnEvent::ReadTimedOut { elapsed_nanos: 1 }, &mut state, &mut reason),
        LoopControl::Continue
    );
    assert_eq!(receive_step(ConnEvent::StreamEnded, &mut state, &mut reason), LoopControl::Stop);
    assert_eq!(reason, DisconnectReason::ServerClosed);
    assert_eq!(receive_step(ConnEvent::ShutdownRequested, &mut state, &mut reason), LoopControl::Stop);
    assert_eq!(state, DaemonState::ShuttingDown);
    assert_eq!(reason, DisconnectReason::UserInitiated);
    assert_eq!(receive_step(ConnEvent::StreamError, &mut state, &mut reason), LoopControl::Stop);
    assert_eq!(reason, DisconnectReason::WebSocketError);
    assert_eq!(
        receive_step(ConnEvent::ReadTimedOut { elapsed_nanos: 3_000_000_000 }, &mut state, &mut reason),
        LoopControl::Stop
    );
    assert_eq!(reason, DisconnectReason::HeartbeatTimeout);
}

#[test]
fn shell_arguments_by_platform() {
    assert!(is_powershell("C:\\Windows\\System32\\WindowsPowerShell\\v1.0\\powershell.exe"));
    assert!(is_powershell("PowerShell"));
    assert!(!is_powershell("cmd.exe"));
    assert!(!is_powershell("pwsh"));
    assert_eq!(shell_args("bash", "ls -l", false, true), vec!["-c", "ls -l"]);
    assert_eq!(shell_args("cmd.exe", "dir", true, false), vec!["/C", "dir"]);
    assert_eq!(shell_args("powershell.exe", "dir", true, true), vec!["-NoLogo", "-Command", "dir"]);
    assert_eq!(
        shell_args("powershell.exe", "dir", true, false),
        vec!["-NoLogo", "-NoProfile", "-NonInteractive", "-Command", "dir"]
    );
}

#[test]
fn protocol_constructors() {
    let p = PingMessage::new();
    assert_eq!(p.msg_type, "PING");
    assert!(p.ts > 0);
    let q = PongMessage::new(9);
    assert_eq!((q.msg_type.as_str(), q.ts), ("PONG", 9));
    let r = PairRequest::new(
        "id".to_string(),
        "name".to_string(),
        "linux".to_string(),
        "bash".to_string(),
        "key".to_string(),
    );
    assert_eq!(r.msg_type, "PAIR_REQUEST");
    assert_eq!(r.secret_key, "key");
    let d = DataResponse::new("r".to_string(), b"hello");
    assert_eq!(d.payload, "aGVsbG8=");
    let e = ExitResponse::new("r".to_string(), -1);
    assert_eq!(e.exit_code, -1);
    let er = ErrorResponse::new("r".to_string(), "x".to_string());
    assert_eq!(er.msg_type, "ERROR");
    let pr = PairResponse { msg_type: "PAIR_PENDING".to_string(), message: None };
    assert_eq!(pr.response_type(), Some(PairResponseType::Pending));
    let pr = PairResponse { msg_type: "OTHER".to_string(), message: None };
    assert_eq!(pr.response_type(), None);
    let c = VpsCommand {
        msg_type: "RESIZE".to_string(),
        req_id: "r".to_string(),
        payload: None,
        cols: None,
        rows: None,
    };
    assert_eq!(c.command_type(), CommandType::Resize);
    assert!(msg("PAIR_APPROVED").is_pair_response());
    assert!(msg("INVALID_REQ_ID").is_command());
    assert!(msg("PING").is_ping());
    assert!(msg("PONG").is_pong());
    assert!(!msg("PONG").is_command());
}

#[test]
fn reports_carry_their_type_tag() {
    for r in [
        pty_event_report(PtyEvent::Data { req_id: "r".to_string(), data: vec![1] }),
        cmd_event_report(CmdEvent::Data { req_id: "r".to_string(), data: vec![1] }),
    ] {
        match r {
            ProcessReport::Data(d) => assert_eq!(d.msg_type, "DATA"),
            other => panic!("unexpected {:?}", other),
        }
    }
    match cmd_event_report(CmdEvent::Exit { req_id: "r".to_string(), exit_code: 0 }) {
        ProcessReport::Exit(e) => assert_eq!(e.msg_type, "EXIT"),
        other => panic!("unexpected {:?}", other),
    }
    match cmd_event_report(CmdEvent::Error { req_id: "r".to_string(), error: "e".to_string() }) {
        ProcessReport::Error(e) => assert_eq!(e.msg_type, "ERROR"),
        other => panic!("unexpected {:?}", other),
    }
    match pty_event_report(PtyEvent::Data { req_id: "r".to_string(), data: vec![0x1b] }) {
        ProcessReport::Data(d) => assert_eq!(d.payload, encode_payload(b"\\x1b")),
        other => panic!("unexpected {:?}", other),
    }
}
