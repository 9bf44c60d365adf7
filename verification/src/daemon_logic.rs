//! The daemon's decisions: what a message from the relay leads to, how the
//! pairing state moves, which process action a command asks for, what is
//! reported from a process, how long to wait before reconnecting, and how a
//! shell is invoked.

use vstd::prelude::*;
use vstd::string::StringExecFns;
use vstd::utf8::{valid_utf8, decode_utf8};
use crate::codec::{
    PayloadError, decode_payload, decode_text_payload, base64_decoding, base64_encoding,
    max_encodable_len,
    timestamp_ms,
};
use crate::daemon_protocol::{
    GenericMessage, PongMessage, DataResponse, ExitResponse, ErrorResponse, is_pair_response_type,
    is_command_type,
};
use crate::terminal::{escape_control_chars, escaped, escape_byte, convert_line_endings, crlf};
use crate::text::{same_text, owned, chars_of};

verus! {

broadcast use vstd::string::group_string_axioms;

/// Daemon state.
#[derive(Debug, Clone, Copy, PartialEq, Eq, Structural)]
pub enum DaemonState {
    Connecting,
    WaitingForPairing,
    Approved,
    Disconnected,
    ShuttingDown,
}

/// Why a connection ended.
#[derive(Debug, Clone, Copy, PartialEq, Eq, Structural)]
pub enum DisconnectReason {
    UserInitiated,
    HeartbeatTimeout,
    WebSocketError,
    ServerClosed,
    Other,
}

/// A status the daemon reports to its front end (one line on the status
/// pipe).
#[derive(Debug, Clone, Copy, PartialEq, Eq, Structural)]
pub enum StatusUpdate {
    Connecting,
    Waiting,
    Connected,
    Reconnecting,
    Stopped,
    Rejected,
    AuthFailed,
    LimitExceeded,
}

impl StatusUpdate {
    pub open spec fn spec_text(self) -> Seq<char> {
        match self {
            StatusUpdate::Connecting => "CONNECTING"@,
            StatusUpdate::Waiting => "WAITING"@,
            StatusUpdate::Connected => "CONNECTED"@,
            StatusUpdate::Reconnecting => "RECONNECTING"@,
            StatusUpdate::Stopped => "STOPPED"@,
            StatusUpdate::Rejected => "REJECTED"@,
            StatusUpdate::AuthFailed => "AUTH_FAILED"@,
            StatusUpdate::LimitExceeded => "LIMIT_EXCEEDED"@,
        }
    }

    /// The line written on the status pipe.
    pub fn wire_text(&self) -> (s: &'static str)
        ensures
            s@ == self.spec_text(),
    {
        match self {
            StatusUpdate::Connecting => "CONNECTING",
            StatusUpdate::Waiting => "WAITING",
            StatusUpdate::Connected => "CONNECTED",
            StatusUpdate::Reconnecting => "RECONNECTING",
            StatusUpdate::Stopped => "STOPPED",
            StatusUpdate::Rejected => "REJECTED",
            StatusUpdate::AuthFailed => "AUTH_FAILED",
            StatusUpdate::LimitExceeded => "LIMIT_EXCEEDED",
        }
    }
}

/// The command types that need a payload.
#[derive(Debug, Clone, Copy, PartialEq, Eq, Structural)]
pub enum PayloadCommand {
    Spawn,
    Data,
}

/// Why handling a message failed.
#[derive(Debug, Clone, PartialEq, Eq, Structural)]
pub enum DaemonError {
    /// The relay rejected the pairing.
    PairingRejected,
    /// The relay refused the secret key.
    AuthenticationFailed,
    /// The relay has no room for this device.
    DeviceLimitExceeded,
    /// A SPAWN or DATA command came without a payload.
    MissingPayload(PayloadCommand),
    /// A payload could not be decoded.
    BadPayload(PayloadError),
}

impl DaemonError {
    pub open spec fn spec_message(&self) -> Seq<char> {
        match self {
            DaemonError::PairingRejected => "Pairing rejected"@,
            DaemonError::AuthenticationFailed => "Authentication failed"@,
            DaemonError::DeviceLimitExceeded => "Device limit exceeded"@,
            DaemonError::MissingPayload(PayloadCommand::Spawn) => "SPAWN missing payload"@,
            DaemonError::MissingPayload(PayloadCommand::Data) => "DATA missing payload"@,
            DaemonError::BadPayload(PayloadError::InvalidBase64) => "Invalid base64 payload"@,
            DaemonError::BadPayload(PayloadError::InvalidUtf8) => "Invalid UTF-8 in command"@,
        }
    }

    /// The text the error is reported with.
    pub fn message(&self) -> (s: String)
        ensures
            s@ == self.spec_message(),
    {
        match self {
            DaemonError::PairingRejected => owned("Pairing rejected"),
            DaemonError::AuthenticationFailed => owned("Authentication failed"),
            DaemonError::DeviceLimitExceeded => owned("Device limit exceeded"),
            DaemonError::MissingPayload(PayloadCommand::Spawn) => owned("SPAWN missing payload"),
            DaemonError::MissingPayload(PayloadCommand::Data) => owned("DATA missing payload"),
            DaemonError::BadPayload(PayloadError::InvalidBase64) => owned("Invalid base64 payload"),
            DaemonError::BadPayload(PayloadError::InvalidUtf8) => owned("Invalid UTF-8 in command"),
        }
    }
}

/// What a pairing response does: the state it leads to, the status to
/// report, and whether the connection must end (an error).
pub open spec fn pair_transition(t: Seq<char>, state: DaemonState) -> (
    DaemonState,
    Option<StatusUpdate>,
    Result<(), DaemonError>,
) {
    if t == "PAIR_APPROVED"@ {
        (DaemonState::Approved, Some(StatusUpdate::Connected), Ok(()))
    } else if t == "PAIR_PENDING"@ {
        (DaemonState::WaitingForPairing, Some(StatusUpdate::Waiting), Ok(()))
    } else if t == "PAIR_REJECTED"@ {
        (DaemonState::Disconnected, Some(StatusUpdate::Rejected), Err(DaemonError::PairingRejected))
    } else if t == "PAIR_AUTH_FAILED"@ {
        (
            DaemonState::Disconnected,
            Some(StatusUpdate::AuthFailed),
            Err(DaemonError::AuthenticationFailed),
        )
    } else if t == "PAIR_LIMIT_EXCEEDED"@ {
        (
            DaemonState::Disconnected,
            Some(StatusUpdate::LimitExceeded),
            Err(DaemonError::DeviceLimitExceeded),
        )
    } else {
        (state, None, Ok(()))
    }
}

/// The outcome of a pairing response: the status to report (when the
/// daemon has a status pipe) and whether the connection goes on.
#[derive(Debug)]
pub struct PairOutcome {
    pub status: Option<StatusUpdate>,
    pub result: Result<(), DaemonError>,
}

/// Handles a pairing response.
pub fn handle_pair_response(msg: &GenericMessage, state: &mut DaemonState) -> (r: PairOutcome)
    ensures
        (*final(state), r.status, r.result) == pair_transition(msg.msg_type@, *old(state)),
{
    let t = msg.msg_type.as_str();
    if same_text(t, "PAIR_APPROVED") {
        *state = DaemonState::Approved;
        PairOutcome { status: Some(StatusUpdate::Connected), result: Ok(()) }
    } else if same_text(t, "PAIR_PENDING") {
        *state = DaemonState::WaitingForPairing;
        PairOutcome { status: Some(StatusUpdate::Waiting), result: Ok(()) }
    } else if same_text(t, "PAIR_REJECTED") {
        *state = DaemonState::Disconnected;
        PairOutcome {
            status: Some(StatusUpdate::Rejected),
            result: Err(DaemonError::PairingRejected),
        }
    } else if same_text(t, "PAIR_AUTH_FAILED") {
        *state = DaemonState::Disconnected;
        PairOutcome {
            status: Some(StatusUpdate::AuthFailed),
            result: Err(DaemonError::AuthenticationFailed),
        }
    } else if same_text(t, "PAIR_LIMIT_EXCEEDED") {
        *state = DaemonState::Disconnected;
        PairOutcome {
            status: Some(StatusUpdate::LimitExceeded),
            result: Err(DaemonError::DeviceLimitExceeded),
        }
    } else {
        PairOutcome { status: None, result: Ok(()) }
    }
}

/// What a command asks the daemon to do.
#[derive(Debug)]
pub enum CommandAction {
    /// The command has no request id: nothing is done.
    Ignore,
    /// Run `command` in a PTY of the given size.
    SpawnPty { req_id: String, command: String, cols: u16, rows: u16 },
    /// Run `command` without a PTY, collecting its output.
    SpawnPlain { req_id: String, command: String },
    /// Write `data` to the PTY of the request.
    Input { req_id: String, data: Vec<u8> },
    /// Resize the PTY of the request.
    Resize { req_id: String, cols: u16, rows: u16 },
    /// Kill the process of the request.
    Kill { req_id: String },
    /// The relay does not know the request: kill its process, if any,
    /// without complaint.
    KillQuietly { req_id: String },
    /// An unknown command type.
    Unknown,
}

pub open spec fn or_default(o: Option<u16>, d: u16) -> u16 {
    match o {
        Some(v) => v,
        None => d,
    }
}

/// The request id a command carries (empty when it has none).
pub open spec fn req_id_text(msg: GenericMessage) -> Seq<char> {
    match msg.req_id {
        Some(r) => r@,
        None => Seq::empty(),
    }
}

/// What a command leads to: ignored without a request id, else the process
/// action its type asks for, or the reason it cannot be carried out.
pub open spec fn command_outcome(
    msg: GenericMessage,
    r: Result<CommandAction, DaemonError>,
) -> bool {
    let rid = req_id_text(msg);
    let t = msg.msg_type@;
    if rid.len() == 0 {
        r matches Ok(CommandAction::Ignore)
    } else if t == "SPAWN"@ {
        match msg.payload {
            None => r == Err::<CommandAction, DaemonError>(
                DaemonError::MissingPayload(PayloadCommand::Spawn),
            ),
            Some(p) => match base64_decoding(p@) {
                None => r == Err::<CommandAction, DaemonError>(
                    DaemonError::BadPayload(PayloadError::InvalidBase64),
                ),
                Some(b) => if !valid_utf8(b) {
                    r == Err::<CommandAction, DaemonError>(
                        DaemonError::BadPayload(PayloadError::InvalidUtf8),
                    )
                } else if msg.pty == Some(true) {
                    r matches Ok(CommandAction::SpawnPty { req_id, command, cols, rows })
                        && req_id@ == rid && command@ == decode_utf8(b) && cols
                        == or_default(msg.cols, 80) && rows == or_default(msg.rows, 24)
                } else {
                    r matches Ok(CommandAction::SpawnPlain { req_id, command }) && req_id@
                        == rid && command@ == decode_utf8(b)
                },
            },
        }
    } else if t == "DATA"@ {
        match msg.payload {
            None => r == Err::<CommandAction, DaemonError>(
                DaemonError::MissingPayload(PayloadCommand::Data),
            ),
            Some(p) => match base64_decoding(p@) {
                None => r == Err::<CommandAction, DaemonError>(
                    DaemonError::BadPayload(PayloadError::InvalidBase64),
                ),
                Some(b) => r matches Ok(CommandAction::Input { req_id, data }) && req_id@
                    == rid && data@ == b,
            },
        }
    } else if t == "RESIZE"@ {
        r matches Ok(CommandAction::Resize { req_id, cols, rows }) && req_id@ == rid && cols
            == or_default(msg.cols, 80) && rows == or_default(msg.rows, 24)
    } else if t == "KILL"@ {
        r matches Ok(CommandAction::Kill { req_id }) && req_id@ == rid
    } else if t == "INVALID_REQ_ID"@ {
        r matches Ok(CommandAction::KillQuietly { req_id }) && req_id@ == rid
    } else {
        r matches Ok(CommandAction::Unknown)
    }
}

/// The process action for a command, with its request id checked.
pub fn handle_command(msg: &GenericMessage) -> (r: Result<CommandAction, DaemonError>)
    ensures
        command_outcome(*msg, r),
{
    let req_id = match &msg.req_id {
        Some(r) => r.clone(),
        None => String::new(),
    };
    if req_id.as_str().is_empty() {
        return Ok(CommandAction::Ignore);
    }
    let t = msg.msg_type.as_str();
    if same_text(t, "SPAWN") {
        let payload = match &msg.payload {
            Some(p) => p,
            None => {
                return Err(DaemonError::MissingPayload(PayloadCommand::Spawn));
            },
        };
        let command = match decode_text_payload(payload.as_str()) {
            Ok(c) => c,
            Err(e) => {
                return Err(DaemonError::BadPayload(e));
            },
        };
        let cols = match msg.cols {
            Some(c) => c,
            None => 80,
        };
        let rows = match msg.rows {
            Some(r) => r,
            None => 24,
        };
        let use_pty = match msg.pty {
            Some(p) => p,
            None => false,
        };
        if use_pty {
            Ok(CommandAction::SpawnPty { req_id, command, cols, rows })
        } else {
            Ok(CommandAction::SpawnPlain { req_id, command })
        }
    } else if same_text(t, "DATA") {
        let payload = match &msg.payload {
            Some(p) => p,
            None => {
                return Err(DaemonError::MissingPayload(PayloadCommand::Data));
            },
        };
        match decode_payload(payload.as_str()) {
            Ok(data) => Ok(CommandAction::Input { req_id, data }),
            Err(e) => Err(DaemonError::BadPayload(e)),
        }
    } else if same_text(t, "RESIZE") {
        let cols = match msg.cols {
            Some(c) => c,
            None => 80,
        };
        let rows = match msg.rows {
            Some(r) => r,
            None => 24,
        };
        Ok(CommandAction::Resize { req_id, cols, rows })
    } else if same_text(t, "KILL") {
        Ok(CommandAction::Kill { req_id })
    } else if same_text(t, "INVALID_REQ_ID") {
        Ok(CommandAction::KillQuietly { req_id })
    } else {
        Ok(CommandAction::Unknown)
    }
}

/// The bytes written to a PTY for input `data`: on Windows every line
/// ending becomes CR LF, elsewhere the input is written as it came.
pub fn convert_input(data: &[u8], windows: bool) -> (r: Vec<u8>)
    ensures
        windows ==> r@ == crlf(data@),
        !windows ==> r@ == data@,
{
    if windows {
        convert_line_endings(data)
    } else {
        let mut v: Vec<u8> = Vec::new();
        for i in 0..data.len()
            invariant
                v@ == data@.take(i as int),
        {
            v.push(data[i]);
            assert(v@ =~= data@.take(i + 1));
        }
        assert(v@ =~= data@);
        v
    }
}

/// What a message from the relay leads to.
#[derive(Debug)]
pub enum MessageAction {
    /// Answer with this PONG.
    Reply(PongMessage),
    /// A heartbeat answer: only the activity time counts.
    Heartbeat,
    /// A pairing response was applied.
    Pairing(PairOutcome),
    /// A command arrived while the daemon is not approved: it is ignored.
    NotApproved,
    /// A command to carry out (or the reason it cannot be).
    Command(Result<CommandAction, DaemonError>),
    /// Any other message: nothing to do.
    Nothing,
}

/// Handles a message from the relay in state `state`.
pub fn handle_message(msg: &GenericMessage, state: &mut DaemonState) -> (r: MessageAction)
    ensures
        ({
            let t = msg.msg_type@;
            if t == "PING"@ {
                &&& r matches MessageAction::Reply(p) && p.msg_type@ == "PONG"@ && (msg.ts matches Some(
                    ts,
                ) ==> p.ts == ts)
                &&& *final(state) == *old(state)
            } else if t == "PONG"@ {
                r is Heartbeat && *final(state) == *old(state)
            } else if is_pair_response_type(t) {
                r matches MessageAction::Pairing(o) && (*final(state), o.status, o.result)
                    == pair_transition(t, *old(state))
            } else if is_command_type(t) {
                &&& *final(state) == *old(state)
                &&& *old(state) != DaemonState::Approved ==> r is NotApproved
                &&& *old(state) == DaemonState::Approved ==> (r matches MessageAction::Command(c)
                    && command_outcome(*msg, c))
            } else {
                r is Nothing && *final(state) == *old(state)
            }
        }),
{
    if msg.is_ping() {
        let ts = match msg.ts {
            Some(t) => t,
            None => timestamp_ms(),
        };
        return MessageAction::Reply(PongMessage::new(ts));
    }
    if msg.is_pong() {
        return MessageAction::Heartbeat;
    }
    if msg.is_pair_response() {
        return MessageAction::Pairing(handle_pair_response(msg, state));
    }
    if msg.is_command() {
        if *state != DaemonState::Approved {
            return MessageAction::NotApproved;
        }
        return MessageAction::Command(handle_command(msg));
    }
    MessageAction::Nothing
}

/// Events from PTY processes.
#[derive(Debug)]
pub enum PtyEvent {
    Data { req_id: String, data: Vec<u8> },
    Exit { req_id: String, exit_code: i32 },
    Error { req_id: String, error: String },
}

/// Events from processes run without a PTY.
#[derive(Debug)]
pub enum CmdEvent {
    Data { req_id: String, data: Vec<u8> },
    Exit { req_id: String, exit_code: i32 },
    Error { req_id: String, error: String },
}

/// A message from the daemon to the relay about a process.
#[derive(Debug)]
pub enum ProcessReport {
    Data(DataResponse),
    Exit(ExitResponse),
    Error(ErrorResponse),
}

/// Escaping at most quadruples the length.
pub proof fn lemma_escaped_len(d: Seq<u8>)
    ensures
        escaped(d).len() <= 4 * d.len(),
    decreases d.len(),
{
    if d.len() > 0 {
        lemma_escaped_len(d.drop_last());
    }
}

/// The report for a PTY event: output is sent with its control bytes
/// escaped.
pub fn pty_event_report(event: PtyEvent) -> (r: ProcessReport)
    requires
        event matches PtyEvent::Data { data, .. } ==> 4 * data@.len() <= max_encodable_len(),
    ensures
        match event {
            PtyEvent::Data { req_id, data } => r matches ProcessReport::Data(d) && d.req_id
                == req_id && d.msg_type@ == "DATA"@ && d.payload@ == base64_encoding(escaped(data@))
                && base64_decoding(d.payload@) == Some(escaped(data@)),
            PtyEvent::Exit { req_id, exit_code } => r matches ProcessReport::Exit(e) && e.req_id
                == req_id && e.msg_type@ == "EXIT"@ && e.exit_code == exit_code,
            PtyEvent::Error { req_id, error } => r matches ProcessReport::Error(e) && e.req_id
                == req_id && e.msg_type@ == "ERROR"@ && e.error == error,
        },
{
    match event {
        PtyEvent::Data { req_id, data } => {
            proof {
                lemma_escaped_len(data@);
            }
            let escaped_data = escape_control_chars(data.as_slice());
            ProcessReport::Data(DataResponse::new(req_id, escaped_data.as_slice()))
        },
        PtyEvent::Exit { req_id, exit_code } => ProcessReport::Exit(
            ExitResponse::new(req_id, exit_code),
        ),
        PtyEvent::Error { req_id, error } => ProcessReport::Error(ErrorResponse::new(req_id, error)),
    }
}

/// The report for an event of a process run without a PTY: output is sent
/// as it is.
pub fn cmd_event_report(event: CmdEvent) -> (r: ProcessReport)
    requires
        event matches CmdEvent::Data { data, .. } ==> data@.len() <= max_encodable_len(),
    ensures
        match event {
            CmdEvent::Data { req_id, data } => r matches ProcessReport::Data(d) && d.req_id
                == req_id && d.msg_type@ == "DATA"@ && d.payload@ == base64_encoding(data@)
                && base64_decoding(d.payload@) == Some(data@),
            CmdEvent::Exit { req_id, exit_code } => r matches ProcessReport::Exit(e) && e.req_id
                == req_id && e.msg_type@ == "EXIT"@ && e.exit_code == exit_code,
            CmdEvent::Error { req_id, error } => r matches ProcessReport::Error(e) && e.req_id
                == req_id && e.msg_type@ == "ERROR"@ && e.error == error,
        },
{
    match event {
        CmdEvent::Data { req_id, data } => ProcessReport::Data(
            DataResponse::new(req_id, data.as_slice()),
        ),
        CmdEvent::Exit { req_id, exit_code } => ProcessReport::Exit(
            ExitResponse::new(req_id, exit_code),
        ),
        CmdEvent::Error { req_id, error } => ProcessReport::Error(ErrorResponse::new(req_id, error)),
    }
}

/// How fast reconnection attempts follow each other.
#[derive(Debug, Clone, Copy, PartialEq, Eq, Structural)]
pub enum ReconnectStage {
    Fast,
    Medium,
    Slow,
}

/// Attempts 1 to 3 wait 10 s, attempts 4 to 13 wait 60 s, later ones 600 s.
pub open spec fn reconnect_wait(attempt: int) -> (ReconnectStage, u64) {
    if attempt <= 3 {
        (ReconnectStage::Fast, 10)
    } else if attempt <= 13 {
        (ReconnectStage::Medium, 60)
    } else {
        (ReconnectStage::Slow, 600)
    }
}

/// The stage and the wait in seconds before reconnection attempt `attempt`.
pub fn reconnect_delay(attempt: usize) -> (r: (ReconnectStage, u64))
    ensures
        r == reconnect_wait(attempt as int),
{
    if attempt <= 3 {
        (ReconnectStage::Fast, 10)
    } else if attempt <= 3 + 10 {
        (ReconnectStage::Medium, 60)
    } else {
        (ReconnectStage::Slow, 600)
    }
}

/// What follows the end of a connection.
#[derive(Debug, Clone, Copy, PartialEq, Eq, Structural)]
pub enum ReconnectPlan {
    /// The user stopped the daemon: report STOPPED and end.
    Stop,
    /// Report RECONNECTING, wait, and connect again as attempt `attempt`.
    Retry { attempt: usize, stage: ReconnectStage, wait_secs: u64 },
}

/// Decides what follows a disconnect after `count` earlier attempts.
pub fn next_reconnect(reason: DisconnectReason, count: usize) -> (r: ReconnectPlan)
    requires
        count < usize::MAX,
    ensures
        reason == DisconnectReason::UserInitiated ==> r == ReconnectPlan::Stop,
        reason != DisconnectReason::UserInitiated ==> r == (ReconnectPlan::Retry {
            attempt: (count + 1) as usize,
            stage: reconnect_wait(count + 1).0,
            wait_secs: reconnect_wait(count + 1).1,
        }),
{
    match reason {
        DisconnectReason::UserInitiated => ReconnectPlan::Stop,
        _ => {
            let attempt = count + 1;
            let (stage, wait_secs) = reconnect_delay(attempt);
            ReconnectPlan::Retry { attempt, stage, wait_secs }
        },
    }
}

/// Later attempts never wait less than earlier ones.
pub proof fn lemma_reconnect_wait_monotonic(a: int, b: int)
    requires
        a <= b,
    ensures
        reconnect_wait(a).1 <= reconnect_wait(b).1,
{
}

/// The heartbeat timeout: 2 s.
pub const HEARTBEAT_TIMEOUT_NANOS: u128 = 2_000_000_000;

/// Whether a connection silent for `elapsed_nanos` has timed out (strictly
/// more than the timeout has passed).
pub fn heartbeat_timed_out(elapsed_nanos: u128) -> (r: bool)
    ensures
        r == (elapsed_nanos > HEARTBEAT_TIMEOUT_NANOS),
{
    elapsed_nanos > HEARTBEAT_TIMEOUT_NANOS
}

/// What a heartbeat tick does.
#[derive(Debug, Clone, Copy, PartialEq, Eq, Structural)]
pub enum HeartbeatAction {
    /// The connection is over: the heartbeat stops.
    Stop,
    /// Nothing arrived for too long: the connection is marked disconnected
    /// for a heartbeat timeout.
    TimedOut,
    /// Send a PING.
    Ping,
}

/// Decides a heartbeat tick in state `state`, `elapsed_nanos` after the last
/// activity; a timeout marks the state disconnected for a heartbeat timeout.
pub fn heartbeat_tick(
    state: &mut DaemonState,
    reason: &mut DisconnectReason,
    elapsed_nanos: u128,
) -> (r: HeartbeatAction)
    ensures
        (*old(state) == DaemonState::Disconnected || *old(state) == DaemonState::ShuttingDown)
            ==> r == HeartbeatAction::Stop && *final(state) == *old(state) && *final(reason)
            == *old(reason),
        !(*old(state) == DaemonState::Disconnected || *old(state) == DaemonState::ShuttingDown)
            ==> if elapsed_nanos > HEARTBEAT_TIMEOUT_NANOS {
            &&& r == HeartbeatAction::TimedOut
            &&& *final(state) == DaemonState::Disconnected
            &&& *final(reason) == DisconnectReason::HeartbeatTimeout
        } else {
            r == HeartbeatAction::Ping && *final(state) == *old(state) && *final(reason) == *old(
                reason,
            )
        },
{
    if *state == DaemonState::Disconnected || *state == DaemonState::ShuttingDown {
        return HeartbeatAction::Stop;
    }
    if heartbeat_timed_out(elapsed_nanos) {
        *state = DaemonState::Disconnected;
        *reason = DisconnectReason::HeartbeatTimeout;
        return HeartbeatAction::TimedOut;
    }
    HeartbeatAction::Ping
}

/// What happened on the connection while the daemon waited for a message.
#[derive(Debug, Clone, Copy, PartialEq, Eq, Structural)]
pub enum ConnEvent {
    /// The front end asked the daemon to stop.
    ShutdownRequested,
    /// A message arrived (it is handled by `handle_message`).
    Received,
    /// The WebSocket failed.
    StreamError,
    /// The relay closed the connection.
    StreamEnded,
    /// Nothing arrived within the heartbeat timeout; `elapsed_nanos` have
    /// passed since the last activity.
    ReadTimedOut { elapsed_nanos: u128 },
}

/// Whether the receive loop goes on.
#[derive(Debug, Clone, Copy, PartialEq, Eq, Structural)]
pub enum LoopControl {
    Continue,
    Stop,
}

/// Decides what a connection event does to the state and to the reason the
/// connection will be said to have ended for.
pub fn receive_step(
    event: ConnEvent,
    state: &mut DaemonState,
    reason: &mut DisconnectReason,
) -> (r: LoopControl)
    ensures
        match event {
            ConnEvent::ShutdownRequested => r == LoopControl::Stop && *final(state)
                == DaemonState::ShuttingDown && *final(reason) == DisconnectReason::UserInitiated,
            ConnEvent::Received => r == LoopControl::Continue && *final(state) == *old(state)
                && *final(reason) == *old(reason),
            ConnEvent::StreamError => r == LoopControl::Stop && *final(state)
                == DaemonState::Disconnected && *final(reason) == DisconnectReason::WebSocketError,
            ConnEvent::StreamEnded => r == LoopControl::Stop && *final(state)
                == DaemonState::Disconnected && *final(reason) == DisconnectReason::ServerClosed,
            ConnEvent::ReadTimedOut { elapsed_nanos } => if elapsed_nanos
                > HEARTBEAT_TIMEOUT_NANOS {
                r == LoopControl::Stop && *final(state) == DaemonState::Disconnected
                    && *final(reason) == DisconnectReason::HeartbeatTimeout
            } else {
                r == LoopControl::Continue && *final(state) == *old(state) && *final(reason)
                    == *old(reason)
            },
        },
{
    match event {
        ConnEvent::ShutdownRequested => {
            *state = DaemonState::ShuttingDown;
            *reason = DisconnectReason::UserInitiated;
            LoopControl::Stop
        },
        ConnEvent::Received => LoopControl::Continue,
        ConnEvent::StreamError => {
            *state = DaemonState::Disconnected;
            *reason = DisconnectReason::WebSocketError;
            LoopControl::Stop
        },
        ConnEvent::StreamEnded => {
            *state = DaemonState::Disconnected;
            *reason = DisconnectReason::ServerClosed;
            LoopControl::Stop
        },
        ConnEvent::ReadTimedOut { elapsed_nanos } => {
            if heartbeat_timed_out(elapsed_nanos) {
                *state = DaemonState::Disconnected;
                *reason = DisconnectReason::HeartbeatTimeout;
                LoopControl::Stop
            } else {
                LoopControl::Continue
            }
        },
    }
}

/// ASCII lowercase of one character.
pub open spec fn ascii_lower(c: char) -> char {
    if 'A' <= c && c <= 'Z' {
        ((c as u32) + 32) as char
    } else {
        c
    }
}

/// The ten characters of `s` from `i`, in ASCII lowercase.
pub open spec fn lowered_window(s: Seq<char>, i: int) -> Seq<char> {
    s.subrange(i, i + 10).map_values(|c: char| ascii_lower(c))
}

/// `s` contains "powershell" in any letter case.
pub open spec fn mentions_powershell(s: Seq<char>) -> bool {
    exists|i: int| 0 <= i && i + 10 <= s.len() && #[trigger] lowered_window(s, i) == "powershell"@
}

fn lower_char(c: char) -> (r: char)
    ensures
        r == ascii_lower(c),
{
    if 'A' <= c && c <= 'Z' {
        ((c as u8) + 32) as char
    } else {
        c
    }
}

/// Whether the shell's name contains "powershell" in any letter case (the
/// needle has no letter whose lowercase form comes from outside ASCII, so
/// this is what lowercasing the whole name and searching finds).
pub fn is_powershell(shell: &str) -> (r: bool)
    ensures
        r == mentions_powershell(shell@),
{
    let cs = chars_of(shell);
    let needle = chars_of("powershell");
    proof {
        reveal_strlit("powershell");
    }
    let n = cs.len();
    if n < 10 {
        return false;
    }
    let mut i: usize = 0;
    while i <= n - 10
        invariant
            cs@ == shell@,
            needle@ == "powershell"@,
            needle@.len() == 10,
            n == cs@.len(),
            n >= 10,
            0 <= i <= n - 9,
            forall|k: int| 0 <= k < i ==> #[trigger] lowered_window(shell@, k) != "powershell"@,
        decreases n - i,
    {
        let mut j: usize = 0;
        while j < 10 && lower_char(cs[i + j]) == needle[j]
            invariant
                0 <= j <= 10,
                i + 10 <= n,
                n == cs@.len(),
                cs@ == shell@,
                needle@ == "powershell"@,
                needle@.len() == 10,
                forall|m: int| 0 <= m < j ==> ascii_lower(cs@[i + m]) == needle@[m],
            decreases 10 - j,
        {
            j = j + 1;
        }
        let ghost w = lowered_window(shell@, i as int);
        if j == 10 {
            assert(w =~= "powershell"@);
            return true;
        }
        assert(w[j as int] != needle@[j as int]);
        i = i + 1;
    }
    proof {
        assert forall|k: int| 0 <= k && k + 10 <= shell@.len() implies #[trigger] lowered_window(
            shell@,
            k,
        ) != "powershell"@ by {
            assert(k < i);
        }
    }
    false
}

/// The arguments a shell is started with to run `command`: on Windows,
/// PowerShell gets `-NoLogo` (and, without a PTY, `-NoProfile
/// -NonInteractive`) then `-Command`, other shells `/C`; elsewhere `-c`.
pub open spec fn shell_args_spec(
    powershell: bool,
    command: Seq<char>,
    windows: bool,
    pty: bool,
) -> Seq<Seq<char>> {
    if !windows {
        seq!["-c"@, command]
    } else if powershell {
        if pty {
            seq!["-NoLogo"@, "-Command"@, command]
        } else {
            seq!["-NoLogo"@, "-NoProfile"@, "-NonInteractive"@, "-Command"@, command]
        }
    } else {
        seq!["/C"@, command]
    }
}

pub open spec fn strings_view(v: Seq<String>) -> Seq<Seq<char>> {
    Seq::new(v.len(), |i: int| v[i]@)
}

/// The arguments for running `command` with `shell`.
pub fn shell_args(shell: &str, command: &str, windows: bool, pty: bool) -> (r: Vec<String>)
    ensures
        strings_view(r@) == shell_args_spec(mentions_powershell(shell@), command@, windows, pty),
{
    let mut args: Vec<String> = Vec::new();
    if !windows {
        args.push(owned("-c"));
    } else if is_powershell(shell) {
        args.push(owned("-NoLogo"));
        if !pty {
            args.push(owned("-NoProfile"));
            args.push(owned("-NonInteractive"));
        }
        args.push(owned("-Command"));
    } else {
        args.push(owned("/C"));
    }
    args.push(owned(command));
    assert(strings_view(args@) =~= shell_args_spec(
        mentions_powershell(shell@),
        command@,
        windows,
        pty,
    ));
    args
}

} // verus!
