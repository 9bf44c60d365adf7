//! Messages between the local daemon and the relay.

use vstd::prelude::*;
use crate::text::{same_text, owned};
use crate::codec::{max_encodable_len, base64_encoding, base64_decoding};

pub use crate::codec::{decode_payload, encode_payload, timestamp_ms};

verus! {

broadcast use vstd::string::group_string_axioms;

/// Heartbeat PING message.
#[derive(Debug, Clone)]
pub struct PingMessage {
    pub msg_type: String,
    pub ts: i64,
}

impl PingMessage {
    /// A PING stamped with the current time.
    pub fn new() -> (r: Self)
        ensures
            r.msg_type@ == "PING"@,
    {
        PingMessage { msg_type: owned("PING"), ts: timestamp_ms() }
    }
}

/// Heartbeat PONG message.
#[derive(Debug, Clone)]
pub struct PongMessage {
    pub msg_type: String,
    pub ts: i64,
}

impl PongMessage {
    pub fn new(ts: i64) -> (r: Self)
        ensures
            r.msg_type@ == "PONG"@,
            r.ts == ts,
    {
        PongMessage { msg_type: owned("PONG"), ts }
    }
}

/// Pairing request (daemon to relay).
#[derive(Debug, Clone)]
pub struct PairRequest {
    pub msg_type: String,
    pub device_id: String,
    pub device_name: String,
    pub platform: String,
    pub shell: String,
    pub secret_key: String,
}

impl PairRequest {
    pub fn new(
        device_id: String,
        device_name: String,
        platform: String,
        shell: String,
        secret_key: String,
    ) -> (r: Self)
        ensures
            r.msg_type@ == "PAIR_REQUEST"@,
            r.device_id == device_id,
            r.device_name == device_name,
            r.platform == platform,
            r.shell == shell,
            r.secret_key == secret_key,
    {
        PairRequest {
            msg_type: owned("PAIR_REQUEST"),
            device_id,
            device_name,
            platform,
            shell,
            secret_key,
        }
    }
}

/// Pairing response types.
#[derive(Debug, Clone, Copy, PartialEq, Eq, Structural)]
pub enum PairResponseType {
    Approved,
    Pending,
    Rejected,
    AuthFailed,
    LimitExceeded,
}

/// The pairing response type named by a message type, if any.
pub open spec fn pair_response_kind(t: Seq<char>) -> Option<PairResponseType> {
    if t == "PAIR_APPROVED"@ {
        Some(PairResponseType::Approved)
    } else if t == "PAIR_PENDING"@ {
        Some(PairResponseType::Pending)
    } else if t == "PAIR_REJECTED"@ {
        Some(PairResponseType::Rejected)
    } else if t == "PAIR_AUTH_FAILED"@ {
        Some(PairResponseType::AuthFailed)
    } else if t == "PAIR_LIMIT_EXCEEDED"@ {
        Some(PairResponseType::LimitExceeded)
    } else {
        None
    }
}

/// Pairing response (relay to daemon).
#[derive(Debug, Clone)]
pub struct PairResponse {
    pub msg_type: String,
    pub message: Option<String>,
}

impl PairResponse {
    pub fn response_type(&self) -> (r: Option<PairResponseType>)
        ensures
            r == pair_response_kind(self.msg_type@),
    {
        let t = self.msg_type.as_str();
        if same_text(t, "PAIR_APPROVED") {
            Some(PairResponseType::Approved)
        } else if same_text(t, "PAIR_PENDING") {
            Some(PairResponseType::Pending)
        } else if same_text(t, "PAIR_REJECTED") {
            Some(PairResponseType::Rejected)
        } else if same_text(t, "PAIR_AUTH_FAILED") {
            Some(PairResponseType::AuthFailed)
        } else if same_text(t, "PAIR_LIMIT_EXCEEDED") {
            Some(PairResponseType::LimitExceeded)
        } else {
            None
        }
    }
}

/// Spawn command message.
#[derive(Debug, Clone)]
pub struct SpawnCommand {
    pub req_id: String,
    pub msg_type: String,
    pub payload: String,
    pub cols: Option<u16>,
    pub rows: Option<u16>,
}

/// Data input message.
#[derive(Debug, Clone)]
pub struct DataCommand {
    pub req_id: String,
    pub msg_type: String,
    pub payload: String,
}

/// Resize command message.
#[derive(Debug, Clone)]
pub struct ResizeCommand {
    pub req_id: String,
    pub msg_type: String,
    pub cols: u16,
    pub rows: u16,
}

/// Kill command message.
#[derive(Debug, Clone)]
pub struct KillCommand {
    pub req_id: String,
    pub msg_type: String,
}

/// Unified command message from the relay.
#[derive(Debug, Clone)]
pub struct VpsCommand {
    pub req_id: String,
    pub msg_type: String,
    pub payload: Option<String>,
    pub cols: Option<u16>,
    pub rows: Option<u16>,
}

#[derive(Debug, Clone, Copy, PartialEq, Eq, Structural)]
pub enum CommandType {
    Spawn,
    Data,
    Resize,
    Kill,
    InvalidReqId,
    Unknown,
}

/// The command type named by a message type.
pub open spec fn command_kind(t: Seq<char>) -> CommandType {
    if t == "SPAWN"@ {
        CommandType::Spawn
    } else if t == "DATA"@ {
        CommandType::Data
    } else if t == "RESIZE"@ {
        CommandType::Resize
    } else if t == "KILL"@ {
        CommandType::Kill
    } else if t == "INVALID_REQ_ID"@ {
        CommandType::InvalidReqId
    } else {
        CommandType::Unknown
    }
}

impl VpsCommand {
    pub fn command_type(&self) -> (r: CommandType)
        ensures
            r == command_kind(self.msg_type@),
    {
        let t = self.msg_type.as_str();
        if same_text(t, "SPAWN") {
            CommandType::Spawn
        } else if same_text(t, "DATA") {
            CommandType::Data
        } else if same_text(t, "RESIZE") {
            CommandType::Resize
        } else if same_text(t, "KILL") {
            CommandType::Kill
        } else if same_text(t, "INVALID_REQ_ID") {
            CommandType::InvalidReqId
        } else {
            CommandType::Unknown
        }
    }
}

/// Process output (daemon to relay), base64 encoded.
#[derive(Debug, Clone)]
pub struct DataResponse {
    pub req_id: String,
    pub msg_type: String,
    pub payload: String,
}

impl DataResponse {
    pub fn new(req_id: String, data: &[u8]) -> (r: Self)
        requires
            data@.len() <= max_encodable_len(),
        ensures
            r.req_id == req_id,
            r.msg_type@ == "DATA"@,
            r.payload@ == base64_encoding(data@),
            base64_decoding(r.payload@) == Some(data@),
    {
        DataResponse { req_id, msg_type: owned("DATA"), payload: encode_payload(data) }
    }
}

/// Process exit (daemon to relay).
#[derive(Debug, Clone)]
pub struct ExitResponse {
    pub req_id: String,
    pub msg_type: String,
    pub exit_code: i32,
}

impl ExitResponse {
    pub fn new(req_id: String, exit_code: i32) -> (r: Self)
        ensures
            r.req_id == req_id,
            r.msg_type@ == "EXIT"@,
            r.exit_code == exit_code,
    {
        ExitResponse { req_id, msg_type: owned("EXIT"), exit_code }
    }
}

/// Process error (daemon to relay).
#[derive(Debug, Clone)]
pub struct ErrorResponse {
    pub req_id: String,
    pub msg_type: String,
    pub error: String,
}

impl ErrorResponse {
    pub fn new(req_id: String, error: String) -> (r: Self)
        ensures
            r.req_id == req_id,
            r.msg_type@ == "ERROR"@,
            r.error == error,
    {
        ErrorResponse { req_id, msg_type: owned("ERROR"), error }
    }
}

/// Any message from the relay, as first parsed.
#[derive(Debug, Clone)]
pub struct GenericMessage {
    pub msg_type: String,
    pub req_id: Option<String>,
    pub ts: Option<i64>,
    pub message: Option<String>,
    pub payload: Option<String>,
    pub cols: Option<u16>,
    pub rows: Option<u16>,
    pub exit_code: Option<i32>,
    pub error: Option<String>,
    pub pty: Option<bool>,
}

/// The message types of pairing responses.
pub open spec fn is_pair_response_type(t: Seq<char>) -> bool {
    t == "PAIR_APPROVED"@ || t == "PAIR_PENDING"@ || t == "PAIR_REJECTED"@ || t
        == "PAIR_AUTH_FAILED"@ || t == "PAIR_LIMIT_EXCEEDED"@
}

/// The message types of commands.
pub open spec fn is_command_type(t: Seq<char>) -> bool {
    t == "SPAWN"@ || t == "DATA"@ || t == "RESIZE"@ || t == "KILL"@ || t == "INVALID_REQ_ID"@
}

impl GenericMessage {
    pub fn is_ping(&self) -> (r: bool)
        ensures
            r == (self.msg_type@ == "PING"@),
    {
        same_text(self.msg_type.as_str(), "PING")
    }

    pub fn is_pong(&self) -> (r: bool)
        ensures
            r == (self.msg_type@ == "PONG"@),
    {
        same_text(self.msg_type.as_str(), "PONG")
    }

    pub fn is_pair_response(&self) -> (r: bool)
        ensures
            r == is_pair_response_type(self.msg_type@),
    {
        let t = self.msg_type.as_str();
        same_text(t, "PAIR_APPROVED") || same_text(t, "PAIR_PENDING") || same_text(
            t,
            "PAIR_REJECTED",
        ) || same_text(t, "PAIR_AUTH_FAILED") || same_text(t, "PAIR_LIMIT_EXCEEDED")
    }

    pub fn is_command(&self) -> (r: bool)
        ensures
            r == is_command_type(self.msg_type@),
    {
        let t = self.msg_type.as_str();
        same_text(t, "SPAWN") || same_text(t, "DATA") || same_text(t, "RESIZE") || same_text(
            t,
            "KILL",
        ) || same_text(t, "INVALID_REQ_ID")
    }
}

/// A message type is a pairing response exactly when it names a pairing
/// response type, and a command exactly when it names a known command.
pub proof fn lemma_message_kinds_agree(t: Seq<char>)
    ensures
        is_pair_response_type(t) <==> pair_response_kind(t) is Some,
        is_command_type(t) <==> command_kind(t) != CommandType::Unknown,
{
}

} // verus!
