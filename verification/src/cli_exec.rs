//! The decisions of an `osh` session: what each message from the relay does
//! to the running command, and what a heartbeat tick does.

use vstd::prelude::*;
use crate::codec::{PayloadError, decode_payload, base64_decoding, timestamp_ms};
use crate::cli_protocol::{RelayResponse, HeartbeatMessage};
use crate::text::{same_text, owned, push_chars};

verus! {

/// What the session does with a message from the relay.
#[derive(Debug)]
pub enum ExecStep {
    /// Write these bytes to standard output.
    Output(Vec<u8>),
    /// The command is over: exit with `exit_code`, after printing `notice`
    /// on standard error when there is one.
    Finish { exit_code: i32, notice: Option<String> },
    /// Answer the relay with this message.
    Reply(HeartbeatMessage),
    /// Nothing to do.
    Continue,
}

/// The line printed on standard error when the relay answers the request
/// with a refusal or an error, by the message's kind.
pub open spec fn refusal_notice(resp: RelayResponse) -> Option<Seq<char>> {
    match resp {
        RelayResponse::ERROR { message, .. } => Some("Error: "@ + message@),
        RelayResponse::DEVICE_OFFLINE { message, .. } => Some("Device offline: "@ + message@),
        RelayResponse::DEVICE_NOT_APPROVED { message, .. } => Some(
            "Device not approved: "@ + message@,
        ),
        RelayResponse::DEVICE_NOT_FOUND { message, .. } => Some("Device not found: "@ + message@),
        RelayResponse::INVALID_REQ_ID { message, .. } => Some("Invalid request: "@ + message@),
        _ => None,
    }
}

/// The request id a message from the relay is about, if it names one.
pub open spec fn response_req_id(resp: RelayResponse) -> Option<Seq<char>> {
    match resp {
        RelayResponse::DATA { req_id, .. } => Some(req_id@),
        RelayResponse::EXIT { req_id, .. } => Some(req_id@),
        RelayResponse::ERROR { req_id, .. } => Some(req_id@),
        RelayResponse::DEVICE_OFFLINE { req_id, .. } => Some(req_id@),
        RelayResponse::DEVICE_NOT_APPROVED { req_id, .. } => Some(req_id@),
        RelayResponse::DEVICE_NOT_FOUND { req_id, .. } => Some(req_id@),
        RelayResponse::INVALID_REQ_ID { req_id, .. } => Some(req_id@),
        _ => None,
    }
}

fn notice(prefix: &str, message: &str) -> (s: String)
    ensures
        s@ == prefix@ + message@,
{
    let mut s = owned(prefix);
    push_chars(&mut s, message);
    s
}

/// Decides what the session running request `req_id` does with `resp`.
/// Messages about other requests are ignored; a PING is answered with a
/// PONG carrying its timestamp; output is decoded from base64 (an
/// undecodable payload ends the session with that error).
pub fn exec_step(resp: &RelayResponse, req_id: &str) -> (r: Result<ExecStep, PayloadError>)
    ensures
        match *resp {
            RelayResponse::PING { ts } => r matches Ok(ExecStep::Reply(m)) && m
                == (HeartbeatMessage::PONG { ts }),
            RelayResponse::DATA { req_id: rid, payload } => if rid@ != req_id@ {
                r matches Ok(ExecStep::Continue)
            } else {
                match base64_decoding(payload@) {
                    None => r == Err::<ExecStep, PayloadError>(PayloadError::InvalidBase64),
                    Some(b) => if b.len() == 0 {
                        r matches Ok(ExecStep::Continue)
                    } else {
                        r matches Ok(ExecStep::Output(v)) && v@ == b
                    },
                }
            },
            RelayResponse::EXIT { req_id: rid, exit_code } => if rid@ != req_id@ {
                r matches Ok(ExecStep::Continue)
            } else {
                r matches Ok(ExecStep::Finish { exit_code: c, notice: None }) && c == exit_code
            },
            _ => match (response_req_id(*resp), refusal_notice(*resp)) {
                (Some(rid), Some(text)) => if rid != req_id@ {
                    r matches Ok(ExecStep::Continue)
                } else {
                    r matches Ok(ExecStep::Finish { exit_code: c, notice: Some(n) }) && c == 1
                        && n@ == text
                },
                _ => r matches Ok(ExecStep::Continue),
            },
        },
{
    match resp {
        RelayResponse::PING { ts } => Ok(ExecStep::Reply(HeartbeatMessage::PONG { ts: *ts })),
        RelayResponse::DATA { req_id: rid, payload } => {
            if !same_text(rid.as_str(), req_id) {
                return Ok(ExecStep::Continue);
            }
            let data = decode_payload(payload.as_str())?;
            if data.len() == 0 {
                Ok(ExecStep::Continue)
            } else {
                Ok(ExecStep::Output(data))
            }
        },
        RelayResponse::EXIT { req_id: rid, exit_code } => {
            if !same_text(rid.as_str(), req_id) {
                return Ok(ExecStep::Continue);
            }
            Ok(ExecStep::Finish { exit_code: *exit_code, notice: None })
        },
        RelayResponse::ERROR { req_id: rid, message } => {
            if !same_text(rid.as_str(), req_id) {
                return Ok(ExecStep::Continue);
            }
            Ok(ExecStep::Finish { exit_code: 1, notice: Some(notice("Error: ", message.as_str())) })
        },
        RelayResponse::DEVICE_OFFLINE { req_id: rid, message } => {
            if !same_text(rid.as_str(), req_id) {
                return Ok(ExecStep::Continue);
            }
            Ok(
                ExecStep::Finish {
                    exit_code: 1,
                    notice: Some(notice("Device offline: ", message.as_str())),
                },
            )
        },
        RelayResponse::DEVICE_NOT_APPROVED { req_id: rid, message } => {
            if !same_text(rid.as_str(), req_id) {
                return Ok(ExecStep::Continue);
            }
            Ok(
                ExecStep::Finish {
                    exit_code: 1,
                    notice: Some(notice("Device not approved: ", message.as_str())),
                },
            )
        },
        RelayResponse::DEVICE_NOT_FOUND { req_id: rid, message } => {
            if !same_text(rid.as_str(), req_id) {
                return Ok(ExecStep::Continue);
            }
            Ok(
                ExecStep::Finish {
                    exit_code: 1,
                    notice: Some(notice("Device not found: ", message.as_str())),
                },
            )
        },
        RelayResponse::INVALID_REQ_ID { req_id: rid, message } => {
            if !same_text(rid.as_str(), req_id) {
                return Ok(ExecStep::Continue);
            }
            Ok(
                ExecStep::Finish {
                    exit_code: 1,
                    notice: Some(notice("Invalid request: ", message.as_str())),
                },
            )
        },
        _ => Ok(ExecStep::Continue),
    }
}

/// The heartbeat timeout of a session: 2 s.
pub const EXEC_TIMEOUT_NANOS: u128 = 2_000_000_000;

/// What a heartbeat tick of the session does.
#[derive(Debug)]
pub enum ExecTick {
    /// Nothing arrived for too long: print "Connection timeout" and exit
    /// with code 1.
    TimedOut,
    /// Send this PING.
    Ping(HeartbeatMessage),
}

/// Decides a heartbeat tick `elapsed_nanos` after the last message from
/// the relay.
pub fn exec_tick(elapsed_nanos: u128) -> (r: ExecTick)
    ensures
        elapsed_nanos > EXEC_TIMEOUT_NANOS <==> r is TimedOut,
        r is Ping ==> r->Ping_0 is PING,
{
    if elapsed_nanos > EXEC_TIMEOUT_NANOS {
        ExecTick::TimedOut
    } else {
        ExecTick::Ping(HeartbeatMessage::PING { ts: timestamp_ms() })
    }
}

} // verus!
