//! Messages the relay exchanges with daemons (clients) and with `osh` /
//! `osh-admin`.

#![allow(non_camel_case_types)]

use vstd::prelude::*;

verus! {

/// Heartbeat messages.
#[derive(Debug, Clone, PartialEq, Eq, Structural)]
pub enum HeartbeatMessage {
    PING { ts: i64 },
    PONG { ts: i64 },
}

/// Client to relay: pairing request.
#[derive(Debug, Clone)]
pub struct PairRequest {
    pub device_id: String,
    pub device_name: String,
    pub platform: String,
    pub shell: String,
    pub secret_key: String,
}

/// Pairing response types.
#[derive(Debug, Clone, Copy, PartialEq, Eq, Structural)]
pub enum PairResponseType {
    PAIR_APPROVED,
    PAIR_REJECTED,
    PAIR_PENDING,
    PAIR_AUTH_FAILED,
    PAIR_LIMIT_EXCEEDED,
}

/// Relay to client: pairing response.
#[derive(Debug, Clone)]
pub struct PairResponse {
    pub response_type: PairResponseType,
    pub message: Option<String>,
}

/// Commands sent to a client.
#[derive(Debug, Clone)]
pub enum ClientCommand {
    SPAWN {
        req_id: String,
        payload: Option<String>,
        cols: Option<u16>,
        rows: Option<u16>,
        pty: bool,
    },
    DATA { req_id: String, payload: String },
    RESIZE { req_id: String, cols: u16, rows: u16 },
    KILL { req_id: String },
}

/// Events sent by a client.
#[derive(Debug, Clone)]
pub enum ClientEvent {
    DATA { req_id: String, payload: String },
    EXIT { req_id: String, exit_code: i32 },
    ERROR { req_id: String, error: Option<String> },
}

/// osh to relay: execute a command.
#[derive(Debug, Clone)]
pub struct ExecRequest {
    pub device: String,
    pub req_id: String,
    pub cmd: String,
    pub cols: Option<u16>,
    pub rows: Option<u16>,
    pub pty: bool,
}

/// osh to relay: input data.
#[derive(Debug, Clone)]
pub struct InputData {
    pub req_id: String,
    pub payload: String,
}

/// osh to relay: terminal resize.
#[derive(Debug, Clone)]
pub struct ResizeRequest {
    pub req_id: String,
    pub cols: u16,
    pub rows: u16,
}

/// Admin messages.
#[derive(Debug, Clone)]
pub enum AdminMessage {
    ADMIN_RELOAD,
    ADMIN_RELOAD_OK { message: String },
    ADMIN_RELOAD_ERROR { message: String },
}

/// Error messages.
#[derive(Debug, Clone)]
pub enum ErrorMessage {
    INVALID_REQ_ID { req_id: String, message: String },
    DEVICE_NOT_APPROVED { req_id: String, message: String },
    DEVICE_OFFLINE { req_id: String, message: String },
    DEVICE_NOT_FOUND { req_id: String, message: String },
    ERROR { req_id: String, message: String },
}

/// Messages from a client (local daemon).
#[derive(Debug, Clone)]
pub enum ClientMessage {
    PING { ts: i64 },
    PONG { ts: i64 },
    PAIR_REQUEST {
        device_id: String,
        device_name: String,
        platform: String,
        shell: String,
        secret_key: String,
    },
    DATA { req_id: String, payload: String },
    EXIT { req_id: String, exit_code: i32 },
    ERROR { req_id: String, error: Option<String> },
}

/// Messages to a client (local daemon).
#[derive(Debug, Clone)]
pub enum RelayToClientMessage {
    PING { ts: i64 },
    PONG { ts: i64 },
    PAIR_APPROVED { message: Option<String> },
    PAIR_REJECTED { message: Option<String> },
    PAIR_PENDING { message: Option<String> },
    PAIR_AUTH_FAILED { message: Option<String> },
    PAIR_LIMIT_EXCEEDED { message: Option<String> },
    SPAWN {
        req_id: String,
        payload: Option<String>,
        cols: Option<u16>,
        rows: Option<u16>,
        pty: bool,
    },
    DATA { req_id: String, payload: String },
    RESIZE { req_id: String, cols: u16, rows: u16 },
    KILL { req_id: String },
    INVALID_REQ_ID { req_id: String, message: String },
}

/// Messages from osh / osh-admin.
#[derive(Debug, Clone)]
pub enum OshMessage {
    PING { ts: i64 },
    PONG { ts: i64 },
    EXEC {
        device: String,
        req_id: String,
        cmd: String,
        cols: Option<u16>,
        rows: Option<u16>,
        pty: bool,
    },
    INPUT { req_id: String, payload: String },
    RESIZE { req_id: String, cols: u16, rows: u16 },
    ADMIN_RELOAD,
}

/// Messages to osh / osh-admin.
#[derive(Debug, Clone)]
pub enum RelayToOshMessage {
    PING { ts: i64 },
    PONG { ts: i64 },
    DATA { req_id: String, payload: String },
    EXIT { req_id: String, exit_code: i32 },
    ERROR { req_id: String, message: String },
    DEVICE_OFFLINE { req_id: String, message: String },
    DEVICE_NOT_APPROVED { req_id: String, message: String },
    DEVICE_NOT_FOUND { req_id: String, message: String },
    INVALID_REQ_ID { req_id: String, message: String },
    ADMIN_RELOAD_OK { message: String },
    ADMIN_RELOAD_ERROR { message: String },
}

} // verus!
