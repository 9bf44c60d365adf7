//! The messages that `osh` and `osh-admin` exchange with the relay, and the
//! device list (`devices.json`) as the admin tool sees it.

#![allow(non_camel_case_types)]

use vstd::prelude::*;
use crate::lookup::{alias_view, first_alias, first_id, prefix_count, last_prefix, resolve_alias_first, lemma_resolve_in_range, lemma_first_alias_stable, lemma_first_id_stable};
use crate::text::{same_text, starts_with, owned, is_prefix};
use crate::codec::{max_encodable_len, base64_encoding, base64_decoding, PayloadError};
use crate::terminal::filter_sequences;

pub use crate::codec::{decode_payload, encode_payload, timestamp_ms};
pub use crate::terminal::{
    filter_terminal_sequences, try_filter_escape_sequence, try_filter_csi, try_filter_osc,
};

verus! {

broadcast use vstd::string::group_string_axioms;

/// Device status in the system.
#[derive(Debug, Clone, Copy, PartialEq, Eq, Structural)]
pub enum DeviceStatus {
    Pending,
    Approved,
    Rejected,
}

impl DeviceStatus {
    /// The lowercase name of the status, as it is shown and stored.
    pub open spec fn spec_name(self) -> Seq<char> {
        match self {
            DeviceStatus::Pending => "pending"@,
            DeviceStatus::Approved => "approved"@,
            DeviceStatus::Rejected => "rejected"@,
        }
    }

    /// The text the status displays as.
    pub fn display_string(&self) -> (s: String)
        ensures
            s@ == self.spec_name(),
    {
        match self {
            DeviceStatus::Pending => owned("pending"),
            DeviceStatus::Approved => owned("approved"),
            DeviceStatus::Rejected => owned("rejected"),
        }
    }
}

/// Device information stored in devices.json.
#[derive(Debug, Clone)]
pub struct Device {
    pub device_id: String,
    pub alias: Option<String>,
    pub device_name: String,
    pub platform: String,
    pub shell: String,
    pub status: DeviceStatus,
    pub created_at: String,
    pub last_seen: String,
}

/// Root structure of devices.json.
#[derive(Debug, Clone)]
pub struct DevicesConfig {
    pub max_devices: u32,
    pub secret_key: String,
    pub devices: Vec<Device>,
}

/// The device ids, in order.
pub open spec fn device_ids(devs: Seq<Device>) -> Seq<Seq<char>> {
    Seq::new(devs.len(), |i: int| devs[i].device_id@)
}

/// The aliases, in order.
pub open spec fn device_aliases(devs: Seq<Device>) -> Seq<Option<Seq<char>>> {
    Seq::new(devs.len(), |i: int| alias_view(devs[i].alias))
}

pub open spec fn as_index(r: Option<usize>) -> Option<int> {
    match r {
        Some(i) => Some(i as int),
        None => None,
    }
}

fn alias_equals(alias: &Option<String>, key: &str) -> (r: bool)
    ensures
        r == (alias_view(*alias) == Some(key@)),
{
    match alias {
        Some(a) => same_text(a.as_str(), key),
        None => false,
    }
}

impl DevicesConfig {
    /// The index of the device that `identifier` names: an exact alias
    /// first, then an exact device id, then a prefix of exactly one id.
    pub open spec fn resolve(&self, identifier: Seq<char>) -> Option<int> {
        resolve_alias_first(device_ids(self.devices@), device_aliases(self.devices@), identifier)
    }

    /// A resolved device is one of the devices.
    pub proof fn lemma_resolve_in_bounds(&self, identifier: Seq<char>)
        ensures
            self.resolve(identifier) matches Some(i) ==> 0 <= i < self.devices@.len(),
    {
        lemma_resolve_in_range(
            device_ids(self.devices@),
            device_aliases(self.devices@),
            identifier,
        );
    }

    pub(crate) fn resolve_index(&self, identifier: &str) -> (r: Option<usize>)
        ensures
            as_index(r) == self.resolve(identifier@),
            r matches Some(i) ==> i < self.devices@.len(),
    {
        let ghost ids = device_ids(self.devices@);
        let ghost aliases = device_aliases(self.devices@);
        let ghost key = identifier@;
        let n = self.devices.len();
        proof {
            lemma_resolve_in_range(ids, aliases, key);
        }
        for i in 0..n
            invariant
                n == self.devices@.len(),
                aliases == device_aliases(self.devices@),
                key == identifier@,
                first_alias(aliases, key, i as int) is None,
        {
            if alias_equals(&self.devices[i].alias, identifier) {
                assert(aliases[i as int] == Some(key));
                proof {
                    lemma_first_alias_stable(aliases, key, i + 1, n as int);
                }
                return Some(i);
            }
        }
        for i in 0..n
            invariant
                n == self.devices@.len(),
                ids == device_ids(self.devices@),
                aliases == device_aliases(self.devices@),
                key == identifier@,
                first_alias(aliases, key, n as int) is None,
                first_id(ids, key, i as int) is None,
        {
            if same_text(self.devices[i].device_id.as_str(), identifier) {
                assert(ids[i as int] == key);
                proof {
                    lemma_first_id_stable(ids, key, i + 1, n as int);
                }
                return Some(i);
            }
        }
        let mut count: usize = 0;
        let mut last: usize = 0;
        for i in 0..n
            invariant
                n == self.devices@.len(),
                ids == device_ids(self.devices@),
                aliases == device_aliases(self.devices@),
                key == identifier@,
                first_alias(aliases, key, n as int) is None,
                first_id(ids, key, n as int) is None,
                count == prefix_count(ids, key, i as int),
                count <= i,
                count > 0 ==> last == last_prefix(ids, key, i as int),
        {
            if starts_with(self.devices[i].device_id.as_str(), identifier) {
                assert(is_prefix(key, ids[i as int]));
                count = count + 1;
                last = i;
            }
        }
        if count == 1 {
            Some(last)
        } else {
            None
        }
    }

    /// Finds a device by alias, device id, or unique device id prefix.
    pub fn find_device(&self, identifier: &str) -> (r: Option<&Device>)
        ensures
            match r {
                Some(d) => self.resolve(identifier@) matches Some(i) && *d == self.devices@[i],
                None => self.resolve(identifier@) is None,
            },
    {
        match self.resolve_index(identifier) {
            Some(i) => Some(&self.devices[i]),
            None => None,
        }
    }

    /// Finds a device by alias, device id, or unique device id prefix, for
    /// changing it in place.
    pub fn find_device_mut(&mut self, identifier: &str) -> (r: Option<&mut Device>)
        ensures
            match r {
                Some(d) => old(self).resolve(identifier@) matches Some(i) && *d
                    == old(self).devices@[i] && final(self).devices@ == old(
                    self,
                ).devices@.update(i, *final(d)) && final(self).max_devices == old(self).max_devices
                    && final(self).secret_key == old(self).secret_key,
                None => old(self).resolve(identifier@) is None && *final(self) == *old(self),
            },
    {
        match self.resolve_index(identifier) {
            Some(i) => Some(&mut self.devices[i]),
            None => None,
        }
    }

    /// Removes the device that `identifier` names, handing it back.
    pub fn remove_device(&mut self, identifier: &str) -> (r: Option<Device>)
        ensures
            match r {
                Some(d) => old(self).resolve(identifier@) matches Some(i) && d == old(
                    self,
                ).devices@[i] && final(self).devices@ == old(self).devices@.remove(i),
                None => old(self).resolve(identifier@) is None && final(self).devices@ == old(
                    self,
                ).devices@,
            },
            final(self).max_devices == old(self).max_devices,
            final(self).secret_key == old(self).secret_key,
    {
        match self.resolve_index(identifier) {
            Some(i) => Some(self.devices.remove(i)),
            None => None,
        }
    }

    /// Whether some device has this alias.
    pub fn is_alias_used(&self, alias: &str) -> (r: bool)
        ensures
            r == exists|i: int|
                0 <= i < self.devices@.len() && alias_view(#[trigger] self.devices@[i].alias)
                    == Some(alias@),
    {
        let n = self.devices.len();
        for i in 0..n
            invariant
                n == self.devices@.len(),
                forall|j: int|
                    0 <= j < i ==> alias_view(#[trigger] self.devices@[j].alias) != Some(alias@),
        {
            if alias_equals(&self.devices[i].alias, alias) {
                return true;
            }
        }
        false
    }
}

// ============================================================================
// WebSocket protocol messages
// ============================================================================
/// Heartbeat messages.
#[derive(Debug, Clone, PartialEq, Eq, Structural)]
pub enum HeartbeatMessage {
    PING { ts: i64 },
    PONG { ts: i64 },
}

/// Admin requests (osh-admin to relay).
#[derive(Debug, Clone, PartialEq, Eq, Structural)]
pub enum AdminRequest {
    ADMIN_RELOAD,
}

/// Admin responses (relay to osh-admin).
#[derive(Debug, Clone)]
pub enum AdminResponse {
    ADMIN_RELOAD_OK { message: String },
    ADMIN_RELOAD_ERROR { message: String },
}

/// Exec request (osh to relay).
#[derive(Debug, Clone)]
pub struct ExecRequest {
    pub msg_type: String,
    pub device: String,
    pub req_id: String,
    pub cmd: String,
    pub cols: u16,
    pub rows: u16,
    pub pty: bool,
}

impl ExecRequest {
    pub fn new(device: String, req_id: String, cmd: String, cols: u16, rows: u16, pty: bool) -> (r:
        Self)
        ensures
            r.msg_type@ == "EXEC"@,
            r.device == device,
            r.req_id == req_id,
            r.cmd == cmd,
            r.cols == cols,
            r.rows == rows,
            r.pty == pty,
    {
        ExecRequest { msg_type: owned("EXEC"), device, req_id, cmd, cols, rows, pty }
    }
}

/// Input from the user's terminal (osh to relay), base64 encoded.
#[derive(Debug, Clone)]
pub struct InputMessage {
    pub msg_type: String,
    pub req_id: String,
    pub payload: String,
}

impl InputMessage {
    pub fn new(req_id: String, data: &[u8]) -> (r: Self)
        requires
            data@.len() <= max_encodable_len(),
        ensures
            r.msg_type@ == "INPUT"@,
            r.req_id == req_id,
            r.payload@ == base64_encoding(data@),
            base64_decoding(r.payload@) == Some(data@),
    {
        InputMessage { msg_type: owned("INPUT"), req_id, payload: encode_payload(data) }
    }
}

/// Terminal resize (osh to relay).
#[derive(Debug, Clone)]
pub struct ResizeMessage {
    pub msg_type: String,
    pub req_id: String,
    pub cols: u16,
    pub rows: u16,
}

impl ResizeMessage {
    pub fn new(req_id: String, cols: u16, rows: u16) -> (r: Self)
        ensures
            r.msg_type@ == "RESIZE"@,
            r.req_id == req_id,
            r.cols == cols,
            r.rows == rows,
    {
        ResizeMessage { msg_type: owned("RESIZE"), req_id, cols, rows }
    }
}

/// Messages from the relay to osh.
#[derive(Debug, Clone)]
pub enum RelayResponse {
    DATA { req_id: String, payload: String },
    EXIT { req_id: String, exit_code: i32 },
    ERROR { req_id: String, message: String },
    DEVICE_OFFLINE { req_id: String, message: String },
    DEVICE_NOT_APPROVED { req_id: String, message: String },
    DEVICE_NOT_FOUND { req_id: String, message: String },
    INVALID_REQ_ID { req_id: String, message: String },
    PING { ts: i64 },
    PONG { ts: i64 },
    ADMIN_RELOAD_OK { message: String },
    ADMIN_RELOAD_ERROR { message: String },
}

/// Decodes a base64 payload and drops the escape sequences of Windows
/// Terminal / PowerShell output that break a Linux terminal.
pub fn decode_and_filter_payload(payload: &str) -> (r: Result<Vec<u8>, PayloadError>)
    ensures
        match r {
            Ok(v) => base64_decoding(payload@) matches Some(b) && v@ == filter_sequences(b),
            Err(e) => base64_decoding(payload@) is None && e == PayloadError::InvalidBase64,
        },
{
    let data = decode_payload(payload)?;
    Ok(filter_terminal_sequences(data.as_slice()))
}

} // verus!
