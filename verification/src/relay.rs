//! The relay's routing decisions: pairing of daemons, command sessions
//! between osh and daemons, forwarding of their traffic, clean-up when
//! either side goes away, and configuration reloads. Each handler updates
//! the tables and returns the messages to send; connections are named by
//! numbers that the caller maps to its sockets.

use vstd::prelude::*;
use vstd::string::StringExecFns;
use crate::codec::{
    UtcTime, utc_now_or_epoch, utc_millis_now, base64_encoding, encode_payload, max_encodable_len,
};
use crate::device_store::{DeviceStore, DeviceInfo, DeviceStatus, DevicesConfig, LoadError, conflict_error};
use crate::relay_protocol::{ClientMessage, OshMessage, RelayToClientMessage, RelayToOshMessage};
use crate::relay_tables::{
    ConnectedClient, OshSession, client_ids, session_ids, keys_unique, client_of, session_of,
    put_client, put_session, drop_client, drop_session, find_client, find_session, insert_client,
    insert_session, remove_client, remove_session, lemma_key_at,
};
use crate::lookup::{first_id, lemma_first_id_found};
use crate::text::{same_text, owned, decimal, push_decimal};

verus! {

broadcast use vstd::string::group_string_axioms, vstd::seq_lib::group_seq_properties;

/// A message to send, and the connection to send it on.
#[derive(Debug)]
pub enum Outgoing {
    ToClient { conn: u64, msg: RelayToClientMessage },
    ToOsh { conn: u64, msg: RelayToOshMessage },
}

/// The heartbeat timeout of a connection to the relay: 2 s.
pub const CONNECTION_TIMEOUT_NANOS: u128 = 2_000_000_000;

/// What a heartbeat tick of a connection does.
#[derive(Debug, Clone, Copy, PartialEq, Eq, Structural)]
pub enum ConnectionTick {
    /// Nothing arrived for too long: the connection is dropped.
    TimedOut,
    /// Send a PING carrying this timestamp (UTC milliseconds; 0 when the
    /// clock cannot be read as an instant).
    Ping(i64),
}

/// Decides a heartbeat tick `elapsed_nanos` after the last message on a
/// connection (strictly more than the timeout drops it).
pub fn connection_tick(elapsed_nanos: u128) -> (r: ConnectionTick)
    ensures
        elapsed_nanos > CONNECTION_TIMEOUT_NANOS <==> r == ConnectionTick::TimedOut,
        r matches ConnectionTick::Ping(ts) ==> ts >= 0,
{
    if elapsed_nanos > CONNECTION_TIMEOUT_NANOS {
        ConnectionTick::TimedOut
    } else {
        ConnectionTick::Ping(utc_millis_now())
    }
}

/// The relay's state: the device list, the connected daemons, the running
/// sessions and the open osh connections.
pub struct RelayService {
    pub device_store: DeviceStore,
    pub clients: Vec<ConnectedClient>,
    pub sessions: Vec<OshSession>,
    pub osh_connections: Vec<u64>,
}

/// `o` sends `KILL` for request `r` on connection `c`.
pub open spec fn is_kill(o: Outgoing, c: u64, r: Seq<char>) -> bool {
    o matches Outgoing::ToClient { conn, msg: RelayToClientMessage::KILL { req_id } } && conn == c
        && req_id@ == r
}

/// `o` tells osh connection `c` that the device of request `r` went away.
pub open spec fn is_offline_notice(o: Outgoing, c: u64, r: Seq<char>) -> bool {
    o matches Outgoing::ToOsh { conn, msg: RelayToOshMessage::DEVICE_OFFLINE { req_id, message } }
        && conn == c && req_id@ == r && message@ == "Device disconnected"@
}

pub open spec fn on_device(d: Seq<char>) -> spec_fn(OshSession) -> bool {
    |s: OshSession| s.device_id@ == d
}

pub open spec fn off_device(d: Seq<char>) -> spec_fn(OshSession) -> bool {
    |s: OshSession| s.device_id@ != d
}

pub open spec fn of_conn(c: u64) -> spec_fn(OshSession) -> bool {
    |s: OshSession| s.osh_conn == c
}

pub open spec fn not_of_conn(c: u64) -> spec_fn(OshSession) -> bool {
    |s: OshSession| s.osh_conn != c
}

/// The sessions that run on device `d`, in table order.
pub open spec fn sessions_on(ss: Seq<OshSession>, d: Seq<char>) -> Seq<OshSession> {
    ss.filter(on_device(d))
}

/// The sessions that run elsewhere than on device `d`.
pub open spec fn sessions_off(ss: Seq<OshSession>, d: Seq<char>) -> Seq<OshSession> {
    ss.filter(off_device(d))
}

/// The sessions opened by osh connection `c`, in table order.
pub open spec fn sessions_of_conn(ss: Seq<OshSession>, c: u64) -> Seq<OshSession> {
    ss.filter(of_conn(c))
}

/// The sessions opened by other osh connections.
pub open spec fn sessions_not_of_conn(ss: Seq<OshSession>, c: u64) -> Seq<OshSession> {
    ss.filter(not_of_conn(c))
}

/// For each removed session whose device is connected: the device's
/// connection and the request to kill.
pub open spec fn kill_targets(cs: Seq<ConnectedClient>, removed: Seq<OshSession>) -> Seq<
    (u64, Seq<char>),
>
    decreases removed.len(),
{
    if removed.len() == 0 {
        Seq::empty()
    } else {
        let rest = kill_targets(cs, removed.drop_last());
        match client_of(cs, removed.last().device_id@) {
            Some(c) => rest.push((c.conn, removed.last().req_id@)),
            None => rest,
        }
    }
}

/// Filtering keeps keys unique.
proof fn lemma_filter_keeps_unique(ss: Seq<OshSession>, p: spec_fn(OshSession) -> bool)
    requires
        keys_unique(session_ids(ss)),
    ensures
        keys_unique(session_ids(ss.filter(p))),
    decreases ss.len(),
{
    reveal(Seq::filter);
    if ss.len() > 0 {
        let init = ss.drop_last();
        assert(session_ids(init) =~= session_ids(ss).drop_last());
        lemma_filter_keeps_unique(init, p);
        if p(ss.last()) {
            let f = init.filter(p);
            assert forall|k: int| 0 <= k < f.len() implies #[trigger] f[k].req_id@ != ss.last().req_id@ by {
                init.lemma_filter_contains_rev(p, f[k]);
                let j = choose|j: int| 0 <= j < init.len() && init[j] == f[k];
                assert(session_ids(ss)[j] == f[k].req_id@);
                assert(session_ids(ss)[ss.len() - 1] == ss.last().req_id@);
            }
            assert(session_ids(f.push(ss.last())) =~= session_ids(f).push(ss.last().req_id@));
        }
    }
}

/// After a daemon disconnects, no session that is left runs on its device,
/// and no request is found on it any more.
pub proof fn lemma_no_session_left_on_device(ss: Seq<OshSession>, d: Seq<char>, r: Seq<char>)
    ensures
        forall|k: int|
            0 <= k < sessions_off(ss, d).len() ==> (#[trigger] sessions_off(ss, d)[k]).device_id@
                != d,
        session_of(sessions_off(ss, d), r) matches Some(s) ==> s.device_id@ != d,
{
    let f = sessions_off(ss, d);
    assert forall|k: int| 0 <= k < f.len() implies (#[trigger] f[k]).device_id@ != d by {
        ss.lemma_filter_pred(off_device(d), k);
    }
    lemma_first_id_found(session_ids(f), r, f.len() as int);
}

/// After an osh connection closes, no session that is left belongs to it,
/// and no request is found for it any more.
pub proof fn lemma_no_session_left_for_connection(ss: Seq<OshSession>, c: u64, r: Seq<char>)
    ensures
        forall|k: int|
            0 <= k < sessions_not_of_conn(ss, c).len() ==> (#[trigger] sessions_not_of_conn(
                ss,
                c,
            )[k]).osh_conn != c,
        session_of(sessions_not_of_conn(ss, c), r) matches Some(s) ==> s.osh_conn != c,
{
    let f = sessions_not_of_conn(ss, c);
    assert forall|k: int| 0 <= k < f.len() implies (#[trigger] f[k]).osh_conn != c by {
        ss.lemma_filter_pred(not_of_conn(c), k);
    }
    lemma_first_id_found(session_ids(f), r, f.len() as int);
}

impl RelayService {
    /// The tables are well formed: each device and each request occurs once.
    pub open spec fn wf(&self) -> bool {
        &&& keys_unique(client_ids(self.clients@))
        &&& keys_unique(session_ids(self.sessions@))
        &&& self.osh_connections@.no_duplicates()
    }

    /// Create a new relay service.
    pub fn new(device_store: DeviceStore) -> (r: Self)
        ensures
            r.wf(),
            r.device_store == device_store,
            r.clients@.len() == 0,
            r.sessions@.len() == 0,
            r.osh_connections@.len() == 0,
    {
        RelayService {
            device_store,
            clients: Vec::new(),
            sessions: Vec::new(),
            osh_connections: Vec::new(),
        }
    }

    /// Get connected device count.
    pub fn get_connected_count(&self) -> (r: usize)
        ensures
            r == self.clients@.len(),
    {
        self.clients.len()
    }

    /// Get active session count.
    pub fn get_session_count(&self) -> (r: usize)
        ensures
            r == self.sessions@.len(),
    {
        self.sessions.len()
    }

    /// Records an open osh connection.
    pub fn register_osh_connection(&mut self, conn: u64)
        requires
            old(self).wf(),
        ensures
            final(self).wf(),
            final(self).device_store == old(self).device_store,
            final(self).clients@ == old(self).clients@,
            final(self).sessions@ == old(self).sessions@,
            final(self).osh_connections@.to_set() == old(self).osh_connections@.to_set().insert(
                conn,
            ),
    {
        let n = self.osh_connections.len();
        for i in 0..n
            invariant
                n == self.osh_connections@.len(),
                *self == *old(self),
                old(self).wf(),
                forall|k: int| 0 <= k < i ==> self.osh_connections@[k] != conn,
        {
            if self.osh_connections[i] == conn {
                assert(self.osh_connections@.to_set().insert(conn) =~= self.osh_connections@.to_set());
                return;
            }
        }
        let ghost before = self.osh_connections@;
        self.osh_connections.push(conn);
        assert(self.osh_connections@.to_set() =~= before.to_set().insert(conn));
    }

    /// Removes the sessions of device `device_id`, telling the osh side of
    /// each that the device went away.
    fn drop_device_sessions(&mut self, device_id: &str) -> (r: Vec<Outgoing>)
        requires
            old(self).wf(),
        ensures
            final(self).wf(),
            final(self).device_store == old(self).device_store,
            final(self).clients@ == old(self).clients@,
            final(self).osh_connections@ == old(self).osh_connections@,
            final(self).sessions@ == sessions_off(old(self).sessions@, device_id@),
            r@.len() == sessions_on(old(self).sessions@, device_id@).len(),
            forall|k: int|
                0 <= k < r@.len() ==> is_offline_notice(
                    #[trigger] r@[k],
                    sessions_on(old(self).sessions@, device_id@)[k].osh_conn,
                    sessions_on(old(self).sessions@, device_id@)[k].req_id@,
                ),
    {
        let ghost old_ss = self.sessions@;
        let ghost on = on_device(device_id@);
        let ghost off = off_device(device_id@);
        let mut kept: Vec<OshSession> = Vec::new();
        let mut notices: Vec<Outgoing> = Vec::new();
        let mut rest: Vec<OshSession> = Vec::new();
        std::mem::swap(&mut rest, &mut self.sessions);
        let ghost all = rest@;
        assert(all == old_ss);
        let n = rest.len();
        let mut i: usize = 0;
        while i < n
            invariant
                n == all.len(),
                rest@ == all.skip(i as int),
                on == on_device(device_id@),
                off == off_device(device_id@),
                0 <= i <= n,
                kept@ == all.take(i as int).filter(off),
                notices@.len() == all.take(i as int).filter(on).len(),
                forall|k: int|
                    0 <= k < notices@.len() ==> is_offline_notice(
                        #[trigger] notices@[k],
                        all.take(i as int).filter(on)[k].osh_conn,
                        all.take(i as int).filter(on)[k].req_id@,
                    ),
            decreases n - i,
        {
            let s = rest.remove(0);
            assert(s == all[i as int]);
            assert(rest@ =~= all.skip(i + 1));
            assert(all.take(i + 1) =~= all.take(i as int).push(s));
            proof {
                all.take(i as int).lemma_filter_push(s, on);
                all.take(i as int).lemma_filter_push(s, off);
            }
            if same_text(s.device_id.as_str(), device_id) {
                let notice = Outgoing::ToOsh {
                    conn: s.osh_conn,
                    msg: RelayToOshMessage::DEVICE_OFFLINE {
                        req_id: s.req_id,
                        message: owned("Device disconnected"),
                    },
                };
                notices.push(notice);
            } else {
                kept.push(s);
            }
            i = i + 1;
        }
        assert(all.take(n as int) =~= all);
        proof {
            lemma_filter_keeps_unique(all, off);
        }
        self.sessions = kept;
        notices
    }

    /// Handles a client (daemon) disconnect: forgets the client and ends the
    /// sessions on its device, telling each session's osh side.
    pub fn on_client_disconnect(&mut self, device_id: &str) -> (r: Vec<Outgoing>)
        requires
            old(self).wf(),
        ensures
            final(self).wf(),
            final(self).device_store == old(self).device_store,
            final(self).osh_connections@ == old(self).osh_connections@,
            final(self).clients@ == drop_client(old(self).clients@, device_id@),
            final(self).sessions@ == sessions_off(old(self).sessions@, device_id@),
            r@.len() == sessions_on(old(self).sessions@, device_id@).len(),
            forall|k: int|
                0 <= k < r@.len() ==> is_offline_notice(
                    #[trigger] r@[k],
                    sessions_on(old(self).sessions@, device_id@)[k].osh_conn,
                    sessions_on(old(self).sessions@, device_id@)[k].req_id@,
                ),
    {
        remove_client(&mut self.clients, device_id);
        self.drop_device_sessions(device_id)
    }
}


// ---------------------------------------------------------------------------
// Replies and their texts
// ---------------------------------------------------------------------------
/// `m` is a pairing reply of the given kind carrying exactly `text`.
pub open spec fn pair_reply(m: RelayToClientMessage, kind: PairReplyKind, text: Seq<char>) -> bool {
    match (kind, m) {
        (PairReplyKind::Approved, RelayToClientMessage::PAIR_APPROVED { message: Some(t) }) => t@
            == text,
        (PairReplyKind::Pending, RelayToClientMessage::PAIR_PENDING { message: Some(t) }) => t@
            == text,
        (PairReplyKind::Rejected, RelayToClientMessage::PAIR_REJECTED { message: Some(t) }) => t@
            == text,
        (PairReplyKind::AuthFailed, RelayToClientMessage::PAIR_AUTH_FAILED { message: Some(t) }) =>
            t@ == text,
        (
            PairReplyKind::LimitExceeded,
            RelayToClientMessage::PAIR_LIMIT_EXCEEDED { message: Some(t) },
        ) => t@ == text,
        _ => false,
    }
}

/// The kinds of pairing replies.
#[derive(Debug, Clone, Copy, PartialEq, Eq, Structural)]
pub enum PairReplyKind {
    Approved,
    Pending,
    Rejected,
    AuthFailed,
    LimitExceeded,
}

/// The reply a device that pairs again gets, by its stored status.
pub open spec fn returning_reply(m: RelayToClientMessage, status: DeviceStatus) -> bool {
    match status {
        DeviceStatus::Approved => pair_reply(m, PairReplyKind::Approved, "Welcome back"@),
        DeviceStatus::Pending => pair_reply(
            m,
            PairReplyKind::Pending,
            "Waiting for admin approval"@,
        ),
        DeviceStatus::Rejected => pair_reply(m, PairReplyKind::Rejected, "Device was rejected"@),
    }
}

/// The text of the device-limit refusal.
pub open spec fn limit_text(count: nat, max: nat) -> Seq<char> {
    "Device limit reached ("@ + decimal(count) + "/"@ + decimal(max) + ")"@
}

/// What the relay decided about a pairing request.
#[derive(Debug)]
pub enum PairDecision {
    /// Send `response`, then close the connection; nothing was stored.
    Refused { response: RelayToClientMessage },
    /// The device list changed: save it, send `response`, then register the
    /// connection as the client of `device_id` (see `complete_pairing`), and
    /// close it when `disconnect` says so.
    Accepted {
        device_id: String,
        approved: bool,
        response: RelayToClientMessage,
        disconnect: bool,
    },
}

/// What handling a client message gave.
#[derive(Debug)]
pub enum ClientStep {
    /// Send these; the connection goes on.
    Sent(Vec<Outgoing>),
    /// A pairing request was decided.
    Pairing(PairDecision),
}

/// The messages a client step sends.
pub open spec fn sent(r: ClientStep) -> Seq<Outgoing> {
    match r {
        ClientStep::Sent(v) => v@,
        ClientStep::Pairing(_) => Seq::empty(),
    }
}

/// `o` answers a client's PING on connection `c`.
pub open spec fn is_client_pong(o: Outgoing, c: u64, ts: i64) -> bool {
    o matches Outgoing::ToClient { conn, msg: RelayToClientMessage::PONG { ts: t } } && conn == c
        && t == ts
}

/// `o` forwards output of request `r` to osh connection `c`.
pub open spec fn is_forwarded_data(o: Outgoing, c: u64, r: String, p: String) -> bool {
    o matches Outgoing::ToOsh { conn, msg: RelayToOshMessage::DATA { req_id, payload } } && conn
        == c && req_id == r && payload == p
}

/// `o` forwards the exit code of request `r` to osh connection `c`.
pub open spec fn is_forwarded_exit(o: Outgoing, c: u64, r: Seq<char>, code: i32) -> bool {
    o matches Outgoing::ToOsh { conn, msg: RelayToOshMessage::EXIT { req_id, exit_code } } && conn
        == c && req_id@ == r && exit_code == code
}

/// `o` forwards an error of request `r` to osh connection `c`.
pub open spec fn is_forwarded_error(o: Outgoing, c: u64, r: Seq<char>, text: Seq<char>) -> bool {
    o matches Outgoing::ToOsh { conn, msg: RelayToOshMessage::ERROR { req_id, message } } && conn
        == c && req_id@ == r && message@ == text
}

/// What handling an osh message gave.
#[derive(Debug)]
pub enum OshStep {
    /// Send these.
    Sent(Vec<Outgoing>),
    /// The admin asked for a reload: read the file again and call
    /// `admin_reload`.
    ReloadRequested,
}

/// `o` sends `text`-carrying error `kind` for request `r` to osh connection `c`.
pub open spec fn osh_error(o: Outgoing, c: u64, kind: OshErrorKind, r: Seq<char>, text: Seq<char>) -> bool {
    match o {
        Outgoing::ToOsh { conn, msg } => conn == c && match (kind, msg) {
            (OshErrorKind::NotFound, RelayToOshMessage::DEVICE_NOT_FOUND { req_id, message }) =>
                req_id@ == r && message@ == text,
            (OshErrorKind::NotApproved, RelayToOshMessage::DEVICE_NOT_APPROVED { req_id, message }) =>
                req_id@ == r && message@ == text,
            (OshErrorKind::Offline, RelayToOshMessage::DEVICE_OFFLINE { req_id, message }) =>
                req_id@ == r && message@ == text,
            (OshErrorKind::InvalidReqId, RelayToOshMessage::INVALID_REQ_ID { req_id, message }) =>
                req_id@ == r && message@ == text,
            _ => false,
        },
        _ => false,
    }
}

/// The kinds of errors sent back to osh.
#[derive(Debug, Clone, Copy, PartialEq, Eq, Structural)]
pub enum OshErrorKind {
    NotFound,
    NotApproved,
    Offline,
    InvalidReqId,
}

/// "Device '<device>' <what>".
pub open spec fn device_text(device: Seq<char>, what: Seq<char>) -> Seq<char> {
    "Device '"@ + device + "' "@ + what
}

/// `o` asks client connection `c` to run `cmd` for request `r`.
pub open spec fn is_spawn(
    o: Outgoing,
    c: u64,
    r: Seq<char>,
    cmd: Seq<char>,
    cols: Option<u16>,
    rows: Option<u16>,
    pty: bool,
) -> bool {
    o matches Outgoing::ToClient {
        conn,
        msg: RelayToClientMessage::SPAWN { req_id, payload: Some(p), cols: c2, rows: r2, pty: t2 },
    } && conn == c && req_id@ == r && p@ == base64_encoding(vstd::utf8::encode_utf8(cmd)) && c2
        == cols && r2 == rows && t2 == pty
}

/// For each client whose approval changes under `st`: its connection, and
/// whether it is now approved.
pub open spec fn approval_changes(cs: Seq<ConnectedClient>, st: DeviceStore) -> Seq<(u64, bool)>
    decreases cs.len(),
{
    if cs.len() == 0 {
        Seq::empty()
    } else {
        let rest = approval_changes(cs.drop_last(), st);
        let c = cs.last();
        let now = st.approved(c.device_id@);
        if now != c.approved {
            rest.push((c.conn, now))
        } else {
            rest
        }
    }
}

/// `o` tells client connection `c` that it was approved (`true`) or that its
/// approval was revoked (`false`).
pub open spec fn is_approval_notice(o: Outgoing, c: u64, approved: bool) -> bool {
    match o {
        Outgoing::ToClient { conn, msg } => conn == c && if approved {
            pair_reply(msg, PairReplyKind::Approved, "Device approved"@)
        } else {
            pair_reply(msg, PairReplyKind::Rejected, "Approval revoked"@)
        },
        _ => false,
    }
}

fn device_message(device: &str, what: &str) -> (s: String)
    ensures
        s@ == device_text(device@, what@),
{
    let mut s = owned("Device '");
    s.append(device);
    s.append("' ");
    s.append(what);
    s
}

/// The outcome of a pairing request decided with times `t1` and `t2`: the
/// reply and the device list after it (see `pair_with_times`).
pub open spec fn pair_decided(
    before: DeviceStore,
    after: DeviceStore,
    device_id: String,
    device_name: String,
    platform: String,
    shell: String,
    secret_key: String,
    t1: UtcTime,
    t2: UtcTime,
    r: PairDecision,
) -> bool {
    let st = before;
    let max = st.config.max_devices;
    if secret_key@ != st.config.secret_key@ {
        &&& r matches PairDecision::Refused { response } && pair_reply(
            response,
            PairReplyKind::AuthFailed,
            "Invalid secret key"@,
        )
        &&& after == st
    } else if st.index_of(device_id@) is None && st.devices().len() >= max {
        &&& r matches PairDecision::Refused { response } && pair_reply(
            response,
            PairReplyKind::LimitExceeded,
            limit_text(st.devices().len(), max as nat),
        )
        &&& after == st
    } else {
        match st.index_of(device_id@) {
            Some(i) => {
                let d = st.devices()[i];
                &&& after.devices() == st.devices().update(
                    i,
                    DeviceInfo {
                        device_name,
                        platform,
                        shell,
                        last_seen: t1,
                        ..d
                    },
                )
                &&& r matches PairDecision::Accepted {
                    device_id: did,
                    approved,
                    response,
                    disconnect,
                } && did@ == device_id@ && approved == (d.status
                    == DeviceStatus::Approved) && disconnect == (d.status
                    == DeviceStatus::Rejected) && returning_reply(response, d.status)
            },
            None => {
                &&& after.devices() == st.devices().push(
                    DeviceInfo {
                        device_id,
                        alias: None,
                        device_name,
                        platform,
                        shell,
                        status: DeviceStatus::Pending,
                        created_at: t1,
                        last_seen: t2,
                    },
                )
                &&& r matches PairDecision::Accepted {
                    device_id: did,
                    approved,
                    response,
                    disconnect,
                } && did@ == device_id@ && !approved && !disconnect && pair_reply(
                    response,
                    PairReplyKind::Pending,
                    "Device registered, waiting for admin approval"@,
                )
            },
        }
    }
}

impl RelayService {
    /// Removes the sessions opened by osh connection `conn`, handing them
    /// back in table order.
    fn split_conn_sessions(&mut self, conn: u64) -> (removed: Vec<OshSession>)
        requires
            old(self).wf(),
        ensures
            final(self).wf(),
            final(self).device_store == old(self).device_store,
            final(self).clients@ == old(self).clients@,
            final(self).osh_connections@ == old(self).osh_connections@,
            final(self).sessions@ == sessions_not_of_conn(old(self).sessions@, conn),
            removed@ == sessions_of_conn(old(self).sessions@, conn),
    {
        let ghost on = of_conn(conn);
        let ghost off = not_of_conn(conn);
        let mut kept: Vec<OshSession> = Vec::new();
        let mut removed: Vec<OshSession> = Vec::new();
        let mut rest: Vec<OshSession> = Vec::new();
        std::mem::swap(&mut rest, &mut self.sessions);
        let ghost all = rest@;
        let n = rest.len();
        let mut i: usize = 0;
        while i < n
            invariant
                n == all.len(),
                rest@ == all.skip(i as int),
                on == of_conn(conn),
                off == not_of_conn(conn),
                0 <= i <= n,
                kept@ == all.take(i as int).filter(off),
                removed@ == all.take(i as int).filter(on),
            decreases n - i,
        {
            let s = rest.remove(0);
            assert(s == all[i as int]);
            assert(rest@ =~= all.skip(i + 1));
            assert(all.take(i + 1) =~= all.take(i as int).push(s));
            proof {
                all.take(i as int).lemma_filter_push(s, on);
                all.take(i as int).lemma_filter_push(s, off);
            }
            if s.osh_conn == conn {
                removed.push(s);
            } else {
                kept.push(s);
            }
            i = i + 1;
        }
        assert(all.take(n as int) =~= all);
        proof {
            lemma_filter_keeps_unique(all, off);
        }
        self.sessions = kept;
        removed
    }

    /// Ends the sessions opened by osh connection `conn`, telling each
    /// connected device to kill the process.
    pub fn cleanup_osh_sessions(&mut self, conn: u64) -> (r: Vec<Outgoing>)
        requires
            old(self).wf(),
        ensures
            final(self).wf(),
            final(self).device_store == old(self).device_store,
            final(self).clients@ == old(self).clients@,
            final(self).osh_connections@ == old(self).osh_connections@,
            final(self).sessions@ == sessions_not_of_conn(old(self).sessions@, conn),
            ({
                let t = kill_targets(old(self).clients@, sessions_of_conn(old(self).sessions@, conn));
                &&& r@.len() == t.len()
                &&& forall|k: int| 0 <= k < r@.len() ==> is_kill(#[trigger] r@[k], t[k].0, t[k].1)
            }),
    {
        let removed = self.split_conn_sessions(conn);
        let ghost cs = self.clients@;
        let mut out: Vec<Outgoing> = Vec::new();
        let n = removed.len();
        for j in 0..n
            invariant
                n == removed@.len(),
                cs == self.clients@,
                out@.len() == kill_targets(cs, removed@.take(j as int)).len(),
                forall|k: int|
                    0 <= k < out@.len() ==> is_kill(
                        #[trigger] out@[k],
                        kill_targets(cs, removed@.take(j as int))[k].0,
                        kill_targets(cs, removed@.take(j as int))[k].1,
                    ),
        {
            let s = &removed[j];
            assert(removed@.take(j + 1).drop_last() =~= removed@.take(j as int));
            assert(removed@.take(j + 1).last() == removed@[j as int]);
            if let Some(k) = find_client(&self.clients, s.device_id.as_str()) {
                let msg = RelayToClientMessage::KILL { req_id: s.req_id.clone() };
                out.push(Outgoing::ToClient { conn: self.clients[k].conn, msg });
            }
        }
        assert(removed@.take(n as int) =~= removed@);
        out
    }

    /// Handles the end of an osh connection: forgets it and ends its
    /// sessions (see `cleanup_osh_sessions`).
    pub fn handle_osh_disconnect(&mut self, conn: u64) -> (r: Vec<Outgoing>)
        requires
            old(self).wf(),
        ensures
            final(self).wf(),
            final(self).device_store == old(self).device_store,
            final(self).clients@ == old(self).clients@,
            !final(self).osh_connections@.contains(conn),
            final(self).osh_connections@.to_set() == old(self).osh_connections@.to_set().remove(
                conn,
            ),
            final(self).sessions@ == sessions_not_of_conn(old(self).sessions@, conn),
            ({
                let t = kill_targets(old(self).clients@, sessions_of_conn(old(self).sessions@, conn));
                &&& r@.len() == t.len()
                &&& forall|k: int| 0 <= k < r@.len() ==> is_kill(#[trigger] r@[k], t[k].0, t[k].1)
            }),
    {
        let n = self.osh_connections.len();
        let mut i: usize = 0;
        while i < n && self.osh_connections[i] != conn
            invariant
                n == self.osh_connections@.len(),
                *self == *old(self),
                old(self).wf(),
                0 <= i <= n,
                forall|k: int| 0 <= k < i ==> self.osh_connections@[k] != conn,
            decreases n - i,
        {
            i = i + 1;
        }
        let ghost before = self.osh_connections@;
        if i < n {
            self.osh_connections.remove(i);
            assert forall|k: int| 0 <= k < self.osh_connections@.len() implies self.osh_connections@[k]
                != conn by {
                if k >= i {
                    assert(self.osh_connections@[k] == before[k + 1]);
                }
            }
            assert(self.osh_connections@.to_set() =~= before.to_set().remove(conn));
        } else {
            assert(before.to_set().remove(conn) =~= before.to_set());
        }
        self.cleanup_osh_sessions(conn)
    }

    /// Registers connection `conn` as the client of `device_id` once its
    /// pairing reply went out.
    pub fn complete_pairing(&mut self, conn: u64, device_id: String, approved: bool)
        requires
            old(self).wf(),
        ensures
            final(self).wf(),
            final(self).device_store == old(self).device_store,
            final(self).sessions@ == old(self).sessions@,
            final(self).osh_connections@ == old(self).osh_connections@,
            final(self).clients@ == put_client(
                old(self).clients@,
                ConnectedClient { device_id, conn, approved },
            ),
    {
        insert_client(&mut self.clients, ConnectedClient { device_id, conn, approved });
    }

    /// Decides a pairing request, with `t1` and `t2` the times read for it:
    /// a returning device gets `t1` as its last-seen time, a new one `t1` as
    /// its creation and `t2` as its last-seen time.
    pub fn pair_with_times(
        &mut self,
        device_id: String,
        device_name: String,
        platform: String,
        shell: String,
        secret_key: String,
        t1: UtcTime,
        t2: UtcTime,
    ) -> (r: PairDecision)
        requires
            old(self).wf(),
        ensures
            final(self).wf(),
            final(self).clients@ == old(self).clients@,
            final(self).sessions@ == old(self).sessions@,
            final(self).osh_connections@ == old(self).osh_connections@,
            final(self).device_store.config_path == old(self).device_store.config_path,
            final(self).device_store.config.max_devices == old(self).device_store.config.max_devices,
            final(self).device_store.config.secret_key == old(self).device_store.config.secret_key,
            pair_decided(
                old(self).device_store,
                final(self).device_store,
                device_id,
                device_name,
                platform,
                shell,
                secret_key,
                t1,
                t2,
                r,
            ),
    {
        let expected_key = self.device_store.get_secret_key();
        if secret_key != expected_key {
            let response = RelayToClientMessage::PAIR_AUTH_FAILED {
                message: Some(owned("Invalid secret key")),
            };
            return PairDecision::Refused { response };
        }
        proof {
            self.device_store.lemma_indexes_in_bounds(device_id@);
        }
        if !self.device_store.device_exists(device_id.as_str()) {
            let current_count = self.device_store.get_device_count();
            let max_devices = self.device_store.get_max_devices();
            if current_count >= max_devices {
                let mut text = owned("Device limit reached (");
                push_decimal(&mut text, current_count);
                text.append("/");
                push_decimal(&mut text, max_devices);
                text.append(")");
                let response = RelayToClientMessage::PAIR_LIMIT_EXCEEDED { message: Some(text) };
                return PairDecision::Refused { response };
            }
        }
        let existing = self.device_store.get_device_by_id(device_id.as_str());
        match existing {
            Some(device) => {
                let status = device.status;
                let updated = DeviceInfo {
                    device_id: device_id.clone(),
                    alias: device.alias,
                    device_name,
                    platform,
                    shell,
                    status: device.status,
                    created_at: device.created_at,
                    last_seen: t1,
                };
                let _ = self.device_store.upsert_device(updated);
                let (approved, response) = match status {
                    DeviceStatus::Approved => (
                        true,
                        RelayToClientMessage::PAIR_APPROVED { message: Some(owned("Welcome back")) },
                    ),
                    DeviceStatus::Pending => (
                        false,
                        RelayToClientMessage::PAIR_PENDING {
                            message: Some(owned("Waiting for admin approval")),
                        },
                    ),
                    DeviceStatus::Rejected => (
                        false,
                        RelayToClientMessage::PAIR_REJECTED {
                            message: Some(owned("Device was rejected")),
                        },
                    ),
                };
                let disconnect = status == DeviceStatus::Rejected;
                PairDecision::Accepted { device_id, approved, response, disconnect }
            },
            None => {
                let new_device = DeviceInfo {
                    device_id: device_id.clone(),
                    alias: None,
                    device_name,
                    platform,
                    shell,
                    status: DeviceStatus::Pending,
                    created_at: t1,
                    last_seen: t2,
                };
                let _ = self.device_store.upsert_device(new_device);
                let response = RelayToClientMessage::PAIR_PENDING {
                    message: Some(owned("Device registered, waiting for admin approval")),
                };
                PairDecision::Accepted { device_id, approved: false, response, disconnect: false }
            },
        }
    }
}

impl RelayService {
    /// Decides a pairing request with the current time: the outcome is the
    /// one `pair_with_times` gives for the two times read (the epoch when
    /// the clock cannot be read as an instant).
    pub fn pair_request(
        &mut self,
        device_id: String,
        device_name: String,
        platform: String,
        shell: String,
        secret_key: String,
    ) -> (r: PairDecision)
        requires
            old(self).wf(),
        ensures
            final(self).wf(),
            final(self).clients@ == old(self).clients@,
            final(self).sessions@ == old(self).sessions@,
            final(self).osh_connections@ == old(self).osh_connections@,
            exists|t1: UtcTime, t2: UtcTime|
                #[trigger] pair_decided(
                    old(self).device_store,
                    final(self).device_store,
                    device_id,
                    device_name,
                    platform,
                    shell,
                    secret_key,
                    t1,
                    t2,
                    r,
                ),
    {
        let t1 = utc_now_or_epoch();
        let t2 = utc_now_or_epoch();
        self.pair_with_times(device_id, device_name, platform, shell, secret_key, t1, t2)
    }

    /// Handles a message from a client (local daemon) on connection `conn`.
    /// Pairing requests are decided by `pair_request`; the other messages
    /// are answered or forwarded to the osh side of their session, and an
    /// exit or error ends the session.
    pub fn handle_client_message(&mut self, conn: u64, msg: ClientMessage) -> (r: ClientStep)
        requires
            old(self).wf(),
        ensures
            final(self).wf(),
            final(self).clients@ == old(self).clients@,
            final(self).osh_connections@ == old(self).osh_connections@,
            !(msg is PAIR_REQUEST) ==> final(self).device_store == old(self).device_store,
            match msg {
                ClientMessage::PING { ts } => {
                    &&& final(self).sessions@ == old(self).sessions@
                    &&& sent(r).len() == 1
                    &&& is_client_pong(sent(r)[0], conn, ts)
                },
                ClientMessage::PONG { .. } => {
                    &&& r is Sent
                    &&& sent(r).len() == 0
                    &&& final(self).sessions@ == old(self).sessions@
                },
                ClientMessage::PAIR_REQUEST {
                    device_id,
                    device_name,
                    platform,
                    shell,
                    secret_key,
                } => {
                    &&& r matches ClientStep::Pairing(d) && exists|t1: UtcTime, t2: UtcTime|
                        #[trigger] pair_decided(
                            old(self).device_store,
                            final(self).device_store,
                            device_id,
                            device_name,
                            platform,
                            shell,
                            secret_key,
                            t1,
                            t2,
                            d,
                        )
                    &&& final(self).sessions@ == old(self).sessions@
                },
                ClientMessage::DATA { req_id, payload } => {
                    &&& r is Sent
                    &&& final(self).sessions@ == old(self).sessions@
                    &&& match session_of(old(self).sessions@, req_id@) {
                        Some(s) => sent(r).len() == 1 && is_forwarded_data(
                            sent(r)[0],
                            s.osh_conn,
                            req_id,
                            payload,
                        ),
                        None => sent(r).len() == 0,
                    }
                },
                ClientMessage::EXIT { req_id, exit_code } => {
                    &&& r is Sent
                    &&& final(self).sessions@ == drop_session(old(self).sessions@, req_id@)
                    &&& match session_of(old(self).sessions@, req_id@) {
                        Some(s) => sent(r).len() == 1 && is_forwarded_exit(
                            sent(r)[0],
                            s.osh_conn,
                            req_id@,
                            exit_code,
                        ),
                        None => sent(r).len() == 0,
                    }
                },
                ClientMessage::ERROR { req_id, error } => {
                    &&& r is Sent
                    &&& final(self).sessions@ == drop_session(old(self).sessions@, req_id@)
                    &&& match session_of(old(self).sessions@, req_id@) {
                        Some(s) => sent(r).len() == 1 && is_forwarded_error(
                            sent(r)[0],
                            s.osh_conn,
                            req_id@,
                            match error {
                                Some(e) => e@,
                                None => "Unknown error"@,
                            },
                        ),
                        None => sent(r).len() == 0,
                    }
                },
            },
    {
        match msg {
            ClientMessage::PING { ts } => {
                let mut out: Vec<Outgoing> = Vec::new();
                out.push(Outgoing::ToClient { conn, msg: RelayToClientMessage::PONG { ts } });
                ClientStep::Sent(out)
            },
            ClientMessage::PONG { .. } => ClientStep::Sent(Vec::new()),
            ClientMessage::PAIR_REQUEST { device_id, device_name, platform, shell, secret_key } => {
                ClientStep::Pairing(
                    self.pair_request(device_id, device_name, platform, shell, secret_key),
                )
            },
            ClientMessage::DATA { req_id, payload } => {
                let mut out: Vec<Outgoing> = Vec::new();
                if let Some(k) = find_session(&self.sessions, req_id.as_str()) {
                    let c = self.sessions[k].osh_conn;
                    out.push(
                        Outgoing::ToOsh { conn: c, msg: RelayToOshMessage::DATA { req_id, payload } },
                    );
                }
                ClientStep::Sent(out)
            },
            ClientMessage::EXIT { req_id, exit_code } => {
                let mut out: Vec<Outgoing> = Vec::new();
                if let Some(k) = find_session(&self.sessions, req_id.as_str()) {
                    let c = self.sessions[k].osh_conn;
                    out.push(
                        Outgoing::ToOsh {
                            conn: c,
                            msg: RelayToOshMessage::EXIT { req_id: req_id.clone(), exit_code },
                        },
                    );
                }
                remove_session(&mut self.sessions, req_id.as_str());
                ClientStep::Sent(out)
            },
            ClientMessage::ERROR { req_id, error } => {
                let mut out: Vec<Outgoing> = Vec::new();
                if let Some(k) = find_session(&self.sessions, req_id.as_str()) {
                    let c = self.sessions[k].osh_conn;
                    let message = match error {
                        Some(e) => e,
                        None => owned("Unknown error"),
                    };
                    out.push(
                        Outgoing::ToOsh {
                            conn: c,
                            msg: RelayToOshMessage::ERROR { req_id: req_id.clone(), message },
                        },
                    );
                }
                remove_session(&mut self.sessions, req_id.as_str());
                ClientStep::Sent(out)
            },
        }
    }
}

/// The messages an osh step sends.
pub open spec fn osh_sent(r: OshStep) -> Seq<Outgoing> {
    match r {
        OshStep::Sent(v) => v@,
        OshStep::ReloadRequested => Seq::empty(),
    }
}

/// `o` answers an osh PING on connection `c`.
pub open spec fn is_osh_pong(o: Outgoing, c: u64, ts: i64) -> bool {
    o matches Outgoing::ToOsh { conn, msg: RelayToOshMessage::PONG { ts: t } } && conn == c && t
        == ts
}

/// `o` forwards input of request `r` to client connection `c`.
pub open spec fn is_forwarded_input(o: Outgoing, c: u64, r: String, p: String) -> bool {
    o matches Outgoing::ToClient { conn, msg: RelayToClientMessage::DATA { req_id, payload } }
        && conn == c && req_id == r && payload == p
}

/// `o` forwards a resize of request `r` to client connection `c`.
pub open spec fn is_forwarded_resize(o: Outgoing, c: u64, r: String, cols: u16, rows: u16) -> bool {
    o matches Outgoing::ToClient {
        conn,
        msg: RelayToClientMessage::RESIZE { req_id, cols: c2, rows: r2 },
    } && conn == c && req_id == r && c2 == cols && r2 == rows
}

/// A command that can be sent on: its UTF-8 bytes can be base64 encoded.
pub open spec fn osh_message_fits(msg: OshMessage) -> bool {
    msg matches OshMessage::EXEC { cmd, .. } ==> vstd::utf8::encode_utf8(cmd@).len()
        <= max_encodable_len()
}

impl RelayService {
    /// Handles a message from osh / osh-admin on connection `conn`: runs a
    /// command on an approved, connected device (opening a session), passes
    /// input and resizes on to the device of a session, answers heartbeats,
    /// and hands reload requests back to the caller.
    pub fn handle_osh_message(&mut self, conn: u64, msg: OshMessage) -> (r: OshStep)
        requires
            old(self).wf(),
            osh_message_fits(msg),
        ensures
            final(self).wf(),
            final(self).device_store == old(self).device_store,
            final(self).clients@ == old(self).clients@,
            final(self).osh_connections@ == old(self).osh_connections@,
            !(msg is EXEC) ==> final(self).sessions@ == old(self).sessions@,
            match msg {
                OshMessage::PING { ts } => {
                    &&& r is Sent
                    &&& osh_sent(r).len() == 1
                    &&& is_osh_pong(osh_sent(r)[0], conn, ts)
                },
                OshMessage::PONG { .. } => r is Sent && osh_sent(r).len() == 0,
                OshMessage::ADMIN_RELOAD => r is ReloadRequested,
                OshMessage::INPUT { req_id, payload } => {
                    &&& r is Sent
                    &&& match session_of(old(self).sessions@, req_id@) {
                        Some(s) => match client_of(old(self).clients@, s.device_id@) {
                            Some(c) => osh_sent(r).len() == 1 && is_forwarded_input(
                                osh_sent(r)[0],
                                c.conn,
                                req_id,
                                payload,
                            ),
                            None => osh_sent(r).len() == 0,
                        },
                        None => osh_sent(r).len() == 1 && osh_error(
                            osh_sent(r)[0],
                            conn,
                            OshErrorKind::InvalidReqId,
                            req_id@,
                            "Unknown request ID"@,
                        ),
                    }
                },
                OshMessage::RESIZE { req_id, cols, rows } => {
                    &&& r is Sent
                    &&& match session_of(old(self).sessions@, req_id@) {
                        Some(s) => match client_of(old(self).clients@, s.device_id@) {
                            Some(c) => osh_sent(r).len() == 1 && is_forwarded_resize(
                                osh_sent(r)[0],
                                c.conn,
                                req_id,
                                cols,
                                rows,
                            ),
                            None => osh_sent(r).len() == 0,
                        },
                        None => osh_sent(r).len() == 0,
                    }
                },
                OshMessage::EXEC { device, req_id, cmd, cols, rows, pty } => {
                    let st = old(self).device_store;
                    &&& r is Sent
                    &&& osh_sent(r).len() == 1
                    &&& match st.resolve(device@) {
                        None => {
                            &&& osh_error(
                                osh_sent(r)[0],
                                conn,
                                OshErrorKind::NotFound,
                                req_id@,
                                device_text(device@, "not found"@),
                            )
                            &&& final(self).sessions@ == old(self).sessions@
                        },
                        Some(i) => {
                            let d = st.devices()[i];
                            if d.status != DeviceStatus::Approved {
                                &&& osh_error(
                                    osh_sent(r)[0],
                                    conn,
                                    OshErrorKind::NotApproved,
                                    req_id@,
                                    device_text(device@, "is not approved"@),
                                )
                                &&& final(self).sessions@ == old(self).sessions@
                            } else {
                                match client_of(old(self).clients@, d.device_id@) {
                                    None => {
                                        &&& osh_error(
                                            osh_sent(r)[0],
                                            conn,
                                            OshErrorKind::Offline,
                                            req_id@,
                                            device_text(device@, "is offline"@),
                                        )
                                        &&& final(self).sessions@ == old(self).sessions@
                                    },
                                    Some(c) => if !c.approved {
                                        &&& osh_error(
                                            osh_sent(r)[0],
                                            conn,
                                            OshErrorKind::NotApproved,
                                            req_id@,
                                            device_text(device@, "is not approved"@),
                                        )
                                        &&& final(self).sessions@ == old(self).sessions@
                                    } else {
                                        &&& is_spawn(
                                            osh_sent(r)[0],
                                            c.conn,
                                            req_id@,
                                            cmd@,
                                            cols,
                                            rows,
                                            pty,
                                        )
                                        &&& exists|s: OshSession|
                                            #![trigger put_session(old(self).sessions@, s)]
                                            final(self).sessions@ == put_session(
                                                old(self).sessions@,
                                                s,
                                            ) && s.req_id@ == req_id@ && s.device_id@
                                                == d.device_id@ && s.osh_conn == conn
                                    },
                                }
                            }
                        },
                    }
                },
            },
    {
        match msg {
            OshMessage::PING { ts } => {
                let mut out: Vec<Outgoing> = Vec::new();
                out.push(Outgoing::ToOsh { conn, msg: RelayToOshMessage::PONG { ts } });
                OshStep::Sent(out)
            },
            OshMessage::PONG { .. } => OshStep::Sent(Vec::new()),
            OshMessage::ADMIN_RELOAD => OshStep::ReloadRequested,
            OshMessage::INPUT { req_id, payload } => {
                let mut out: Vec<Outgoing> = Vec::new();
                match find_session(&self.sessions, req_id.as_str()) {
                    Some(k) => {
                        if let Some(m) = find_client(
                            &self.clients,
                            self.sessions[k].device_id.as_str(),
                        ) {
                            let c = self.clients[m].conn;
                            out.push(
                                Outgoing::ToClient {
                                    conn: c,
                                    msg: RelayToClientMessage::DATA { req_id, payload },
                                },
                            );
                        }
                    },
                    None => {
                        out.push(
                            Outgoing::ToOsh {
                                conn,
                                msg: RelayToOshMessage::INVALID_REQ_ID {
                                    req_id,
                                    message: owned("Unknown request ID"),
                                },
                            },
                        );
                    },
                }
                OshStep::Sent(out)
            },
            OshMessage::RESIZE { req_id, cols, rows } => {
                let mut out: Vec<Outgoing> = Vec::new();
                if let Some(k) = find_session(&self.sessions, req_id.as_str()) {
                    if let Some(m) = find_client(&self.clients, self.sessions[k].device_id.as_str()) {
                        let c = self.clients[m].conn;
                        out.push(
                            Outgoing::ToClient {
                                conn: c,
                                msg: RelayToClientMessage::RESIZE { req_id, cols, rows },
                            },
                        );
                    }
                }
                OshStep::Sent(out)
            },
            OshMessage::EXEC { device, req_id, cmd, cols, rows, pty } => {
                self.exec_request(conn, device, req_id, cmd, cols, rows, pty)
            },
        }
    }

    fn exec_request(
        &mut self,
        conn: u64,
        device: String,
        req_id: String,
        cmd: String,
        cols: Option<u16>,
        rows: Option<u16>,
        pty: bool,
    ) -> (r: OshStep)
        requires
            old(self).wf(),
            vstd::utf8::encode_utf8(cmd@).len() <= max_encodable_len(),
        ensures
            final(self).wf(),
            final(self).device_store == old(self).device_store,
            final(self).clients@ == old(self).clients@,
            final(self).osh_connections@ == old(self).osh_connections@,
            ({
                let st = old(self).device_store;
                &&& r is Sent
                &&& osh_sent(r).len() == 1
                &&& match st.resolve(device@) {
                    None => {
                        &&& osh_error(
                            osh_sent(r)[0],
                            conn,
                            OshErrorKind::NotFound,
                            req_id@,
                            device_text(device@, "not found"@),
                        )
                        &&& final(self).sessions@ == old(self).sessions@
                    },
                    Some(i) => {
                        let d = st.devices()[i];
                        if d.status != DeviceStatus::Approved {
                            &&& osh_error(
                                osh_sent(r)[0],
                                conn,
                                OshErrorKind::NotApproved,
                                req_id@,
                                device_text(device@, "is not approved"@),
                            )
                            &&& final(self).sessions@ == old(self).sessions@
                        } else {
                            match client_of(old(self).clients@, d.device_id@) {
                                None => {
                                    &&& osh_error(
                                        osh_sent(r)[0],
                                        conn,
                                        OshErrorKind::Offline,
                                        req_id@,
                                        device_text(device@, "is offline"@),
                                    )
                                    &&& final(self).sessions@ == old(self).sessions@
                                },
                                Some(c) => if !c.approved {
                                    &&& osh_error(
                                        osh_sent(r)[0],
                                        conn,
                                        OshErrorKind::NotApproved,
                                        req_id@,
                                        device_text(device@, "is not approved"@),
                                    )
                                    &&& final(self).sessions@ == old(self).sessions@
                                } else {
                                    &&& is_spawn(
                                        osh_sent(r)[0],
                                        c.conn,
                                        req_id@,
                                        cmd@,
                                        cols,
                                        rows,
                                        pty,
                                    )
                                    &&& exists|s: OshSession|
                                        #![trigger put_session(old(self).sessions@, s)]
                                        final(self).sessions@ == put_session(
                                            old(self).sessions@,
                                            s,
                                        ) && s.req_id@ == req_id@ && s.device_id@ == d.device_id@
                                            && s.osh_conn == conn
                                },
                            }
                        }
                    },
                }
            }),
    {
        proof {
            self.device_store.lemma_indexes_in_bounds(device@);
        }
        let mut out: Vec<Outgoing> = Vec::new();
        let found = self.device_store.find_device(device.as_str());
        let info = match found {
            Some(d) => d,
            None => {
                let message = device_message(device.as_str(), "not found");
                out.push(
                    Outgoing::ToOsh {
                        conn,
                        msg: RelayToOshMessage::DEVICE_NOT_FOUND { req_id, message },
                    },
                );
                return OshStep::Sent(out);
            },
        };
        if info.status != DeviceStatus::Approved {
            let message = device_message(device.as_str(), "is not approved");
            out.push(
                Outgoing::ToOsh {
                    conn,
                    msg: RelayToOshMessage::DEVICE_NOT_APPROVED { req_id, message },
                },
            );
            return OshStep::Sent(out);
        }
        let k = match find_client(&self.clients, info.device_id.as_str()) {
            Some(k) => k,
            None => {
                let message = device_message(device.as_str(), "is offline");
                out.push(
                    Outgoing::ToOsh { conn, msg: RelayToOshMessage::DEVICE_OFFLINE { req_id, message } },
                );
                return OshStep::Sent(out);
            },
        };
        if !self.clients[k].approved {
            let message = device_message(device.as_str(), "is not approved");
            out.push(
                Outgoing::ToOsh {
                    conn,
                    msg: RelayToOshMessage::DEVICE_NOT_APPROVED { req_id, message },
                },
            );
            return OshStep::Sent(out);
        }
        let client_conn = self.clients[k].conn;
        let session = OshSession { req_id: req_id.clone(), device_id: info.device_id, osh_conn: conn };
        let ghost s = session;
        insert_session(&mut self.sessions, session);
        assert(self.sessions@ == put_session(old(self).sessions@, s));
        let payload = encode_payload(cmd.as_str().as_bytes());
        out.push(
            Outgoing::ToClient {
                conn: client_conn,
                msg: RelayToClientMessage::SPAWN { req_id, payload: Some(payload), cols, rows, pty },
            },
        );
        OshStep::Sent(out)
    }
}

/// What reloading gives: the new device count, or the text of the error.
pub open spec fn reload_outcome(loaded: Result<Option<DevicesConfig>, String>) -> Result<
    nat,
    Seq<char>,
> {
    match loaded {
        Err(t) => Err(t@),
        Ok(None) => Ok(0),
        Ok(Some(c)) => match conflict_error(c.devices@) {
            Some(e) => Err(e.spec_message()),
            None => Ok(c.devices@.len()),
        },
    }
}

/// `o` answers a reload request on connection `c` with `outcome`.
pub open spec fn is_reload_reply(o: Outgoing, c: u64, outcome: Result<nat, Seq<char>>) -> bool {
    match o {
        Outgoing::ToOsh { conn, msg } => conn == c && match (outcome, msg) {
            (Ok(n), RelayToOshMessage::ADMIN_RELOAD_OK { message }) => message@ == "Reloaded "@
                + decimal(n) + " devices"@,
            (Err(t), RelayToOshMessage::ADMIN_RELOAD_ERROR { message }) => message@
                == "Failed to reload: "@ + t,
            _ => false,
        },
        _ => false,
    }
}

impl RelayService {
    /// Reloads the device list and brings the connected clients' approval
    /// in line with it, telling each client whose approval changed.
    pub fn reload_config(&mut self, loaded: Result<Option<DevicesConfig>, String>) -> (r: (
        Result<usize, LoadError>,
        Vec<Outgoing>,
    ))
        requires
            old(self).wf(),
        ensures
            final(self).wf(),
            final(self).sessions@ == old(self).sessions@,
            final(self).osh_connections@ == old(self).osh_connections@,
            final(self).device_store.config_path == old(self).device_store.config_path,
            match r.0 {
                Ok(n) => reload_outcome(loaded) == Ok::<nat, Seq<char>>(n as nat),
                Err(e) => reload_outcome(loaded) == Err::<nat, Seq<char>>(e.spec_message()),
            },
            r.0 is Err ==> final(self).device_store == old(self).device_store && final(self).clients@ == old(self).clients@ && r.1@.len() == 0,
            r.0 is Ok ==> {
                &&& loaded matches Ok(Some(c)) ==> final(self).device_store.config == c
                &&& loaded matches Ok(None) ==> final(self).device_store.devices().len() == 0
                    && final(self).device_store.config.max_devices == 10
                    && final(self).device_store.config.secret_key@ == "change-me-in-production"@
                &&& final(self).clients@.len() == old(self).clients@.len()
                &&& forall|k: int|
                    #![trigger final(self).clients@[k]]
                    0 <= k < old(self).clients@.len() ==> {
                        &&& final(self).clients@[k].device_id == old(self).clients@[k].device_id
                        &&& final(self).clients@[k].conn == old(self).clients@[k].conn
                        &&& final(self).clients@[k].approved == final(self).device_store.approved(
                            old(self).clients@[k].device_id@,
                        )
                    }
                &&& ({
                    let t = approval_changes(old(self).clients@, final(self).device_store);
                    &&& r.1@.len() == t.len()
                    &&& forall|k: int|
                        0 <= k < r.1@.len() ==> is_approval_notice(#[trigger] r.1@[k], t[k].0, t[k].1)
                })
            },
    {
        let result = self.device_store.reload(loaded);
        let count = match result {
            Err(e) => {
                return (Err(e), Vec::new());
            },
            Ok(n) => n,
        };
        let ghost st = self.device_store;
        let ghost old_cs = self.clients@;
        let mut rest: Vec<ConnectedClient> = Vec::new();
        std::mem::swap(&mut rest, &mut self.clients);
        let mut updated: Vec<ConnectedClient> = Vec::new();
        let mut out: Vec<Outgoing> = Vec::new();
        let n = rest.len();
        let mut i: usize = 0;
        while i < n
            invariant
                n == old_cs.len(),
                st == self.device_store,
                rest@ == old_cs.skip(i as int),
                0 <= i <= n,
                updated@.len() == i,
                forall|k: int|
                    0 <= k < i ==> {
                        &&& #[trigger] updated@[k].device_id == old_cs[k].device_id
                        &&& updated@[k].conn == old_cs[k].conn
                        &&& updated@[k].approved == st.approved(old_cs[k].device_id@)
                    },
                out@.len() == approval_changes(old_cs.take(i as int), st).len(),
                forall|k: int|
                    0 <= k < out@.len() ==> is_approval_notice(
                        #[trigger] out@[k],
                        approval_changes(old_cs.take(i as int), st)[k].0,
                        approval_changes(old_cs.take(i as int), st)[k].1,
                    ),
            decreases n - i,
        {
            let mut c = rest.remove(0);
            assert(c == old_cs[i as int]);
            assert(rest@ =~= old_cs.skip(i + 1));
            assert(old_cs.take(i + 1).drop_last() =~= old_cs.take(i as int));
            assert(old_cs.take(i + 1).last() == old_cs[i as int]);
            let was_approved = c.approved;
            let is_approved = self.device_store.is_device_approved(c.device_id.as_str());
            if !was_approved && is_approved {
                let msg = RelayToClientMessage::PAIR_APPROVED { message: Some(owned("Device approved")) };
                out.push(Outgoing::ToClient { conn: c.conn, msg });
            } else if was_approved && !is_approved {
                let msg = RelayToClientMessage::PAIR_REJECTED {
                    message: Some(owned("Approval revoked")),
                };
                out.push(Outgoing::ToClient { conn: c.conn, msg });
            }
            c.approved = is_approved;
            updated.push(c);
            i = i + 1;
        }
        assert(old_cs.take(n as int) =~= old_cs);
        assert(client_ids(updated@) =~= client_ids(old_cs));
        self.clients = updated;
        (Ok(count), out)
    }

    /// Handles an admin reload request from osh connection `conn`, with
    /// `loaded` what reading the file again gave: reloads (see
    /// `reload_config`) and appends the reply to the admin.
    pub fn admin_reload(&mut self, conn: u64, loaded: Result<Option<DevicesConfig>, String>) -> (r:
        Vec<Outgoing>)
        requires
            old(self).wf(),
        ensures
            final(self).wf(),
            final(self).sessions@ == old(self).sessions@,
            final(self).osh_connections@ == old(self).osh_connections@,
            r@.len() >= 1,
            is_reload_reply(r@.last(), conn, reload_outcome(loaded)),
            reload_outcome(loaded) is Err ==> final(self).device_store == old(self).device_store
                && final(self).clients@ == old(self).clients@ && r@.len() == 1,
            reload_outcome(loaded) is Ok ==> {
                let t = approval_changes(old(self).clients@, final(self).device_store);
                &&& r@.len() == t.len() + 1
                &&& forall|k: int|
                    0 <= k < t.len() ==> is_approval_notice(#[trigger] r@[k], t[k].0, t[k].1)
                &&& forall|k: int|
                    #![trigger final(self).clients@[k]]
                    0 <= k < old(self).clients@.len() ==> final(self).clients@[k].approved
                        == final(self).device_store.approved(old(self).clients@[k].device_id@)
            },
    {
        let (result, mut out) = self.reload_config(loaded);
        let msg = match result {
            Ok(count) => {
                let mut text = owned("Reloaded ");
                push_decimal(&mut text, count);
                text.append(" devices");
                RelayToOshMessage::ADMIN_RELOAD_OK { message: text }
            },
            Err(e) => {
                let mut text = owned("Failed to reload: ");
                let detail = e.message();
                text.append(detail.as_str());
                RelayToOshMessage::ADMIN_RELOAD_ERROR { message: text }
            },
        };
        let ghost before = out@;
        out.push(Outgoing::ToOsh { conn, msg });
        assert(forall|k: int| 0 <= k < before.len() ==> out@[k] == before[k]);
        out
    }
}
} // verus!
