//! The relay's two tables: connected clients keyed by device id, and osh
//! sessions keyed by request id. Each key occurs at most once; putting an
//! entry replaces the one with the same key.

use vstd::prelude::*;
use crate::lookup::{first_id, lemma_first_id_found, lemma_first_id_stable};
use crate::text::same_text;

verus! {

broadcast use vstd::seq_lib::group_seq_properties;

/// A connected client (local daemon): its device id, the connection it
/// talks on, and whether it may run commands.
#[derive(Debug)]
pub struct ConnectedClient {
    pub device_id: String,
    pub conn: u64,
    pub approved: bool,
}

/// A running command: its request id, the device it runs on, and the osh
/// connection that asked for it.
#[derive(Debug)]
pub struct OshSession {
    pub req_id: String,
    pub device_id: String,
    pub osh_conn: u64,
}

pub open spec fn client_ids(cs: Seq<ConnectedClient>) -> Seq<Seq<char>> {
    Seq::new(cs.len(), |i: int| cs[i].device_id@)
}

pub open spec fn session_ids(ss: Seq<OshSession>) -> Seq<Seq<char>> {
    Seq::new(ss.len(), |i: int| ss[i].req_id@)
}

/// No key occurs twice.
pub open spec fn keys_unique(keys: Seq<Seq<char>>) -> bool {
    forall|i: int, j: int| 0 <= i < j < keys.len() ==> keys[i] != keys[j]
}

/// The client of device `d`.
pub open spec fn client_of(cs: Seq<ConnectedClient>, d: Seq<char>) -> Option<ConnectedClient> {
    match first_id(client_ids(cs), d, cs.len() as int) {
        Some(i) => Some(cs[i]),
        None => None,
    }
}

/// The session of request `r`.
pub open spec fn session_of(ss: Seq<OshSession>, r: Seq<char>) -> Option<OshSession> {
    match first_id(session_ids(ss), r, ss.len() as int) {
        Some(i) => Some(ss[i]),
        None => None,
    }
}

/// The key sequence with entry `k` present exactly at index `i`.
pub proof fn lemma_key_at(keys: Seq<Seq<char>>, i: int)
    requires
        keys_unique(keys),
        0 <= i < keys.len(),
    ensures
        first_id(keys, keys[i], keys.len() as int) == Some(i),
{
    lemma_first_id_found(keys, keys[i], keys.len() as int);
    lemma_first_id_found(keys, keys[i], i);
    if first_id(keys, keys[i], i) is Some {
        let j = first_id(keys, keys[i], i)->0;
        assert(keys[j] == keys[i]);
    }
    assert(first_id(keys, keys[i], i + 1) == Some(i));
    lemma_first_id_stable(keys, keys[i], i + 1, keys.len() as int);
}

/// The client table with `c` put in: it replaces the client of the same
/// device, or is added at the end.
pub open spec fn put_client(cs: Seq<ConnectedClient>, c: ConnectedClient) -> Seq<ConnectedClient> {
    match first_id(client_ids(cs), c.device_id@, cs.len() as int) {
        Some(k) => cs.update(k, c),
        None => cs.push(c),
    }
}

/// The session table with `s` put in.
pub open spec fn put_session(ss: Seq<OshSession>, s: OshSession) -> Seq<OshSession> {
    match first_id(session_ids(ss), s.req_id@, ss.len() as int) {
        Some(k) => ss.update(k, s),
        None => ss.push(s),
    }
}

/// The client table without the client of device `d`.
pub open spec fn drop_client(cs: Seq<ConnectedClient>, d: Seq<char>) -> Seq<ConnectedClient> {
    match first_id(client_ids(cs), d, cs.len() as int) {
        Some(k) => cs.remove(k),
        None => cs,
    }
}

/// The session table without the session of request `r`.
pub open spec fn drop_session(ss: Seq<OshSession>, r: Seq<char>) -> Seq<OshSession> {
    match first_id(session_ids(ss), r, ss.len() as int) {
        Some(k) => ss.remove(k),
        None => ss,
    }
}

pub fn find_client(cs: &Vec<ConnectedClient>, d: &str) -> (r: Option<usize>)
    ensures
        match r {
            Some(i) => first_id(client_ids(cs@), d@, cs@.len() as int) == Some(i as int) && i
                < cs@.len(),
            None => first_id(client_ids(cs@), d@, cs@.len() as int) is None,
        },
{
    let ghost ids = client_ids(cs@);
    let n = cs.len();
    for i in 0..n
        invariant
            n == cs@.len(),
            ids == client_ids(cs@),
            first_id(ids, d@, i as int) is None,
    {
        if same_text(cs[i].device_id.as_str(), d) {
            assert(ids[i as int] == d@);
            proof {
                lemma_first_id_stable(ids, d@, i + 1, n as int);
            }
            return Some(i);
        }
    }
    None
}

pub fn find_session(ss: &Vec<OshSession>, r: &str) -> (res: Option<usize>)
    ensures
        match res {
            Some(i) => first_id(session_ids(ss@), r@, ss@.len() as int) == Some(i as int) && i
                < ss@.len(),
            None => first_id(session_ids(ss@), r@, ss@.len() as int) is None,
        },
{
    let ghost ids = session_ids(ss@);
    let n = ss.len();
    for i in 0..n
        invariant
            n == ss@.len(),
            ids == session_ids(ss@),
            first_id(ids, r@, i as int) is None,
    {
        if same_text(ss[i].req_id.as_str(), r) {
            assert(ids[i as int] == r@);
            proof {
                lemma_first_id_stable(ids, r@, i + 1, n as int);
            }
            return Some(i);
        }
    }
    None
}

pub fn insert_client(cs: &mut Vec<ConnectedClient>, c: ConnectedClient)
    requires
        keys_unique(client_ids(old(cs)@)),
    ensures
        final(cs)@ == put_client(old(cs)@, c),
        keys_unique(client_ids(final(cs)@)),
{
    let ghost old_cs = cs@;
    proof {
        lemma_first_id_found(client_ids(old_cs), c.device_id@, old_cs.len() as int);
    }
    match find_client(cs, c.device_id.as_str()) {
        Some(k) => {
            cs.set(k, c);
            assert(client_ids(cs@) =~= client_ids(old_cs).update(k as int, c.device_id@));
        },
        None => {
            cs.push(c);
            assert(client_ids(cs@) =~= client_ids(old_cs).push(c.device_id@));
        },
    }
}

pub fn insert_session(ss: &mut Vec<OshSession>, s: OshSession)
    requires
        keys_unique(session_ids(old(ss)@)),
    ensures
        final(ss)@ == put_session(old(ss)@, s),
        keys_unique(session_ids(final(ss)@)),
{
    let ghost old_ss = ss@;
    proof {
        lemma_first_id_found(session_ids(old_ss), s.req_id@, old_ss.len() as int);
    }
    match find_session(ss, s.req_id.as_str()) {
        Some(k) => {
            ss.set(k, s);
            assert(session_ids(ss@) =~= session_ids(old_ss).update(k as int, s.req_id@));
        },
        None => {
            ss.push(s);
            assert(session_ids(ss@) =~= session_ids(old_ss).push(s.req_id@));
        },
    }
}

pub fn remove_client(cs: &mut Vec<ConnectedClient>, d: &str)
    requires
        keys_unique(client_ids(old(cs)@)),
    ensures
        final(cs)@ == drop_client(old(cs)@, d@),
        keys_unique(client_ids(final(cs)@)),
{
    let ghost old_cs = cs@;
    if let Some(k) = find_client(cs, d) {
        cs.remove(k);
        assert(client_ids(cs@) =~= client_ids(old_cs).remove(k as int));
    }
}

pub fn remove_session(ss: &mut Vec<OshSession>, r: &str)
    requires
        keys_unique(session_ids(old(ss)@)),
    ensures
        final(ss)@ == drop_session(old(ss)@, r@),
        keys_unique(session_ids(final(ss)@)),
{
    let ghost old_ss = ss@;
    if let Some(k) = find_session(ss, r) {
        ss.remove(k);
        assert(session_ids(ss@) =~= session_ids(old_ss).remove(k as int));
    }
}

/// Putting a session makes it the session of its request and leaves every
/// other request's session as it was.
pub proof fn lemma_put_session(ss: Seq<OshSession>, s: OshSession, r: Seq<char>)
    requires
        keys_unique(session_ids(ss)),
    ensures
        session_of(put_session(ss, s), s.req_id@) == Some(s),
        r != s.req_id@ ==> session_of(put_session(ss, s), r) == session_of(ss, r),
{
    let ids = session_ids(ss);
    let n = put_session(ss, s);
    lemma_first_id_found(ids, s.req_id@, ss.len() as int);
    lemma_first_id_found(ids, r, ss.len() as int);
    let nids = session_ids(n);
    match first_id(ids, s.req_id@, ss.len() as int) {
        Some(k) => {
            assert(nids =~= ids.update(k, s.req_id@));
        },
        None => {
            assert(nids =~= ids.push(s.req_id@));
        },
    }
    assert(keys_unique(nids));
    lemma_first_id_found(nids, s.req_id@, n.len() as int);
    lemma_first_id_found(nids, r, n.len() as int);
    match first_id(ids, s.req_id@, ss.len() as int) {
        Some(k) => {
            lemma_key_at(nids, k);
            if first_id(ids, r, ss.len() as int) is Some && r != s.req_id@ {
                lemma_key_at(nids, first_id(ids, r, ss.len() as int)->0);
            }
        },
        None => {
            lemma_key_at(nids, ss.len() as int);
            if first_id(ids, r, ss.len() as int) is Some && r != s.req_id@ {
                lemma_key_at(nids, first_id(ids, r, ss.len() as int)->0);
            }
        },
    }
}

/// Dropping a session removes it and leaves every other request's session
/// as it was.
pub proof fn lemma_drop_session(ss: Seq<OshSession>, r: Seq<char>, q: Seq<char>)
    requires
        keys_unique(session_ids(ss)),
    ensures
        session_of(drop_session(ss, r), r) is None,
        q != r ==> session_of(drop_session(ss, r), q) == session_of(ss, q),
{
    let ids = session_ids(ss);
    let n = drop_session(ss, r);
    let nids = session_ids(n);
    lemma_first_id_found(ids, r, ss.len() as int);
    lemma_first_id_found(ids, q, ss.len() as int);
    lemma_first_id_found(nids, r, n.len() as int);
    lemma_first_id_found(nids, q, n.len() as int);
    match first_id(ids, r, ss.len() as int) {
        Some(k) => {
            assert(nids =~= ids.remove(k));
            assert(keys_unique(nids));
            if let Some(j) = first_id(nids, r, n.len() as int) {
                if j < k {
                    assert(ids[j] == r);
                } else {
                    assert(ids[j + 1] == r);
                }
            }
            if q != r {
                if let Some(j) = first_id(ids, q, ss.len() as int) {
                    if j < k {
                        lemma_key_at(nids, j);
                    } else {
                        lemma_key_at(nids, j - 1);
                    }
                } else {
                    if let Some(j) = first_id(nids, q, n.len() as int) {
                        if j < k {
                            assert(ids[j] == q);
                        } else {
                            assert(ids[j + 1] == q);
                        }
                    }
                }
            }
        },
        None => {},
    }
}

/// Putting a client makes it the client of its device and leaves every
/// other device's client as it was.
pub proof fn lemma_put_client(ss: Seq<ConnectedClient>, s: ConnectedClient, r: Seq<char>)
    requires
        keys_unique(client_ids(ss)),
    ensures
        client_of(put_client(ss, s), s.device_id@) == Some(s),
        r != s.device_id@ ==> client_of(put_client(ss, s), r) == client_of(ss, r),
{
    let ids = client_ids(ss);
    let n = put_client(ss, s);
    lemma_first_id_found(ids, s.device_id@, ss.len() as int);
    lemma_first_id_found(ids, r, ss.len() as int);
    let nids = client_ids(n);
    match first_id(ids, s.device_id@, ss.len() as int) {
        Some(k) => {
            assert(nids =~= ids.update(k, s.device_id@));
        },
        None => {
            assert(nids =~= ids.push(s.device_id@));
        },
    }
    assert(keys_unique(nids));
    lemma_first_id_found(nids, s.device_id@, n.len() as int);
    lemma_first_id_found(nids, r, n.len() as int);
    match first_id(ids, s.device_id@, ss.len() as int) {
        Some(k) => {
            lemma_key_at(nids, k);
            if first_id(ids, r, ss.len() as int) is Some && r != s.device_id@ {
                lemma_key_at(nids, first_id(ids, r, ss.len() as int)->0);
            }
        },
        None => {
            lemma_key_at(nids, ss.len() as int);
            if first_id(ids, r, ss.len() as int) is Some && r != s.device_id@ {
                lemma_key_at(nids, first_id(ids, r, ss.len() as int)->0);
            }
        },
    }
}

/// Dropping a client removes it and leaves every other device's client as
/// it was.
pub proof fn lemma_drop_client(ss: Seq<ConnectedClient>, r: Seq<char>, q: Seq<char>)
    requires
        keys_unique(client_ids(ss)),
    ensures
        client_of(drop_client(ss, r), r) is None,
        q != r ==> client_of(drop_client(ss, r), q) == client_of(ss, q),
{
    let ids = client_ids(ss);
    let n = drop_client(ss, r);
    let nids = client_ids(n);
    lemma_first_id_found(ids, r, ss.len() as int);
    lemma_first_id_found(ids, q, ss.len() as int);
    lemma_first_id_found(nids, r, n.len() as int);
    lemma_first_id_found(nids, q, n.len() as int);
    match first_id(ids, r, ss.len() as int) {
        Some(k) => {
            assert(nids =~= ids.remove(k));
            assert(keys_unique(nids));
            if let Some(j) = first_id(nids, r, n.len() as int) {
                if j < k {
                    assert(ids[j] == r);
                } else {
                    assert(ids[j + 1] == r);
                }
            }
            if q != r {
                if let Some(j) = first_id(ids, q, ss.len() as int) {
                    if j < k {
                        lemma_key_at(nids, j);
                    } else {
                        lemma_key_at(nids, j - 1);
                    }
                } else {
                    if let Some(j) = first_id(nids, q, n.len() as int) {
                        if j < k {
                            assert(ids[j] == q);
                        } else {
                            assert(ids[j + 1] == q);
                        }
                    }
                }
            }
        },
        None => {},
    }
}

} // verus!
