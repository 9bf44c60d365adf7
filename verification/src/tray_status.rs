//! The tray front end's view of the daemon: the connection status it shows,
//! how it reads a status line from the daemon, how it reads the daemon's log
//! where there is no status pipe, and the icon and texts for each status.

use vstd::prelude::*;
use crate::daemon_logic::StatusUpdate;
use crate::text::{chars_of, same_text, contains_text, occurs_in};

verus! {

/// The connection status the tray shows.
#[derive(Debug, Clone, Copy, PartialEq, Eq, Structural)]
pub enum ConnectionStatus {
    /// The daemon is not running.
    Disconnected,
    /// The daemon runs but is not approved yet.
    Connecting,
    /// The daemon is connected and approved.
    Connected,
}

/// Whitespace as `char::is_whitespace` defines it (the Unicode White_Space
/// property).
pub open spec fn is_space(c: char) -> bool {
    let u = c as u32;
    (0x9 <= u && u <= 0xd) || u == 0x20 || u == 0x85 || u == 0xa0 || u == 0x1680 || (0x2000 <= u
        && u <= 0x200a) || u == 0x2028 || u == 0x2029 || u == 0x202f || u == 0x205f || u == 0x3000
}

fn space_char(c: char) -> (r: bool)
    ensures
        r == is_space(c),
{
    let u = c as u32;
    (0x9 <= u && u <= 0xd) || u == 0x20 || u == 0x85 || u == 0xa0 || u == 0x1680 || (0x2000 <= u
        && u <= 0x200a) || u == 0x2028 || u == 0x2029 || u == 0x202f || u == 0x205f || u == 0x3000
}

/// `s` without its leading whitespace.
pub open spec fn trim_start(s: Seq<char>) -> Seq<char>
    decreases s.len(),
{
    if s.len() > 0 && is_space(s[0]) {
        trim_start(s.drop_first())
    } else {
        s
    }
}

/// `s` without its trailing whitespace.
pub open spec fn trim_end(s: Seq<char>) -> Seq<char>
    decreases s.len(),
{
    if s.len() > 0 && is_space(s.last()) {
        trim_end(s.drop_last())
    } else {
        s
    }
}

/// `s` without whitespace at either end (`str::trim`).
pub open spec fn trimmed(s: Seq<char>) -> Seq<char> {
    trim_end(trim_start(s))
}

/// `s` without whitespace at either end.
pub fn trim_text(s: &str) -> (r: Vec<char>)
    ensures
        r@ == trimmed(s@),
{
    let cs = chars_of(s);
    let n = cs.len();
    let mut a: usize = 0;
    assert(s@.subrange(0, n as int) =~= s@);
    while a < n && space_char(cs[a])
        invariant
            cs@ == s@,
            n == cs@.len(),
            0 <= a <= n,
            trim_start(s@) == trim_start(s@.subrange(a as int, n as int)),
        decreases n - a,
    {
        assert(s@.subrange(a as int, n as int).drop_first() =~= s@.subrange(a + 1, n as int));
        a = a + 1;
    }
    assert(trim_start(s@) == s@.subrange(a as int, n as int)) by {
        if a < n {
            assert(s@.subrange(a as int, n as int)[0] == s@[a as int]);
        } else {
            assert(s@.subrange(a as int, n as int).len() == 0);
        }
    }
    let ghost t = s@.subrange(a as int, n as int);
    let mut b: usize = n;
    while b > a && space_char(cs[b - 1])
        invariant
            cs@ == s@,
            n == cs@.len(),
            0 <= a <= b <= n,
            t == s@.subrange(a as int, n as int),
            trim_end(t) == trim_end(s@.subrange(a as int, b as int)),
        decreases b - a,
    {
        assert(s@.subrange(a as int, b as int).drop_last() =~= s@.subrange(a as int, b - 1));
        b = b - 1;
    }
    assert(trim_end(t) == s@.subrange(a as int, b as int)) by {
        if b > a {
            assert(s@.subrange(a as int, b as int).last() == s@[b - 1]);
        } else {
            assert(s@.subrange(a as int, b as int).len() == 0);
        }
    }
    let mut r: Vec<char> = Vec::new();
    let mut i: usize = a;
    while i < b
        invariant
            cs@ == s@,
            n == cs@.len(),
            0 <= a <= i <= b <= n,
            r@ == s@.subrange(a as int, i as int),
        decreases b - i,
    {
        r.push(cs[i]);
        assert(r@ =~= s@.subrange(a as int, i + 1));
        i = i + 1;
    }
    r
}

/// The status a line read from the daemon's status pipe stands for, if it
/// is one the tray knows (the line is compared without surrounding
/// whitespace).
pub open spec fn pipe_status(line: Seq<char>) -> Option<ConnectionStatus> {
    let t = trimmed(line);
    if t == "CONNECTED"@ {
        Some(ConnectionStatus::Connected)
    } else if t == "CONNECTING"@ || t == "WAITING"@ || t == "RECONNECTING"@ {
        Some(ConnectionStatus::Connecting)
    } else if t == "STOPPED"@ || t == "REJECTED"@ || t == "AUTH_FAILED"@ || t
        == "LIMIT_EXCEEDED"@ {
        Some(ConnectionStatus::Disconnected)
    } else {
        None
    }
}

fn vec_is(v: &Vec<char>, s: &str) -> (r: bool)
    ensures
        r == (v@ == s@),
{
    let w = chars_of(s);
    if v.len() != w.len() {
        return false;
    }
    let mut i: usize = 0;
    while i < v.len()
        invariant
            w@ == s@,
            v.len() == w.len(),
            0 <= i <= v.len(),
            forall|k: int| 0 <= k < i ==> v@[k] == w@[k],
        decreases v.len() - i,
    {
        if v[i] != w[i] {
            return false;
        }
        i = i + 1;
    }
    assert(v@ =~= w@);
    true
}

/// Reads one line from the daemon's status pipe.
pub fn status_from_pipe_line(line: &str) -> (r: Option<ConnectionStatus>)
    ensures
        r == pipe_status(line@),
{
    let t = trim_text(line);
    if vec_is(&t, "CONNECTED") {
        Some(ConnectionStatus::Connected)
    } else if vec_is(&t, "CONNECTING") || vec_is(&t, "WAITING") || vec_is(&t, "RECONNECTING") {
        Some(ConnectionStatus::Connecting)
    } else if vec_is(&t, "STOPPED") || vec_is(&t, "REJECTED") || vec_is(&t, "AUTH_FAILED")
        || vec_is(&t, "LIMIT_EXCEEDED") {
        Some(ConnectionStatus::Disconnected)
    } else {
        None
    }
}

/// The connection status a status update of the daemon stands for.
pub open spec fn status_for_update(u: StatusUpdate) -> ConnectionStatus {
    match u {
        StatusUpdate::Connected => ConnectionStatus::Connected,
        StatusUpdate::Connecting | StatusUpdate::Waiting | StatusUpdate::Reconnecting =>
            ConnectionStatus::Connecting,
        _ => ConnectionStatus::Disconnected,
    }
}

proof fn lemma_trims_newline(w: Seq<char>)
    requires
        w.len() > 0,
        !is_space(w[0]),
        !is_space(w.last()),
    ensures
        trimmed(w.push('\n')) == w,
{
    let s = w.push('\n');
    assert(trim_start(s) == s);
    assert(s.drop_last() =~= w);
    assert(trim_end(s) == trim_end(w));
    assert(trim_end(w) == w);
}

/// Every status line the daemon writes (its text and a newline) is read by
/// the tray as the connection status it stands for.
pub proof fn lemma_status_line_read_back(u: StatusUpdate)
    ensures
        pipe_status(u.spec_text().push('\n')) == Some(status_for_update(u)),
{
    reveal_strlit("CONNECTING");
    reveal_strlit("WAITING");
    reveal_strlit("CONNECTED");
    reveal_strlit("RECONNECTING");
    reveal_strlit("STOPPED");
    reveal_strlit("REJECTED");
    reveal_strlit("AUTH_FAILED");
    reveal_strlit("LIMIT_EXCEEDED");
    let w = u.spec_text();
    lemma_trims_newline(w);
}

/// What the status pipe listener does with a line.
#[derive(Debug, Clone, Copy, PartialEq, Eq, Structural)]
pub enum PipeStep {
    /// An unknown line: read on.
    Skip,
    /// Show this status.
    Show(ConnectionStatus),
    /// The daemon is no longer running: the listener ends.
    Exit,
}

/// Decides what a status line does while the daemon is (or is no longer)
/// running.
pub fn pipe_step(line: &str, daemon_running: bool) -> (r: PipeStep)
    ensures
        match pipe_status(line@) {
            None => r == PipeStep::Skip,
            Some(s) => if daemon_running {
                r == PipeStep::Show(s)
            } else {
                r == PipeStep::Exit
            },
        },
{
    match status_from_pipe_line(line) {
        None => PipeStep::Skip,
        Some(s) => if daemon_running {
            PipeStep::Show(s)
        } else {
            PipeStep::Exit
        },
    }
}

/// The red, green and blue of the icon for a status: red when disconnected,
/// orange while connecting, green when connected.
pub open spec fn icon_color(status: ConnectionStatus) -> (u8, u8, u8) {
    match status {
        ConnectionStatus::Disconnected => (255, 64, 64),
        ConnectionStatus::Connecting => (255, 165, 0),
        ConnectionStatus::Connected => (100, 200, 100),
    }
}

/// The icon's side in pixels.
pub const ICON_SIDE: usize = 16;

/// Pixel `p` of `v` is the opaque color `(r, g, b)`.
pub open spec fn pixel_is(v: Seq<u8>, p: int, c: (u8, u8, u8)) -> bool {
    &&& v[4 * p] == c.0
    &&& v[4 * p + 1] == c.1
    &&& v[4 * p + 2] == c.2
    &&& v[4 * p + 3] == 255
}

/// The RGBA pixels of the tray icon for a status: 16 by 16 opaque pixels of
/// the status color.
pub fn icon_rgba(status: ConnectionStatus) -> (v: Vec<u8>)
    ensures
        v@.len() == 16 * 16 * 4,
        forall|p: int| 0 <= p < 16 * 16 ==> #[trigger] pixel_is(v@, p, icon_color(status)),
{
    let (r, g, b): (u8, u8, u8) = match status {
        ConnectionStatus::Disconnected => (255, 64, 64),
        ConnectionStatus::Connecting => (255, 165, 0),
        ConnectionStatus::Connected => (100, 200, 100),
    };
    let ghost c = icon_color(status);
    let mut v: Vec<u8> = Vec::new();
    let mut p: usize = 0;
    while p < ICON_SIDE * ICON_SIDE
        invariant
            0 <= p <= 256,
            (r, g, b) == c,
            v@.len() == 4 * p,
            forall|q: int| 0 <= q < p ==> #[trigger] pixel_is(v@, q, c),
        decreases 256 - p,
    {
        let ghost before = v@;
        v.push(r);
        v.push(g);
        v.push(b);
        v.push(255);
        assert(v@ == before + seq![r, g, b, 255u8]);
        assert forall|q: int| 0 <= q < p + 1 implies #[trigger] pixel_is(v@, q, c) by {
            if q < p {
                assert(pixel_is(before, q, c));
            }
        }
        p = p + 1;
    }
    v
}

/// The status line of the tray menu.
pub fn status_label(status: ConnectionStatus) -> (s: &'static str)
    ensures
        s@ == match status {
            ConnectionStatus::Disconnected => "状态: 未连接"@,
            ConnectionStatus::Connecting => "状态: 连接中..."@,
            ConnectionStatus::Connected => "状态: 已连接"@,
        },
{
    match status {
        ConnectionStatus::Disconnected => "状态: 未连接",
        ConnectionStatus::Connecting => "状态: 连接中...",
        ConnectionStatus::Connected => "状态: 已连接",
    }
}

/// The tooltip of the tray icon.
pub fn tooltip_text(status: ConnectionStatus) -> (s: &'static str)
    ensures
        s@ == match status {
            ConnectionStatus::Disconnected => "OSH Daemon - 未连接"@,
            ConnectionStatus::Connecting => "OSH Daemon - 连接中..."@,
            ConnectionStatus::Connected => "OSH Daemon - 已连接"@,
        },
{
    match status {
        ConnectionStatus::Disconnected => "OSH Daemon - 未连接",
        ConnectionStatus::Connecting => "OSH Daemon - 连接中...",
        ConnectionStatus::Connected => "OSH Daemon - 已连接",
    }
}

/// What a line of the daemon's log says about the connection.
#[derive(Debug, Clone, Copy, PartialEq, Eq, Structural)]
pub enum LogSignal {
    /// "Pairing approved".
    Approved,
    /// "Pairing pending" or "Waiting for admin approval".
    Pending,
    /// "Reconnecting" or "Heartbeat timeout".
    Reconnecting,
    /// "Sent pairing request".
    PairingSent,
}

/// The signal a log line carries, the earlier kinds taking precedence.
pub open spec fn line_signal(line: Seq<char>) -> Option<LogSignal> {
    if occurs_in("Pairing approved"@, line) {
        Some(LogSignal::Approved)
    } else if occurs_in("Pairing pending"@, line) || occurs_in("Waiting for admin approval"@, line) {
        Some(LogSignal::Pending)
    } else if occurs_in("Reconnecting"@, line) || occurs_in("Heartbeat timeout"@, line) {
        Some(LogSignal::Reconnecting)
    } else if occurs_in("Sent pairing request"@, line) {
        Some(LogSignal::PairingSent)
    } else {
        None
    }
}

/// The signal of one log line.
pub fn log_line_signal(line: &Vec<char>) -> (r: Option<LogSignal>)
    ensures
        r == line_signal(line@),
{
    if contains_text(line, "Pairing approved") {
        Some(LogSignal::Approved)
    } else if contains_text(line, "Pairing pending") || contains_text(
        line,
        "Waiting for admin approval",
    ) {
        Some(LogSignal::Pending)
    } else if contains_text(line, "Reconnecting") || contains_text(line, "Heartbeat timeout") {
        Some(LogSignal::Reconnecting)
    } else if contains_text(line, "Sent pairing request") {
        Some(LogSignal::PairingSent)
    } else {
        None
    }
}

/// The signal of a log line by the texts it holds: "Pairing approved"
/// first; then "Pairing pending" or "Waiting for admin approval"; then
/// "Reconnecting" or "Heartbeat timeout"; then "Sent pairing request"; a
/// line holding none of them carries no signal.
pub proof fn lemma_line_signal_by_text(line: Seq<char>)
    ensures
        occurs_in("Pairing approved"@, line) ==> line_signal(line) == Some(LogSignal::Approved),
        !occurs_in("Pairing approved"@, line) && (occurs_in("Pairing pending"@, line) || occurs_in(
            "Waiting for admin approval"@,
            line,
        )) ==> line_signal(line) == Some(LogSignal::Pending),
        !occurs_in("Pairing approved"@, line) && !occurs_in("Pairing pending"@, line)
            && !occurs_in("Waiting for admin approval"@, line) && (occurs_in(
            "Reconnecting"@,
            line,
        ) || occurs_in("Heartbeat timeout"@, line)) ==> line_signal(line) == Some(
            LogSignal::Reconnecting,
        ),
        !occurs_in("Pairing approved"@, line) && !occurs_in("Pairing pending"@, line)
            && !occurs_in("Waiting for admin approval"@, line) && !occurs_in("Reconnecting"@, line)
            && !occurs_in("Heartbeat timeout"@, line) ==> line_signal(line) == if occurs_in(
            "Sent pairing request"@,
            line,
        ) {
            Some(LogSignal::PairingSent)
        } else {
            None
        },
{
}

/// `s` cut at each newline: one piece more than there are newlines.
pub open spec fn split_lines(s: Seq<char>) -> Seq<Seq<char>>
    decreases s.len(),
{
    if s.len() == 0 {
        seq![Seq::<char>::empty()]
    } else if s.last() == '\n' {
        split_lines(s.drop_last()).push(Seq::<char>::empty())
    } else {
        let p = split_lines(s.drop_last());
        p.update(p.len() - 1, p.last().push(s.last()))
    }
}

/// The lines of `s` as `str::lines` gives them, except that a carriage
/// return before a newline stays in its line (no signal text holds one, so
/// the signals read are the same).
pub open spec fn lines_of(s: Seq<char>) -> Seq<Seq<char>> {
    let p = split_lines(s);
    if p.last().len() == 0 {
        p.drop_last()
    } else {
        p
    }
}

proof fn lemma_split_lines_nonempty(s: Seq<char>)
    ensures
        split_lines(s).len() >= 1,
    decreases s.len(),
{
    if s.len() > 0 {
        lemma_split_lines_nonempty(s.drop_last());
    }
}

/// The first signal among `lines`, read from the first.
pub open spec fn first_signal(lines: Seq<Seq<char>>) -> Option<LogSignal>
    decreases lines.len(),
{
    if lines.len() == 0 {
        None
    } else if line_signal(lines[0]) is Some {
        line_signal(lines[0])
    } else {
        first_signal(lines.drop_first())
    }
}

/// How many lines from the end of the log are read.
pub const LOG_SCAN_LINES: usize = 200;

/// The most recent signal among the last 200 lines of the log.
pub open spec fn latest_log_signal(log: Seq<char>) -> Option<LogSignal> {
    let ls = lines_of(log);
    first_signal(ls.reverse().take(if ls.len() < 200 { ls.len() as int } else { 200 }))
}

proof fn lemma_first_signal_step(ls: Seq<Seq<char>>, k: int)
    requires
        0 <= k < ls.len(),
        forall|j: int| 0 <= j < k ==> line_signal(#[trigger] ls[j]) is None,
    ensures
        first_signal(ls) == first_signal(ls.subrange(k, ls.len() as int)),
    decreases k,
{
    if k > 0 {
        assert(ls.drop_first().subrange(k - 1, ls.drop_first().len() as int) =~= ls.subrange(
            k,
            ls.len() as int,
        ));
        assert forall|j: int| 0 <= j < k - 1 implies line_signal(#[trigger] ls.drop_first()[j])
            is None by {
            assert(ls.drop_first()[j] == ls[j + 1]);
        }
        lemma_first_signal_step(ls.drop_first(), k - 1);
        assert(line_signal(ls[0]) is None);
    } else {
        assert(ls.subrange(0, ls.len() as int) =~= ls);
    }
}

proof fn lemma_first_signal_none(ls: Seq<Seq<char>>)
    requires
        forall|j: int| 0 <= j < ls.len() ==> line_signal(#[trigger] ls[j]) is None,
    ensures
        first_signal(ls) is None,
    decreases ls.len(),
{
    if ls.len() > 0 {
        assert forall|j: int| 0 <= j < ls.len() - 1 implies line_signal(
            #[trigger] ls.drop_first()[j],
        ) is None by {
            assert(ls.drop_first()[j] == ls[j + 1]);
        }
        lemma_first_signal_none(ls.drop_first());
    }
}

/// Cuts `log` into its lines.
fn log_lines(log: &str) -> (r: Vec<Vec<char>>)
    ensures
        r@.len() == lines_of(log@).len(),
        forall|i: int| 0 <= i < r@.len() ==> #[trigger] r@[i]@ == lines_of(log@)[i],
{
    let cs = chars_of(log);
    let n = cs.len();
    let mut pieces: Vec<Vec<char>> = Vec::new();
    pieces.push(Vec::new());
    let mut i: usize = 0;
    assert(log@.subrange(0, 0) =~= Seq::<char>::empty());
    while i < n
        invariant
            cs@ == log@,
            n == cs@.len(),
            0 <= i <= n,
            pieces@.len() == split_lines(log@.subrange(0, i as int)).len(),
            forall|k: int|
                0 <= k < pieces@.len() ==> #[trigger] pieces@[k]@ == split_lines(
                    log@.subrange(0, i as int),
                )[k],
        decreases n - i,
    {
        let ghost pre = log@.subrange(0, i as int);
        let ghost next = log@.subrange(0, i + 1);
        assert(next.drop_last() =~= pre);
        assert(next.last() == cs@[i as int]);
        proof {
            lemma_split_lines_nonempty(pre);
        }
        let c = cs[i];
        if c == '\n' {
            pieces.push(Vec::new());
        } else {
            let mut last = pieces.pop().unwrap();
            last.push(c);
            pieces.push(last);
        }
        i = i + 1;
    }
    assert(log@.subrange(0, n as int) =~= log@);
    proof {
        lemma_split_lines_nonempty(log@);
    }
    let last_empty = pieces[pieces.len() - 1].len() == 0;
    if last_empty {
        pieces.pop();
    }
    pieces
}

/// The most recent signal in the daemon's log: its lines are read from the
/// last one back, at most 200 of them, and the first that carries a signal
/// decides.
pub fn latest_signal_in_log(log: &str) -> (r: Option<LogSignal>)
    ensures
        r == latest_log_signal(log@),
{
    let lines = log_lines(log);
    let ghost ls = lines_of(log@);
    let n = lines.len();
    let limit: usize = if n < LOG_SCAN_LINES {
        n
    } else {
        LOG_SCAN_LINES
    };
    let ghost window = ls.reverse().take(limit as int);
    assert forall|j: int| 0 <= j < limit implies #[trigger] window[j] == ls[n - 1 - j] by {}
    let mut k: usize = 0;
    while k < limit
        invariant
            0 <= k <= limit <= n,
            limit == (if n < 200 { n } else { 200 }),
            ls == lines_of(log@),
            n == ls.len(),
            lines@.len() == n,
            forall|i: int| 0 <= i < n ==> #[trigger] lines@[i]@ == ls[i],
            window == ls.reverse().take(limit as int),
            window.len() == limit,
            forall|j: int| 0 <= j < limit ==> #[trigger] window[j] == ls[n - 1 - j],
            forall|j: int| 0 <= j < k ==> line_signal(#[trigger] window[j]) is None,
        decreases limit - k,
    {
        let s = log_line_signal(&lines[n - 1 - k]);
        assert(lines@[n - 1 - k]@ == window[k as int]);
        if s.is_some() {
            proof {
                lemma_first_signal_step(window, k as int);
                let rest = window.subrange(k as int, limit as int);
                assert(rest[0] == window[k as int]);
                assert(line_signal(rest[0]) is Some);
                assert(first_signal(rest) == line_signal(rest[0]));
                assert(latest_log_signal(log@) == first_signal(window));
            }
            return s;
        }
        k = k + 1;
    }
    proof {
        lemma_first_signal_none(window);
    }
    None
}

/// The last line of the log decides when it carries a signal.
pub proof fn lemma_last_line_decides(log: Seq<char>)
    ensures
        lines_of(log).len() > 0 && line_signal(lines_of(log).last()) is Some ==> latest_log_signal(
            log,
        ) == line_signal(lines_of(log).last()),
{
    let ls = lines_of(log);
    if ls.len() > 0 && line_signal(ls.last()) is Some {
        let limit: int = if ls.len() < 200 { ls.len() as int } else { 200 };
        let w = ls.reverse().take(limit);
        assert(w[0] == ls.last());
        assert(w.len() > 0);
    }
}

/// What the log monitor shows next: from the signal found, whether the
/// daemon was seen connected, and the status shown, the new pair of them.
pub open spec fn after_log_signal(
    signal: Option<LogSignal>,
    connected: bool,
    status: ConnectionStatus,
) -> (bool, ConnectionStatus) {
    match signal {
        Some(LogSignal::Approved) => if !connected {
            (true, ConnectionStatus::Connected)
        } else {
            (connected, status)
        },
        Some(LogSignal::Pending) | Some(LogSignal::Reconnecting) => if connected {
            (false, ConnectionStatus::Connecting)
        } else {
            (connected, status)
        },
        Some(LogSignal::PairingSent) => if !connected && status != ConnectionStatus::Connected {
            (connected, ConnectionStatus::Connecting)
        } else {
            (connected, status)
        },
        None => (connected, status),
    }
}

/// Applies the signal found in the log to the monitor's state.
pub fn apply_log_signal(
    signal: Option<LogSignal>,
    connected: &mut bool,
    status: &mut ConnectionStatus,
)
    ensures
        (*final(connected), *final(status)) == after_log_signal(signal, *old(connected), *old(status)),
{
    match signal {
        Some(LogSignal::Approved) => {
            if !*connected {
                *connected = true;
                *status = ConnectionStatus::Connected;
            }
        },
        Some(LogSignal::Pending) | Some(LogSignal::Reconnecting) => {
            if *connected {
                *connected = false;
                *status = ConnectionStatus::Connecting;
            }
        },
        Some(LogSignal::PairingSent) => {
            if !*connected && *status != ConnectionStatus::Connected {
                *status = ConnectionStatus::Connecting;
            }
        },
        None => {},
    }
}

} // verus!
