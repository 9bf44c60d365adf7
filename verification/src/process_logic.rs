//! How the daemon follows its processes: when the thread reading a PTY's
//! output goes on, pauses or stops; the exit code reported for a PTY
//! process; and the events sent for a command run without a PTY.

use vstd::prelude::*;
use crate::daemon_logic::CmdEvent;

verus! {

/// What one read from a PTY gave.
#[derive(Debug, Clone, Copy, PartialEq, Eq, Structural)]
pub enum ReadOutcome {
    /// Some bytes (at least one).
    Bytes,
    /// End of file (a read of zero bytes).
    Eof,
    /// The read would block.
    WouldBlock,
    /// The pipe was closed because the process ended (Windows error 109).
    PipeClosed,
    /// Any other error.
    Failed,
}

/// What the reader thread does next.
#[derive(Debug, Clone, Copy, PartialEq, Eq, Structural)]
pub enum ReaderAction {
    /// Send the bytes read, then read again.
    Forward,
    /// Sleep this many milliseconds, then read again.
    Pause { ms: u64 },
    /// Sleep this many milliseconds, then look at the exit flag
    /// (`after_eof_pause`).
    PauseThenCheck { ms: u64 },
    /// Wait for the process to be marked exited (at most 20 times 50 ms),
    /// then stop.
    AwaitExitThenStop,
    /// Stop reading.
    Stop,
}

/// The reader's count of consecutive empty or failed reads.
#[derive(Debug, Clone, Copy, PartialEq, Eq, Structural)]
pub struct ReaderState {
    pub errors: u32,
}

/// Empty reads after which the reader looks at the exit flag once more.
pub const EOF_LIMIT: u32 = 20;

/// Failed reads after which the reader gives up.
pub const ERROR_LIMIT: u32 = 5;

/// Whether the reader goes on to read: the process is not marked exited and
/// is still in the table.
pub fn reader_continues(exited: bool, registered: bool) -> (r: bool)
    ensures
        r == (!exited && registered),
{
    !exited && registered
}

/// Decides what follows a read.
pub fn after_read(state: &mut ReaderState, outcome: ReadOutcome) -> (r: ReaderAction)
    requires
        old(state).errors < EOF_LIMIT,
    ensures
        match outcome {
            ReadOutcome::Bytes => r == ReaderAction::Forward && final(state).errors == 0,
            ReadOutcome::Eof => r == (ReaderAction::PauseThenCheck { ms: 50 }) && *final(state)
                == *old(state),
            ReadOutcome::WouldBlock => r == (ReaderAction::Pause { ms: 10 }) && *final(state)
                == *old(state),
            ReadOutcome::PipeClosed => r == ReaderAction::AwaitExitThenStop && *final(state)
                == *old(state),
            ReadOutcome::Failed => final(state).errors == old(state).errors + 1 && if old(
                state,
            ).errors + 1 >= ERROR_LIMIT {
                r == ReaderAction::AwaitExitThenStop
            } else {
                r == (ReaderAction::Pause { ms: 50 })
            },
        },
        r != ReaderAction::Stop && r != ReaderAction::AwaitExitThenStop ==> final(state).errors
            < EOF_LIMIT,
{
    match outcome {
        ReadOutcome::Bytes => {
            state.errors = 0;
            ReaderAction::Forward
        },
        ReadOutcome::Eof => ReaderAction::PauseThenCheck { ms: 50 },
        ReadOutcome::WouldBlock => ReaderAction::Pause { ms: 10 },
        ReadOutcome::PipeClosed => ReaderAction::AwaitExitThenStop,
        ReadOutcome::Failed => {
            state.errors = state.errors + 1;
            if state.errors >= ERROR_LIMIT {
                ReaderAction::AwaitExitThenStop
            } else {
                ReaderAction::Pause { ms: 50 }
            }
        },
    }
}

/// What follows the pause after an empty read.
#[derive(Debug, Clone, Copy, PartialEq, Eq, Structural)]
pub enum EofStep {
    /// The process is marked exited: stop.
    Stop,
    /// Read again.
    Continue,
    /// Twenty empty reads in a row: look at the exit flag once more
    /// (`after_limit_check`).
    CheckLimit,
}

/// Decides, after the pause that follows an empty read, from the exit flag.
pub fn after_eof_pause(state: &mut ReaderState, exited: bool) -> (r: EofStep)
    requires
        old(state).errors < EOF_LIMIT,
    ensures
        exited ==> r == EofStep::Stop && *final(state) == *old(state),
        !exited ==> final(state).errors == old(state).errors + 1 && if old(state).errors + 1
            >= EOF_LIMIT {
            r == EofStep::CheckLimit
        } else {
            r == EofStep::Continue
        },
        r == EofStep::Continue ==> final(state).errors < EOF_LIMIT,
{
    if exited {
        return EofStep::Stop;
    }
    state.errors = state.errors + 1;
    if state.errors >= EOF_LIMIT {
        EofStep::CheckLimit
    } else {
        EofStep::Continue
    }
}

/// Decides, at the limit of empty reads, from the exit flag: stop if the
/// process is marked exited, else start counting again. Gives whether to
/// stop.
pub fn after_limit_check(state: &mut ReaderState, exited: bool) -> (stop: bool)
    ensures
        stop == exited,
        exited ==> *final(state) == *old(state),
        !exited ==> final(state).errors == 0,
{
    if exited {
        return true;
    }
    state.errors = 0;
    false
}

/// The exit code reported when a PTY process ends: its exit status as a
/// signed number, or 0 when waiting for it failed.
pub fn waited_exit_code(status: Option<u32>) -> (r: i32)
    ensures
        match status {
            Some(c) => r == c as i32,
            None => r == 0,
        },
{
    match status {
        Some(c) => c as i32,
        None => 0,
    }
}

/// What running a command without a PTY gave: its standard output and
/// error, and its exit code (none when it was ended by a signal).
#[derive(Debug)]
pub struct CommandOutput {
    pub stdout: Vec<u8>,
    pub stderr: Vec<u8>,
    pub code: Option<i32>,
}

/// The events sent for a command run without a PTY: its standard error,
/// then its standard output (each only when not empty), then its exit (-1
/// for no exit code); or the error that kept it from running.
pub fn command_events(req_id: String, outcome: Result<CommandOutput, String>) -> (r: Vec<CmdEvent>)
    ensures
        match outcome {
            Err(e) => r@.len() == 1 && r@[0] == (CmdEvent::Error { req_id, error: e }),
            Ok(out) => {
                let code = match out.code {
                    Some(c) => c,
                    None => -1i32,
                };
                let first: Seq<CmdEvent> = if out.stderr@.len() > 0 {
                    seq![CmdEvent::Data { req_id, data: out.stderr }]
                } else {
                    Seq::empty()
                };
                let second: Seq<CmdEvent> = if out.stdout@.len() > 0 {
                    seq![CmdEvent::Data { req_id, data: out.stdout }]
                } else {
                    Seq::empty()
                };
                r@ == first + second + seq![CmdEvent::Exit { req_id, exit_code: code }]
            },
        },
{
    let mut events: Vec<CmdEvent> = Vec::new();
    match outcome {
        Err(e) => {
            events.push(CmdEvent::Error { req_id, error: e });
        },
        Ok(out) => {
            let code = match out.code {
                Some(c) => c,
                None => -1,
            };
            let ghost first: Seq<CmdEvent> = if out.stderr@.len() > 0 {
                seq![CmdEvent::Data { req_id, data: out.stderr }]
            } else {
                Seq::empty()
            };
            let ghost second: Seq<CmdEvent> = if out.stdout@.len() > 0 {
                seq![CmdEvent::Data { req_id, data: out.stdout }]
            } else {
                Seq::empty()
            };
            if out.stderr.len() > 0 {
                events.push(CmdEvent::Data { req_id: req_id.clone(), data: out.stderr });
            }
            assert(events@ =~= first);
            if out.stdout.len() > 0 {
                events.push(CmdEvent::Data { req_id: req_id.clone(), data: out.stdout });
            }
            assert(events@ =~= first + second);
            events.push(CmdEvent::Exit { req_id, exit_code: code });
            assert(events@ =~= first + second + seq![CmdEvent::Exit { req_id, exit_code: code }]);
        },
    }
    events
}

/// The bytes written to a new PTY on Windows to switch off the Win32 input
/// mode and focus reporting that PowerShell turns on.
pub fn windows_pty_preamble() -> (r: Vec<u8>)
    ensures
        r@ == seq![
            0x1bu8, 0x5b, 0x3f, 0x39, 0x30, 0x30, 0x31, 0x6c,
            0x1b, 0x5b, 0x3f, 0x31, 0x30, 0x30, 0x34, 0x6c,
        ],
{
    let mut r: Vec<u8> = Vec::new();
    r.push(0x1b);
    r.push(0x5b);
    r.push(0x3f);
    r.push(0x39);
    r.push(0x30);
    r.push(0x30);
    r.push(0x31);
    r.push(0x6c);
    r.push(0x1b);
    r.push(0x5b);
    r.push(0x3f);
    r.push(0x31);
    r.push(0x30);
    r.push(0x30);
    r.push(0x34);
    r.push(0x6c);
    assert(r@ =~= seq![
        0x1bu8, 0x5b, 0x3f, 0x39, 0x30, 0x30, 0x31, 0x6c,
        0x1b, 0x5b, 0x3f, 0x31, 0x30, 0x30, 0x34, 0x6c,
    ]);
    r
}

} // verus!
