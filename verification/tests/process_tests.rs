use osh_tools::daemon_logic::CmdEvent;
use osh_tools::process_logic::{
    after_eof_pause, after_limit_check, after_read, command_events, reader_continues,
    waited_exit_code, windows_pty_preamble, CommandOutput, EofStep, ReadOutcome, ReaderAction,
    ReaderState,
};
use osh_tools::process_table::ProcessTable;

#[test]
fn table_put_get_replace_remove() {
    let mut t: ProcessTable<u32> = ProcessTable::new();
    assert_eq!(t.len(), 0);
    t.insert("r1".to_string(), 1);
    t.insert("r2".to_string(), 2);
    assert_eq!(t.len(), 2);
    assert_eq!(t.get("r1"), Some(&1));
    assert!(t.contains_key("r2"));
    assert!(!t.contains_key("r3"));
    // putting under an existing id replaces
    t.insert("r1".to_string(), 10);
    assert_eq!(t.len(), 2);
    assert_eq!(t.get("r1"), Some(&10));
    if let Some(p) = t.get_mut("r2") {
        *p = 20;
    }
    assert_eq!(t.get("r2"), Some(&20));
    assert!(t.get_mut("zz").is_none());
    assert_eq!(t.remove("r1"), Some(10));
    assert_eq!(t.remove("r1"), None);
    assert!(t.get("r1").is_none());
    assert_eq!(t.len(), 1);
}

#[test]
fn table_drain_empties() {
    let mut t: ProcessTable<&'static str> = ProcessTable::new();
    t.insert("a".to_string(), "x");
    t.insert("b".to_string(), "y");
    let (ids, procs) = t.drain();
    assert_eq!(ids, vec!["a".to_string(), "b".to_string()]);
    assert_eq!(procs, vec!["x", "y"]);
    assert_eq!(t.len(), 0);
    assert!(!t.contains_key("a"));
}

#[test]
fn reader_forwards_and_pauses() {
    let mut s = ReaderState { errors: 3 };
    assert_eq!(after_read(&mut s, ReadOutcome::Bytes), ReaderAction::Forward);
    assert_eq!(s.errors, 0);
    assert_eq!(after_read(&mut s, ReadOutcome::WouldBlock), ReaderAction::Pause { ms: 10 });
    assert_eq!(after_read(&mut s, ReadOutcome::Eof), ReaderAction::PauseThenCheck { ms: 50 });
    assert_eq!(after_read(&mut s, ReadOutcome::PipeClosed), ReaderAction::AwaitExitThenStop);
    assert!(reader_continues(false, true));
    assert!(!reader_continues(true, true));
    assert!(!reader_continues(false, false));
}

#[test]
fn reader_gives_up_after_five_failures() {
    let mut s = ReaderState { errors: 0 };
    for _ in 0..4 {
        assert_eq!(after_read(&mut s, ReadOutcome::Failed), ReaderAction::Pause { ms: 50 });
    }
    assert_eq!(after_read(&mut s, ReadOutcome::Failed), ReaderAction::AwaitExitThenStop);
    assert_eq!(s.errors, 5);
}

#[test]
fn reader_rechecks_after_twenty_empty_reads() {
    let mut s = ReaderState { errors: 0 };
    for k in 1..20 {
        assert_eq!(after_eof_pause(&mut s, false), EofStep::Continue);
        assert_eq!(s.errors, k);
    }
    assert_eq!(after_eof_pause(&mut s, false), EofStep::CheckLimit);
    assert!(!after_limit_check(&mut s, false));
    assert_eq!(s.errors, 0);
    assert_eq!(after_eof_pause(&mut s, true), EofStep::Stop);
    assert!(after_limit_check(&mut s, true));
}

#[test]
fn exit_codes() {
    assert_eq!(waited_exit_code(Some(3)), 3);
    assert_eq!(waited_exit_code(Some(u32::MAX)), -1);
    assert_eq!(waited_exit_code(None), 0);
}

#[test]
fn plain_command_events() {
    let out = CommandOutput { stdout: b"out".to_vec(), stderr: b"err".to_vec(), code: Some(2) };
    let ev = command_events("r".to_string(), Ok(out));
    assert_eq!(ev.len(), 3);
    match &ev[0] {
        CmdEvent::Data { req_id, data } => {
            assert_eq!(req_id, "r");
            assert_eq!(data, b"err");
        }
        other => panic!("unexpected {:?}", other),
    }
    match &ev[1] {
        CmdEvent::Data { data, .. } => assert_eq!(data, b"out"),
        other => panic!("unexpected {:?}", other),
    }
    assert!(matches!(&ev[2], CmdEvent::Exit { exit_code: 2, .. }));

    let quiet = CommandOutput { stdout: vec![], stderr: vec![], code: None };
    let ev = command_events("r".to_string(), Ok(quiet));
    assert_eq!(ev.len(), 1);
    assert!(matches!(&ev[0], CmdEvent::Exit { exit_code: -1, .. }));

    let ev = command_events("r".to_string(), Err("Failed to execute command".to_string()));
    match &ev[..] {
        [CmdEvent::Error { req_id, error }] => {
            assert_eq!(req_id, "r");
            assert_eq!(error, "Failed to execute command");
        }
        other => panic!("unexpected {:?}", other),
    }
}

#[test]
fn pty_preamble_bytes() {
    assert_eq!(windows_pty_preamble(), b"\x1b[?9001l\x1b[?1004l".to_vec());
}
