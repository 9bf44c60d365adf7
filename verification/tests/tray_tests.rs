use osh_tools::daemon_logic::StatusUpdate;
use osh_tools::tray_status::{
    apply_log_signal, icon_rgba, latest_signal_in_log, pipe_step, status_from_pipe_line,
    status_label, tooltip_text, trim_text, ConnectionStatus, LogSignal, PipeStep,
};

#[test]
fn status_lines_are_read() {
    assert_eq!(status_from_pipe_line("CONNECTED\n"), Some(ConnectionStatus::Connected));
    assert_eq!(status_from_pipe_line("  WAITING\r\n"), Some(ConnectionStatus::Connecting));
    assert_eq!(status_from_pipe_line("RECONNECTING"), Some(ConnectionStatus::Connecting));
    assert_eq!(status_from_pipe_line("AUTH_FAILED\n"), Some(ConnectionStatus::Disconnected));
    assert_eq!(status_from_pipe_line("connected\n"), None);
    assert_eq!(status_from_pipe_line("\n"), None);
}

#[test]
fn every_daemon_status_reads_back() {
    let all = [
        (StatusUpdate::Connecting, ConnectionStatus::Connecting),
        (StatusUpdate::Waiting, ConnectionStatus::Connecting),
        (StatusUpdate::Connected, ConnectionStatus::Connected),
        (StatusUpdate::Reconnecting, ConnectionStatus::Connecting),
        (StatusUpdate::Stopped, ConnectionStatus::Disconnected),
        (StatusUpdate::Rejected, ConnectionStatus::Disconnected),
        (StatusUpdate::AuthFailed, ConnectionStatus::Disconnected),
        (StatusUpdate::LimitExceeded, ConnectionStatus::Disconnected),
    ];
    for (u, s) in all.iter() {
        let line = format!("{}\n", u.wire_text());
        assert_eq!(status_from_pipe_line(&line), Some(*s));
    }
}

#[test]
fn pipe_listener_steps() {
    assert_eq!(pipe_step("STOPPED\n", true), PipeStep::Show(ConnectionStatus::Disconnected));
    assert_eq!(pipe_step("STOPPED\n", false), PipeStep::Exit);
    assert_eq!(pipe_step("garbage\n", false), PipeStep::Skip);
}

#[test]
fn trimming_uses_unicode_whitespace() {
    assert_eq!(trim_text("\u{3000} ab c\u{2029}\t").into_iter().collect::<String>(), "ab c");
    assert_eq!(trim_text("   ").len(), 0);
}

#[test]
fn icon_colors() {
    let red = icon_rgba(ConnectionStatus::Disconnected);
    assert_eq!(red.len(), 16 * 16 * 4);
    assert_eq!(&red[0..4], &[255, 64, 64, 255]);
    let orange = icon_rgba(ConnectionStatus::Connecting);
    assert_eq!(&orange[1020..1024], &[255, 165, 0, 255]);
    let green = icon_rgba(ConnectionStatus::Connected);
    assert!(green.chunks(4).all(|p| p == [100, 200, 100, 255]));
}

#[test]
fn labels() {
    assert_eq!(status_label(ConnectionStatus::Disconnected), "状态: 未连接");
    assert_eq!(status_label(ConnectionStatus::Connecting), "状态: 连接中...");
    assert_eq!(status_label(ConnectionStatus::Connected), "状态: 已连接");
    assert_eq!(tooltip_text(ConnectionStatus::Connected), "OSH Daemon - 已连接");
    assert_eq!(tooltip_text(ConnectionStatus::Disconnected), "OSH Daemon - 未连接");
}

#[test]
fn latest_log_signal_wins() {
    let log = "x Sent pairing request\ny Pairing pending. Waiting for admin approval...\nz Pairing approved! Ready\n";
    assert_eq!(latest_signal_in_log(log), Some(LogSignal::Approved));
    let log = "Pairing approved!\nHeartbeat timeout! No activity\nnoise\r\n";
    assert_eq!(latest_signal_in_log(log), Some(LogSignal::Reconnecting));
    assert_eq!(latest_signal_in_log("nothing here\n"), None);
    assert_eq!(latest_signal_in_log(""), None);
}

#[test]
fn only_the_last_two_hundred_lines_count() {
    let mut log = String::from("Pairing approved\n");
    for _ in 0..200 {
        log.push_str("noise\n");
    }
    assert_eq!(latest_signal_in_log(&log), None);
    let mut log = String::from("Pairing approved\n");
    for _ in 0..199 {
        log.push_str("noise\n");
    }
    assert_eq!(latest_signal_in_log(&log), Some(LogSignal::Approved));
}

#[test]
fn log_signals_move_the_status() {
    let mut connected = false;
    let mut status = ConnectionStatus::Disconnected;
    apply_log_signal(Some(LogSignal::PairingSent), &mut connected, &mut status);
    assert_eq!((connected, status), (false, ConnectionStatus::Connecting));
    apply_log_signal(Some(LogSignal::Approved), &mut connected, &mut status);
    assert_eq!((connected, status), (true, ConnectionStatus::Connected));
    apply_log_signal(Some(LogSignal::PairingSent), &mut connected, &mut status);
    assert_eq!((connected, status), (true, ConnectionStatus::Connected));
    apply_log_signal(Some(LogSignal::Reconnecting), &mut connected, &mut status);
    assert_eq!((connected, status), (false, ConnectionStatus::Connecting));
    apply_log_signal(Some(LogSignal::Pending), &mut connected, &mut status);
    assert_eq!((connected, status), (false, ConnectionStatus::Connecting));
    apply_log_signal(None, &mut connected, &mut status);
    assert_eq!((connected, status), (false, ConnectionStatus::Connecting));
}
