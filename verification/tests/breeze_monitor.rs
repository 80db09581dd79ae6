use fcitx_autotheme::breeze::monitor::{
    drain_step, monitor_step, DrainAction, MonitorAction, MonitorEvent, ReadOutcome, DRAIN_CHUNK,
    POLL_INTERVAL_MS, POLL_RETRY_MS,
};

#[test]
fn failed_poll_retries_after_fifty_ms() {
    assert_eq!(monitor_step(MonitorEvent::PollFailed), MonitorAction::Retry { after_ms: 50 });
    assert_eq!(POLL_RETRY_MS, 50);
    assert_eq!(POLL_INTERVAL_MS, 500);
}

#[test]
fn closed_pipe_quits_and_live_pipe_regenerates() {
    assert_eq!(monitor_step(MonitorEvent::PipeActivity { eof: true }), MonitorAction::Quit);
    assert_eq!(monitor_step(MonitorEvent::PipeActivity { eof: false }), MonitorAction::Regenerate);
}

#[test]
fn theme_change_regenerates_and_quiet_keeps_waiting() {
    assert_eq!(monitor_step(MonitorEvent::Waited { theme_changed: true }), MonitorAction::Regenerate);
    assert_eq!(monitor_step(MonitorEvent::Waited { theme_changed: false }), MonitorAction::KeepWaiting);
}

#[test]
fn draining_reads_until_a_short_read() {
    let full = ReadOutcome::Data { count: DRAIN_CHUNK, capacity: DRAIN_CHUNK };
    let short = ReadOutcome::Data { count: 3, capacity: DRAIN_CHUNK };
    assert_eq!(drain_step(full), DrainAction::ReadAgain);
    assert_eq!(drain_step(short), DrainAction::StillOpen);
    assert_eq!(drain_step(ReadOutcome::WouldBlock), DrainAction::StillOpen);
    assert_eq!(drain_step(ReadOutcome::EndOfFile), DrainAction::Closed);
    assert_eq!(drain_step(ReadOutcome::Failed), DrainAction::Closed);
}
