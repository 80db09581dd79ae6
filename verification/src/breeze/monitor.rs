//! Monitor mode (`--fd`): the generator watches a pipe from its parent and
//! the theme directories, regenerates the theme when either stirs, and
//! notifies the parent with one byte after each regeneration. The caller
//! polls, reads, writes and looks at modification times; the decisions
//! taken on what it saw are made here.

use vstd::prelude::*;

verus! {

/// How long one poll of the pipe waits, in milliseconds, before the theme
/// directories are looked at.
pub const POLL_INTERVAL_MS: i32 = 500;

/// How long to wait, in milliseconds, before polling again after a failed
/// poll.
pub const POLL_RETRY_MS: u64 = 50;

/// How many bytes one read of the pipe asks for while draining it.
pub const DRAIN_CHUNK: usize = 16;

/// What the watcher saw during one round of waiting.
#[derive(Debug, Clone, Copy, PartialEq, Eq, Structural)]
pub enum MonitorEvent {
    /// The poll itself failed.
    PollFailed,
    /// The pipe was readable, hung up or in error; it was drained and
    /// `eof` tells whether the parent has closed it.
    PipeActivity { eof: bool },
    /// The poll timed out with no pipe activity; `theme_changed` tells
    /// whether a theme directory's modification time moved since the last
    /// regeneration.
    Waited { theme_changed: bool },
}

/// What the watcher does next.
#[derive(Debug, Clone, Copy, PartialEq, Eq, Structural)]
pub enum MonitorAction {
    /// Sleep for `after_ms` milliseconds, then poll again.
    Retry { after_ms: u64 },
    /// The parent is gone: stop.
    Quit,
    /// Regenerate the theme, then notify the parent with one byte, then
    /// wait again.
    Regenerate,
    /// Poll again.
    KeepWaiting,
}

/// Decide what follows one round of waiting.
pub fn monitor_step(e: MonitorEvent) -> (a: MonitorAction)
    ensures
        a == monitor_outcome(e),
        e is PollFailed ==> a == (MonitorAction::Retry { after_ms: 50 }),
        e matches MonitorEvent::PipeActivity { eof } ==> a == (if eof { MonitorAction::Quit } else { MonitorAction::Regenerate }),
        e matches MonitorEvent::Waited { theme_changed } ==> a == (if theme_changed { MonitorAction::Regenerate } else { MonitorAction::KeepWaiting }),
{
    match e {
        MonitorEvent::PollFailed => MonitorAction::Retry { after_ms: POLL_RETRY_MS },
        MonitorEvent::PipeActivity { eof } => {
            if eof {
                MonitorAction::Quit
            } else {
                MonitorAction::Regenerate
            }
        },
        MonitorEvent::Waited { theme_changed } => {
            if theme_changed {
                MonitorAction::Regenerate
            } else {
                MonitorAction::KeepWaiting
            }
        },
    }
}

/// What one read of the pipe gave.
#[derive(Debug, Clone, Copy, PartialEq, Eq, Structural)]
pub enum ReadOutcome {
    /// `count` bytes (at least one) came into a buffer of `capacity` bytes.
    Data { count: usize, capacity: usize },
    /// The read gave zero bytes: the writer closed the pipe.
    EndOfFile,
    /// Nothing more to read for now.
    WouldBlock,
    /// Any other read error.
    Failed,
}

/// What draining the pipe does after one read.
#[derive(Debug, Clone, Copy, PartialEq, Eq, Structural)]
pub enum DrainAction {
    /// The buffer came back full: more may be waiting, read again.
    ReadAgain,
    /// The pipe is drained and still open.
    StillOpen,
    /// The pipe is closed (end of file or a read error).
    Closed,
}

/// Decide what follows one read while draining the pipe.
pub fn drain_step(r: ReadOutcome) -> (a: DrainAction)
    ensures
        (r is EndOfFile || r is Failed) ==> a == DrainAction::Closed,
        r is WouldBlock ==> a == DrainAction::StillOpen,
        r matches ReadOutcome::Data { count, capacity } ==> a == (if count < capacity { DrainAction::StillOpen } else { DrainAction::ReadAgain }),
{
    match r {
        ReadOutcome::Data { count, capacity } => {
            if count < capacity {
                DrainAction::StillOpen
            } else {
                DrainAction::ReadAgain
            }
        },
        ReadOutcome::EndOfFile => DrainAction::Closed,
        ReadOutcome::WouldBlock => DrainAction::StillOpen,
        ReadOutcome::Failed => DrainAction::Closed,
    }
}

/// A round of waiting ends (the watcher stops polling and acts) exactly when
/// something happened: the pipe stirred or the theme changed. Only a quiet
/// timeout keeps it waiting, and only a failed poll makes it sleep first.
pub proof fn lemma_waiting_ends_on_activity(e: MonitorEvent)
    ensures
        (monitor_outcome(e) is KeepWaiting) <==> (e matches MonitorEvent::Waited { theme_changed } && !theme_changed),
        (monitor_outcome(e) is Retry) <==> (e is PollFailed),
        (monitor_outcome(e) is Quit) <==> (e matches MonitorEvent::PipeActivity { eof } && eof),
{
}

/// The action that [`monitor_step`] takes on an event.
pub open spec fn monitor_outcome(e: MonitorEvent) -> MonitorAction {
    match e {
        MonitorEvent::PollFailed => MonitorAction::Retry { after_ms: 50 },
        MonitorEvent::PipeActivity { eof } => if eof {
            MonitorAction::Quit
        } else {
            MonitorAction::Regenerate
        },
        MonitorEvent::Waited { theme_changed } => if theme_changed {
            MonitorAction::Regenerate
        } else {
            MonitorAction::KeepWaiting
        },
    }
}

} // verus!
