//! The watcher of the target process: it decides when a run is over.
//!
//! The watcher's driver owns the process. It asks `watch_step` what to do
//! with what it has seen of the collector's stop signal and of the process.
//! When told to finish, it asks `cleanup_after` for what is left to do, step
//! by step: capture the process's output, kill the process if it still
//! runs, and set the run's stop signal for the other probes.

use vstd::prelude::*;

verus! {

/// How long the watcher waits between two looks at the process, in
/// milliseconds.
pub const WATCH_INTERVAL_MS: u64 = 1000;

/// What the watcher does next.
#[derive(Clone, Copy, Debug, PartialEq, Eq, Structural)]
pub enum WatchStep {
    /// Sleep for this long, then look again.
    Wait { millis: u64 },
    /// The run is over.
    Finish,
}

/// The watcher's next step: the run is over once the collector has been
/// asked to stop or the process has exited.
pub open spec fn next_watch_step(cancelled: bool, exited: bool) -> WatchStep {
    if cancelled || exited {
        WatchStep::Finish
    } else {
        WatchStep::Wait { millis: WATCH_INTERVAL_MS }
    }
}

/// Decides the watcher's next step. `cancelled` says whether the
/// collector's stop signal was seen set, `exited` whether the process was
/// found to have exited.
pub fn watch_step(cancelled: bool, exited: bool) -> (step: WatchStep)
    ensures
        step == next_watch_step(cancelled, exited),
        step == WatchStep::Finish <==> cancelled || exited,
{
    if cancelled || exited {
        WatchStep::Finish
    } else {
        WatchStep::Wait { millis: WATCH_INTERVAL_MS }
    }
}

/// What the watcher does once the run is over.
#[derive(Clone, Copy, Debug, PartialEq, Eq, Structural)]
pub enum Cleanup {
    /// Read what is left in the process's output and error streams.
    Capture,
    /// Terminate the process. That it has exited already is no error.
    Kill,
    /// Set the run's stop signal.
    Signal,
}

/// The steps of the watcher once the run is over, in order: the run's stop
/// signal is set last, after the streams were captured and the process was
/// told to end, and each step is made once.
pub open spec fn cleanup_order() -> Seq<Cleanup> {
    seq![Cleanup::Capture, Cleanup::Kill, Cleanup::Signal]
}

/// The step that follows the step `done`, or the first step where none is
/// done yet; `None` once all are done.
pub open spec fn next_cleanup(done: Option<Cleanup>) -> Option<Cleanup> {
    match done {
        None => Some(Cleanup::Capture),
        Some(Cleanup::Capture) => Some(Cleanup::Kill),
        Some(Cleanup::Kill) => Some(Cleanup::Signal),
        Some(Cleanup::Signal) => None,
    }
}

/// Decides what the watcher does after the step `done`.
pub fn cleanup_after(done: Option<Cleanup>) -> (next: Option<Cleanup>)
    ensures
        next == next_cleanup(done),
{
    match done {
        None => Some(Cleanup::Capture),
        Some(Cleanup::Capture) => Some(Cleanup::Kill),
        Some(Cleanup::Kill) => Some(Cleanup::Signal),
        Some(Cleanup::Signal) => None,
    }
}

/// Taken from the start, the steps come in the order of `cleanup_order`,
/// and none is left after the last.
pub proof fn lemma_cleanup_order()
    ensures
        next_cleanup(None) == Some(cleanup_order()[0]),
        forall|i: int|
            0 <= i < cleanup_order().len() - 1 ==> next_cleanup(Some(#[trigger] cleanup_order()[i]))
                == Some(cleanup_order()[i + 1]),
        next_cleanup(Some(cleanup_order().last())) is None,
{
}

} // verus!
