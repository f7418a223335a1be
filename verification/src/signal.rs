//! Stop signals: flags that one thread sets and others watch.
//!
//! A collector holds one signal for its whole life, which asks it to give up
//! the runs that are left. Each run has a signal of its own, which the
//! watcher of the target process sets when the run is over. The two are
//! separate objects, so that ending a run never cancels the runs after it.

use vstd::prelude::*;
use std::sync::atomic::AtomicBool;
use std::sync::atomic::Ordering;

verus! {

/// A flag that starts clear and can be set from any thread.
///
/// What a reader sees depends on what other threads have done, so the
/// contracts here promise nothing of the value read: the rules that act on
/// it take it as an argument and hold for either value.
pub struct StopSignal {
    flag: AtomicBool,
}

impl StopSignal {
    /// A signal that is clear.
    pub fn new() -> (signal: Self) {
        StopSignal { flag: AtomicBool::new(false) }
    }

    /// Sets the signal. It is never cleared again.
    pub fn set(&self) {
        self.flag.store(true, Ordering::Relaxed);
    }

    /// Whether the signal has been seen set.
    pub fn is_set(&self) -> (seen: bool) {
        self.flag.load(Ordering::Relaxed)
    }
}

} // verus!
