use enclave_benchmark::signal::StopSignal;
use enclave_benchmark::watcher::{cleanup_after, watch_step, Cleanup, WatchStep};

#[test]
fn watcher_waits_while_the_child_runs() {
    assert_eq!(watch_step(false, false), WatchStep::Wait { millis: 1000 });
}

#[test]
fn watcher_finishes_on_exit_or_cancellation() {
    assert_eq!(watch_step(false, true), WatchStep::Finish);
    assert_eq!(watch_step(true, false), WatchStep::Finish);
    assert_eq!(watch_step(true, true), WatchStep::Finish);
}

#[test]
fn signal_starts_clear_and_stays_set() {
    let signal = StopSignal::new();
    assert!(!signal.is_set());
    signal.set();
    assert!(signal.is_set());
    signal.set();
    assert!(signal.is_set());
}

#[test]
fn signals_are_independent() {
    let run = StopSignal::new();
    let collector = StopSignal::new();
    run.set();
    assert!(run.is_set());
    assert!(!collector.is_set());
}

#[test]
fn cleanup_captures_then_kills_then_signals() {
    let mut steps = Vec::new();
    let mut done = None;
    while let Some(step) = cleanup_after(done) {
        steps.push(step);
        done = Some(step);
    }
    assert_eq!(steps, vec![Cleanup::Capture, Cleanup::Kill, Cleanup::Signal]);
}

#[test]
fn cleanup_single_steps() {
    assert_eq!(cleanup_after(None), Some(Cleanup::Capture));
    assert_eq!(cleanup_after(Some(Cleanup::Capture)), Some(Cleanup::Kill));
    assert_eq!(cleanup_after(Some(Cleanup::Kill)), Some(Cleanup::Signal));
    assert_eq!(cleanup_after(Some(Cleanup::Signal)), None);
}
