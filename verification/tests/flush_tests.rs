use console_core::channel::Flush;

use futures::FutureExt;

#[test]
fn repeated_triggers_collapse_into_one_notification() {
    let flush = Flush::new();
    let mut i: usize = 0;
    while i < 100 {
        flush.trigger();
        i += 1;
    }
    // Exactly one stored notification is observable.
    assert!(flush.notifier().notified().now_or_never().is_some());
    flush.clear();
    assert!(flush.notifier().notified().now_or_never().is_none());
}

#[test]
fn trigger_fires_again_after_clear() {
    let flush = Flush::new();
    flush.trigger();
    assert!(flush.notifier().notified().now_or_never().is_some());
    flush.clear();
    flush.trigger();
    assert!(flush.notifier().notified().now_or_never().is_some());
}
