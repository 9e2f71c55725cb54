use vstd::prelude::*;

use core::sync::atomic::AtomicBool;
use core::sync::atomic::Ordering;
use tokio::sync::mpsc;
use tokio::sync::oneshot;
use tokio::sync::Notify;

verus! {

#[verifier::external_type_specification]
#[verifier::external_body]
#[verifier::reject_recursive_types(T)]
pub struct ExSender<T>(mpsc::Sender<T>);

#[verifier::external_type_specification]
#[verifier::external_body]
#[verifier::reject_recursive_types(T)]
pub struct ExReceiver<T>(mpsc::Receiver<T>);

#[verifier::external_type_specification]
#[verifier::external_body]
#[verifier::reject_recursive_types(T)]
pub struct ExOneshotSender<T>(oneshot::Sender<T>);

#[verifier::external_type_specification]
#[verifier::external_body]
pub struct ExNotify(Notify);

/// One subscriber sink: a bounded sender of updates, fed without waiting.
#[verifier::reject_recursive_types(T)]
pub struct Watch<T>(pub mpsc::Sender<T>);

impl<T: Clone> Watch<T> {
    /// Relies on tokio's mpsc::Sender::try_reserve and Permit::send: when
    /// the channel is open and has a free slot, the slot is reserved without
    /// waiting and a clone of the update is sent on it. The outcome depends
    /// on the channel's momentary state, so nothing is promised beyond the
    /// returned success.
    #[verifier::external_body]
    pub fn update(&self, update: &T) -> bool {
        if let Ok(reserve) = self.0.try_reserve() {
            reserve.send(update.clone());
            true
        } else {
            false
        }
    }
}

/// What a non-blocking receive found.
pub enum RecvOutcome<T> {
    Item(T),
    Empty,
    Closed,
}

/// Relies on tokio's mpsc::Receiver::try_recv: yields a queued value
/// without waiting, or reports the channel momentarily empty, or closed and
/// fully drained.
#[verifier::external_body]
pub fn try_recv<T>(rx: &mut mpsc::Receiver<T>) -> RecvOutcome<T> {
    match rx.try_recv() {
        Ok(v) => RecvOutcome::Item(v),
        Err(mpsc::error::TryRecvError::Empty) => RecvOutcome::Empty,
        Err(mpsc::error::TryRecvError::Disconnected) => RecvOutcome::Closed,
    }
}

/// The largest capacity a bounded channel may be asked for: tokio's
/// semaphore reserves the top three bits of its permit counter.
pub const MAX_CHANNEL_CAPACITY: usize = usize::MAX >> 3;

/// Relies on tokio's mpsc::channel: a bounded channel of the given
/// capacity. tokio asserts that the capacity is positive and no larger
/// than its semaphore's permit limit, so the bounds stand in `requires`.
#[verifier::external_body]
pub fn bounded_channel<T>(buffer: usize) -> (mpsc::Sender<T>, mpsc::Receiver<T>)
    requires
        1 <= buffer <= MAX_CHANNEL_CAPACITY,
{
    mpsc::channel(buffer)
}

/// Relies on tokio's oneshot::Sender::send: hands the value to the
/// receiving half; whether anyone was still listening is returned.
#[verifier::external_body]
pub fn oneshot_send<T>(tx: oneshot::Sender<T>, value: T) -> bool {
    tx.send(value).is_ok()
}

/// A request to stream one task's details: the receiver half of a fresh
/// channel of capacity `buffer` is handed back through `stream_sender`.
#[verifier::reject_recursive_types(T)]
pub struct WatchRequest<T> {
    pub id: u64,
    pub stream_sender: oneshot::Sender<mpsc::Receiver<T>>,
    pub buffer: usize,
}

/// Relies on std's AtomicBool::compare_exchange: atomically sets the bit
/// when it was clear; says whether this call was the one that set it. The
/// bit is shared, so the outcome depends on concurrent callers.
#[verifier::external_body]
fn cas_set(b: &AtomicBool) -> bool {
    b.compare_exchange(false, true, Ordering::AcqRel, Ordering::Acquire).is_ok()
}

/// Relies on std's AtomicBool::store: clears the bit.
#[verifier::external_body]
fn clear_bit(b: &AtomicBool) {
    b.store(false, Ordering::Release);
}

/// Relies on tokio's Notify::new: a notifier holding no stored permit.
#[verifier::external_body]
fn notify_new() -> Notify {
    Notify::new()
}

/// Relies on tokio's Notify::notify_one: stores at most one permit and
/// wakes one waiter.
#[verifier::external_body]
fn notify_one(n: &Notify) {
    n.notify_one();
}

/// Edge-triggered flush signal shared between event producers and the
/// aggregator: an atomic bit collapses concurrent triggers into a single
/// notification.
pub struct Flush {
    pub should_flush: Notify,
    pub triggered: AtomicBool,
}

impl Flush {
    pub fn new() -> Flush {
        Flush { should_flush: notify_new(), triggered: AtomicBool::new(false) }
    }

    /// Raise the flush signal: the first trigger since the last clear
    /// notifies the aggregator once; concurrent losers return silently.
    pub fn trigger(&self) {
        if cas_set(&self.triggered) {
            notify_one(&self.should_flush);
        }
    }

    /// The aggregator clears the bit upon receiving the notification.
    pub fn clear(&self) {
        clear_bit(&self.triggered);
    }

    /// The notifier the aggregator's loop waits on.
    pub fn notifier(&self) -> &Notify {
        &self.should_flush
    }
}

} // verus!
