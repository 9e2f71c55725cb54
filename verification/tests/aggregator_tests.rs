use console_core::aggregator::{Aggregator, Command, Temporality};
use console_core::channel::{Watch, WatchRequest};
use console_core::event::{Event, Field, FieldValue, WakeOp};
use console_core::stats::{Stats, TaskUpdate};

use hdrhistogram::serialization::Deserializer;

const MS: u64 = 1_000_000;

fn stats_of(a: &Aggregator, id: u64) -> &Stats {
    a.stats.get(id).expect("task should have statistics")
}

fn new_watcher(capacity: usize) -> (Watch<TaskUpdate>, tokio::sync::mpsc::Receiver<TaskUpdate>) {
    let (tx, rx) = tokio::sync::mpsc::channel(capacity);
    (Watch(tx), rx)
}

fn deserialize_histogram(bytes: &[u8]) -> hdrhistogram::Histogram<u64> {
    let mut cursor = std::io::Cursor::new(bytes);
    Deserializer::new()
        .deserialize(&mut cursor)
        .expect("histogram bytes should deserialize")
}

#[test]
fn spawn_poll_close_publishes_one_task() {
    let t0: u64 = 1_000 * MS;
    let mut a = Aggregator::new(10 * MS, 6_000 * MS);
    let (watch, mut rx) = new_watcher(8);
    a.add_task_subscription(watch, t0);
    let initial = rx.try_recv().expect("initial snapshot");
    assert_eq!(initial.new_tasks.len(), 0);
    assert_eq!(initial.stats_update.len(), 0);

    a.update_state(Event::Spawn { span: 1, meta: 0, at: t0, fields: Vec::new() });
    a.update_state(Event::Enter { span: 1, at: t0 + MS });
    a.update_state(Event::Exit { span: 1, at: t0 + 3 * MS });
    a.update_state(Event::Close { span: 1, at: t0 + 4 * MS });
    a.publish(t0 + 5 * MS);

    let update = rx.try_recv().expect("published update");
    assert_eq!(update.new_tasks.len(), 1);
    assert_eq!(update.new_tasks[0].id, 0);
    assert_eq!(update.stats_update.len(), 1);
    let (id, sp) = update.stats_update[0];
    assert_eq!(id, 0);
    assert_eq!(sp.polls, 1);
    assert_eq!(sp.busy_time, 2 * MS);
    assert_eq!(sp.created_at, Some(t0));
    assert_eq!(sp.first_poll, Some(t0 + MS));
    assert_eq!(sp.last_poll_ended, Some(t0 + 3 * MS));
    assert_eq!(sp.total_time, Some(4 * MS));
    assert_eq!(update.now, t0 + 5 * MS);

    let details = a.make_details(0, t0 + 5 * MS).expect("details for a live task");
    let h = deserialize_histogram(details.poll_times_histogram.as_ref().expect("bytes"));
    assert_eq!(h.len(), 1);
    assert_eq!(h.count_between(19 * MS / 10, 21 * MS / 10), 1);
}

#[test]
fn nested_polls_record_the_outer_interval() {
    let t0: u64 = 1_000 * MS;
    let mut a = Aggregator::new(10 * MS, 6_000 * MS);
    a.update_state(Event::Spawn { span: 1, meta: 0, at: t0, fields: Vec::new() });
    a.update_state(Event::Enter { span: 1, at: t0 });
    a.update_state(Event::Enter { span: 1, at: t0 + MS });
    a.update_state(Event::Exit { span: 1, at: t0 + 2 * MS });
    a.update_state(Event::Exit { span: 1, at: t0 + 3 * MS });

    let st = stats_of(&a, 0);
    assert_eq!(st.polls, 1);
    assert_eq!(st.current_polls, 0);
    assert_eq!(st.busy_time, 3 * MS);
    let details = a.make_details(0, t0).expect("details");
    let h = deserialize_histogram(details.poll_times_histogram.as_ref().expect("bytes"));
    assert_eq!(h.len(), 1);
    assert_eq!(h.count_between(29 * MS / 10, 31 * MS / 10), 1);
}

#[test]
fn waker_accounting_counts_wake_as_drop() {
    let t0: u64 = 1_000 * MS;
    let mut a = Aggregator::new(10 * MS, 6_000 * MS);
    a.update_state(Event::Spawn { span: 1, meta: 0, at: t0, fields: Vec::new() });
    a.update_state(Event::Waker { span: 1, op: WakeOp::CloneWaker, at: t0 + MS });
    a.update_state(Event::Waker { span: 1, op: WakeOp::CloneWaker, at: t0 + 2 * MS });
    a.update_state(Event::Waker { span: 1, op: WakeOp::Wake, at: t0 + 3 * MS });
    a.update_state(Event::Waker { span: 1, op: WakeOp::DropWaker, at: t0 + 4 * MS });

    let st = stats_of(&a, 0);
    assert_eq!(st.waker_clones, 2);
    assert_eq!(st.waker_drops, 2);
    assert_eq!(st.wakes, 1);
    assert_eq!(st.last_wake, Some(t0 + 3 * MS));
}

#[test]
fn late_subscriber_sees_closed_tasks_until_retention() {
    let t0: u64 = 1_000 * MS;
    let retention: u64 = 100 * MS;
    let mut a = Aggregator::new(10 * MS, retention);
    a.update_state(Event::Spawn { span: 1, meta: 0, at: t0, fields: Vec::new() });
    a.update_state(Event::Spawn { span: 2, meta: 0, at: t0, fields: Vec::new() });
    a.update_state(Event::Close { span: 1, at: t0 + MS });
    a.update_state(Event::Close { span: 2, at: t0 + MS });

    let (watch, mut rx) = new_watcher(8);
    a.add_task_subscription(watch, t0 + 2 * MS);
    let initial = rx.try_recv().expect("initial snapshot");
    assert_eq!(initial.new_tasks.len(), 2);
    assert_eq!(initial.stats_update.len(), 2);

    // Deliver the final states, then sweep after retention has expired.
    let later = t0 + 2 * retention;
    a.publish(later);
    a.drop_closed_tasks(later);
    assert_eq!(a.stats.len(), 0);
    assert_eq!(a.tasks.len(), 0);
    assert_eq!(a.task_ids.map.len(), 0);
}

#[test]
fn slow_watcher_is_evicted() {
    let t0: u64 = 1_000 * MS;
    let mut a = Aggregator::new(10 * MS, 6_000 * MS);
    let (watch, _rx) = new_watcher(1);
    a.add_task_subscription(watch, t0);
    assert_eq!(a.watchers.len(), 1);
    // The initial snapshot fills the only slot; the receiver never drains.
    a.update_state(Event::Spawn { span: 1, meta: 0, at: t0, fields: Vec::new() });
    a.publish(t0 + MS);
    a.update_state(Event::Enter { span: 1, at: t0 + MS });
    a.publish(t0 + 2 * MS);
    assert_eq!(a.watchers.len(), 0);
}

#[test]
fn publish_twice_emits_no_second_delta() {
    let t0: u64 = 1_000 * MS;
    let mut a = Aggregator::new(10 * MS, 6_000 * MS);
    let (watch, mut rx) = new_watcher(8);
    a.add_task_subscription(watch, t0);
    rx.try_recv().expect("initial snapshot");

    a.update_state(Event::Metadata { meta: 3 });
    a.update_state(Event::Spawn { span: 1, meta: 3, at: t0, fields: Vec::new() });
    a.publish(t0 + MS);
    let first = rx.try_recv().expect("first update");
    assert!(first.new_metadata.is_some());
    assert_eq!(first.new_tasks.len(), 1);
    assert_eq!(first.stats_update.len(), 1);

    a.publish(t0 + 2 * MS);
    let second = rx.try_recv().expect("second update");
    assert!(second.new_metadata.is_none());
    assert_eq!(second.new_tasks.len(), 0);
    assert_eq!(second.stats_update.len(), 0);
}

#[test]
fn enter_before_spawn_creates_default_stats() {
    let t0: u64 = 1_000 * MS;
    let mut a = Aggregator::new(10 * MS, 6_000 * MS);
    a.update_state(Event::Enter { span: 1, at: t0 });
    let st = stats_of(&a, 0);
    assert_eq!(st.created_at, None);
    assert_eq!(st.polls, 1);
    // A later spawn replaces the record outright.
    a.update_state(Event::Spawn { span: 1, meta: 0, at: t0 + MS, fields: Vec::new() });
    let st = stats_of(&a, 0);
    assert_eq!(st.created_at, Some(t0 + MS));
    assert_eq!(st.polls, 0);
}

#[test]
fn wake_without_spawn_is_a_no_op() {
    let t0: u64 = 1_000 * MS;
    let mut a = Aggregator::new(10 * MS, 6_000 * MS);
    a.update_state(Event::Waker { span: 1, op: WakeOp::Wake, at: t0 });
    assert_eq!(a.stats.len(), 0);
    assert_eq!(a.tasks.len(), 0);
    // Not even an id mapping is materialized.
    assert_eq!(a.task_ids.map.len(), 0);
}

#[test]
fn close_timestamp_is_write_once() {
    let t0: u64 = 1_000 * MS;
    let mut a = Aggregator::new(10 * MS, 6_000 * MS);
    a.update_state(Event::Spawn { span: 1, meta: 0, at: t0, fields: Vec::new() });
    a.update_state(Event::Close { span: 1, at: t0 + MS });
    a.update_state(Event::Close { span: 1, at: t0 + 9 * MS });
    assert_eq!(stats_of(&a, 0).closed_at, Some(t0 + MS));
}

#[test]
fn exit_without_poll_start_records_nothing() {
    let t0: u64 = 1_000 * MS;
    let mut a = Aggregator::new(10 * MS, 6_000 * MS);
    a.update_state(Event::Spawn { span: 1, meta: 0, at: t0, fields: Vec::new() });
    a.update_state(Event::Exit { span: 1, at: t0 + MS });
    let st = stats_of(&a, 0);
    assert_eq!(st.current_polls, 0);
    assert_eq!(st.busy_time, 0);
    let details = a.make_details(0, t0).expect("details");
    let h = deserialize_histogram(details.poll_times_histogram.as_ref().expect("bytes"));
    assert_eq!(h.len(), 0);
}

#[test]
fn every_task_record_has_statistics() {
    let t0: u64 = 1_000 * MS;
    let mut a = Aggregator::new(10 * MS, 6_000 * MS);
    a.update_state(Event::Spawn { span: 1, meta: 0, at: t0, fields: Vec::new() });
    a.update_state(Event::Enter { span: 2, at: t0 });
    a.update_state(Event::Spawn { span: 3, meta: 0, at: t0, fields: Vec::new() });
    a.update_state(Event::Close { span: 3, at: t0 + MS });
    for e in &a.tasks.entries {
        assert!(a.stats.get(e.key).is_some());
    }
}

#[test]
fn gc_compacts_ids_to_live_tasks() {
    let t0: u64 = 1_000 * MS;
    let retention: u64 = 10 * MS;
    let mut a = Aggregator::new(10 * MS, retention);
    a.update_state(Event::Spawn { span: 1, meta: 0, at: t0, fields: Vec::new() });
    a.update_state(Event::Spawn { span: 2, meta: 0, at: t0, fields: Vec::new() });
    a.update_state(Event::Close { span: 1, at: t0 });
    a.publish(t0);
    a.drop_closed_tasks(t0 + 2 * retention);
    assert_eq!(a.stats.len(), 1);
    assert_eq!(a.tasks.len(), 1);
    assert_eq!(a.task_ids.map.len(), 1);
    assert!(a.tasks.get(1).is_some());
}

#[test]
fn dirty_closed_tasks_survive_while_watched() {
    let t0: u64 = 1_000 * MS;
    let retention: u64 = 1_000 * MS;
    let mut a = Aggregator::new(10 * MS, retention);
    let (watch, _rx) = new_watcher(8);
    a.add_task_subscription(watch, t0);
    a.update_state(Event::Spawn { span: 1, meta: 0, at: t0, fields: Vec::new() });
    a.update_state(Event::Close { span: 1, at: t0 });
    // Still dirty, within retention, with a watcher: kept.
    a.drop_closed_tasks(t0 + MS);
    assert_eq!(a.stats.len(), 1);
    // With no watchers, an undelivered closed task is dropped.
    let mut b = Aggregator::new(10 * MS, retention);
    b.update_state(Event::Spawn { span: 1, meta: 0, at: t0, fields: Vec::new() });
    b.update_state(Event::Close { span: 1, at: t0 });
    b.drop_closed_tasks(t0 + MS);
    assert_eq!(b.stats.len(), 0);
}

#[test]
fn detail_subscription_for_known_task() {
    let t0: u64 = 1_000 * MS;
    let mut a = Aggregator::new(10 * MS, 6_000 * MS);
    a.update_state(Event::Spawn { span: 1, meta: 0, at: t0, fields: Vec::new() });
    let (otx, mut orx) = tokio::sync::oneshot::channel();
    let req = WatchRequest { id: 0, stream_sender: otx, buffer: 4 };
    a.add_task_detail_subscription(req, t0 + MS);
    let mut stream = orx.try_recv().expect("receiver handed back");
    let details = stream.try_recv().expect("initial details");
    assert_eq!(details.task_id, 0);
    assert_eq!(details.now, t0 + MS);
    assert!(details.poll_times_histogram.is_some());
    assert_eq!(a.details_watchers.len(), 1);
}

#[test]
fn detail_subscription_for_unknown_task_is_dropped() {
    let t0: u64 = 1_000 * MS;
    let mut a = Aggregator::new(10 * MS, 6_000 * MS);
    let (otx, mut orx) = tokio::sync::oneshot::channel();
    let req = WatchRequest { id: 9, stream_sender: otx, buffer: 4 };
    a.add_task_detail_subscription(req, t0);
    assert!(orx.try_recv().is_err());
    assert_eq!(a.details_watchers.len(), 0);
}

#[test]
fn commands_pause_and_resume() {
    let t0: u64 = 1_000 * MS;
    let mut a = Aggregator::new(10 * MS, 6_000 * MS);
    assert!(matches!(a.temporality, Temporality::Live));
    a.handle_command(Command::Pause, t0);
    assert!(matches!(a.temporality, Temporality::Paused));
    a.handle_command(Command::Resume, t0);
    assert!(matches!(a.temporality, Temporality::Live));
}

#[test]
fn drain_applies_queued_events_and_reports_closure() {
    let t0: u64 = 1_000 * MS;
    let mut a = Aggregator::new(10 * MS, 6_000 * MS);
    let (tx, mut rx) = tokio::sync::mpsc::channel(16);
    tx.try_send(Event::Spawn { span: 1, meta: 0, at: t0, fields: Vec::new() }).unwrap();
    tx.try_send(Event::Enter { span: 1, at: t0 + MS }).unwrap();
    let closed = a.drain_events(&mut rx);
    assert!(!closed);
    assert_eq!(stats_of(&a, 0).polls, 1);
    drop(tx);
    let closed = a.drain_events(&mut rx);
    assert!(closed);
}

#[test]
fn initial_snapshot_carries_metadata_and_fields() {
    let t0: u64 = 1_000 * MS;
    let mut a = Aggregator::new(10 * MS, 6_000 * MS);
    a.update_state(Event::Metadata { meta: 5 });
    a.update_state(Event::Metadata { meta: 6 });
    let fields = vec![
        Field { name: 1, value: FieldValue::U64(42) },
        Field { name: 2, value: FieldValue::Bool(true) },
    ];
    a.update_state(Event::Spawn { span: 1, meta: 5, at: t0, fields });
    let (watch, mut rx) = new_watcher(8);
    a.add_task_subscription(watch, t0 + MS);
    let initial = rx.try_recv().expect("initial snapshot");
    assert_eq!(initial.new_metadata, Some(vec![5, 6]));
    assert_eq!(initial.new_tasks.len(), 1);
    assert_eq!(initial.new_tasks[0].meta, 5);
    assert_eq!(initial.new_tasks[0].fields.len(), 2);
    assert_eq!(initial.new_tasks[0].fields[1], Field { name: 2, value: FieldValue::Bool(true) });
    assert_eq!(initial.now, t0 + MS);
}

#[test]
fn run_once_drains_publishes_and_sweeps() {
    let t0: u64 = 1_000 * MS;
    let retention: u64 = 10 * MS;
    let mut a = Aggregator::new(10 * MS, retention);
    let (watch, mut urx) = new_watcher(8);
    a.add_task_subscription(watch, t0);
    urx.try_recv().expect("initial snapshot");

    let (tx, mut rx) = tokio::sync::mpsc::channel(16);
    tx.try_send(Event::Spawn { span: 1, meta: 0, at: t0, fields: Vec::new() }).unwrap();
    tx.try_send(Event::Close { span: 1, at: t0 }).unwrap();
    let closed = a.run_once(&mut rx, true, t0 + MS);
    assert!(!closed);
    let update = urx.try_recv().expect("published update");
    assert_eq!(update.new_tasks.len(), 1);
    // Published and within retention: the closed task is still here.
    assert_eq!(a.stats.len(), 1);
    // A later pass past retention sweeps it away.
    let closed = a.run_once(&mut rx, true, t0 + 3 * retention);
    assert!(!closed);
    assert_eq!(a.stats.len(), 0);
    assert_eq!(a.tasks.len(), 0);
    // Once the producers hang up, the aggregator reports closure.
    drop(tx);
    assert!(a.run_once(&mut rx, false, t0 + 4 * retention));
}
