use vstd::prelude::*;

use crate::channel::{RecvOutcome, Watch, WatchRequest};
use crate::event::{Event, WakeOp};
use crate::ids::TaskIds;
use crate::model::{step, view_map, AggModel};
use crate::stats::{
    sat_add_u64, sat_sub_u64, Stats, StatsProto, Task, TaskDetails, TaskProto, TaskUpdate,
};
use crate::task_data::{TaskData, TdEntry};

verus! {

/// The time state of the aggregator: paused suppresses periodic publishes.
pub enum Temporality {
    Live,
    Paused,
}

/// The state the aggregation state machine starts from.
pub open spec fn init_model() -> AggModel {
    AggModel {
        all_metadata: Seq::empty(),
        new_metadata: Seq::empty(),
        tasks: Map::empty(),
        tasks_dirty: Set::empty(),
        stats: Map::empty(),
        stats_dirty: Set::empty(),
        ids: Map::empty(),
        next_id: 0,
        live: true,
    }
}

/// The event-driven coordinator: holds the task and statistics maps, the
/// id allocator, the metadata lists and the subscriber sinks, and applies
/// lifecycle events, subscription commands, publishes and retention sweeps.
pub struct Aggregator {
    /// Cadence of periodic publishes, nanoseconds.
    pub publish_interval: u64,
    /// How long closed tasks stay observable, nanoseconds.
    pub retention: u64,
    /// Sinks subscribed to the global task feed.
    pub watchers: Vec<Watch<TaskUpdate>>,
    /// Sinks subscribed to single tasks' detail feeds, by task id.
    pub details_watchers: TaskData<Vec<Watch<TaskDetails>>>,
    /// Every metadata descriptor seen, sent to new subscribers.
    pub all_metadata: Vec<u64>,
    /// Descriptors registered since the last publish.
    pub new_metadata: Vec<u64>,
    /// Static records by task id.
    pub tasks: TaskData<Task>,
    /// Statistics by task id.
    pub stats: TaskData<Stats>,
    pub task_ids: TaskIds,
    pub temporality: Temporality,
}

impl View for Aggregator {
    type V = AggModel;

    open spec fn view(&self) -> AggModel {
        AggModel {
            all_metadata: self.all_metadata@,
            new_metadata: self.new_metadata@,
            tasks: view_map(self.tasks.as_map()),
            tasks_dirty: self.tasks.dirty_keys(),
            stats: view_map(self.stats.as_map()),
            stats_dirty: self.stats.dirty_keys(),
            ids: self.task_ids.ids(),
            next_id: self.task_ids.next,
            live: self.temporality is Live,
        }
    }
}

impl Aggregator {
    /// The keyed stores all keep their keys unique.
    pub open spec fn wf(self) -> bool {
        self.tasks.wf() && self.stats.wf() && self.details_watchers.wf() && self.task_ids.wf()
    }

    /// The registered details subscriptions, keyed by task id.
    pub open spec fn details_map(self) -> Map<u64, Vec<Watch<TaskDetails>>> {
        self.details_watchers.as_map()
    }

    pub fn new(publish_interval: u64, retention: u64) -> (r: Aggregator)
        ensures
            r.wf(),
            r@ == init_model(),
            r.watchers@.len() == 0,
            r.details_watchers.spec_len() == 0,
            r.publish_interval == publish_interval,
            r.retention == retention,
    {
        let r = Aggregator {
            publish_interval,
            retention,
            watchers: Vec::new(),
            details_watchers: TaskData::new(),
            all_metadata: Vec::new(),
            new_metadata: Vec::new(),
            tasks: TaskData::new(),
            stats: TaskData::new(),
            task_ids: TaskIds::new(),
            temporality: Temporality::Live,
        };
        proof {
            assert(view_map(r.tasks.as_map()) =~= Map::<u64, crate::stats::TaskModel>::empty());
            assert(view_map(r.stats.as_map()) =~= Map::<u64, crate::stats::StatsModel>::empty());
            assert(r@ == init_model());
        }
        r
    }

    /// Apply one lifecycle event to the aggregation state. Precisely the
    /// model's `step` function, with every sink and setting untouched.
    pub fn update_state(&mut self, event: Event)
        requires
            old(self).wf(),
        ensures
            final(self).wf(),
            final(self)@ == step(old(self)@, event),
            final(self).watchers == old(self).watchers,
            final(self).details_watchers == old(self).details_watchers,
            final(self).publish_interval == old(self).publish_interval,
            final(self).retention == old(self).retention,
    {
        let ghost pre = *self;
        match event {
            Event::Metadata { meta } => {
                self.all_metadata.push(meta);
                self.new_metadata.push(meta);
                proof {
                    assert(self@ == step(pre@, event));
                }
            },
            Event::Spawn { span, meta, at, fields } => {
                let task_id = self.task_ids.id_for(span);
                let ghost fields_v = fields@;
                let mut st = Stats::new();
                st.created_at = Some(at);
                let ghost st_v = st@;
                self.tasks.insert(task_id, Task { meta, fields });
                self.stats.insert(task_id, st);
                proof {
                    assert(st_v == crate::stats::StatsModel {
                        created_at: Some(at),
                        ..crate::stats::default_stats()
                    });
                    assert(view_map(self.tasks.as_map()) =~= view_map(pre.tasks.as_map()).insert(
                        task_id,
                        crate::stats::TaskModel { meta, fields: fields_v },
                    ));
                    assert(view_map(self.stats.as_map()) =~= view_map(pre.stats.as_map()).insert(
                        task_id,
                        st_v,
                    ));
                    assert(self@ == step(pre@, event));
                }
            },
            Event::Enter { span, at } => {
                let task_id = self.task_ids.id_for(span);
                let mut st = match self.stats.take(task_id) {
                    Some(s) => s,
                    None => Stats::new(),
                };
                let ghost s0 = st@;
                if st.current_polls == 0 {
                    st.last_poll_started = Some(at);
                    if st.first_poll.is_none() {
                        st.first_poll = Some(at);
                    }
                    st.polls = sat_add_u64(st.polls, 1);
                }
                st.current_polls = sat_add_u64(st.current_polls, 1);
                proof {
                    assert(st@ == crate::model::step_enter(s0, at));
                }
                self.stats.insert(task_id, st);
                proof {
                    self.lemma_stats_reinsert(pre, task_id, st@);
                    assert(self@ == step(pre@, event));
                }
            },
            Event::Exit { span, at } => {
                let task_id = self.task_ids.id_for(span);
                let mut st = match self.stats.take(task_id) {
                    Some(s) => s,
                    None => Stats::new(),
                };
                let ghost s0 = st@;
                if st.current_polls == 1 {
                    st.current_polls = 0;
                    match st.last_poll_started {
                        Some(started) => {
                            let elapsed = sat_sub_u64(at, started);
                            st.last_poll_ended = Some(at);
                            st.busy_time = sat_add_u64(st.busy_time, elapsed);
                            st.poll_times.record(elapsed);
                        },
                        None => {},
                    }
                } else {
                    st.current_polls = sat_sub_u64(st.current_polls, 1);
                }
                proof {
                    assert(st@ == crate::model::step_exit(s0, at));
                }
                self.stats.insert(task_id, st);
                proof {
                    self.lemma_stats_reinsert(pre, task_id, st@);
                    assert(self@ == step(pre@, event));
                }
            },
            Event::Close { span, at } => {
                let task_id = self.task_ids.id_for(span);
                let mut st = match self.stats.take(task_id) {
                    Some(s) => s,
                    None => Stats::new(),
                };
                // Once set, the close timestamp never changes.
                if st.closed_at.is_none() {
                    st.closed_at = Some(at);
                }
                self.stats.insert(task_id, st);
                proof {
                    self.lemma_stats_reinsert(pre, task_id, st@);
                    assert(self@ == step(pre@, event));
                }
            },
            Event::Waker { span, op, at } => {
                // Wakers may outlive their task; an op for an unknown task
                // must not materialize any state, so the span is only
                // looked up, never assigned an id.
                let task_id = match self.task_ids.lookup(span) {
                    Some(id) => id,
                    None => {
                        proof {
                            assert(self@ == step(pre@, event));
                        }
                        return;
                    },
                };
                match self.stats.take(task_id) {
                    Some(mut st) => {
                        let ghost s0 = st@;
                        match op {
                            WakeOp::Wake => {
                                st.wakes = sat_add_u64(st.wakes, 1);
                                st.last_wake = Some(at);
                                // Waking by value consumes the waker without
                                // running its drop handler, so it counts as a
                                // drop too.
                                st.waker_drops = sat_add_u64(st.waker_drops, 1);
                            },
                            WakeOp::WakeByRef => {
                                st.wakes = sat_add_u64(st.wakes, 1);
                                st.last_wake = Some(at);
                            },
                            WakeOp::CloneWaker => {
                                st.waker_clones = sat_add_u64(st.waker_clones, 1);
                            },
                            WakeOp::DropWaker => {
                                st.waker_drops = sat_add_u64(st.waker_drops, 1);
                            },
                        }
                        proof {
                            assert(st@ == crate::model::step_wake(s0, op, at));
                        }
                        self.stats.insert(task_id, st);
                        proof {
                            self.lemma_stats_reinsert(pre, task_id, st@);
                            assert(self@ == step(pre@, event));
                        }
                    },
                    None => {
                        proof {
                            assert(self@ == step(pre@, event));
                        }
                    },
                }
            },
        }
    }

    /// Taking a record out and reinserting its successor acts on the model
    /// maps as a single insert.
    proof fn lemma_stats_reinsert(self, pre: Aggregator, id: u64, v: crate::stats::StatsModel)
        requires
            self.stats.as_map() == pre.stats.as_map().remove(id).insert(
                id,
                self.stats.as_map()[id],
            ) || self.stats.as_map() == pre.stats.as_map().insert(id, self.stats.as_map()[id]),
            self.stats.as_map().dom().contains(id),
            self.stats.as_map()[id]@ == v,
            self.stats.dirty_keys() == pre.stats.dirty_keys().remove(id).insert(id)
                || self.stats.dirty_keys() == pre.stats.dirty_keys().insert(id),
        ensures
            view_map(self.stats.as_map()) == view_map(pre.stats.as_map()).insert(id, v),
            self.stats.dirty_keys() == pre.stats.dirty_keys().insert(id),
    {
        assert(view_map(self.stats.as_map()) =~= view_map(pre.stats.as_map()).insert(id, v));
        assert(pre.stats.dirty_keys().remove(id).insert(id) =~= pre.stats.dirty_keys().insert(id));
    }
}


/// A subscription or control command from the RPC layer.
pub enum Command {
    WatchTasks(Watch<TaskUpdate>),
    WatchTaskDetail(WatchRequest<TaskDetails>),
    Pause,
    Resume,
}

impl Aggregator {
    /// Copy the metadata handle list.
    fn copy_meta(&self) -> (r: Vec<u64>)
        ensures
            r@ == self.all_metadata@,
    {
        let mut r: Vec<u64> = Vec::new();
        let n: usize = self.all_metadata.len();
        let mut i: usize = 0;
        while i < n
            invariant
                n == self.all_metadata@.len(),
                0 <= i <= n,
                r@ == self.all_metadata@.take(i as int),
            decreases n - i,
        {
            r.push(self.all_metadata[i]);
            proof {
                assert(r@ =~= self.all_metadata@.take(i + 1));
            }
            i += 1;
        }
        proof {
            assert(self.all_metadata@.take(n as int) =~= self.all_metadata@);
        }
        r
    }

    /// The details message for one task: its id, the timestamp, and the
    /// serialized poll-times histogram; nothing for an unknown task.
    pub fn make_details(&self, id: u64, now: u64) -> (r: Option<TaskDetails>)
        requires
            self.wf(),
        ensures
            match r {
                Some(d) => self@.stats.dom().contains(id) && d.task_id == id && d.now == now
                    && (match d.poll_times_histogram {
                    Some(v) => crate::hist::hist_encoding(self.stats.as_map()[id].poll_times.hist)
                        == Some(v@),
                    None => crate::hist::hist_encoding(self.stats.as_map()[id].poll_times.hist)
                        is None,
                }),
                None => !self@.stats.dom().contains(id),
            },
    {
        match self.stats.get(id) {
            Some(st) => Some(
                TaskDetails { task_id: id, now, poll_times_histogram: st.poll_times.serialized() },
            ),
            None => None,
        }
    }

    /// The initial snapshot a new subscriber receives: all metadata, every
    /// task's static record and every task's statistics, stamped `now`.
    pub fn initial_update(&self, now: u64) -> (u: TaskUpdate)
        requires
            self.wf(),
        ensures
            u.now == now,
            (match u.new_metadata {
                Some(v) => v@ == self.all_metadata@,
                None => false,
            }),
            u.new_tasks@.map_values(|p: TaskProto| p@) == self.tasks.entries@.map_values(
                (|e: TdEntry<Task>| crate::stats::spec_task_proto(e.key, e.val@)),
            ),
            u.stats_update@ == self.stats.entries@.map_values(
                (|e: TdEntry<Stats>| (e.key, crate::stats::spec_stats_proto(e.val@))),
            ),
    {
        let mut new_tasks: Vec<TaskProto> = Vec::new();
        let tn: usize = self.tasks.len();
        let mut i: usize = 0;
        while i < tn
            invariant
                self.wf(),
                tn == self.tasks.spec_len(),
                0 <= i <= tn,
                new_tasks@.len() == i,
                forall|j: int|
                    0 <= j < i ==> new_tasks@[j]@ == crate::stats::spec_task_proto(
                        self.tasks.entries@[j].key,
                        self.tasks.entries@[j].val@,
                    ),
            decreases tn - i,
        {
            let k = self.tasks.key_at(i);
            let p = self.tasks.val_at(i).to_proto(k);
            new_tasks.push(p);
            i += 1;
        }
        let mut stats_update: Vec<(u64, StatsProto)> = Vec::new();
        let sn: usize = self.stats.len();
        let mut j: usize = 0;
        while j < sn
            invariant
                self.wf(),
                sn == self.stats.spec_len(),
                0 <= j <= sn,
                stats_update@.len() == j,
                forall|jj: int|
                    0 <= jj < j ==> stats_update@[jj] == (
                    self.stats.entries@[jj].key,
                    crate::stats::spec_stats_proto(self.stats.entries@[jj].val@),
                ),
            decreases sn - j,
        {
            let k = self.stats.key_at(j);
            let sp = self.stats.val_at(j).to_proto();
            stats_update.push((k, sp));
            j += 1;
        }
        proof {
            assert(new_tasks@.map_values(|p: TaskProto| p@) =~= self.tasks.entries@.map_values(
                |e: TdEntry<Task>| crate::stats::spec_task_proto(e.key, e.val@),
            ));
            assert(stats_update@ =~= self.stats.entries@.map_values(
                |e: TdEntry<Stats>| (e.key, crate::stats::spec_stats_proto(e.val@)),
            ));
        }
        TaskUpdate { new_metadata: Some(self.copy_meta()), new_tasks, stats_update, now }
    }

    /// Register a global-feed subscription after sending it the initial
    /// snapshot; a sink that refuses the snapshot is already dead and is
    /// dropped.
    pub fn add_task_subscription(&mut self, subscription: Watch<TaskUpdate>, now: u64)
        requires
            old(self).wf(),
        ensures
            final(self).wf(),
            final(self)@ == old(self)@,
            final(self).details_watchers == old(self).details_watchers,
            final(self).publish_interval == old(self).publish_interval,
            final(self).retention == old(self).retention,
            final(self).watchers@ == old(self).watchers@
                || final(self).watchers@ == old(self).watchers@.push(subscription),
    {
        let initial = self.initial_update(now);
        if subscription.update(&initial) {
            self.watchers.push(subscription);
        }
    }

    /// Register a details-feed subscription for a known task: a channel of
    /// the requested buffer is made, its receiver is handed back, and the
    /// sink gets an initial details message. For an unknown task the request
    /// is dropped, which the requester observes as not-found.
    pub fn add_task_detail_subscription(&mut self, req: WatchRequest<TaskDetails>, now: u64)
        requires
            old(self).wf(),
            1 <= req.buffer <= crate::channel::MAX_CHANNEL_CAPACITY,
        ensures
            final(self).wf(),
            final(self)@ == old(self)@,
            final(self).watchers == old(self).watchers,
            final(self).publish_interval == old(self).publish_interval,
            final(self).retention == old(self).retention,
            (!old(self)@.stats.dom().contains(req.id) ==> final(self).details_watchers
                == old(self).details_watchers),
            final(self).details_watchers == old(self).details_watchers || (old(self)@.stats.dom().contains(req.id)
                && final(self).details_map().dom().contains(req.id)
                && final(self).details_map() == old(self).details_map().insert(req.id, final(self).details_map()[req.id])
                && final(self).details_map()[req.id]@.len() as int == (if old(self).details_map().dom().contains(req.id) {
                    old(self).details_map()[req.id]@.len() as int + 1
                } else {
                    1
                })
                && (old(self).details_map().dom().contains(req.id) ==> final(self).details_map()[req.id]@.drop_last()
                    == old(self).details_map()[req.id]@)),
    {
        let known = self.stats.contains(req.id);
        if !known {
            // Dropping `req` drops the return channel: the requester sees
            // the task as not found.
            return;
        }
        match self.make_details(req.id, now) {
            Some(details) => {
                let (tx, rx) = crate::channel::bounded_channel::<TaskDetails>(req.buffer);
                let subscription = Watch(tx);
                if crate::channel::oneshot_send(req.stream_sender, rx) && subscription.update(
                    &details,
                ) {
                    let ghost pre_map = self.details_watchers.as_map();
                    let mut list: Vec<Watch<TaskDetails>> = match self.details_watchers.take(
                        req.id,
                    ) {
                        Some(l) => l,
                        None => Vec::new(),
                    };
                    list.push(subscription);
                    self.details_watchers.insert(req.id, list);
                    proof {
                        assert(self.details_watchers.as_map() =~= pre_map.insert(
                            req.id,
                            self.details_watchers.as_map()[req.id],
                        ));
                    }
                }
            },
            None => {},
        }
    }

    /// Dispatch one command from the RPC layer.
    pub fn handle_command(&mut self, cmd: Command, now: u64)
        requires
            old(self).wf(),
            (cmd matches Command::WatchTaskDetail(r) ==> 1 <= r.buffer
                <= crate::channel::MAX_CHANNEL_CAPACITY),
        ensures
            final(self).wf(),
            final(self).publish_interval == old(self).publish_interval,
            final(self).retention == old(self).retention,
            (cmd matches Command::Pause ==> final(self)@ == (AggModel {
                live: false,
                ..old(self)@
            }) && final(self).watchers == old(self).watchers && final(self).details_watchers
                == old(self).details_watchers),
            (cmd matches Command::Resume ==> final(self)@ == (AggModel {
                live: true,
                ..old(self)@
            }) && final(self).watchers == old(self).watchers && final(self).details_watchers
                == old(self).details_watchers),
            (cmd matches Command::WatchTasks(s) ==> final(self)@ == old(self)@
                && (final(self).watchers@ == old(self).watchers@
                    || final(self).watchers@ == old(self).watchers@.push(s))
                && final(self).details_watchers == old(self).details_watchers),
            (cmd matches Command::WatchTaskDetail(r) ==> final(self)@ == old(self)@
                && final(self).watchers == old(self).watchers && (!old(self)@.stats.dom().contains(r.id) ==> final(self).details_watchers == old(self).details_watchers) && (forall|k: u64|
                #[trigger] final(self).details_map().dom().contains(k) ==> old(self).details_map().dom().contains(k) || k == r.id)),
    {
        match cmd {
            Command::WatchTasks(subscription) => {
                self.add_task_subscription(subscription, now);
            },
            Command::WatchTaskDetail(req) => {
                self.add_task_detail_subscription(req, now);
            },
            Command::Pause => {
                self.temporality = Temporality::Paused;
            },
            Command::Resume => {
                self.temporality = Temporality::Live;
            },
        }
    }

    /// Drain every event the channel holds right now, applying each in
    /// arrival order, and say whether the channel has closed. The drain
    /// never waits: returning on the first momentarily-empty poll keeps the
    /// aggregator from waking itself with its own instrumentation.
    pub fn drain_events(&mut self, events: &mut tokio::sync::mpsc::Receiver<Event>) -> (closed:
        bool)
        requires
            old(self).wf(),
        ensures
            final(self).wf(),
            exists|es: Seq<Event>| final(self)@ == crate::model::fold_steps(old(self)@, es),
            final(self).watchers == old(self).watchers,
            final(self).details_watchers == old(self).details_watchers,
            final(self).publish_interval == old(self).publish_interval,
            final(self).retention == old(self).retention,
    {
        let ghost pre = *self;
        let ghost mut es: Seq<Event> = Seq::empty();
        // Far more iterations than events can ever be queued; it only gives
        // the drain a definite bound.
        let mut budget: usize = usize::MAX;
        while budget > 0
            invariant
                pre == *old(self),
                self.wf(),
                self@ == crate::model::fold_steps(pre@, es),
                self.watchers == pre.watchers,
                self.details_watchers == pre.details_watchers,
                self.publish_interval == pre.publish_interval,
                self.retention == pre.retention,
            decreases budget,
        {
            budget -= 1;
            match crate::channel::try_recv(events) {
                RecvOutcome::Item(e) => {
                    let ghost eg = e;
                    self.update_state(e);
                    proof {
                        crate::model::lemma_fold_push(pre@, es, eg);
                        es = es.push(eg);
                    }
                },
                RecvOutcome::Empty => {
                    return false;
                },
                RecvOutcome::Closed => {
                    return true;
                },
            }
        }
        false
    }
}


/// Relies on Vec::shrink_to_fit: gives excess backing capacity back to the
/// allocator after evictions; the sinks themselves stay as they are.
#[verifier::external_body]
fn shrink_watchers(v: &mut Vec<Watch<TaskUpdate>>)
    ensures
        final(v)@ == old(v)@,
{
    v.shrink_to_fit();
}

/// The published row for one task's static record.
pub open spec fn task_row() -> spec_fn(u64, Task) -> crate::stats::TaskProtoModel {
    |id: u64, t: Task| crate::stats::spec_task_proto(id, t@)
}

/// The published row for one task's statistics.
pub open spec fn stat_row() -> spec_fn(u64, Stats) -> (u64, StatsProto) {
    |id: u64, s: Stats| (id, crate::stats::spec_stats_proto(s@))
}

impl Aggregator {
    /// Build one differential update: the drained fresh metadata, the
    /// dirty task records, the dirty statistics, all stamped `now`, with
    /// every emitted entry's dirty flag cleared.
    pub fn build_update(&mut self, now: u64) -> (u: TaskUpdate)
        requires
            old(self).wf(),
        ensures
            final(self).wf(),
            final(self)@ == crate::model::published(old(self)@),
            final(self).watchers == old(self).watchers,
            final(self).details_watchers == old(self).details_watchers,
            final(self).publish_interval == old(self).publish_interval,
            final(self).retention == old(self).retention,
            u.now == now,
            (match u.new_metadata {
                Some(v) => old(self).new_metadata@.len() > 0 && v@ == old(self).new_metadata@,
                None => old(self).new_metadata@.len() == 0,
            }),
            u.new_tasks@.map_values(|p: TaskProto| p@) == crate::task_data::dirty_selected(
                old(self).tasks.entries@,
                task_row(),
            ),
            u.stats_update@ == crate::task_data::dirty_selected(
                old(self).stats.entries@,
                stat_row(),
            ),
    {
        let ghost pre = *self;
        let drained = self.new_metadata.split_off(0);
        let new_metadata_opt: Option<Vec<u64>> = if drained.len() == 0 {
            None
        } else {
            Some(drained)
        };
        let mut new_tasks: Vec<TaskProto> = Vec::new();
        let ghost mut trows: Seq<crate::stats::TaskProtoModel> = Seq::empty();
        let tn: usize = self.tasks.len();
        let mut i: usize = 0;
        while i < tn
            invariant
                pre == *old(self),
                self.publish_interval == pre.publish_interval,
                self.retention == pre.retention,
                self.watchers == pre.watchers,
                self.details_watchers == pre.details_watchers,
                self.task_ids == pre.task_ids,
                self.all_metadata == pre.all_metadata,
                self.new_metadata@.len() == 0,
                self.stats == pre.stats,
                self.temporality == pre.temporality,
                pre.tasks.wf(),
                tn == self.tasks.spec_len(),
                0 <= i <= tn,
                self.tasks.entries@.len() == pre.tasks.entries@.len(),
                forall|j: int|
                    0 <= j < tn ==> self.tasks.entries@[j].key == pre.tasks.entries@[j].key
                        && self.tasks.entries@[j].val == pre.tasks.entries@[j].val,
                forall|j: int| 0 <= j < i ==> !self.tasks.entries@[j].dirty,
                forall|j: int|
                    i <= j < tn ==> self.tasks.entries@[j].dirty == pre.tasks.entries@[j].dirty,
                trows == crate::task_data::dirty_selected(
                    pre.tasks.entries@.take(i as int),
                    task_row(),
                ),
                new_tasks@.len() == trows.len(),
                forall|j: int| 0 <= j < trows.len() ==> new_tasks@[j]@ == trows[j],
            decreases tn - i,
        {
            proof {
                crate::task_data::lemma_dirty_selected_take_step(
                    pre.tasks.entries@,
                    task_row(),
                    i as int,
                );
            }
            if self.tasks.dirty_at(i) {
                let k = self.tasks.key_at(i);
                let p = self.tasks.val_at(i).to_proto(k);
                new_tasks.push(p);
                self.tasks.clear_dirty_at(i);
                proof {
                    trows = trows.push(task_row()(k, pre.tasks.entries@[i as int].val));
                }
            }
            i += 1;
        }
        proof {
            assert(pre.tasks.entries@.take(tn as int) =~= pre.tasks.entries@);
            pre.tasks.lemma_same_entries_map(self.tasks);
            assert forall|k: u64| !(#[trigger] self.tasks.dirty_keys().contains(k)) by {
                if self.tasks.spec_contains(k) {
                    let jx = self.tasks.idx_of(k);
                    assert(!self.tasks.entries@[jx].dirty);
                }
            }
            assert(self.tasks.dirty_keys() =~= Set::<u64>::empty());
            assert(new_tasks@.map_values(|p: TaskProto| p@) =~= trows);
        }
        let mut stats_update: Vec<(u64, StatsProto)> = Vec::new();
        let sn: usize = self.stats.len();
        let mut b: usize = 0;
        while b < sn
            invariant
                pre == *old(self),
                self.publish_interval == pre.publish_interval,
                self.retention == pre.retention,
                self.watchers == pre.watchers,
                self.details_watchers == pre.details_watchers,
                self.task_ids == pre.task_ids,
                self.all_metadata == pre.all_metadata,
                self.new_metadata@.len() == 0,
                self.tasks.wf(),
                self.temporality == pre.temporality,
                self.tasks.as_map() == pre.tasks.as_map(),
                self.tasks.dirty_keys() == Set::<u64>::empty(),
                new_tasks@.map_values(|p: TaskProto| p@) == crate::task_data::dirty_selected(
                    pre.tasks.entries@,
                    task_row(),
                ),
                pre.stats.wf(),
                sn == self.stats.spec_len(),
                0 <= b <= sn,
                self.stats.entries@.len() == pre.stats.entries@.len(),
                forall|j: int|
                    0 <= j < sn ==> self.stats.entries@[j].key == pre.stats.entries@[j].key
                        && self.stats.entries@[j].val == pre.stats.entries@[j].val,
                forall|j: int| 0 <= j < b ==> !self.stats.entries@[j].dirty,
                forall|j: int|
                    b <= j < sn ==> self.stats.entries@[j].dirty == pre.stats.entries@[j].dirty,
                stats_update@ == crate::task_data::dirty_selected(
                    pre.stats.entries@.take(b as int),
                    stat_row(),
                ),
            decreases sn - b,
        {
            proof {
                crate::task_data::lemma_dirty_selected_take_step(
                    pre.stats.entries@,
                    stat_row(),
                    b as int,
                );
            }
            if self.stats.dirty_at(b) {
                let k = self.stats.key_at(b);
                let sp = self.stats.val_at(b).to_proto();
                stats_update.push((k, sp));
                self.stats.clear_dirty_at(b);
            }
            b += 1;
        }
        proof {
            assert(pre.stats.entries@.take(sn as int) =~= pre.stats.entries@);
            pre.stats.lemma_same_entries_map(self.stats);
            assert forall|k: u64| !(#[trigger] self.stats.dirty_keys().contains(k)) by {
                if self.stats.spec_contains(k) {
                    let jx = self.stats.idx_of(k);
                    assert(!self.stats.entries@[jx].dirty);
                }
            }
            assert(self.stats.dirty_keys() =~= Set::<u64>::empty());
            assert(self.new_metadata@ =~= Seq::<u64>::empty());
            assert(self@ == crate::model::published(pre@));
        }
        TaskUpdate { new_metadata: new_metadata_opt, new_tasks, stats_update, now }
    }

    /// Publish one differential update: build it, deliver it to every
    /// global watcher keeping only the sinks that accepted it, then serve
    /// each per-task details feed, dropping feeds whose task is gone and
    /// sinks that refused.
    pub fn publish(&mut self, now: u64)
        requires
            old(self).wf(),
        ensures
            final(self).wf(),
            final(self)@ == crate::model::published(old(self)@),
            final(self).publish_interval == old(self).publish_interval,
            final(self).retention == old(self).retention,
            final(self).watchers@.len() <= old(self).watchers@.len(),
            subseq_of(final(self).watchers@, old(self).watchers@),
            forall|k: u64|
                #[trigger] final(self).details_map().dom().contains(k) ==> old(self).details_map().dom().contains(k) && final(self)@.stats.dom().contains(k)
                    && subseq_of(final(self).details_map()[k]@, old(self).details_map()[k]@),
    {
        let update = self.build_update(now);
        let ghost mid = *self;
        let all = self.watchers.split_off(0);
        proof {
            assert(all@ =~= old(self).watchers@);
        }
        self.watchers = deliver(all, &update);
        shrink_watchers(&mut self.watchers);
        // Details feeds: iterate the registered subscriptions, assumed few
        // next to the task count, rather than the statistics map.
        let mut keys: Vec<u64> = Vec::new();
        let dn: usize = self.details_watchers.len();
        let mut i: usize = 0;
        while i < dn
            invariant
                self.wf(),
                dn == self.details_watchers.spec_len(),
                0 <= i <= dn,
                keys@.len() == i,
                forall|j: int| 0 <= j < i ==> keys@[j] == self.details_watchers.entries@[j].key,
            decreases dn - i,
        {
            keys.push(self.details_watchers.key_at(i));
            i += 1;
        }
        let ghost mid2 = *self;
        let kn: usize = keys.len();
        proof {
            assert forall|k: u64|
                #[trigger] self.details_watchers.as_map().dom().contains(k) implies exists|jj: int|
                0 <= jj < kn && keys@[jj] == k by {
                let i0 = self.details_watchers.idx_of(k);
                assert(keys@[i0] == k);
            }
            assert forall|j1: int, j2: int| 0 <= j1 < j2 < kn implies keys@[j1] != keys@[j2] by {
                assert(keys@[j1] == mid2.details_watchers.entries@[j1].key);
                assert(keys@[j2] == mid2.details_watchers.entries@[j2].key);
            }
        }
        let mut j: usize = 0;
        while j < kn
            invariant
                kn == keys@.len(),
                0 <= j <= kn,
                mid2@ == crate::model::published(old(self)@),
                mid2.details_watchers == old(self).details_watchers,
                self.publish_interval == mid2.publish_interval,
                self.retention == mid2.retention,
                self.watchers == mid2.watchers,
                self.watchers@.len() <= old(self).watchers@.len(),
                subseq_of(mid2.watchers@, old(self).watchers@),
                self.all_metadata == mid2.all_metadata,
                self.new_metadata == mid2.new_metadata,
                self.tasks == mid2.tasks,
                self.stats == mid2.stats,
                self.task_ids == mid2.task_ids,
                self.temporality == mid2.temporality,
                self.wf(),
                self@ == mid2@,
                forall|j1: int, j2: int| 0 <= j1 < j2 < kn ==> keys@[j1] != keys@[j2],
                forall|k: u64|
                    #[trigger] self.details_watchers.as_map().dom().contains(k) ==> mid2.details_watchers.as_map().dom().contains(k),
                forall|jj: int|
                    j <= jj < kn && self.details_watchers.as_map().dom().contains(
                        #[trigger] keys@[jj],
                    ) ==> self.details_watchers.as_map()[keys@[jj]]
                        == mid2.details_watchers.as_map()[keys@[jj]],
                forall|k: u64|
                    #[trigger] self.details_watchers.as_map().dom().contains(k) ==> ((
                    self@.stats.dom().contains(k) && subseq_of(
                        self.details_watchers.as_map()[k]@,
                        mid2.details_watchers.as_map()[k]@,
                    )) || (exists|jj: int| j <= jj < kn && keys@[jj] == k)),
            decreases kn - j,
        {
            let key = keys[j];
            match self.details_watchers.take(key) {
                Some(ws) => {
                    match self.make_details(key, now) {
                        Some(details) => {
                            let kept = deliver(ws, &details);
                            if kept.len() > 0 {
                                self.details_watchers.insert(key, kept);
                            }
                        },
                        None => {
                            // The task's statistics are gone: the feed ends.
                        },
                    }
                },
                None => {},
            }
            j += 1;
        }
        proof {
            assert(self@ == crate::model::published(old(self)@));
        }
    }
}

/// `xs` is an order-preserving subsequence of `ys`: its elements appear in
/// `ys` at strictly increasing positions.
pub open spec fn subseq_of<T>(xs: Seq<T>, ys: Seq<T>) -> bool {
    exists|picks: Seq<int>|
        #![trigger picks.len()]
        {
            &&& picks.len() == xs.len()
            &&& forall|i: int|
                0 <= i < picks.len() ==> 0 <= #[trigger] picks[i] < ys.len() && xs[i]
                    == ys[picks[i]]
            &&& forall|i: int, j: int| 0 <= i < j < picks.len() ==> picks[i] < picks[j]
        }
}

/// Offer `message` to every sink once, in order, and keep exactly the
/// sinks that accepted it: the kept list is an order-preserving
/// subsequence of the offered one. Which sinks accept is the channels'
/// outside answer.
fn deliver<T: Clone>(sinks: Vec<Watch<T>>, message: &T) -> (kept: Vec<Watch<T>>)
    ensures
        kept@.len() <= sinks@.len(),
        subseq_of(kept@, sinks@),
{
    let ghost all = sinks@;
    let mut rem = sinks;
    let mut kept: Vec<Watch<T>> = Vec::new();
    let ghost mut picks: Seq<int> = Seq::empty();
    proof {
        assert(rem@ =~= all.skip(0));
    }
    while rem.len() > 0
        invariant
            rem@.len() <= all.len(),
            kept@.len() + rem@.len() <= all.len(),
            rem@ == all.skip(all.len() - rem@.len()),
            picks.len() == kept@.len(),
            forall|i: int|
                0 <= i < picks.len() ==> 0 <= #[trigger] picks[i] < all.len() - rem@.len()
                    && kept@[i] == all[picks[i]],
            forall|i: int, j: int| 0 <= i < j < picks.len() ==> picks[i] < picks[j],
        decreases rem@.len(),
    {
        let ghost p = all.len() - rem@.len();
        let w = rem.remove(0);
        proof {
            assert(w == all[p]);
            assert(rem@ =~= all.skip(all.len() - rem@.len()));
        }
        if w.update(message) {
            kept.push(w);
            proof {
                picks = picks.push(p);
            }
        }
    }
    proof {
        assert(subseq_of(kept@, all));
    }
    kept
}

impl Aggregator {
    /// Evict closed tasks under the retention policy: a closed task's
    /// statistics leave when retention has expired, or when their final
    /// state is undelivered but nobody is watching. When anything was
    /// dropped, task records without statistics and id mappings without
    /// task records are compacted away in turn.
    #[verifier::rlimit(50)]
    pub fn drop_closed_tasks(&mut self, now: u64)
        requires
            old(self).wf(),
        ensures
            final(self).wf(),
            final(self).publish_interval == old(self).publish_interval,
            final(self).retention == old(self).retention,
            final(self).watchers == old(self).watchers,
            final(self).details_watchers == old(self).details_watchers,
            crate::model::swept(
                old(self)@,
                final(self)@,
                old(self).watchers@.len() > 0,
                now,
                old(self).retention,
            ),
            (!crate::model::dropped_any(
                old(self)@,
                old(self).watchers@.len() > 0,
                now,
                old(self).retention,
            ) ==> *final(self) == *old(self)),
    {
        let ghost pre = *self;
        let has_watchers = self.watchers.len() > 0;
        let ghost hw = old(self).watchers@.len() > 0;
        let ghost ret = old(self).retention;

        // First pass: find the statistics entries the policy lets go.
        let mut to_drop: Vec<u64> = Vec::new();
        let sn: usize = self.stats.len();
        let mut i: usize = 0;
        while i < sn
            invariant
                pre == *old(self),
                *self == pre,
                hw == (pre.watchers@.len() > 0),
                has_watchers == hw,
                ret == pre.retention,
                self.wf(),
                sn == self.stats.spec_len(),
                0 <= i <= sn,
                forall|x: u64|
                    #[trigger] to_drop@.contains(x) ==> pre@.stats.dom().contains(x)
                        && crate::model::should_drop(
                        pre@.stats[x],
                        pre@.stats_dirty.contains(x),
                        hw,
                        now,
                        ret,
                    ),
                forall|j: int|
                    0 <= j < i ==> (crate::model::should_drop(
                        pre.stats.entries@[j].val@,
                        pre.stats.entries@[j].dirty,
                        hw,
                        now,
                        ret,
                    ) <==> to_drop@.contains(pre.stats.entries@[j].key)),
            decreases sn - i,
        {
            let k = self.stats.key_at(i);
            let d = self.stats.dirty_at(i);
            let sd: bool = match self.stats.val_at(i).closed_at {
                Some(closed) => (d && !has_watchers) || sat_sub_u64(now, closed) > self.retention,
                None => false,
            };
            proof {
                self.stats.lemma_idx(k, i as int);
                assert(pre@.stats[k] == pre.stats.entries@[i as int].val@);
                assert(pre@.stats_dirty.contains(k) <==> pre.stats.entries@[i as int].dirty);
            }
            if sd {
                proof {
                    crate::task_data::lemma_push_contains(to_drop@, k);
                }
                to_drop.push(k);
            }
            i += 1;
        }
        proof {
            assert forall|id: u64|
                pre@.stats.dom().contains(id) && crate::model::should_drop(
                    pre@.stats[id],
                    pre@.stats_dirty.contains(id),
                    hw,
                    now,
                    ret,
                ) implies #[trigger] to_drop@.contains(id) by {
                let j = pre.stats.idx_of(id);
                assert(pre.stats.entries@[j].key == id);
                assert(pre@.stats[id] == pre.stats.entries@[j].val@);
                assert(pre@.stats_dirty.contains(id) <==> pre.stats.entries@[j].dirty);
            }
        }

        if to_drop.len() > 0 {
            // Second pass: evict them.
            let dn: usize = to_drop.len();
            let mut k: usize = 0;
            while k < dn
                invariant
                    pre == *old(self),
                    dn == to_drop@.len(),
                    0 <= k <= dn,
                    self.stats.wf(),
                    self.tasks == pre.tasks,
                    self.task_ids == pre.task_ids,
                    self.watchers == pre.watchers,
                    self.details_watchers == pre.details_watchers,
                    self.all_metadata == pre.all_metadata,
                    self.new_metadata == pre.new_metadata,
                    self.temporality == pre.temporality,
                    self.publish_interval == pre.publish_interval,
                    self.retention == pre.retention,
                    forall|id: u64|
                        #[trigger] self.stats.as_map().dom().contains(id) <==> (
                        pre.stats.as_map().dom().contains(id) && !to_drop@.take(
                            k as int,
                        ).contains(id)),
                    forall|id: u64|
                        #[trigger] self.stats.as_map().dom().contains(id)
                            ==> self.stats.as_map()[id] == pre.stats.as_map()[id],
                    forall|id: u64|
                        #[trigger] self.stats.dirty_keys().contains(id) <==> (
                        pre.stats.dirty_keys().contains(id)
                            && self.stats.as_map().dom().contains(id)),
                decreases dn - k,
            {
                let id = to_drop[k];
                self.stats.take(id);
                proof {
                    assert(to_drop@.take(k + 1) =~= to_drop@.take(k as int).push(
                        to_drop@[k as int],
                    ));
                    crate::task_data::lemma_push_contains(to_drop@.take(k as int), to_drop@[k as int]);
                }
                k += 1;
            }
            proof {
                assert(to_drop@.take(dn as int) =~= to_drop@);
                assert(to_drop@.contains(to_drop@[0]));
                assert(crate::model::dropped_any(pre@, hw, now, ret));
            }
            let ghost pre2 = *self;
            // Third pass: task records whose statistics are gone.
            let mut dead_tasks: Vec<u64> = Vec::new();
            let tn: usize = self.tasks.len();
            let mut a: usize = 0;
            while a < tn
                invariant
                    *self == pre2,
                    self.wf(),
                    tn == self.tasks.spec_len(),
                    0 <= a <= tn,
                    forall|x: u64|
                        #[trigger] dead_tasks@.contains(x) ==> self.tasks.as_map().dom().contains(
                            x,
                        ) && !self.stats.as_map().dom().contains(x),
                    forall|j: int|
                        0 <= j < a ==> (!self.stats.as_map().dom().contains(
                            self.tasks.entries@[j].key,
                        ) ==> dead_tasks@.contains(self.tasks.entries@[j].key)),
                decreases tn - a,
            {
                let tk = self.tasks.key_at(a);
                proof {
                    self.tasks.lemma_idx(tk, a as int);
                }
                if !self.stats.contains(tk) {
                    proof {
                        crate::task_data::lemma_push_contains(dead_tasks@, tk);
                    }
                    dead_tasks.push(tk);
                }
                a += 1;
            }
            let ddn: usize = dead_tasks.len();
            let mut c: usize = 0;
            while c < ddn
                invariant
                    pre2.stats == self.stats,
                    ddn == dead_tasks@.len(),
                    0 <= c <= ddn,
                    self.tasks.wf(),
                    self.stats.wf(),
                    self.task_ids == pre2.task_ids,
                    self.watchers == pre2.watchers,
                    self.details_watchers == pre2.details_watchers,
                    self.all_metadata == pre2.all_metadata,
                    self.new_metadata == pre2.new_metadata,
                    self.temporality == pre2.temporality,
                    self.publish_interval == pre2.publish_interval,
                    self.retention == pre2.retention,
                    forall|x: u64|
                        #[trigger] dead_tasks@.contains(x) ==> !self.stats.as_map().dom().contains(
                            x,
                        ),
                    forall|j: int|
                        0 <= j < pre2.tasks.entries@.len() ==> (
                        !self.stats.as_map().dom().contains(pre2.tasks.entries@[j].key)
                            ==> dead_tasks@.contains(pre2.tasks.entries@[j].key)),
                    pre2.tasks.wf(),
                    forall|id: u64|
                        #[trigger] self.tasks.as_map().dom().contains(id) <==> (
                        pre2.tasks.as_map().dom().contains(id) && !dead_tasks@.take(
                            c as int,
                        ).contains(id)),
                    forall|id: u64|
                        #[trigger] self.tasks.as_map().dom().contains(id)
                            ==> self.tasks.as_map()[id] == pre2.tasks.as_map()[id],
                    forall|id: u64|
                        #[trigger] self.tasks.dirty_keys().contains(id) <==> (
                        pre2.tasks.dirty_keys().contains(id) && self.tasks.as_map().dom().contains(
                            id,
                        )),
                decreases ddn - c,
            {
                let id = dead_tasks[c];
                self.tasks.take(id);
                proof {
                    assert(dead_tasks@.take(c + 1) =~= dead_tasks@.take(c as int).push(
                        dead_tasks@[c as int],
                    ));
                    crate::task_data::lemma_push_contains(
                        dead_tasks@.take(c as int),
                        dead_tasks@[c as int],
                    );
                }
                c += 1;
            }
            proof {
                assert(dead_tasks@.take(ddn as int) =~= dead_tasks@);
            }

            // Fourth pass: id mappings whose task record is gone.
            let ghost pre3 = *self;
            let mut dead_spans: Vec<u64> = Vec::new();
            let mn: usize = self.task_ids.map.len();
            let mut e: usize = 0;
            while e < mn
                invariant
                    *self == pre3,
                    self.wf(),
                    mn == self.task_ids.map.spec_len(),
                    0 <= e <= mn,
                    forall|x: u64|
                        #[trigger] dead_spans@.contains(x)
                            ==> self.task_ids.map.as_map().dom().contains(x)
                            && !self.tasks.as_map().dom().contains(self.task_ids.map.as_map()[x]),
                    forall|j: int|
                        0 <= j < e ==> (!self.tasks.as_map().dom().contains(
                            self.task_ids.map.entries@[j].val,
                        ) ==> dead_spans@.contains(self.task_ids.map.entries@[j].key)),
                decreases mn - e,
            {
                let sp = self.task_ids.map.key_at(e);
                let tid = *self.task_ids.map.val_at(e);
                proof {
                    self.task_ids.map.lemma_idx(sp, e as int);
                }
                if !self.tasks.contains(tid) {
                    proof {
                        crate::task_data::lemma_push_contains(dead_spans@, sp);
                    }
                    dead_spans.push(sp);
                }
                e += 1;
            }
            let sdn: usize = dead_spans.len();
            let mut g: usize = 0;
            while g < sdn
                invariant
                    pre3.tasks == self.tasks,
                    pre3.stats == self.stats,
                    sdn == dead_spans@.len(),
                    0 <= g <= sdn,
                    self.tasks.wf(),
                    self.stats.wf(),
                    self.task_ids.map.wf(),
                    self.task_ids.next == pre3.task_ids.next,
                    self.watchers == pre3.watchers,
                    self.details_watchers == pre3.details_watchers,
                    self.all_metadata == pre3.all_metadata,
                    self.new_metadata == pre3.new_metadata,
                    self.temporality == pre3.temporality,
                    self.publish_interval == pre3.publish_interval,
                    self.retention == pre3.retention,
                    self.details_watchers.wf(),
                    forall|x: u64|
                        #[trigger] dead_spans@.contains(x) ==> !self.tasks.as_map().dom().contains(
                            pre3.task_ids.map.as_map()[x],
                        ) && pre3.task_ids.map.as_map().dom().contains(x),
                    forall|j: int|
                        0 <= j < pre3.task_ids.map.entries@.len() ==> (
                        !self.tasks.as_map().dom().contains(pre3.task_ids.map.entries@[j].val)
                            ==> dead_spans@.contains(pre3.task_ids.map.entries@[j].key)),
                    pre3.task_ids.map.wf(),
                    forall|sp: u64|
                        #[trigger] self.task_ids.map.as_map().dom().contains(sp) <==> (
                        pre3.task_ids.map.as_map().dom().contains(sp) && !dead_spans@.take(
                            g as int,
                        ).contains(sp)),
                    forall|sp: u64|
                        #[trigger] self.task_ids.map.as_map().dom().contains(sp)
                            ==> self.task_ids.map.as_map()[sp] == pre3.task_ids.map.as_map()[sp],
                decreases sdn - g,
            {
                let sp = dead_spans[g];
                self.task_ids.map.take(sp);
                proof {
                    assert(dead_spans@.take(g + 1) =~= dead_spans@.take(g as int).push(
                        dead_spans@[g as int],
                    ));
                    crate::task_data::lemma_push_contains(
                        dead_spans@.take(g as int),
                        dead_spans@[g as int],
                    );
                }
                g += 1;
            }
            proof {
                assert(dead_spans@.take(sdn as int) =~= dead_spans@);
            }
        } else {
            proof {
                assert forall|id: u64|
                    !(pre@.stats.dom().contains(id) && crate::model::should_drop(
                        pre@.stats[id],
                        pre@.stats_dirty.contains(id),
                        hw,
                        now,
                        ret,
                    )) by {
                    if pre@.stats.dom().contains(id) && crate::model::should_drop(
                        pre@.stats[id],
                        pre@.stats_dirty.contains(id),
                        hw,
                        now,
                        ret,
                    ) {
                        assert(to_drop@.contains(id));
                    }
                }
                assert(!crate::model::dropped_any(pre@, hw, now, ret));
            }
        }
    }
}


/// What one iteration of the event loop does to the aggregation state:
/// some trace of buffered events is applied; on a live publish tick with
/// subscribers present the result is published; the sweep relates that to
/// the final state.
pub open spec fn one_pass(
    m0: AggModel,
    watcher_count: nat,
    publish_tick: bool,
    m1: AggModel,
    hw: bool,
    now: u64,
    retention: u64,
    es: Seq<Event>,
) -> bool {
    crate::model::swept(
        if publish_tick && m0.live && watcher_count > 0 {
            crate::model::published(crate::model::fold_steps(m0, es))
        } else {
            crate::model::fold_steps(m0, es)
        },
        m1,
        hw,
        now,
        retention,
    )
}

impl Aggregator {
    /// One iteration of the event loop, after the waiting is done: drain
    /// every buffered event without awaiting; when the publish timer fired
    /// and the aggregator is live and anyone subscribes, publish; then
    /// sweep retention. True means the event channel closed and the
    /// aggregator terminates.
    pub fn run_once(
        &mut self,
        events: &mut tokio::sync::mpsc::Receiver<Event>,
        publish_tick: bool,
        now: u64,
    ) -> (closed: bool)
        requires
            old(self).wf(),
        ensures
            final(self).wf(),
            final(self).publish_interval == old(self).publish_interval,
            final(self).retention == old(self).retention,
            (closed ==> exists|es: Seq<Event>|
                final(self)@ == crate::model::fold_steps(old(self)@, es)),
            (!closed ==> exists|es: Seq<Event>, hw: bool|
                #[trigger] one_pass(
                    old(self)@,
                    old(self).watchers@.len(),
                    publish_tick,
                    final(self)@,
                    hw,
                    now,
                    old(self).retention,
                    es,
                )),
    {
        let ghost pre = *self;
        let should_send = publish_tick && matches!(self.temporality, Temporality::Live);
        if self.drain_events(events) {
            return true;
        }
        let ghost drained = *self;
        if should_send && self.watchers.len() > 0 {
            self.publish(now);
        }
        let ghost hw = self.watchers@.len() > 0;
        let ghost before_sweep = *self;
        self.drop_closed_tasks(now);
        proof {
            let es = choose|es: Seq<Event>|
                drained@ == crate::model::fold_steps(pre@, es);
            assert(crate::model::swept(before_sweep@, self@, hw, now, pre.retention));
            assert(one_pass(
                pre@,
                pre.watchers@.len(),
                publish_tick,
                self@,
                hw,
                now,
                pre.retention,
                es,
            ));
        }
        false
    }
}

} // verus!
