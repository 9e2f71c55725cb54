use vstd::prelude::*;

use crate::event::{Event, WakeOp};
use crate::ids::spec_alloc_id;
use crate::stats::{default_stats, sat_add, sat_sub, StatsModel, TaskModel};

verus! {

/// A keyed collection, each record abstracted to its view.
pub open spec fn view_map<V: View>(m: Map<u64, V>) -> Map<u64, V::V> {
    Map::new(|k: u64| m.dom().contains(k), |k: u64| m[k]@)
}

/// The aggregator's aggregation state, mathematically. Subscriber sinks are
/// not part of the model: what they accept depends on their channels.
pub struct AggModel {
    /// Every metadata descriptor seen, for initial snapshots.
    pub all_metadata: Seq<u64>,
    /// Descriptors registered since the last publish.
    pub new_metadata: Seq<u64>,
    pub tasks: Map<u64, TaskModel>,
    pub tasks_dirty: Set<u64>,
    pub stats: Map<u64, StatsModel>,
    pub stats_dirty: Set<u64>,
    /// Span identifier to dense task id.
    pub ids: Map<u64, u64>,
    pub next_id: u64,
    /// Whether the periodic timer publishes.
    pub live: bool,
}

/// A poll interval opens: on the outermost entry the poll counter advances
/// and the start time is taken.
pub open spec fn step_enter(s: StatsModel, at: u64) -> StatsModel {
    let s1 = if s.current_polls == 0 {
        StatsModel {
            last_poll_started: Some(at),
            first_poll: if s.first_poll is Some {
                s.first_poll
            } else {
                Some(at)
            },
            polls: sat_add(s.polls, 1),
            ..s
        }
    } else {
        s
    };
    StatsModel { current_polls: sat_add(s1.current_polls, 1), ..s1 }
}

/// A poll interval closes: on the transition of the re-entrancy counter
/// from one to zero the elapsed time is charged to busy time and recorded.
pub open spec fn step_exit(s: StatsModel, at: u64) -> StatsModel {
    if s.current_polls == 1 {
        match s.last_poll_started {
            Some(started) => {
                let elapsed = sat_sub(at, started);
                StatsModel {
                    current_polls: 0,
                    last_poll_ended: Some(at),
                    busy_time: sat_add(s.busy_time, elapsed),
                    poll_times: s.poll_times.insert(elapsed),
                    ..s
                }
            },
            None => StatsModel { current_polls: 0, ..s },
        }
    } else {
        StatsModel { current_polls: sat_sub(s.current_polls, 1), ..s }
    }
}

/// A waker operation. Waking by value consumes the waker without running
/// its drop handler, so it counts as a drop too: live wakers are always
/// `waker_clones - waker_drops`.
pub open spec fn step_wake(s: StatsModel, op: WakeOp, at: u64) -> StatsModel {
    match op {
        WakeOp::Wake => StatsModel {
            wakes: sat_add(s.wakes, 1),
            last_wake: Some(at),
            waker_drops: sat_add(s.waker_drops, 1),
            ..s
        },
        WakeOp::WakeByRef => StatsModel { wakes: sat_add(s.wakes, 1), last_wake: Some(at), ..s },
        WakeOp::CloneWaker => StatsModel { waker_clones: sat_add(s.waker_clones, 1), ..s },
        WakeOp::DropWaker => StatsModel { waker_drops: sat_add(s.waker_drops, 1), ..s },
    }
}

/// How one event transforms the aggregation state.
pub open spec fn step(m: AggModel, e: Event) -> AggModel {
    match e {
        Event::Metadata { meta } => AggModel {
            all_metadata: m.all_metadata.push(meta),
            new_metadata: m.new_metadata.push(meta),
            ..m
        },
        Event::Spawn { span, meta, at, fields } => {
            let (id, ids2, next2) = spec_alloc_id(m.ids, m.next_id, span);
            AggModel {
                ids: ids2,
                next_id: next2,
                tasks: m.tasks.insert(id, TaskModel { meta, fields: fields@ }),
                tasks_dirty: m.tasks_dirty.insert(id),
                stats: m.stats.insert(id, StatsModel { created_at: Some(at), ..default_stats() }),
                stats_dirty: m.stats_dirty.insert(id),
                ..m
            }
        },
        Event::Enter { span, at } => {
            let (id, ids2, next2) = spec_alloc_id(m.ids, m.next_id, span);
            let s0 = if m.stats.dom().contains(id) {
                m.stats[id]
            } else {
                default_stats()
            };
            AggModel {
                ids: ids2,
                next_id: next2,
                stats: m.stats.insert(id, step_enter(s0, at)),
                stats_dirty: m.stats_dirty.insert(id),
                ..m
            }
        },
        Event::Exit { span, at } => {
            let (id, ids2, next2) = spec_alloc_id(m.ids, m.next_id, span);
            let s0 = if m.stats.dom().contains(id) {
                m.stats[id]
            } else {
                default_stats()
            };
            AggModel {
                ids: ids2,
                next_id: next2,
                stats: m.stats.insert(id, step_exit(s0, at)),
                stats_dirty: m.stats_dirty.insert(id),
                ..m
            }
        },
        Event::Close { span, at } => {
            let (id, ids2, next2) = spec_alloc_id(m.ids, m.next_id, span);
            let s0 = if m.stats.dom().contains(id) {
                m.stats[id]
            } else {
                default_stats()
            };
            // The close timestamp is write-once: a repeated close keeps the
            // first one.
            let closed = if s0.closed_at is Some {
                s0.closed_at
            } else {
                Some(at)
            };
            AggModel {
                ids: ids2,
                next_id: next2,
                stats: m.stats.insert(id, StatsModel { closed_at: closed, ..s0 }),
                stats_dirty: m.stats_dirty.insert(id),
                ..m
            }
        },
        Event::Waker { span, op, at } => {
            // Wakers may outlive their task: an op whose span is unknown,
            // or whose task has no statistics, materializes no state at
            // all - not even an id mapping.
            if m.ids.dom().contains(span) && m.stats.dom().contains(m.ids[span]) {
                let id = m.ids[span];
                AggModel {
                    stats: m.stats.insert(id, step_wake(m.stats[id], op, at)),
                    stats_dirty: m.stats_dirty.insert(id),
                    ..m
                }
            } else {
                m
            }
        },
    }
}

/// The state after a whole trace of events, applied in order.
pub open spec fn fold_steps(m: AggModel, es: Seq<Event>) -> AggModel
    decreases es.len(),
{
    if es.len() == 0 {
        m
    } else {
        fold_steps(step(m, es[0]), es.drop_first())
    }
}

pub proof fn lemma_fold_push(m: AggModel, es: Seq<Event>, e: Event)
    ensures
        fold_steps(m, es.push(e)) == step(fold_steps(m, es), e),
    decreases es.len(),
{
    if es.len() == 0 {
        assert(es.push(e)[0] == e);
        assert(es.push(e).drop_first() =~= Seq::<Event>::empty());
        assert(fold_steps(m, es.push(e)) == fold_steps(step(m, e), Seq::<Event>::empty()));
        assert(fold_steps(step(m, e), Seq::<Event>::empty()) == step(m, e));
        assert(fold_steps(m, es) == m);
    } else {
        assert(es.push(e)[0] == es[0]);
        assert(es.push(e).drop_first() =~= es.drop_first().push(e));
        assert(fold_steps(m, es.push(e)) == fold_steps(step(m, es[0]), es.drop_first().push(e)));
        lemma_fold_push(step(m, es[0]), es.drop_first(), e);
        assert(fold_steps(m, es) == fold_steps(step(m, es[0]), es.drop_first()));
    }
}


/// What a publish leaves behind: fresh-metadata drained, every entry clean.
pub open spec fn published(m: AggModel) -> AggModel {
    AggModel { new_metadata: Seq::empty(), tasks_dirty: Set::empty(), stats_dirty: Set::empty(), ..m }
}

/// Whether retention lets an entry go: a closed task leaves when its final
/// state cannot reach anyone (dirty with nobody watching), or when it has
/// been closed for longer than the retention window.
pub open spec fn should_drop(
    s: StatsModel,
    dirty: bool,
    has_watchers: bool,
    now: u64,
    retention: u64,
) -> bool {
    match s.closed_at {
        Some(closed) => (dirty && !has_watchers) || sat_sub(now, closed) > retention,
        None => false,
    }
}

/// Whether this sweep would evict anything.
pub open spec fn dropped_any(m: AggModel, has_watchers: bool, now: u64, retention: u64) -> bool {
    exists|id: u64|
        m.stats.dom().contains(id) && should_drop(
            m.stats[id],
            m.stats_dirty.contains(id),
            has_watchers,
            now,
            retention,
        )
}


/// How one retention sweep relates the state before it to the state after
/// it: statistics are filtered by the eviction rule; when anything was
/// dropped, task records without statistics and id mappings without task
/// records are compacted away; otherwise nothing changes at all.
pub open spec fn swept(
    m0: AggModel,
    m1: AggModel,
    has_watchers: bool,
    now: u64,
    retention: u64,
) -> bool {
    &&& m1.all_metadata == m0.all_metadata
    &&& m1.new_metadata == m0.new_metadata
    &&& m1.next_id == m0.next_id
    &&& m1.live == m0.live
    &&& forall|id: u64|
        #[trigger] m0.stats.dom().contains(id) ==> (m1.stats.dom().contains(id)
            <==> !should_drop(m0.stats[id], m0.stats_dirty.contains(id), has_watchers, now, retention))
    &&& forall|id: u64|
        #[trigger] m1.stats.dom().contains(id) ==> m0.stats.dom().contains(id) && m1.stats[id]
            == m0.stats[id]
    &&& forall|id: u64|
        #[trigger] m1.stats_dirty.contains(id) <==> (m0.stats_dirty.contains(id)
            && m1.stats.dom().contains(id))
    &&& (dropped_any(m0, has_watchers, now, retention) ==> {
        &&& forall|id: u64|
            #[trigger] m1.tasks.dom().contains(id) <==> (m0.tasks.dom().contains(id)
                && m1.stats.dom().contains(id))
        &&& forall|id: u64|
            #[trigger] m1.tasks.dom().contains(id) ==> m1.tasks[id] == m0.tasks[id]
        &&& forall|id: u64|
            #[trigger] m1.tasks_dirty.contains(id) <==> (m0.tasks_dirty.contains(id)
                && m1.tasks.dom().contains(id))
        &&& forall|sp: u64|
            #[trigger] m1.ids.dom().contains(sp) <==> (m0.ids.dom().contains(sp)
                && m1.tasks.dom().contains(m0.ids[sp]))
        &&& forall|sp: u64| #[trigger] m1.ids.dom().contains(sp) ==> m1.ids[sp] == m0.ids[sp]
    })
    &&& (!dropped_any(m0, has_watchers, now, retention) ==> m1 == m0)
}

} // verus!
