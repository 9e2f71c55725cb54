use vstd::prelude::*;

use crate::aggregator::{stat_row, task_row};
use crate::event::Event;
use crate::ids::spec_alloc_id;
use crate::model::{fold_steps, step, AggModel};
use crate::stats::StatsProto;
use crate::task_data::{dirty_selected, TdEntry};

verus! {

// ===== every task record is backed by statistics =====

/// Every task id with a static record also has a statistics record.
pub open spec fn tasks_covered(m: AggModel) -> bool {
    forall|id: u64| #[trigger] m.tasks.dom().contains(id) ==> m.stats.dom().contains(id)
}

/// One event cannot orphan a task record: a spawn writes both maps, and no
/// other event removes statistics.
pub proof fn lemma_step_preserves_cover(m: AggModel, e: Event)
    requires
        tasks_covered(m),
    ensures
        tasks_covered(step(m, e)),
{
}

/// After any trace of events, every task record still has statistics; only
/// retention eviction, which clears both maps in order, can remove them.
pub proof fn lemma_trace_preserves_cover(m: AggModel, es: Seq<Event>)
    requires
        tasks_covered(m),
    ensures
        tasks_covered(fold_steps(m, es)),
    decreases es.len(),
{
    if es.len() > 0 {
        lemma_step_preserves_cover(m, es[0]);
        lemma_trace_preserves_cover(step(m, es[0]), es.drop_first());
    }
}

// ===== poll counting =====

/// Whether `e` is an `Enter` that lands on task `id` while no poll of it is
/// open: exactly the occasions on which the poll counter advances.
pub open spec fn is_starting_enter(m: AggModel, e: Event, id: u64) -> bool {
    match e {
        Event::Enter { span, at } => {
            let (eid, ids2, next2) = spec_alloc_id(m.ids, m.next_id, span);
            eid == id && (!m.stats.dom().contains(id) || m.stats[id].current_polls == 0)
        },
        _ => false,
    }
}

/// How many times along the trace an `Enter` opens a fresh poll of `id`.
pub open spec fn starting_enters(m: AggModel, es: Seq<Event>, id: u64) -> nat
    decreases es.len(),
{
    if es.len() == 0 {
        0
    } else {
        (if is_starting_enter(m, es[0], id) {
            1nat
        } else {
            0nat
        }) + starting_enters(step(m, es[0]), es.drop_first(), id)
    }
}

pub open spec fn polls_of(m: AggModel, id: u64) -> u64 {
    if m.stats.dom().contains(id) {
        m.stats[id].polls
    } else {
        0
    }
}

/// The poll counter counts exactly the starting entries: over any trace
/// without spawns (a spawn replaces the record outright), the final count
/// is the initial count plus the number of entries that opened a poll,
/// as long as that sum does not overflow the counter.
pub proof fn lemma_poll_count(m: AggModel, es: Seq<Event>, id: u64)
    requires
        forall|j: int| 0 <= j < es.len() ==> !(#[trigger] es[j] is Spawn),
        polls_of(m, id) + starting_enters(m, es, id) <= u64::MAX,
    ensures
        polls_of(fold_steps(m, es), id) == polls_of(m, id) + starting_enters(m, es, id),
    decreases es.len(),
{
    if es.len() > 0 {
        let m2 = step(m, es[0]);
        assert(forall|j: int|
            0 <= j < es.drop_first().len() ==> !(#[trigger] es.drop_first()[j] is Spawn));
        assert(polls_of(m2, id) == polls_of(m, id) + (if is_starting_enter(m, es[0], id) {
            1int
        } else {
            0int
        }));
        lemma_poll_count(m2, es.drop_first(), id);
    }
}

// ===== waker accounting =====

/// No task has seen more waker drops than clones. Waking by value counts as
/// a drop, so `waker_clones - waker_drops` is the number of live wakers.
pub open spec fn waker_balanced(m: AggModel) -> bool {
    forall|id: u64| #[trigger] m.stats.dom().contains(id) ==> m.stats[id].waker_drops
        <= m.stats[id].waker_clones
}

/// Whether every waker consumption in the trace lands on a task that still
/// has a live waker. An unmatched drop (`Spawn` then `Waker::DropWaker`
/// with no clone before it) is the input on which balance would fail.
pub open spec fn waker_safe(m: AggModel, es: Seq<Event>) -> bool
    decreases es.len(),
{
    if es.len() == 0 {
        true
    } else {
        (match es[0] {
            Event::Waker { span, op, at } => {
                (op is Wake || op is DropWaker) && m.ids.dom().contains(span)
                    && m.stats.dom().contains(m.ids[span])
                    ==> m.stats[m.ids[span]].waker_drops < m.stats[m.ids[span]].waker_clones
            },
            _ => true,
        }) && waker_safe(step(m, es[0]), es.drop_first())
    }
}

pub proof fn lemma_waker_balance_step(m: AggModel, e: Event)
    requires
        waker_balanced(m),
        (match e {
            Event::Waker { span, op, at } => {
                (op is Wake || op is DropWaker) && m.ids.dom().contains(span)
                    && m.stats.dom().contains(m.ids[span])
                    ==> m.stats[m.ids[span]].waker_drops < m.stats[m.ids[span]].waker_clones
            },
            _ => true,
        }),
    ensures
        waker_balanced(step(m, e)),
{
}

/// Waker drops never exceed waker clones over any trace whose consumptions
/// are matched by earlier clones.
pub proof fn lemma_waker_balance(m: AggModel, es: Seq<Event>)
    requires
        waker_balanced(m),
        waker_safe(m, es),
    ensures
        waker_balanced(fold_steps(m, es)),
    decreases es.len(),
{
    if es.len() > 0 {
        lemma_waker_balance_step(m, es[0]);
        lemma_waker_balance(step(m, es[0]), es.drop_first());
    }
}

// ===== publishing is idempotent =====

/// A store with no dirty entry selects nothing for a publish.
pub proof fn lemma_dirty_selected_clean<V, T>(s: Seq<TdEntry<V>>, f: spec_fn(u64, V) -> T)
    requires
        forall|j: int| 0 <= j < s.len() ==> !(#[trigger] s[j].dirty),
    ensures
        dirty_selected(s, f) == Seq::<T>::empty(),
    decreases s.len(),
{
    if s.len() > 0 {
        assert(!s[0].dirty);
        lemma_dirty_selected_clean(s.drop_first(), f);
    }
}

/// Publishing twice with no intervening events produces no deltas the
/// second time: after a publish the fresh-metadata list and both dirty sets
/// are empty, so the next update the aggregator would build carries no
/// metadata, no task records and no statistics.
pub proof fn lemma_publish_idempotent(a: crate::aggregator::Aggregator)
    requires
        a.wf(),
        a@.new_metadata == Seq::<u64>::empty(),
        a@.tasks_dirty == Set::<u64>::empty(),
        a@.stats_dirty == Set::<u64>::empty(),
    ensures
        dirty_selected(a.tasks.entries@, task_row()) == Seq::<
            crate::stats::TaskProtoModel,
        >::empty(),
        dirty_selected(a.stats.entries@, stat_row()) == Seq::<(u64, StatsProto)>::empty(),
{
    assert forall|j: int| 0 <= j < a.tasks.entries@.len() implies !(
    #[trigger] a.tasks.entries@[j].dirty) by {
        let k = a.tasks.entries@[j].key;
        a.tasks.lemma_idx(k, j);
        assert(!a.tasks.dirty_keys().contains(k));
    }
    assert forall|j: int| 0 <= j < a.stats.entries@.len() implies !(
    #[trigger] a.stats.entries@[j].dirty) by {
        let k = a.stats.entries@[j].key;
        a.stats.lemma_idx(k, j);
        assert(!a.stats.dirty_keys().contains(k));
    }
    lemma_dirty_selected_clean(a.tasks.entries@, task_row());
    lemma_dirty_selected_clean(a.stats.entries@, stat_row());
}

// ===== metadata bookkeeping =====

/// The fresh-metadata list is always the tail of the full list: everything
/// registered since the last publish, in order.
pub open spec fn meta_suffix(m: AggModel) -> bool {
    m.new_metadata.len() <= m.all_metadata.len() && m.new_metadata == m.all_metadata.skip(
        m.all_metadata.len() - m.new_metadata.len(),
    )
}

pub proof fn lemma_step_preserves_meta_suffix(m: AggModel, e: Event)
    requires
        meta_suffix(m),
    ensures
        meta_suffix(step(m, e)),
{
    match e {
        Event::Metadata { meta } => {
            let m2 = step(m, e);
            assert(m2.new_metadata =~= m2.all_metadata.skip(
                m2.all_metadata.len() - m2.new_metadata.len(),
            ));
        },
        _ => {},
    }
}

/// Every descriptor in the fresh list is in the full list: the full list
/// only grows, and a publish only drains the fresh list.
pub proof fn lemma_trace_preserves_meta_suffix(m: AggModel, es: Seq<Event>)
    requires
        meta_suffix(m),
    ensures
        meta_suffix(fold_steps(m, es)),
    decreases es.len(),
{
    if es.len() > 0 {
        lemma_step_preserves_meta_suffix(m, es[0]);
        lemma_trace_preserves_meta_suffix(step(m, es[0]), es.drop_first());
    }
}


// ===== id allocator compaction =====

/// Soundness of the id allocator: distinct spans get distinct task ids,
/// every assigned id lies below the counter, and every task record's id
/// was assigned by the allocator.
pub open spec fn ids_sound(m: AggModel) -> bool {
    (forall|s1: u64, s2: u64|
        m.ids.dom().contains(s1) && m.ids.dom().contains(s2) && m.ids[s1] == m.ids[s2] ==> s1
            == s2) && (forall|sp: u64| #[trigger] m.ids.dom().contains(sp) ==> m.ids[sp]
        < m.next_id) && (forall|id: u64| #[trigger]
        m.tasks.dom().contains(id) ==> exists|sp: u64|
            m.ids.dom().contains(sp) && m.ids[sp] == id)
}

/// One event keeps the allocator sound, as long as the dense counter has
/// not reached its wrap-around point; at the wrap-around, id collisions
/// are left undefined.
pub proof fn lemma_step_preserves_ids_sound(m: AggModel, e: Event)
    requires
        ids_sound(m),
        m.next_id < u64::MAX,
    ensures
        ids_sound(step(m, e)),
{
    let m2 = step(m, e);
    assert forall|id: u64| #[trigger] m2.tasks.dom().contains(id) implies exists|sp: u64|
        m2.ids.dom().contains(sp) && m2.ids[sp] == id by {
        match e {
            Event::Spawn { span, meta, at, fields } => {
                let (nid, ids2, next2) = spec_alloc_id(m.ids, m.next_id, span);
                if id == nid {
                    assert(m2.ids.dom().contains(span) && m2.ids[span] == id);
                } else {
                    assert(m.tasks.dom().contains(id));
                    let sp = choose|sp: u64| m.ids.dom().contains(sp) && m.ids[sp] == id;
                    assert(m2.ids.dom().contains(sp) && m2.ids[sp] == id);
                }
            },
            _ => {
                assert(m.tasks.dom().contains(id));
                let sp = choose|sp: u64| m.ids.dom().contains(sp) && m.ids[sp] == id;
                assert(m2.ids.dom().contains(sp) && m2.ids[sp] == id);
            },
        }
    }
}

/// A store of unique task ids that stand in one-to-one correspondence with
/// the task records holds exactly as many entries as the task store.
proof fn lemma_id_compaction(ids: crate::task_data::TaskData<u64>, tasks: crate::task_data::TaskData<crate::stats::Task>)
    requires
        ids.wf(),
        tasks.wf(),
        forall|i: int, j: int|
            0 <= i < j < ids.entries@.len() ==> ids.entries@[i].val != ids.entries@[j].val,
        forall|i: int|
            0 <= i < ids.entries@.len() ==> tasks.spec_contains(#[trigger] ids.entries@[i].val),
        forall|id: u64|
            #[trigger] tasks.spec_contains(id) ==> exists|i: int|
                0 <= i < ids.entries@.len() && ids.entries@[i].val == id,
    ensures
        ids.spec_len() == tasks.spec_len(),
{
    let vseq = ids.entries@.map_values(|e: TdEntry<u64>| e.val);
    let kseq = tasks.entries@.map_values(|e: TdEntry<crate::stats::Task>| e.key);
    assert(vseq.no_duplicates());
    assert(kseq.no_duplicates());
    assert forall|x: u64| #[trigger] vseq.to_set().contains(x) implies kseq.to_set().contains(
        x,
    ) by {
        let i = choose|i: int| 0 <= i < vseq.len() && vseq[i] == x;
        assert(tasks.spec_contains(x));
        let j = tasks.idx_of(x);
        assert(kseq[j] == x);
    }
    assert forall|x: u64| #[trigger] kseq.to_set().contains(x) implies vseq.to_set().contains(
        x,
    ) by {
        let j = choose|j: int| 0 <= j < kseq.len() && kseq[j] == x;
        assert(tasks.spec_contains(x)) by {
            tasks.lemma_idx(x, j);
        }
        let i = choose|i: int| 0 <= i < ids.entries@.len() && ids.entries@[i].val == x;
        assert(vseq[i] == x);
    }
    assert(vseq.to_set() =~= kseq.to_set());
    vseq.unique_seq_to_set();
    kseq.unique_seq_to_set();
}

/// After a retention sweep that dropped something, the id table is exactly
/// as large as the task store: the sweep keeps precisely the mappings
/// whose task record survived, and the allocator assigned every surviving
/// record's id.
pub proof fn lemma_gc_id_count(m0: AggModel, a1: crate::aggregator::Aggregator)
    requires
        a1.wf(),
        // allocator soundness before the sweep
        forall|s1: u64, s2: u64|
            m0.ids.dom().contains(s1) && m0.ids.dom().contains(s2) && m0.ids[s1] == m0.ids[s2]
                ==> s1 == s2,
        forall|id: u64|
            #[trigger] m0.tasks.dom().contains(id) ==> exists|sp: u64|
                m0.ids.dom().contains(sp) && m0.ids[sp] == id,
        // what the sweep guarantees of the surviving state
        forall|sp: u64|
            #[trigger] a1@.ids.dom().contains(sp) <==> (m0.ids.dom().contains(sp)
                && a1@.tasks.dom().contains(m0.ids[sp])),
        forall|sp: u64| #[trigger] a1@.ids.dom().contains(sp) ==> a1@.ids[sp] == m0.ids[sp],
        forall|id: u64| #[trigger] a1@.tasks.dom().contains(id) ==> m0.tasks.dom().contains(id),
    ensures
        a1.task_ids.map.spec_len() == a1.tasks.spec_len(),
{
    let ids = a1.task_ids.map;
    let tasks = a1.tasks;
    assert forall|i: int, j: int|
        0 <= i < j < ids.entries@.len() implies ids.entries@[i].val != ids.entries@[j].val by {
        let k1 = ids.entries@[i].key;
        let k2 = ids.entries@[j].key;
        ids.lemma_idx(k1, i);
        ids.lemma_idx(k2, j);
        assert(a1@.ids.dom().contains(k1) && a1@.ids[k1] == ids.entries@[i].val);
        assert(a1@.ids.dom().contains(k2) && a1@.ids[k2] == ids.entries@[j].val);
    }
    assert forall|i: int|
        0 <= i < ids.entries@.len() implies tasks.spec_contains(#[trigger] ids.entries@[i].val) by {
        let k1 = ids.entries@[i].key;
        ids.lemma_idx(k1, i);
        assert(a1@.ids.dom().contains(k1));
        assert(a1@.tasks.dom().contains(m0.ids[k1]));
    }
    assert forall|id: u64| #[trigger] tasks.spec_contains(id) implies exists|i: int|
        0 <= i < ids.entries@.len() && ids.entries@[i].val == id by {
        assert(a1@.tasks.dom().contains(id));
        assert(m0.tasks.dom().contains(id));
        let sp = choose|sp: u64| m0.ids.dom().contains(sp) && m0.ids[sp] == id;
        assert(a1@.ids.dom().contains(sp));
        let i = ids.idx_of(sp);
        assert(ids.entries@[i].val == a1@.ids[sp]);
    }
    lemma_id_compaction(ids, tasks);
}

} // verus!
