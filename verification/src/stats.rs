use vstd::prelude::*;
use vstd::multiset::Multiset;

use crate::event::Field;
use crate::hist::PollHist;

verus! {

/// Saturating addition on 64-bit counters and durations.
pub open spec fn sat_add(a: u64, b: u64) -> u64 {
    if a + b > u64::MAX {
        u64::MAX
    } else {
        (a + b) as u64
    }
}

/// Saturating subtraction: clock skew yields zero, never a panic.
pub open spec fn sat_sub(a: u64, b: u64) -> u64 {
    if a >= b {
        (a - b) as u64
    } else {
        0
    }
}

pub fn sat_add_u64(a: u64, b: u64) -> (r: u64)
    ensures
        r == sat_add(a, b),
{
    if a <= u64::MAX - b {
        a + b
    } else {
        u64::MAX
    }
}

pub fn sat_sub_u64(a: u64, b: u64) -> (r: u64)
    ensures
        r == sat_sub(a, b),
{
    if a >= b {
        a - b
    } else {
        0
    }
}

/// Per-task statistics. All timestamps are wall-clock nanoseconds; all
/// durations are nanoseconds.
pub struct Stats {
    /// Completed poll intervals that have started.
    pub polls: u64,
    /// Active poll re-entrancy counter.
    pub current_polls: u64,
    pub created_at: Option<u64>,
    pub first_poll: Option<u64>,
    pub last_poll_started: Option<u64>,
    pub last_poll_ended: Option<u64>,
    /// Cumulative time spent inside poll intervals.
    pub busy_time: u64,
    pub closed_at: Option<u64>,
    pub wakes: u64,
    pub waker_clones: u64,
    pub waker_drops: u64,
    pub last_wake: Option<u64>,
    /// Durations of completed polls.
    pub poll_times: PollHist,
}

/// The mathematical content of a `Stats` record: the histogram abstracts to
/// the multiset of recorded poll durations.
pub struct StatsModel {
    pub polls: u64,
    pub current_polls: u64,
    pub created_at: Option<u64>,
    pub first_poll: Option<u64>,
    pub last_poll_started: Option<u64>,
    pub last_poll_ended: Option<u64>,
    pub busy_time: u64,
    pub closed_at: Option<u64>,
    pub wakes: u64,
    pub waker_clones: u64,
    pub waker_drops: u64,
    pub last_wake: Option<u64>,
    pub poll_times: Multiset<u64>,
}

impl View for Stats {
    type V = StatsModel;

    open spec fn view(&self) -> StatsModel {
        StatsModel {
            polls: self.polls,
            current_polls: self.current_polls,
            created_at: self.created_at,
            first_poll: self.first_poll,
            last_poll_started: self.last_poll_started,
            last_poll_ended: self.last_poll_ended,
            busy_time: self.busy_time,
            closed_at: self.closed_at,
            wakes: self.wakes,
            waker_clones: self.waker_clones,
            waker_drops: self.waker_drops,
            last_wake: self.last_wake,
            poll_times: self.poll_times@,
        }
    }
}

/// A fresh record: every counter zero, every timestamp unset.
pub open spec fn default_stats() -> StatsModel {
    StatsModel {
        polls: 0,
        current_polls: 0,
        created_at: None,
        first_poll: None,
        last_poll_started: None,
        last_poll_ended: None,
        busy_time: 0,
        closed_at: None,
        wakes: 0,
        waker_clones: 0,
        waker_drops: 0,
        last_wake: None,
        poll_times: Multiset::empty(),
    }
}

impl Stats {
    pub fn new() -> (r: Stats)
        ensures
            r@ == default_stats(),
    {
        Stats {
            polls: 0,
            current_polls: 0,
            created_at: None,
            first_poll: None,
            last_poll_started: None,
            last_poll_ended: None,
            busy_time: 0,
            closed_at: None,
            wakes: 0,
            waker_clones: 0,
            waker_drops: 0,
            last_wake: None,
            poll_times: PollHist::new(),
        }
    }

    /// Total lifetime of a closed task, where both endpoints are known and
    /// ordered.
    pub fn total_time(&self) -> (r: Option<u64>)
        ensures
            r == spec_total_time(self@),
    {
        match (self.closed_at, self.created_at) {
            (Some(end), Some(start)) => if end >= start {
                Some(end - start)
            } else {
                None
            },
            _ => None,
        }
    }

    /// The wire record for one task's statistics.
    pub fn to_proto(&self) -> (r: StatsProto)
        ensures
            r == spec_stats_proto(self@),
    {
        StatsProto {
            polls: self.polls,
            created_at: self.created_at,
            first_poll: self.first_poll,
            last_poll_started: self.last_poll_started,
            last_poll_ended: self.last_poll_ended,
            busy_time: self.busy_time,
            total_time: self.total_time(),
            wakes: self.wakes,
            waker_clones: self.waker_clones,
            waker_drops: self.waker_drops,
            last_wake: self.last_wake,
        }
    }
}

pub open spec fn spec_total_time(s: StatsModel) -> Option<u64> {
    match (s.closed_at, s.created_at) {
        (Some(end), Some(start)) => if end >= start {
            Some((end - start) as u64)
        } else {
            None
        },
        _ => None,
    }
}

/// Statistics as published to clients. The histogram travels separately, in
/// the per-task details feed.
#[derive(Clone, Copy, PartialEq, Eq, Structural, Debug)]
pub struct StatsProto {
    pub polls: u64,
    pub created_at: Option<u64>,
    pub first_poll: Option<u64>,
    pub last_poll_started: Option<u64>,
    pub last_poll_ended: Option<u64>,
    pub busy_time: u64,
    pub total_time: Option<u64>,
    pub wakes: u64,
    pub waker_clones: u64,
    pub waker_drops: u64,
    pub last_wake: Option<u64>,
}

pub open spec fn spec_stats_proto(s: StatsModel) -> StatsProto {
    StatsProto {
        polls: s.polls,
        created_at: s.created_at,
        first_poll: s.first_poll,
        last_poll_started: s.last_poll_started,
        last_poll_ended: s.last_poll_ended,
        busy_time: s.busy_time,
        total_time: spec_total_time(s),
        wakes: s.wakes,
        waker_clones: s.waker_clones,
        waker_drops: s.waker_drops,
        last_wake: s.last_wake,
    }
}

/// A task's static record: its metadata descriptor handle and the fields
/// captured at spawn time.
pub struct Task {
    pub meta: u64,
    pub fields: Vec<Field>,
}

/// The mathematical content of a `Task` record.
pub struct TaskModel {
    pub meta: u64,
    pub fields: Seq<Field>,
}

impl View for Task {
    type V = TaskModel;

    open spec fn view(&self) -> TaskModel {
        TaskModel { meta: self.meta, fields: self.fields@ }
    }
}

/// A task's static record as published to clients. The wire format's two
/// constant fields - every task's kind is a spawn, and parent lists are
/// not yet tracked - are left for the transport layer to fill in.
#[derive(Clone)]
pub struct TaskProto {
    pub id: u64,
    pub meta: u64,
    pub fields: Vec<Field>,
}

/// The mathematical content of a published task record.
pub struct TaskProtoModel {
    pub id: u64,
    pub meta: u64,
    pub fields: Seq<Field>,
}

impl View for TaskProto {
    type V = TaskProtoModel;

    open spec fn view(&self) -> TaskProtoModel {
        TaskProtoModel { id: self.id, meta: self.meta, fields: self.fields@ }
    }
}

pub open spec fn spec_task_proto(id: u64, t: TaskModel) -> TaskProtoModel {
    TaskProtoModel { id: id, meta: t.meta, fields: t.fields }
}

impl Task {
    /// Publishable form of the record, keyed by the dense task id.
    pub fn to_proto(&self, id: u64) -> (r: TaskProto)
        ensures
            r@ == spec_task_proto(id, self@),
    {
        TaskProto { id, meta: self.meta, fields: crate::event::copy_fields(&self.fields) }
    }
}


/// One differential update on the global task feed.
#[derive(Clone)]
pub struct TaskUpdate {
    /// Metadata registered since the last update, absent if none.
    pub new_metadata: Option<Vec<u64>>,
    /// Static records of tasks spawned or changed since the last update.
    pub new_tasks: Vec<TaskProto>,
    /// Statistics of tasks changed since the last update.
    pub stats_update: Vec<(u64, StatsProto)>,
    /// One wall-clock timestamp, nanoseconds, sampled per publish.
    pub now: u64,
}

/// One message on a per-task details feed.
#[derive(Clone)]
pub struct TaskDetails {
    pub task_id: u64,
    pub now: u64,
    /// The poll-times histogram in its compressed V2 wire form.
    pub poll_times_histogram: Option<Vec<u8>>,
}

} // verus!
