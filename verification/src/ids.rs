use vstd::prelude::*;

use crate::task_data::TaskData;

verus! {

/// Wrapping increment of the dense id counter.
pub open spec fn wrap_inc(n: u64) -> u64 {
    if n == u64::MAX {
        0
    } else {
        (n + 1) as u64
    }
}

/// What asking an id for `span` yields: the id, the mapping afterwards and
/// the counter afterwards. A known span keeps its id; an unknown one is
/// assigned the counter, which then advances.
pub open spec fn spec_alloc_id(ids: Map<u64, u64>, next: u64, span: u64) -> (u64, Map<u64, u64>, u64) {
    if ids.dom().contains(span) {
        (ids[span], ids, next)
    } else {
        (next, ids.insert(span, next), wrap_inc(next))
    }
}

/// Assigns dense observer-visible task ids to the runtime's opaque span
/// identifiers, monotonically with wrap-around.
pub struct TaskIds {
    pub next: u64,
    pub map: TaskData<u64>,
}

impl TaskIds {
    pub open spec fn wf(self) -> bool {
        self.map.wf()
    }

    /// The span-to-task-id mapping.
    pub open spec fn ids(self) -> Map<u64, u64> {
        self.map.as_map()
    }

    pub fn new() -> (r: TaskIds)
        ensures
            r.wf(),
            r.ids() == Map::<u64, u64>::empty(),
            r.next == 0,
    {
        TaskIds { next: 0, map: TaskData::new() }
    }

    /// The task id already assigned to `span`, without assigning one.
    pub fn lookup(&self, span: u64) -> (r: Option<u64>)
        requires
            self.wf(),
        ensures
            match r {
                Some(id) => self.ids().dom().contains(span) && id == self.ids()[span],
                None => !self.ids().dom().contains(span),
            },
    {
        match self.map.get(span) {
            Some(v) => Some(*v),
            None => None,
        }
    }

    /// The task id for `span`: the existing mapping, or a freshly assigned
    /// dense id.
    pub fn id_for(&mut self, span: u64) -> (id: u64)
        requires
            old(self).wf(),
        ensures
            final(self).wf(),
            ({
                let (rid, rmap, rnext) = spec_alloc_id(old(self).ids(), old(self).next, span);
                id == rid && final(self).ids() == rmap && final(self).next == rnext
            }),
    {
        let existing: Option<u64> = match self.map.get(span) {
            Some(v) => Some(*v),
            None => None,
        };
        match existing {
            Some(id) => id,
            None => {
                let id = self.next;
                self.map.insert(span, id);
                self.next = if self.next == u64::MAX {
                    0
                } else {
                    self.next + 1
                };
                id
            },
        }
    }
}

} // verus!
