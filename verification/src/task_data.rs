use vstd::prelude::*;

verus! {

/// One keyed record together with its dirty-since-last-publish flag. The
/// flag lives next to the value so that a publish pass touches only the
/// entries that changed.
pub struct TdEntry<V> {
    pub key: u64,
    pub dirty: bool,
    pub val: V,
}

/// How many removals pass between attempts to give backing capacity back
/// to the allocator.
pub const SHRINK_INTERVAL: usize = 1024;

/// Relies on Vec::shrink_to_fit: gives excess backing capacity back to the
/// allocator; the contents stay as they are.
#[verifier::external_body]
fn shrink_vec<V>(v: &mut Vec<V>)
    ensures
        final(v)@ == old(v)@,
{
    v.shrink_to_fit();
}

/// Keyed map of task records with per-entry dirty tracking. Every so many
/// removals the backing allocation is shrunk to the live size, so a burst
/// of tasks does not pin its peak footprint forever.
pub struct TaskData<V> {
    pub entries: Vec<TdEntry<V>>,
    pub removals: usize,
}

/// The elements `f` selects from the dirty entries of `s`, in entry order.
pub open spec fn dirty_selected<V, T>(s: Seq<TdEntry<V>>, f: spec_fn(u64, V) -> T) -> Seq<T>
    decreases s.len(),
{
    if s.len() == 0 {
        Seq::empty()
    } else {
        let rest = dirty_selected(s.drop_first(), f);
        if s[0].dirty {
            seq![f(s[0].key, s[0].val)] + rest
        } else {
            rest
        }
    }
}

pub proof fn lemma_dirty_selected_take_step<V, T>(
    s: Seq<TdEntry<V>>,
    f: spec_fn(u64, V) -> T,
    i: int,
)
    requires
        0 <= i < s.len(),
    ensures
        dirty_selected(s.take(i + 1), f) == if s[i].dirty {
            dirty_selected(s.take(i), f).push(f(s[i].key, s[i].val))
        } else {
            dirty_selected(s.take(i), f)
        },
    decreases i,
{
    if i == 0 {
        assert(s.take(1).drop_first() =~= Seq::<TdEntry<V>>::empty());
        assert(s.take(0) =~= Seq::<TdEntry<V>>::empty());
        if s[0].dirty {
            assert(dirty_selected(s.take(1), f) =~= dirty_selected(s.take(0), f).push(
                f(s[0].key, s[0].val),
            ));
        }
    } else {
        lemma_dirty_selected_take_step(s.drop_first(), f, i - 1);
        assert(s.take(i + 1).drop_first() =~= s.drop_first().take(i));
        assert(s.take(i).drop_first() =~= s.drop_first().take(i - 1));
        assert(s.take(i + 1)[0] == s[0]);
        assert(s.take(i)[0] == s[0]);
        if s[0].dirty {
            if s[i].dirty {
                assert(dirty_selected(s.take(i + 1), f) =~= dirty_selected(s.take(i), f).push(
                    f(s[i].key, s[i].val),
                ));
            }
        }
    }
}

impl<V> TaskData<V> {
    /// The keys in entry order.
    pub open spec fn keys(self) -> Seq<u64> {
        self.entries@.map_values(|e: TdEntry<V>| e.key)
    }

    /// Keys are unique.
    pub open spec fn wf(self) -> bool {
        forall|i: int, j: int|
            0 <= i < j < self.entries@.len() ==> self.entries@[i].key != self.entries@[j].key
    }

    pub open spec fn spec_contains(self, id: u64) -> bool {
        exists|i: int| 0 <= i < self.entries@.len() && self.entries@[i].key == id
    }

    pub open spec fn idx_of(self, id: u64) -> int {
        choose|i: int| 0 <= i < self.entries@.len() && self.entries@[i].key == id
    }

    pub open spec fn spec_get(self, id: u64) -> V {
        self.entries@[self.idx_of(id)].val
    }

    pub open spec fn spec_dirty(self, id: u64) -> bool {
        self.entries@[self.idx_of(id)].dirty
    }

    /// The records, keyed, with dirtiness forgotten.
    pub open spec fn as_map(self) -> Map<u64, V> {
        Map::new(|k: u64| self.spec_contains(k), |k: u64| self.spec_get(k))
    }

    /// The keys whose entries changed since they were last published.
    pub open spec fn dirty_keys(self) -> Set<u64> {
        Set::new(|k: u64| self.spec_contains(k) && self.spec_dirty(k))
    }

    pub open spec fn spec_len(self) -> nat {
        self.entries@.len()
    }

    /// With unique keys, any index holding `id` is the index `idx_of` picks.
    pub proof fn lemma_idx(self, id: u64, i: int)
        requires
            self.wf(),
            0 <= i < self.entries@.len(),
            self.entries@[i].key == id,
        ensures
            self.spec_contains(id),
            self.idx_of(id) == i,
    {
        assert(self.spec_contains(id));
        let j = self.idx_of(id);
        assert(0 <= j < self.entries@.len() && self.entries@[j].key == id);
        if i < j {
            assert(false);
        } else if j < i {
            assert(false);
        }
    }

    /// Two stores with entrywise-equal keys and values (dirtiness aside)
    /// represent the same map.
    pub proof fn lemma_same_entries_map(self, other: TaskData<V>)
        requires
            self.wf(),
            self.entries@.len() == other.entries@.len(),
            forall|i: int|
                0 <= i < self.entries@.len() ==> self.entries@[i].key == other.entries@[i].key
                    && self.entries@[i].val == other.entries@[i].val,
        ensures
            other.wf(),
            self.as_map() == other.as_map(),
    {
        assert forall|k: u64| self.spec_contains(k) <==> other.spec_contains(k) by {
            if self.spec_contains(k) {
                let i = self.idx_of(k);
                assert(other.entries@[i].key == k);
            }
            if other.spec_contains(k) {
                let i = other.idx_of(k);
                assert(self.entries@[i].key == k);
            }
        }
        assert forall|k: u64| self.spec_contains(k) implies self.spec_get(k) == other.spec_get(
            k,
        ) by {
            let i = self.idx_of(k);
            self.lemma_idx(k, i);
            other.lemma_idx(k, i);
        }
        assert(self.as_map() =~= other.as_map());
    }

    pub fn new() -> (r: TaskData<V>)
        ensures
            r.wf(),
            r.as_map() == Map::<u64, V>::empty(),
            r.dirty_keys() == Set::<u64>::empty(),
            r.spec_len() == 0,
    {
        let r = TaskData { entries: Vec::new(), removals: 0 };
        proof {
            assert(r.as_map() =~= Map::<u64, V>::empty());
            assert(r.dirty_keys() =~= Set::<u64>::empty());
        }
        r
    }

    pub fn len(&self) -> (n: usize)
        ensures
            n == self.spec_len(),
    {
        self.entries.len()
    }

    /// Index of the entry holding `id`, if one does.
    fn find(&self, id: u64) -> (r: Option<usize>)
        requires
            self.wf(),
        ensures
            match r {
                Some(i) => self.spec_contains(id) && self.idx_of(id) == i
                    && i < self.entries@.len(),
                None => !self.spec_contains(id),
            },
    {
        let n: usize = self.entries.len();
        let mut i: usize = 0;
        while i < n
            invariant
                self.wf(),
                n == self.entries@.len(),
                0 <= i <= n,
                forall|j: int| 0 <= j < i ==> self.entries@[j].key != id,
            decreases n - i,
        {
            if self.entries[i].key == id {
                proof {
                    self.lemma_idx(id, i as int);
                }
                return Some(i);
            }
            i += 1;
        }
        None
    }

    pub fn contains(&self, id: u64) -> (r: bool)
        requires
            self.wf(),
        ensures
            r == self.as_map().dom().contains(id),
    {
        self.find(id).is_some()
    }

    pub fn get(&self, id: u64) -> (r: Option<&V>)
        requires
            self.wf(),
        ensures
            match r {
                Some(v) => self.as_map().dom().contains(id) && *v == self.as_map()[id],
                None => !self.as_map().dom().contains(id),
            },
    {
        match self.find(id) {
            Some(i) => Some(&self.entries[i].val),
            None => None,
        }
    }

    /// Insert or replace the record for `id`, marking the entry dirty.
    pub fn insert(&mut self, id: u64, v: V)
        requires
            old(self).wf(),
        ensures
            final(self).wf(),
            final(self).as_map() == old(self).as_map().insert(id, v),
            final(self).dirty_keys() == old(self).dirty_keys().insert(id),
            final(self).spec_len() == if old(self).spec_contains(id) {
                old(self).spec_len()
            } else {
                old(self).spec_len() + 1
            },
    {
        let ghost pre = *self;
        match self.find(id) {
            Some(i) => {
                self.entries[i] = TdEntry { key: id, dirty: true, val: v };
                proof {
                    self.lemma_update_view(pre, id, v, i as int);
                }
            },
            None => {
                self.entries.push(TdEntry { key: id, dirty: true, val: v });
                proof {
                    self.lemma_push_view(pre, id, v);
                }
            },
        }
    }

    proof fn lemma_update_view(self, pre: TaskData<V>, id: u64, v: V, i: int)
        requires
            pre.wf(),
            0 <= i < pre.entries@.len(),
            pre.entries@[i].key == id,
            self.entries@ == pre.entries@.update(i, TdEntry { key: id, dirty: true, val: v }),
        ensures
            self.wf(),
            self.as_map() == pre.as_map().insert(id, v),
            self.dirty_keys() == pre.dirty_keys().insert(id),
            self.spec_len() == pre.spec_len(),
    {
        assert forall|k: u64| #[trigger] self.spec_contains(k) <==> pre.as_map().insert(
            id,
            v,
        ).dom().contains(k) by {
            if self.spec_contains(k) {
                let j = self.idx_of(k);
                if j != i {
                    assert(pre.entries@[j].key == k);
                }
            }
            if k == id {
                assert(self.entries@[i].key == k);
            } else if pre.spec_contains(k) {
                let j = pre.idx_of(k);
                assert(j != i);
                assert(self.entries@[j].key == k);
            }
        }
        assert forall|k: u64| self.spec_contains(k) implies self.spec_get(k) == pre.as_map().insert(
            id,
            v,
        )[k] && (self.spec_dirty(k) <==> (k == id || pre.dirty_keys().contains(k))) by {
            let j = self.idx_of(k);
            if k == id {
                self.lemma_idx(id, i);
            } else {
                assert(self.entries@[j].key == k);
                assert(j != i);
                assert(pre.entries@[j].key == k);
                pre.lemma_idx(k, j);
            }
        }
        assert(self.as_map() =~= pre.as_map().insert(id, v));
        assert forall|k: u64| #[trigger] self.dirty_keys().contains(k) <==> pre.dirty_keys().insert(
            id,
        ).contains(k) by {
            if self.dirty_keys().contains(k) {
            }
            if k == id {
                self.lemma_idx(id, i);
            } else if pre.dirty_keys().contains(k) {
                let j = pre.idx_of(k);
                pre.lemma_idx(k, j);
                assert(self.entries@[j].key == k);
                self.lemma_idx(k, j);
            }
        }
        assert(self.dirty_keys() =~= pre.dirty_keys().insert(id));
    }

    proof fn lemma_push_view(self, pre: TaskData<V>, id: u64, v: V)
        requires
            pre.wf(),
            !pre.spec_contains(id),
            self.entries@ == pre.entries@.push(TdEntry { key: id, dirty: true, val: v }),
        ensures
            self.wf(),
            self.as_map() == pre.as_map().insert(id, v),
            self.dirty_keys() == pre.dirty_keys().insert(id),
            self.spec_len() == pre.spec_len() + 1,
    {
        let n = pre.entries@.len() as int;
        assert forall|i: int, j: int|
            0 <= i < j < self.entries@.len() implies self.entries@[i].key
            != self.entries@[j].key by {
            if j == n {
                assert(pre.entries@[i].key != id);
            }
        }
        assert forall|k: u64| #[trigger] self.spec_contains(k) <==> (k == id
            || pre.spec_contains(k)) by {
            if self.spec_contains(k) {
                let j = self.idx_of(k);
                if j < n {
                    assert(pre.entries@[j].key == k);
                }
            }
            if k == id {
                assert(self.entries@[n].key == k);
            } else if pre.spec_contains(k) {
                let j = pre.idx_of(k);
                assert(self.entries@[j].key == k);
            }
        }
        assert forall|k: u64| self.spec_contains(k) implies (self.spec_get(k)
            == pre.as_map().insert(id, v)[k]) && (self.spec_dirty(k) <==> (k == id
            || pre.dirty_keys().contains(k))) by {
            if k == id {
                self.lemma_idx(id, n);
            } else {
                let j = pre.idx_of(k);
                pre.lemma_idx(k, j);
                assert(self.entries@[j].key == k);
                self.lemma_idx(k, j);
            }
        }
        assert(self.as_map() =~= pre.as_map().insert(id, v));
        assert(self.dirty_keys() =~= pre.dirty_keys().insert(id));
    }

    /// Remove and return the record for `id`.
    pub fn take(&mut self, id: u64) -> (r: Option<V>)
        requires
            old(self).wf(),
        ensures
            final(self).wf(),
            match r {
                Some(v) => old(self).as_map().dom().contains(id) && v == old(self).as_map()[id],
                None => !old(self).as_map().dom().contains(id) && *final(self) == *old(self),
            },
            final(self).as_map() == old(self).as_map().remove(id),
            final(self).dirty_keys() == old(self).dirty_keys().remove(id),
    {
        let ghost pre = *self;
        match self.find(id) {
            Some(i) => {
                let e = self.entries.remove(i);
                if self.removals >= SHRINK_INTERVAL - 1 {
                    self.removals = 0;
                    shrink_vec(&mut self.entries);
                } else {
                    self.removals = self.removals + 1;
                }
                proof {
                    self.lemma_remove_view(pre, id, i as int);
                }
                Some(e.val)
            },
            None => {
                proof {
                    assert(pre.as_map() =~= pre.as_map().remove(id));
                    assert(pre.dirty_keys() =~= pre.dirty_keys().remove(id));
                }
                None
            },
        }
    }

    proof fn lemma_remove_view(self, pre: TaskData<V>, id: u64, i: int)
        requires
            pre.wf(),
            0 <= i < pre.entries@.len(),
            pre.entries@[i].key == id,
            self.entries@ == pre.entries@.remove(i),
        ensures
            self.wf(),
            self.as_map() == pre.as_map().remove(id),
            self.dirty_keys() == pre.dirty_keys().remove(id),
    {
        let n = pre.entries@.len() as int;
        assert forall|a: int, b: int|
            0 <= a < b < self.entries@.len() implies self.entries@[a].key
            != self.entries@[b].key by {
            let pa = if a < i {
                a
            } else {
                a + 1
            };
            let pb = if b < i {
                b
            } else {
                b + 1
            };
            assert(self.entries@[a] == pre.entries@[pa]);
            assert(self.entries@[b] == pre.entries@[pb]);
        }
        assert forall|k: u64| #[trigger] self.spec_contains(k) <==> (pre.spec_contains(k) && k
            != id) by {
            if self.spec_contains(k) {
                let j = self.idx_of(k);
                let pj = if j < i {
                    j
                } else {
                    j + 1
                };
                assert(self.entries@[j] == pre.entries@[pj]);
                assert(pre.entries@[pj].key == k);
                if k == id {
                    pre.lemma_idx(id, pj);
                    pre.lemma_idx(id, i);
                }
            }
            if pre.spec_contains(k) && k != id {
                let j = pre.idx_of(k);
                assert(j != i);
                if j < i {
                    assert(self.entries@[j] == pre.entries@[j]);
                } else {
                    assert(self.entries@[j - 1] == pre.entries@[j]);
                }
            }
        }
        assert forall|k: u64| self.spec_contains(k) implies self.spec_get(k) == pre.spec_get(k) && (
        self.spec_dirty(k) <==> pre.spec_dirty(k)) by {
            let j = self.idx_of(k);
            let pj = if j < i {
                j
            } else {
                j + 1
            };
            assert(self.entries@[j] == pre.entries@[pj]);
            assert(pre.entries@[pj].key == k);
            pre.lemma_idx(k, pj);
        }
        assert(self.as_map() =~= pre.as_map().remove(id));
        assert(self.dirty_keys() =~= pre.dirty_keys().remove(id));
    }

    /// Key of the entry at position `i`.
    pub fn key_at(&self, i: usize) -> (k: u64)
        requires
            i < self.spec_len(),
        ensures
            k == self.entries@[i as int].key,
    {
        self.entries[i].key
    }

    pub fn dirty_at(&self, i: usize) -> (d: bool)
        requires
            i < self.spec_len(),
        ensures
            d == self.entries@[i as int].dirty,
    {
        self.entries[i].dirty
    }

    pub fn val_at(&self, i: usize) -> (v: &V)
        requires
            i < self.spec_len(),
        ensures
            *v == self.entries@[i as int].val,
    {
        &self.entries[i].val
    }

    /// Clear the dirty flag of the entry at position `i`; the record itself
    /// is untouched.
    pub fn clear_dirty_at(&mut self, i: usize)
        requires
            i < old(self).spec_len(),
        ensures
            final(self).entries@ == old(self).entries@.update(
                i as int,
                TdEntry {
                    key: old(self).entries@[i as int].key,
                    dirty: false,
                    val: old(self).entries@[i as int].val,
                },
            ),
    {
        let k = self.entries[i].key;
        self.entries[i].dirty = false;
        proof {
            assert(final(self).entries@ =~= old(self).entries@.update(
                i as int,
                TdEntry {
                    key: old(self).entries@[i as int].key,
                    dirty: false,
                    val: old(self).entries@[i as int].val,
                },
            ));
        }
    }
}


/// Membership in a sequence extended by one element.
pub proof fn lemma_push_contains(s: Seq<u64>, x: u64)
    ensures
        forall|y: u64| #[trigger] s.push(x).contains(y) <==> (s.contains(y) || y == x),
{
    assert forall|y: u64| #[trigger] s.push(x).contains(y) implies (s.contains(y) || y == x) by {
        let i = choose|i: int| 0 <= i < s.push(x).len() && s.push(x)[i] == y;
        if i < s.len() {
            assert(s[i] == y);
        }
    }
    assert forall|y: u64| (s.contains(y) || y == x) implies #[trigger] s.push(x).contains(y) by {
        if s.contains(y) {
            let i = choose|i: int| 0 <= i < s.len() && s[i] == y;
            assert(s.push(x)[i] == y);
        } else {
            assert(s.push(x)[s.len() as int] == y);
        }
    }
}

} // verus!
