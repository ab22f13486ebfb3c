//! Sparse sets: index-keyed storage with constant-time insertion, lookup and removal.
//!
//! Values live densely packed in `data`; `sparse` maps a stable index to its position
//! in `data`, and `dense` maps a position back to its index. Indices freed by `remove`
//! are kept on a free list and handed out again, most recently freed first.
use vstd::prelude::*;

verus! {

/// A sparse set is a data structure that allows for efficient insertion, deletion, and
/// retrieval of elements by index.
#[derive(Debug, Clone, PartialEq, Eq)]
pub struct SparseSet<T> {
    /// The actual data stored in the sparse set.
    data: Vec<T>,
    /// Maps from sparse indices to dense indices.
    sparse: Vec<usize>,
    /// Maps from dense indices to sparse indices.
    dense: Vec<usize>,
    /// A free list to keep track of available indices for reuse.
    free_list: Vec<usize>,
}

impl<T> SparseSet<T> {
    /// Index `i` currently holds a value: its sparse slot points at a dense slot that
    /// points back at it.
    pub closed spec fn live(&self, i: int) -> bool {
        &&& 0 <= i < self.sparse@.len()
        &&& self.sparse@[i] < self.dense@.len()
        &&& self.dense@[self.sparse@[i] as int] == i
    }

    /// The well-formedness of the three index vectors and the free list.
    pub closed spec fn wf(&self) -> bool {
        &&& self.data@.len() == self.dense@.len()
        &&& forall|d: int|
            0 <= d < self.dense@.len() ==> {
                &&& #[trigger] self.dense@[d] < self.sparse@.len()
                &&& self.sparse@[self.dense@[d] as int] == d
            }
        &&& forall|f: int|
            0 <= f < self.free_list@.len() ==> {
                &&& #[trigger] self.free_list@[f] < self.sparse@.len()
                &&& !self.live(self.free_list@[f] as int)
            }
        &&& forall|f: int, g: int|
            0 <= f < g < self.free_list@.len() ==> #[trigger] self.free_list@[f]
                != #[trigger] self.free_list@[g]
        &&& forall|i: usize|
            #![trigger self.sparse@[i as int]]
            (i as int) < self.sparse@.len() && !self.live(i as int) ==> self.free_list@.contains(i)
        &&& self.sparse@.len() <= usize::MAX
    }

    /// The freed indices waiting for reuse; the last one is handed out first.
    pub closed spec fn free(&self) -> Seq<usize> {
        self.free_list@
    }

    /// The index that the next call of `insert` hands out: the most recently freed
    /// index, or a fresh one past every index used so far.
    pub closed spec fn next_index(&self) -> usize {
        if self.free_list@.len() > 0 {
            self.free_list@.last()
        } else {
            self.sparse@.len() as usize
        }
    }

    /// The number of index slots ever handed out; every stored index is below it.
    pub closed spec fn slots(&self) -> nat {
        self.sparse@.len()
    }

    /// The stored pairs `(index, value)` whose index is at least `start`, by increasing index.
    spec fn entries_from(&self, start: int) -> Seq<(usize, T)>
        decreases self.sparse@.len() - start,
    {
        if start < 0 || start >= self.sparse@.len() {
            Seq::empty()
        } else if self.live(start) {
            seq![(start as usize, self.data@[self.sparse@[start] as int])] + self.entries_from(
                start + 1,
            )
        } else {
            self.entries_from(start + 1)
        }
    }

    /// All stored pairs `(index, value)`, by increasing index.
    pub closed spec fn entries(&self) -> Seq<(usize, T)> {
        self.entries_from(0)
    }
}

impl<T> View for SparseSet<T> {
    type V = Map<usize, T>;

    /// The set as a map from index to the value stored there.
    closed spec fn view(&self) -> Map<usize, T> {
        Map::new(
            |i: usize| self.live(i as int),
            |i: usize| self.data@[self.sparse@[i as int] as int],
        )
    }
}

/// `s` lists the pairs of `m` by strictly increasing key, each key of `m` exactly once.
pub open spec fn lists_in_key_order<T>(s: Seq<(usize, T)>, m: Map<usize, T>) -> bool {
    &&& forall|k: int|
        0 <= k < s.len() ==> m.contains_key(#[trigger] s[k].0) && m[s[k].0] == s[k].1
    &&& forall|k: int, l: int| 0 <= k < l < s.len() ==> #[trigger] s[k].0 < #[trigger] s[l].0
    &&& forall|i: usize| #[trigger] m.contains_key(i) ==> exists|k: int| 0 <= k < s.len() && s[k].0 == i
}

/// One change to a sparse set, as its map sees it: `insert` handing out an index for a
/// value, or `remove` of an index.
pub enum SetEvent<T> {
    Inserted(usize, T),
    Removed(usize),
}

/// The map after `event`, given the map before it: what `insert` and `remove` state.
pub open spec fn after_event<T>(before: Map<usize, T>, event: SetEvent<T>) -> Map<usize, T> {
    match event {
        SetEvent::Inserted(i, v) => before.insert(i, v),
        SetEvent::Removed(i) => before.remove(i),
    }
}

/// What index `i` holds after `events`, read off the history: the value of the latest
/// insertion at `i`, unless `i` was removed after it.
pub open spec fn latest_at<T>(events: Seq<SetEvent<T>>, i: usize) -> Option<T>
    decreases events.len(),
{
    if events.len() == 0 {
        None
    } else {
        match events.last() {
            SetEvent::Inserted(j, v) => if j == i {
                Some(v)
            } else {
                latest_at(events.drop_last(), i)
            },
            SetEvent::Removed(j) => if j == i {
                None
            } else {
                latest_at(events.drop_last(), i)
            },
        }
    }
}

/// A set made empty by `with_capacity` and then changed by `insert` and `remove` holds at
/// each index exactly the value that index was last given, unless it was removed since:
/// `maps[k]` is the set's view after the first `k` events.
pub proof fn lemma_history<T>(events: Seq<SetEvent<T>>, maps: Seq<Map<usize, T>>)
    requires
        maps.len() == events.len() + 1,
        maps[0] == Map::<usize, T>::empty(),
        forall|k: int| 0 <= k < events.len() ==> maps[k + 1] == after_event(maps[k], #[trigger] events[k]),
    ensures
        forall|i: usize| {
            let m = maps.last();
            match #[trigger] latest_at(events, i) {
                Some(v) => m.contains_key(i) && m[i] == v,
                None => !m.contains_key(i),
            }
        },
    decreases events.len(),
{
    if events.len() > 0 {
        let n = events.len() - 1;
        let pe = events.drop_last();
        let pm = maps.drop_last();
        assert forall|k: int| 0 <= k < pe.len() implies pm[k + 1] == after_event(pm[k], #[trigger] pe[k]) by {
            assert(pe[k] == events[k]);
        }
        lemma_history(pe, pm);
        assert(maps[n + 1] == after_event(maps[n], events[n]));
        assert forall|i: usize| true implies {
            let m = maps.last();
            match #[trigger] latest_at(events, i) {
                Some(v) => m.contains_key(i) && m[i] == v,
                None => !m.contains_key(i),
            }
        } by {
            assert(pm.last() == maps[n]);
            let _ = latest_at(pe, i);
        }
    }
}

impl<T> SparseSet<T> {
    /// Creates a new [`SparseSet`] with the specified capacity.
    pub fn with_capacity(capacity: usize) -> (res: Self)
        ensures
            res.wf(),
            res@ == Map::<usize, T>::empty(),
            res.next_index() == 0,
            res.slots() == 0,
            res.free() == Seq::<usize>::empty(),
    {
        let res = SparseSet {
            data: Vec::with_capacity(capacity),
            sparse: Vec::with_capacity(capacity),
            dense: Vec::with_capacity(capacity),
            free_list: Vec::new(),
        };
        assert(res@ =~= Map::<usize, T>::empty());
        res
    }

    /// Inserts a value into the [`SparseSet`] and returns its index.
    pub fn insert(&mut self, value: T) -> (index: usize)
        requires
            old(self).wf(),
        ensures
            final(self).wf(),
            index == old(self).next_index(),
            !old(self)@.contains_key(index),
            final(self)@ == old(self)@.insert(index, value),
            index < final(self).slots(),
            final(self).slots() == if old(self).next_index() < old(self).slots() {
                old(self).slots()
            } else {
                old(self).slots() + 1
            },
            final(self).free() == if old(self).free().len() > 0 {
                old(self).free().drop_last()
            } else {
                old(self).free()
            },
            index < old(self).slots() || forall|j: usize|
                j < old(self).slots() ==> #[trigger] old(self)@.contains_key(j),
    {
        let ghost old_self = *self;
        proof {
            old_self.lemma_fresh_only_when_full();
        }
        let index = if let Some(free_index) = self.free_list.pop() {
            assert(old_self.free_list@[old_self.free_list@.len() - 1] == free_index);
            free_index
        } else {
            self.sparse.push(self.data.len());
            self.sparse.len() - 1
        };
        proof {
            if old_self.free_list@.len() > 0 {
                assert(self.free_list@ =~= old_self.free_list@.drop_last());
            }
        }
        self.data.push(value);
        self.dense.push(index);
        let pos = self.data.len() - 1;
        self.sparse.set(index, pos);
        proof {
            let ghost mid_sparse = if old_self.free_list@.len() > 0 {
                old_self.sparse@
            } else {
                old_self.sparse@.push(old_self.data@.len() as usize)
            };
            assert(self.sparse@ == mid_sparse.update(index as int, pos));
            assert forall|d: int| 0 <= d < self.dense@.len() implies {
                &&& #[trigger] self.dense@[d] < self.sparse@.len()
                &&& self.sparse@[self.dense@[d] as int] == d
            } by {
                if d < old_self.dense@.len() {
                    assert(self.dense@[d] == old_self.dense@[d]);
                    assert(old_self.dense@[d] != index);
                }
            }
            assert forall|f: int| 0 <= f < self.free_list@.len() implies {
                &&& #[trigger] self.free_list@[f] < self.sparse@.len()
                &&& !self.live(self.free_list@[f] as int)
            } by {
                let x = self.free_list@[f];
                assert(x == old_self.free_list@[f]);
                assert(!old_self.live(x as int));
                assert(x != index);
            }
            assert forall|f: int, g: int| 0 <= f < g < self.free_list@.len() implies
                #[trigger] self.free_list@[f] != #[trigger] self.free_list@[g] by {
                assert(self.free_list@[f] == old_self.free_list@[f]);
                assert(self.free_list@[g] == old_self.free_list@[g]);
            }
            assert forall|i: usize| #[trigger] self@.contains_key(i) == old_self@.insert(
                index,
                value,
            ).contains_key(i) by {
                if i != index && (i as int) < old_self.sparse@.len() {
                    assert(self.sparse@[i as int] == old_self.sparse@[i as int]);
                    if self.live(i as int) {
                        assert(self.sparse@[i as int] != pos);
                    }
                }
            }
            assert forall|i: usize| #[trigger] self@.contains_key(i) implies self@[i]
                == old_self@.insert(index, value)[i] by {
                if i != index {
                    assert(self.sparse@[i as int] == old_self.sparse@[i as int]);
                }
            }
            assert(self@ =~= old_self@.insert(index, value));
            assert forall|i: usize|
                #![trigger self.sparse@[i as int]]
                (i as int) < self.sparse@.len() && !self.live(i as int)
                    implies self.free_list@.contains(i) by {
                assert(!self@.contains_key(i));
                assert(!old_self@.contains_key(i) && i != index);
                assert(!old_self.live(i as int));
                let f = choose|f: int| 0 <= f < old_self.free_list@.len() && old_self.free_list@[f] == i;
                assert(self.free_list@[f] == i);
            }
        }
        index
    }

    /// Retrieves a value from the [`SparseSet`] by its index, returning an `Option<&T>`.
    pub fn get(&self, index: usize) -> (res: Option<&T>)
        requires
            self.wf(),
        ensures
            res == if self@.contains_key(index) {
                Some(&self@[index])
            } else {
                None
            },
    {
        if index < self.sparse.len() {
            let dense_index = self.sparse[index];
            if dense_index < self.data.len() && self.dense[dense_index] == index {
                return Some(&self.data[dense_index]);
            }
        }
        None
    }

    /// Removes a value from the [`SparseSet`] by its index, returning an `Option<T>`.
    pub fn remove(&mut self, index: usize) -> (res: Option<T>)
        requires
            old(self).wf(),
        ensures
            final(self).wf(),
            final(self)@ == old(self)@.remove(index),
            final(self).slots() == old(self).slots(),
            match res {
                Some(v) => {
                    &&& old(self)@.contains_key(index)
                    &&& v == old(self)@[index]
                    &&& final(self).next_index() == index
                    &&& final(self).free() == old(self).free().push(index)
                },
                None => !old(self)@.contains_key(index) && *final(self) == *old(self),
            },
    {
        let ghost old_self = *self;
        if index < self.sparse.len() {
            let dense_index = self.sparse[index];
            if dense_index < self.data.len() && self.dense[dense_index] == index {
                let removed_value = self.data.swap_remove(dense_index);
                let last_dense_index = self.dense.len() - 1;
                if dense_index != last_dense_index {
                    let last_sparse_index = self.dense[last_dense_index];
                    self.sparse.set(last_sparse_index, dense_index);
                    self.dense.set(dense_index, last_sparse_index);
                }
                self.dense.pop();
                self.free_list.push(index);
                proof {
                    self.lemma_remove_step(old_self, index, dense_index);
                }
                return Some(removed_value);
            }
        }
        assert(!old_self@.contains_key(index));
        assert(old_self@.remove(index) =~= old_self@);
        None
    }

    proof fn lemma_remove_step(&self, old_self: Self, index: usize, d: usize)
        requires
            old_self.wf(),
            old_self.live(index as int),
            d == old_self.sparse@[index as int],
            self.data@ == old_self.data@.update(d as int, old_self.data@.last()).drop_last(),
            self.free_list@ == old_self.free_list@.push(index),
            d == old_self.dense@.len() - 1 ==> {
                &&& self.sparse@ == old_self.sparse@
                &&& self.dense@ == old_self.dense@.drop_last()
            },
            d != old_self.dense@.len() - 1 ==> {
                let ls = old_self.dense@[old_self.dense@.len() - 1];
                &&& self.sparse@ == old_self.sparse@.update(ls as int, d)
                &&& self.dense@ == old_self.dense@.update(d as int, ls).drop_last()
            },
        ensures
            self.wf(),
            self@ == old_self@.remove(index),
            self.next_index() == index,
            self.slots() == old_self.slots(),
    {
        let last = old_self.dense@.len() - 1;
        let ls = old_self.dense@[last];
        assert(self.data@.len() == self.dense@.len());
        assert forall|dd: int| 0 <= dd < self.dense@.len() implies {
            &&& #[trigger] self.dense@[dd] < self.sparse@.len()
            &&& self.sparse@[self.dense@[dd] as int] == dd
        } by {
            if dd == d {
                assert(self.dense@[dd] == ls);
            } else {
                assert(self.dense@[dd] == old_self.dense@[dd]);
                assert(old_self.dense@[dd] != ls);
            }
        }
        // A live index after the removal was live before, with the same value.
        assert forall|i: usize| #[trigger] self.live(i as int) implies old_self.live(i as int)
            && i != index && self.data@[self.sparse@[i as int] as int]
            == old_self.data@[old_self.sparse@[i as int] as int] by {
            let p = self.sparse@[i as int];
            assert(self.dense@[p as int] == i);
            if p == d && d != last {
                assert(i == ls);
            } else {
                assert(self.dense@[p as int] == old_self.dense@[p as int]);
                if d != last {
                    assert(i != ls);
                }
            }
        }
        // A live index before the removal other than `index` stays live.
        assert forall|i: usize| #[trigger] old_self.live(i as int) && i != index implies self.live(
            i as int,
        ) by {
            let p = old_self.sparse@[i as int];
            assert(p != d);
            if p == last {
                assert(i == ls);
            } else {
                assert(self.sparse@[i as int] == p);
                assert(self.dense@[p as int] == old_self.dense@[p as int]);
            }
        }
        assert forall|f: int| 0 <= f < self.free_list@.len() implies {
            &&& #[trigger] self.free_list@[f] < self.sparse@.len()
            &&& !self.live(self.free_list@[f] as int)
        } by {
            let x = self.free_list@[f];
            if f < old_self.free_list@.len() {
                assert(x == old_self.free_list@[f]);
            }
        }
        assert forall|f: int, g: int| 0 <= f < g < self.free_list@.len() implies
            #[trigger] self.free_list@[f] != #[trigger] self.free_list@[g] by {
            if g == old_self.free_list@.len() {
                assert(self.free_list@[f] == old_self.free_list@[f]);
                assert(!old_self.live(old_self.free_list@[f] as int));
            }
        }
        assert forall|i: usize| #[trigger] self@.contains_key(i) == old_self@.remove(
            index,
        ).contains_key(i) by {
            if self.live(i as int) {
            }
            if old_self.live(i as int) && i != index {
            }
        }
        assert(self@ =~= old_self@.remove(index));
        assert forall|i: usize|
            #![trigger self.sparse@[i as int]]
            (i as int) < self.sparse@.len() && !self.live(i as int)
                implies self.free_list@.contains(i) by {
            if i == index {
                assert(self.free_list@[old_self.free_list@.len() as int] == i);
            } else {
                assert(!self@.contains_key(i));
                assert(!old_self.live(i as int));
                let f = choose|f: int| 0 <= f < old_self.free_list@.len() && old_self.free_list@[f] == i;
                assert(self.free_list@[f] == i);
            }
        }
    }

    /// A fresh index is taken only when every index handed out so far is in use: the next
    /// index is past all slots exactly when no slot below it is free.
    pub proof fn lemma_fresh_only_when_full(&self)
        requires
            self.wf(),
        ensures
            (self.next_index() == self.slots()) <==> forall|j: usize|
                j < self.slots() ==> #[trigger] self@.contains_key(j),
            self.next_index() < self.slots() ==> !self@.contains_key(self.next_index()),
    {
        if self.free_list@.len() > 0 {
            let x = self.free_list@.last();
            assert(self.free_list@[self.free_list@.len() - 1] == x);
            assert(!self.live(x as int));
            assert(!self@.contains_key(x));
            assert(!(forall|j: usize| j < self.slots() ==> #[trigger] self@.contains_key(j)));
        } else {
            assert forall|j: usize| j < self.slots() implies #[trigger] self@.contains_key(j) by {
                if !self.live(j as int) {
                    assert(self.sparse@[j as int] == self.sparse@[j as int]);
                    assert(self.free_list@.contains(j));
                }
            }
        }
    }
}

impl<T> SparseSet<T> {
    proof fn lemma_entries_from(&self, start: int)
        requires
            self.wf(),
            0 <= start <= self.sparse@.len(),
        ensures
            forall|k: int|
                0 <= k < self.entries_from(start).len() ==> {
                    let e = #[trigger] self.entries_from(start)[k];
                    &&& start <= e.0
                    &&& self.live(e.0 as int)
                    &&& e.1 == self.data@[self.sparse@[e.0 as int] as int]
                },
            forall|k: int, l: int|
                0 <= k < l < self.entries_from(start).len() ==> #[trigger] self.entries_from(
                    start,
                )[k].0 < #[trigger] self.entries_from(start)[l].0,
            forall|i: usize|
                start <= i && #[trigger] self.live(i as int) ==> exists|k: int|
                    0 <= k < self.entries_from(start).len() && self.entries_from(start)[k].0 == i,
        decreases self.sparse@.len() - start,
    {
        if start < self.sparse@.len() {
            self.lemma_entries_from(start + 1);
            let rest = self.entries_from(start + 1);
            if self.live(start) {
                let head = seq![(start as usize, self.data@[self.sparse@[start] as int])];
                assert(self.entries_from(start) == head + rest);
                assert forall|i: usize| start <= i && #[trigger] self.live(i as int) implies exists|
                    k: int,
                |
                    0 <= k < self.entries_from(start).len() && self.entries_from(start)[k].0
                        == i by {
                    if i == start {
                        assert(self.entries_from(start)[0].0 == i);
                    } else {
                        let k = choose|k: int| 0 <= k < rest.len() && rest[k].0 == i;
                        assert(self.entries_from(start)[k + 1].0 == i);
                    }
                }
            } else {
                assert forall|i: usize| start <= i && #[trigger] self.live(i as int) implies exists|
                    k: int,
                |
                    0 <= k < self.entries_from(start).len() && self.entries_from(start)[k].0
                        == i by {
                    assert(i != start);
                    assert(self.entries_from(start) == rest);
                    let k = choose|k: int| 0 <= k < rest.len() && rest[k].0 == i;
                    assert(self.entries_from(start)[k].0 == i);
                }
            }
        }
    }

    /// `entries` lists every stored pair exactly once, by increasing index.
    pub proof fn lemma_entries_in_key_order(&self)
        requires
            self.wf(),
        ensures
            lists_in_key_order(self.entries(), self@),
            self@.dom().finite(),
            self.entries().len() == self@.len(),
    {
        self.lemma_entries_from(0);
        self.lemma_dom_is_dense();
        assert forall|i: usize| #[trigger] self@.contains_key(i) implies exists|k: int|
            0 <= k < self.entries().len() && self.entries()[k].0 == i by {
            assert(self.live(i as int));
            assert(0 <= i);
            let k = choose|k: int|
                0 <= k < self.entries_from(0).len() && self.entries_from(0)[k].0 == i;
            assert(self.entries()[k].0 == i);
        }
        let es = self.entries();
        let ks = es.map_values(|e: (usize, T)| e.0);
        assert forall|a: int, b: int| 0 <= a < ks.len() && 0 <= b < ks.len() && a != b implies ks[a]
            != ks[b] by {
            if a < b {
                assert(es[a].0 < es[b].0);
            } else {
                assert(es[b].0 < es[a].0);
            }
        }
        assert forall|i: usize| #[trigger] ks.to_set().contains(i) == self@.dom().contains(i) by {
            if self@.contains_key(i) {
                let k = choose|k: int| 0 <= k < es.len() && es[k].0 == i;
                assert(ks[k] == i);
            }
            if ks.contains(i) {
                let k = choose|k: int| 0 <= k < ks.len() && ks[k] == i;
                assert(self@.contains_key(es[k].0));
            }
        }
        assert(ks.to_set() =~= self@.dom());
        ks.unique_seq_to_set();
    }

    proof fn lemma_dom_is_dense(&self)
        requires
            self.wf(),
        ensures
            self@.dom() == self.dense@.to_set(),
            self.dense@.no_duplicates(),
            self@.dom().finite(),
            self@.len() == self.dense@.len(),
    {
        assert forall|i: usize| #[trigger] self@.dom().contains(i) == self.dense@.to_set().contains(i) by {
            if self.live(i as int) {
                assert(self.dense@[self.sparse@[i as int] as int] == i);
            }
            if self.dense@.contains(i) {
                let d = choose|d: int| 0 <= d < self.dense@.len() && self.dense@[d] == i;
                assert(self.sparse@[self.dense@[d] as int] == d);
            }
        }
        assert(self@.dom() =~= self.dense@.to_set());
        assert forall|a: int, b: int| 0 <= a < self.dense@.len() && 0 <= b < self.dense@.len() && a != b
            implies self.dense@[a] != self.dense@[b] by {
            assert(self.sparse@[self.dense@[a] as int] == a);
            assert(self.sparse@[self.dense@[b] as int] == b);
        }
        self.dense@.unique_seq_to_set();
    }

    /// Returns the number of values stored in the [`SparseSet`].
    pub fn len(&self) -> (res: usize)
        requires
            self.wf(),
        ensures
            res == self@.len(),
            self@.dom().finite(),
    {
        proof {
            self.lemma_dom_is_dense();
        }
        self.dense.len()
    }

    /// Returns a mutable reference to the value stored at `index`, if there is one.
    pub fn get_mut(&mut self, index: usize) -> (res: Option<&mut T>)
        requires
            old(self).wf(),
        ensures
            final(self).wf(),
            final(self).next_index() == old(self).next_index(),
            final(self).slots() == old(self).slots(),
            match res {
                Some(r) => {
                    &&& old(self)@.contains_key(index)
                    &&& *r == old(self)@[index]
                    &&& final(self)@ == old(self)@.insert(index, *final(r))
                },
                None => !old(self)@.contains_key(index) && *final(self) == *old(self),
            },
    {
        if index < self.sparse.len() {
            let dense_index = self.sparse[index];
            if dense_index < self.data.len() && self.dense[dense_index] == index {
                return Some(&mut self.data[dense_index]);
            }
        }
        None
    }

    /// All stored pairs `(index, &value)`, by increasing index: what iterating yields.
    pub fn pairs(&self) -> (res: Vec<(usize, &T)>)
        requires
            self.wf(),
        ensures
            res@.len() == self.entries().len(),
            forall|k: int|
                0 <= k < res@.len() ==> (#[trigger] res@[k]).0 == self.entries()[k].0 && *res@[k].1
                    == self.entries()[k].1,
    {
        let mut res: Vec<(usize, &T)> = Vec::new();
        let mut it = self.iter();
        loop
            invariant
                it.wf(),
                res@.len() + it.remaining().len() == self.entries().len(),
                forall|k: int|
                    0 <= k < res@.len() ==> (#[trigger] res@[k]).0 == self.entries()[k].0
                        && *res@[k].1 == self.entries()[k].1,
                forall|k: int|
                    0 <= k < it.remaining().len() ==> #[trigger] it.remaining()[k]
                        == self.entries()[res@.len() + k],
            decreases it.remaining().len(),
        {
            let ghost before = it.remaining();
            match it.next() {
                Some(pair) => {
                    assert(before[0] == self.entries()[res@.len() as int]);
                    res.push(pair);
                    assert forall|k: int| 0 <= k < it.remaining().len() implies #[trigger] it.remaining()[k]
                        == self.entries()[res@.len() + k] by {
                        assert(it.remaining()[k] == before[k + 1]);
                    }
                },
                None => {
                    return res;
                },
            }
        }
    }

    /// Returns an iterator over the elements of the [`SparseSet`], yielding pairs of
    /// (index, value).
    pub fn iter(&self) -> (res: SparseSetIter<'_, T>)
        requires
            self.wf(),
        ensures
            res.wf(),
            res.remaining() == self.entries(),
    {
        SparseSetIter { sparse_set: self, current: 0 }
    }
}

/// An iterator over the elements of a [`SparseSet`], yielding pairs of (index, value).
pub struct SparseSetIter<'a, T> {
    /// A reference to the [`SparseSet`] being iterated over.
    sparse_set: &'a SparseSet<T>,
    /// The current index in the iteration.
    current: usize,
}

impl<'a, T> SparseSetIter<'a, T> {
    /// The pairs that the iterator has yet to yield, in order.
    pub closed spec fn remaining(&self) -> Seq<(usize, T)> {
        self.sparse_set.entries_from(self.current as int)
    }

    pub closed spec fn wf(&self) -> bool {
        self.sparse_set.wf()
    }

    /// Yields the next stored pair by increasing index, or `None` once all were yielded.
    pub fn next(&mut self) -> (res: Option<(usize, &'a T)>)
        requires
            old(self).wf(),
        ensures
            final(self).wf(),
            match res {
                Some(pair) => {
                    &&& old(self).remaining().len() > 0
                    &&& (pair.0, *pair.1) == old(self).remaining()[0]
                    &&& final(self).remaining() == old(self).remaining().drop_first()
                },
                None => old(self).remaining().len() == 0 && final(self).remaining().len() == 0,
            },
    {
        let ghost start = self.current as int;
        let set: &'a SparseSet<T> = self.sparse_set;
        while self.current < set.sparse.len()
            invariant
                self.sparse_set == set,
                old(self).sparse_set == set,
                start == old(self).current as int,
                set.wf(),
                set.entries_from(start) == set.entries_from(self.current as int),
            decreases set.sparse@.len() - self.current,
        {
            let index = self.current;
            self.current = self.current + 1;
            if let Some(value) = set.get(index) {
                assert(set.live(index as int));
                let ghost head = seq![(index, set.data@[set.sparse@[index as int] as int])];
                assert(set.entries_from(index as int) == head + set.entries_from(index + 1));
                assert((head + set.entries_from(index + 1)).drop_first() =~= set.entries_from(
                    index + 1,
                ));
                assert(*value == set.data@[set.sparse@[index as int] as int]);
                assert(self.remaining() == set.entries_from(index + 1));
                assert(old(self).remaining() == head + set.entries_from(index + 1));
                return Some((index, value));
            }
        }
        None
    }
}

} // verus!
