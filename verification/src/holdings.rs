//! A table of media-worker resources held by one session, keyed by the
//! identifier that the worker gave each of them.

use vstd::prelude::*;

verus! {

/// Where a held resource stands. Closure is final.
#[derive(Debug, Clone, Copy, PartialEq, Eq, Structural)]
pub enum Lifecycle {
    /// Allocated, not connected yet.
    Created,
    /// Connected to its remote side (transports only).
    Connected,
    /// Closed by the worker; it no longer counts against a quota.
    Closed,
}

/// One held resource.
#[derive(Debug, Clone, Copy, PartialEq, Eq, Structural)]
pub struct Holding {
    pub id: u128,
    pub state: Lifecycle,
}

/// The resources of one kind that a session holds. No identifier occurs twice.
#[derive(Debug)]
pub struct ResourceTable {
    entries: Vec<Holding>,
}

/// The identifiers among the first `upto` holdings that are not closed.
spec fn open_ids_upto(entries: Seq<Holding>, upto: int) -> Set<u128> {
    Set::new(
        |id: u128|
            exists|k: int|
                0 <= k < upto && (#[trigger] entries[k]).id == id && entries[k].state
                    != Lifecycle::Closed,
    )
}

/// The identifiers of a table that are not closed.
pub open spec fn open_ids(table: Map<u128, Lifecycle>) -> Set<u128> {
    Set::new(|id: u128| table.contains_key(id) && table[id] != Lifecycle::Closed)
}

impl ResourceTable {
    /// No identifier occurs twice.
    pub closed spec fn wf(&self) -> bool {
        forall|a: int, b: int|
            0 <= a < self.entries.len() && 0 <= b < self.entries.len() && a != b ==> (
            #[trigger] self.entries[a]).id != (#[trigger] self.entries[b]).id
    }

    /// The holding in place `k` is that of the resource `id`.
    spec fn holds_at(&self, id: u128, k: int) -> bool {
        0 <= k < self.entries.len() && self.entries[k].id == id
    }

    /// The place of the resource `id` in the table, where it has one.
    spec fn position(&self, id: u128) -> int {
        choose|k: int| self.holds_at(id, k)
    }

    proof fn lemma_position(&self, id: u128, k: int)
        requires
            self.wf(),
            self.holds_at(id, k),
        ensures
            self.position(id) == k,
            self@.contains_key(id),
            self@[id] == self.entries[k].state,
    {
        let p = self.position(id);
        assert(self.holds_at(id, p));
        if p != k {
            assert(self.entries[p].id != self.entries[k].id);
        }
    }

    proof fn lemma_absent(&self, id: u128)
        requires
            forall|k: int| 0 <= k < self.entries.len() ==> (#[trigger] self.entries[k]).id != id,
        ensures
            !self@.contains_key(id),
    {
        if self@.contains_key(id) {
            let k = choose|k: int| self.holds_at(id, k);
            assert(self.entries[k].id == id);
        }
    }

    proof fn lemma_entries_in_view(&self)
        requires
            self.wf(),
        ensures
            forall|k: int|
                0 <= k < self.entries.len() ==> self@.contains_key(
                    (#[trigger] self.entries[k]).id,
                ) && self@[self.entries[k].id] == self.entries[k].state,
            forall|id: u128| #[trigger]
                self@.contains_key(id) ==> self.holds_at(id, self.position(id)),
    {
        assert forall|k: int| 0 <= k < self.entries.len() implies self@.contains_key(
            (#[trigger] self.entries[k]).id,
        ) && self@[self.entries[k].id] == self.entries[k].state by {
            assert(self.holds_at(self.entries[k].id, k));
            self.lemma_position(self.entries[k].id, k);
        }
        assert forall|id: u128| #[trigger] self@.contains_key(id) implies self.holds_at(
            id,
            self.position(id),
        ) by {
            let k = choose|k: int| self.holds_at(id, k);
            assert(self.holds_at(id, k));
        }
    }

    proof fn lemma_view_is(&self, target: Map<u128, Lifecycle>)
        requires
            self.wf(),
            forall|k: int|
                0 <= k < self.entries.len() ==> target.contains_key(
                    (#[trigger] self.entries[k]).id,
                ) && target[self.entries[k].id] == self.entries[k].state,
            forall|id: u128| #[trigger]
                target.contains_key(id) ==> exists|k: int| self.holds_at(id, k),
        ensures
            self@ == target,
    {
        self.lemma_entries_in_view();
        assert forall|id: u128| self@.contains_key(id) implies target.contains_key(id) by {
            let k = self.position(id);
            assert(self.holds_at(id, k));
            assert(self.entries[k].id == id);
        }
        assert forall|id: u128| target.contains_key(id) implies self@.contains_key(id)
            && self@[id] == target[id] by {
            let k = choose|k: int| self.holds_at(id, k);
            self.lemma_position(id, k);
            assert(self.entries[k].id == id);
        }
        assert(self@ =~= target);
    }

    /// A table that holds nothing.
    pub fn new() -> (table: ResourceTable)
        ensures
            table.wf(),
            table@ == Map::<u128, Lifecycle>::empty(),
    {
        let table = ResourceTable { entries: Vec::new() };
        assert(table@ =~= Map::<u128, Lifecycle>::empty()) by {
            assert forall|id: u128| !table@.contains_key(id) by {
                table.lemma_absent(id);
            }
        }
        table
    }

    fn find(&self, id: u128) -> (found: Option<usize>)
        requires
            self.wf(),
        ensures
            match found {
                Some(k) => self.holds_at(id, k as int) && self@.contains_key(id) && self@[id]
                    == self.entries[k as int].state,
                None => !self@.contains_key(id) && forall|k: int|
                    0 <= k < self.entries.len() ==> (#[trigger] self.entries[k]).id != id,
            },
    {
        let mut i: usize = 0;
        while i < self.entries.len()
            invariant
                i <= self.entries.len(),
                self.wf(),
                forall|k: int| 0 <= k < i ==> (#[trigger] self.entries[k]).id != id,
            decreases self.entries.len() - i,
        {
            if self.entries[i].id == id {
                proof {
                    assert(self.holds_at(id, i as int));
                    self.lemma_position(id, i as int);
                }
                return Some(i);
            }
            i = i + 1;
        }
        proof {
            self.lemma_absent(id);
        }
        None
    }

    /// The state of the resource `id`, if the table holds it.
    pub fn get(&self, id: u128) -> (state: Option<Lifecycle>)
        requires
            self.wf(),
        ensures
            state == self@.get(id),
    {
        match self.find(id) {
            Some(k) => Some(self.entries[k].state),
            None => None,
        }
    }

    /// Whether the table holds the resource `id`.
    pub fn contains(&self, id: u128) -> (held: bool)
        requires
            self.wf(),
        ensures
            held == self@.contains_key(id),
    {
        self.find(id).is_some()
    }

    /// Puts the resource `id` in `state`, holding it from now on if it was
    /// not held before.
    pub fn put(&mut self, id: u128, state: Lifecycle)
        requires
            old(self).wf(),
        ensures
            final(self).wf(),
            final(self)@ == old(self)@.insert(id, state),
    {
        let ghost before = *self;
        let ghost target = before@.insert(id, state);
        proof {
            before.lemma_entries_in_view();
        }
        match self.find(id) {
            Some(k) => {
                self.entries.set(k, Holding { id, state });
                proof {
                    assert forall|a: int, b: int|
                        0 <= a < self.entries.len() && 0 <= b < self.entries.len() && a
                            != b implies (#[trigger] self.entries[a]).id != (
                    #[trigger] self.entries[b]).id by {
                        assert(before.entries[a].id != before.entries[b].id);
                    }
                    assert forall|j: int| 0 <= j < self.entries.len() implies target.contains_key(
                        (#[trigger] self.entries[j]).id,
                    ) && target[self.entries[j].id] == self.entries[j].state by {
                        if j != k {
                            assert(before.entries[j].id != before.entries[k as int].id);
                            assert(before@.contains_key(before.entries[j].id));
                        }
                    }
                    assert forall|other: u128| #[trigger]
                        target.contains_key(other) implies exists|j: int|
                        self.holds_at(other, j) by {
                        if other == id {
                            assert(self.holds_at(other, k as int));
                        } else {
                            assert(before@.contains_key(other));
                            let j = before.position(other);
                            assert(before.holds_at(other, j));
                            assert(self.holds_at(other, j));
                        }
                    }
                    self.lemma_view_is(target);
                }
            },
            None => {
                self.entries.push(Holding { id, state });
                proof {
                    let last = self.entries.len() - 1;
                    assert forall|a: int, b: int|
                        0 <= a < self.entries.len() && 0 <= b < self.entries.len() && a
                            != b implies (#[trigger] self.entries[a]).id != (
                    #[trigger] self.entries[b]).id by {
                        if a < last && b < last {
                            assert(before.entries[a].id != before.entries[b].id);
                        } else if a < last {
                            assert(before.entries[a].id != id);
                        } else {
                            assert(before.entries[b].id != id);
                        }
                    }
                    assert forall|j: int| 0 <= j < self.entries.len() implies target.contains_key(
                        (#[trigger] self.entries[j]).id,
                    ) && target[self.entries[j].id] == self.entries[j].state by {
                        if j < last {
                            assert(before.entries[j].id != id);
                            assert(before@.contains_key(before.entries[j].id));
                        }
                    }
                    assert forall|other: u128| #[trigger]
                        target.contains_key(other) implies exists|j: int|
                        self.holds_at(other, j) by {
                        if other == id {
                            assert(self.holds_at(other, last));
                        } else {
                            assert(before@.contains_key(other));
                            let j = before.position(other);
                            assert(before.holds_at(other, j));
                            assert(self.holds_at(other, j));
                        }
                    }
                    self.lemma_view_is(target);
                }
            },
        }
    }

    /// Lets go of the resource `id`; says whether the table held it.
    pub fn remove(&mut self, id: u128) -> (held: bool)
        requires
            old(self).wf(),
        ensures
            final(self).wf(),
            held == old(self)@.contains_key(id),
            final(self)@ == old(self)@.remove(id),
    {
        let ghost before = *self;
        let ghost target = before@.remove(id);
        proof {
            before.lemma_entries_in_view();
        }
        match self.find(id) {
            Some(k) => {
                self.entries.remove(k);
                proof {
                    assert forall|a: int, b: int|
                        0 <= a < self.entries.len() && 0 <= b < self.entries.len() && a
                            != b implies (#[trigger] self.entries[a]).id != (
                    #[trigger] self.entries[b]).id by {
                        let a0 = if a < k { a } else { a + 1 };
                        let b0 = if b < k { b } else { b + 1 };
                        assert(before.entries[a0].id != before.entries[b0].id);
                    }
                    assert forall|j: int| 0 <= j < self.entries.len() implies target.contains_key(
                        (#[trigger] self.entries[j]).id,
                    ) && target[self.entries[j].id] == self.entries[j].state by {
                        let j0 = if j < k { j } else { j + 1 };
                        assert(self.entries[j] == before.entries[j0]);
                        assert(before.entries[j0].id != before.entries[k as int].id);
                        assert(before@.contains_key(before.entries[j0].id));
                    }
                    assert forall|other: u128| #[trigger]
                        target.contains_key(other) implies exists|j: int|
                        self.holds_at(other, j) by {
                        assert(before@.contains_key(other));
                        let j0 = before.position(other);
                        assert(before.holds_at(other, j0));
                        let j = if j0 < k { j0 } else { j0 - 1 };
                        assert(self.entries[j] == before.entries[j0]);
                        assert(self.holds_at(other, j));
                    }
                    self.lemma_view_is(target);
                }
                true
            },
            None => {
                proof {
                    assert(self@ =~= before@.remove(id));
                }
                false
            },
        }
    }

    /// How many of the held resources are not closed.
    pub fn count_open(&self) -> (count: usize)
        requires
            self.wf(),
        ensures
            open_ids(self@).finite(),
            count == open_ids(self@).len(),
    {
        let mut count: usize = 0;
        let mut i: usize = 0;
        proof {
            assert(open_ids_upto(self.entries@, 0) =~= Set::<u128>::empty());
        }
        while i < self.entries.len()
            invariant
                i <= self.entries.len(),
                self.wf(),
                count <= i,
                open_ids_upto(self.entries@, i as int).finite(),
                count == open_ids_upto(self.entries@, i as int).len(),
            decreases self.entries.len() - i,
        {
            let ghost seen = open_ids_upto(self.entries@, i as int);
            let entry = self.entries[i];
            proof {
                if entry.state != Lifecycle::Closed {
                    assert(!seen.contains(entry.id)) by {
                        if seen.contains(entry.id) {
                            let k = choose|k: int|
                                0 <= k < i && (#[trigger] self.entries[k]).id == entry.id
                                    && self.entries[k].state != Lifecycle::Closed;
                            assert(self.entries[k].id != self.entries[i as int].id);
                        }
                    }
                    assert(open_ids_upto(self.entries@, i + 1) =~= seen.insert(entry.id)) by {
                        assert forall|id: u128|
                            seen.insert(entry.id).contains(id) implies open_ids_upto(
                            self.entries@,
                            i + 1,
                        ).contains(id) by {
                            if id == entry.id {
                                assert(self.entries[i as int].id == id);
                            } else {
                                let k = choose|k: int|
                                    0 <= k < i && (#[trigger] self.entries[k]).id == id
                                        && self.entries[k].state != Lifecycle::Closed;
                                assert(self.entries[k].id == id);
                            }
                        }
                    }
                } else {
                    assert(open_ids_upto(self.entries@, i + 1) =~= seen) by {
                        assert forall|id: u128| seen.contains(id) implies open_ids_upto(
                            self.entries@,
                            i + 1,
                        ).contains(id) by {
                            let k = choose|k: int|
                                0 <= k < i && (#[trigger] self.entries[k]).id == id
                                    && self.entries[k].state != Lifecycle::Closed;
                            assert(self.entries[k].id == id);
                        }
                    }
                }
            }
            if entry.state != Lifecycle::Closed {
                count = count + 1;
            }
            i = i + 1;
        }
        proof {
            assert(open_ids_upto(self.entries@, self.entries.len() as int) =~= open_ids(self@)) by {
                assert forall|id: u128|
                    open_ids(self@).contains(id) implies open_ids_upto(
                    self.entries@,
                    self.entries.len() as int,
                ).contains(id) by {
                    let p = self.position(id);
                    assert(self.holds_at(id, p));
                    self.lemma_position(id, p);
                    assert(self.entries[p].id == id);
                }
                assert forall|id: u128|
                    open_ids_upto(self.entries@, self.entries.len() as int).contains(
                        id,
                    ) implies open_ids(self@).contains(id) by {
                    let k = choose|k: int|
                        0 <= k < self.entries.len() && (#[trigger] self.entries[k]).id == id
                            && self.entries[k].state != Lifecycle::Closed;
                    assert(self.holds_at(id, k));
                    self.lemma_position(id, k);
                }
            }
        }
        count
    }

    /// The identifiers held, each once, in the order in which they were first put.
    pub fn ids(&self) -> (ids: Vec<u128>)
        requires
            self.wf(),
        ensures
            ids@.no_duplicates(),
            ids@.to_set() == self@.dom(),
    {
        let mut ids: Vec<u128> = Vec::new();
        let mut i: usize = 0;
        while i < self.entries.len()
            invariant
                i <= self.entries.len(),
                ids.len() == i,
                forall|k: int| 0 <= k < i ==> ids[k] == (#[trigger] self.entries[k]).id,
            decreases self.entries.len() - i,
        {
            ids.push(self.entries[i].id);
            i = i + 1;
        }
        proof {
            assert forall|a: int, b: int| 0 <= a < ids.len()
                && 0 <= b < ids.len()
                && a != b implies ids[a]
                != ids[b] by {
                assert(self.entries[a].id != self.entries[b].id);
            }
            assert(ids@.to_set() =~= self@.dom()) by {
                assert forall|id: u128| self@.dom().contains(id) implies ids@.to_set().contains(
                    id,
                ) by {
                    let p = self.position(id);
                    assert(self.holds_at(id, p));
                    assert(ids@[p] == id);
                }
                assert forall|id: u128| ids@.to_set().contains(id) implies self@.dom().contains(
                    id,
                ) by {
                    let k = choose|k: int| 0 <= k < ids.len() && ids@[k] == id;
                    assert(self.holds_at(id, k));
                    self.lemma_position(id, k);
                }
            }
        }
        ids
    }

    /// The identifiers held that are not closed, each once.
    pub fn open(&self) -> (ids: Vec<u128>)
        requires
            self.wf(),
        ensures
            ids@.no_duplicates(),
            ids@.to_set() == open_ids(self@),
    {
        let mut ids: Vec<u128> = Vec::new();
        let mut i: usize = 0;
        while i < self.entries.len()
            invariant
                i <= self.entries.len(),
                self.wf(),
                ids@.no_duplicates(),
                ids@.to_set() =~= open_ids_upto(self.entries@, i as int),
            decreases self.entries.len() - i,
        {
            let ghost seen = open_ids_upto(self.entries@, i as int);
            let ghost prior = ids@;
            let entry = self.entries[i];
            if entry.state != Lifecycle::Closed {
                proof {
                    assert(!seen.contains(entry.id)) by {
                        if seen.contains(entry.id) {
                            let k = choose|k: int|
                                0 <= k < i && (#[trigger] self.entries[k]).id == entry.id
                                    && self.entries[k].state != Lifecycle::Closed;
                            assert(self.entries[k].id != self.entries[i as int].id);
                        }
                    }
                    assert(!prior.contains(entry.id));
                }
                ids.push(entry.id);
                proof {
                    assert(ids@ =~= prior.push(entry.id));
                    assert(ids@.to_set() =~= open_ids_upto(self.entries@, i + 1)) by {
                        assert forall|id: u128| ids@.to_set().contains(id) implies open_ids_upto(
                            self.entries@,
                            i + 1,
                        ).contains(id) by {
                            let j = choose|j: int| 0 <= j < ids.len() && ids@[j] == id;
                            if j < prior.len() {
                                assert(prior.contains(id));
                                assert(seen.contains(id));
                                let k = choose|k: int|
                                    0 <= k < i && (#[trigger] self.entries[k]).id == id
                                        && self.entries[k].state != Lifecycle::Closed;
                                assert(self.entries[k].id == id);
                            } else {
                                assert(self.entries[i as int].id == id);
                            }
                        }
                        assert forall|id: u128|
                            open_ids_upto(self.entries@, i + 1).contains(
                                id,
                            ) implies ids@.to_set().contains(id) by {
                            let k = choose|k: int|
                                0 <= k < i + 1 && (#[trigger] self.entries[k]).id == id
                                    && self.entries[k].state != Lifecycle::Closed;
                            if k < i {
                                assert(seen.contains(id));
                                assert(prior.to_set().contains(id));
                                let j = choose|j: int| 0 <= j < prior.len() && prior[j] == id;
                                assert(ids@[j] == id);
                            } else {
                                assert(ids@[prior.len() as int] == id);
                            }
                        }
                    }
                }
            } else {
                proof {
                    assert(open_ids_upto(self.entries@, i + 1) =~= seen) by {
                        assert forall|id: u128| seen.contains(id) implies open_ids_upto(
                            self.entries@,
                            i + 1,
                        ).contains(id) by {
                            let k = choose|k: int|
                                0 <= k < i && (#[trigger] self.entries[k]).id == id
                                    && self.entries[k].state != Lifecycle::Closed;
                            assert(self.entries[k].id == id);
                        }
                    }
                }
            }
            i = i + 1;
        }
        proof {
            assert(open_ids_upto(self.entries@, self.entries.len() as int) =~= open_ids(self@)) by {
                assert forall|id: u128|
                    open_ids(self@).contains(id) implies open_ids_upto(
                    self.entries@,
                    self.entries.len() as int,
                ).contains(id) by {
                    let p = self.position(id);
                    assert(self.holds_at(id, p));
                    self.lemma_position(id, p);
                    assert(self.entries[p].id == id);
                }
                assert forall|id: u128|
                    open_ids_upto(self.entries@, self.entries.len() as int).contains(
                        id,
                    ) implies open_ids(self@).contains(id) by {
                    let k = choose|k: int|
                        0 <= k < self.entries.len() && (#[trigger] self.entries[k]).id == id
                            && self.entries[k].state != Lifecycle::Closed;
                    assert(self.holds_at(id, k));
                    self.lemma_position(id, k);
                }
            }
        }
        ids
    }
}

impl View for ResourceTable {
    type V = Map<u128, Lifecycle>;

    closed spec fn view(&self) -> Map<u128, Lifecycle> {
        Map::new(
            |id: u128| exists|k: int| self.holds_at(id, k),
            |id: u128| self.entries[self.position(id)].state,
        )
    }
}

} // verus!
