//! A small table from string keys to owned values, in which no key occurs
//! twice. The relay server keeps its live rooms and sessions in such tables.

use vstd::prelude::*;

verus! {

/// Values under distinct string keys.
pub struct KeyedTable<V> {
    keys: Vec<String>,
    values: Vec<V>,
}

impl<V> View for KeyedTable<V> {
    type V = Map<Seq<char>, V>;

    closed spec fn view(&self) -> Map<Seq<char>, V> {
        Map::new(
            |key: Seq<char>| exists|k: int| self.holds_at(key, k),
            |key: Seq<char>| self.values[self.slot_of(key)],
        )
    }
}

impl<V> KeyedTable<V> {
    /// As many values as keys, and no key twice.
    pub closed spec fn wf(&self) -> bool {
        &&& self.keys.len() == self.values.len()
        &&& forall|a: int, b: int|
            0 <= a < self.keys.len() && 0 <= b < self.keys.len() && a != b ==> (
            #[trigger] self.keys[a])@ != (#[trigger] self.keys[b])@
    }

    /// The number of entries.
    pub closed spec fn spec_len(&self) -> nat {
        self.keys.len() as nat
    }

    /// The key of the entry in slot `k`.
    pub closed spec fn key(&self, k: int) -> Seq<char> {
        self.keys[k]@
    }

    /// The value of the entry in slot `k`.
    pub closed spec fn value(&self, k: int) -> V {
        self.values[k]
    }

    /// Slot `k` exists and holds `key`.
    pub open spec fn holds_at(&self, key: Seq<char>, k: int) -> bool {
        0 <= k < self.spec_len() && self.key(k) == key
    }

    /// The slot that holds `key`, where one does.
    pub open spec fn slot_of(&self, key: Seq<char>) -> int {
        choose|k: int| self.holds_at(key, k)
    }

    /// Slots and the view say the same: every slot's key maps to its value,
    /// distinct slots have distinct keys, and every key of the view has a slot.
    pub proof fn lemma_slots(&self)
        requires
            self.wf(),
        ensures
            forall|k: int|
                0 <= k < self.spec_len() ==> self@.contains_key(#[trigger] self.key(k))
                    && self@[self.key(k)] == self.value(k) && self.slot_of(self.key(k)) == k,
            forall|a: int, b: int|
                0 <= a < self.spec_len() && 0 <= b < self.spec_len() && a != b
                    ==> #[trigger] self.key(a) != #[trigger] self.key(b),
            forall|key: Seq<char>| #[trigger]
                self@.contains_key(key) ==> self.holds_at(key, self.slot_of(key)),
    {
        assert forall|k: int| 0 <= k < self.spec_len() implies self@.contains_key(
            #[trigger] self.key(k),
        ) && self@[self.key(k)] == self.value(k) && self.slot_of(self.key(k)) == k by {
            assert(self.holds_at(self.key(k), k));
            let p = self.slot_of(self.key(k));
            assert(self.holds_at(self.key(k), p));
            if p != k {
                assert(self.keys[p]@ != self.keys[k]@);
            }
        }
        assert forall|a: int, b: int|
            0 <= a < self.spec_len() && 0 <= b < self.spec_len() && a
                != b implies #[trigger] self.key(a) != #[trigger] self.key(b) by {
            assert(self.keys[a]@ != self.keys[b]@);
        }
        assert forall|key: Seq<char>| #[trigger] self@.contains_key(key) implies self.holds_at(
            key,
            self.slot_of(key),
        ) by {
            let k = choose|k: int| self.holds_at(key, k);
            assert(self.holds_at(key, k));
        }
    }

    /// A table whose slots agree with `target` has `target` as its view.
    pub proof fn lemma_view_is(&self, target: Map<Seq<char>, V>)
        requires
            self.wf(),
            forall|k: int|
                0 <= k < self.spec_len() ==> target.contains_key(#[trigger] self.key(k))
                    && target[self.key(k)] == self.value(k),
            forall|key: Seq<char>| #[trigger]
                target.contains_key(key) ==> exists|k: int| self.holds_at(key, k),
        ensures
            self@ == target,
    {
        self.lemma_slots();
        assert forall|key: Seq<char>| self@.contains_key(key) implies target.contains_key(key) by {
            let k = self.slot_of(key);
            assert(self.holds_at(key, k));
            assert(self.key(k) == key);
        }
        assert forall|key: Seq<char>| target.contains_key(key) implies self@.contains_key(key)
            && self@[key] == target[key] by {
            let k = choose|k: int| self.holds_at(key, k);
            assert(self.key(k) == key);
        }
        assert(self@ =~= target);
    }

    /// An empty table.
    pub fn new() -> (table: KeyedTable<V>)
        ensures
            table.wf(),
            table@ == Map::<Seq<char>, V>::empty(),
            table.spec_len() == 0,
    {
        let table = KeyedTable { keys: Vec::new(), values: Vec::new() };
        assert(table@ =~= Map::<Seq<char>, V>::empty());
        table
    }

    /// The number of entries.
    pub fn len(&self) -> (n: usize)
        requires
            self.wf(),
        ensures
            n == self.spec_len(),
    {
        self.keys.len()
    }

    /// The slot that holds `key`, if one does.
    pub fn find(&self, key: &String) -> (found: Option<usize>)
        requires
            self.wf(),
        ensures
            match found {
                Some(k) => self.holds_at(key@, k as int) && self@.contains_key(key@) && self@[key@]
                    == self.value(k as int),
                None => !self@.contains_key(key@),
            },
    {
        let mut i: usize = 0;
        while i < self.keys.len()
            invariant
                i <= self.keys.len(),
                self.wf(),
                forall|k: int| 0 <= k < i ==> (#[trigger] self.keys[k])@ != key@,
            decreases self.keys.len() - i,
        {
            if self.keys[i] == *key {
                proof {
                    self.lemma_slots();
                    assert(self.key(i as int) == key@);
                }
                return Some(i);
            }
            i = i + 1;
        }
        proof {
            if self@.contains_key(key@) {
                let k = choose|k: int| self.holds_at(key@, k);
                assert(self.keys[k]@ == key@);
            }
        }
        None
    }

    /// The key in slot `k`.
    pub fn key_at(&self, k: usize) -> (key: &String)
        requires
            self.wf(),
            k < self.spec_len(),
        ensures
            key@ == self.key(k as int),
    {
        &self.keys[k]
    }

    /// The value in slot `k`.
    pub fn value_at(&self, k: usize) -> (value: &V)
        requires
            self.wf(),
            k < self.spec_len(),
        ensures
            *value == self.value(k as int),
    {
        &self.values[k]
    }

    /// Adds an entry under a key that the table does not hold yet.
    pub fn insert_new(&mut self, key: String, value: V)
        requires
            old(self).wf(),
            !old(self)@.contains_key(key@),
        ensures
            final(self).wf(),
            final(self)@ == old(self)@.insert(key@, value),
            final(self).spec_len() == old(self).spec_len() + 1,
    {
        let ghost before = *self;
        let ghost target = before@.insert(key@, value);
        proof {
            before.lemma_slots();
        }
        self.keys.push(key);
        self.values.push(value);
        proof {
            let last = self.keys.len() - 1;
            assert forall|a: int, b: int|
                0 <= a < self.keys.len() && 0 <= b < self.keys.len() && a != b implies (
            #[trigger] self.keys[a])@ != (#[trigger] self.keys[b])@ by {
                if a < last && b < last {
                    assert(before.key(a) != before.key(b));
                } else if a < last {
                    assert(before@.contains_key(before.key(a)));
                } else {
                    assert(before@.contains_key(before.key(b)));
                }
            }
            assert forall|k: int| 0 <= k < self.spec_len() implies target.contains_key(
                #[trigger] self.key(k),
            ) && target[self.key(k)] == self.value(k) by {
                if k < last {
                    assert(self.key(k) == before.key(k));
                    assert(self.value(k) == before.value(k));
                    assert(before@.contains_key(before.key(k)));
                }
            }
            assert forall|other: Seq<char>| #[trigger] target.contains_key(other) implies exists|
                k: int,
            |
                self.holds_at(other, k) by {
                if other == key@ {
                    assert(self.holds_at(other, last));
                } else {
                    let k = before.slot_of(other);
                    assert(before.holds_at(other, k));
                    assert(self.key(k) == before.key(k));
                    assert(self.holds_at(other, k));
                }
            }
            self.lemma_view_is(target);
        }
    }

    /// Takes the entry in slot `k` out of the table.
    pub fn take_at(&mut self, k: usize) -> (entry: (String, V))
        requires
            old(self).wf(),
            k < old(self).spec_len(),
        ensures
            final(self).wf(),
            entry.0@ == old(self).key(k as int),
            entry.1 == old(self).value(k as int),
            final(self)@ == old(self)@.remove(entry.0@),
            final(self).spec_len() == old(self).spec_len() - 1,
    {
        let ghost before = *self;
        proof {
            before.lemma_slots();
        }
        let key = self.keys.remove(k);
        let value = self.values.remove(k);
        let ghost target = before@.remove(key@);
        proof {
            assert forall|a: int, b: int|
                0 <= a < self.keys.len() && 0 <= b < self.keys.len() && a != b implies (
            #[trigger] self.keys[a])@ != (#[trigger] self.keys[b])@ by {
                let a0 = if a < k { a } else { a + 1 };
                let b0 = if b < k { b } else { b + 1 };
                assert(before.key(a0) != before.key(b0));
            }
            assert forall|j: int| 0 <= j < self.spec_len() implies target.contains_key(
                #[trigger] self.key(j),
            ) && target[self.key(j)] == self.value(j) by {
                let j0 = if j < k { j } else { j + 1 };
                assert(self.key(j) == before.key(j0));
                assert(self.value(j) == before.value(j0));
                assert(before.key(j0) != before.key(k as int));
                assert(before@.contains_key(before.key(j0)));
            }
            assert forall|other: Seq<char>| #[trigger] target.contains_key(other) implies exists|
                j: int,
            |
                self.holds_at(other, j) by {
                let j0 = before.slot_of(other);
                assert(before.holds_at(other, j0));
                let j = if j0 < k { j0 } else { j0 - 1 };
                assert(self.key(j) == before.key(j0));
                assert(self.holds_at(other, j));
            }
            self.lemma_view_is(target);
        }
        (key, value)
    }
}

} // verus!
