//! Finite maps and sets with numbers for keys.

use vstd::prelude::*;

verus! {

/// A map from numbers to values, kept as a list in which no number occurs twice.
pub struct Table<V> {
    entries: Vec<(u32, V)>,
}

impl<V> Table<V> {
    /// The number `id` stands at place `i`.
    pub closed spec fn stands(self, id: u32, i: int) -> bool {
        0 <= i < self.entries@.len() && self.entries@[i].0 == id
    }

    /// No number stands at two places.
    pub closed spec fn wf(self) -> bool {
        forall|i: int, j: int|
            0 <= i < j < self.entries@.len() ==> (#[trigger] self.entries@[i]).0 != (
            #[trigger] self.entries@[j]).0
    }
}

impl<V> View for Table<V> {
    type V = Map<u32, V>;

    closed spec fn view(&self) -> Map<u32, V> {
        Map::new(
            |id: u32| exists|i: int| self.stands(id, i),
            |id: u32| self.entries@[choose|i: int| self.stands(id, i)].1,
        )
    }
}

impl<V> Table<V> {
    /// The empty map.
    pub fn new() -> (r: Self)
        ensures
            r.wf(),
            r@ == Map::<u32, V>::empty(),
    {
        let r = Table { entries: Vec::new() };
        assert(r@ =~= Map::<u32, V>::empty());
        r
    }

    proof fn value_at(self, i: int)
        requires
            self.wf(),
            0 <= i < self.entries@.len(),
        ensures
            self@.dom().contains(self.entries@[i].0),
            self@[self.entries@[i].0] == self.entries@[i].1,
    {
        let id = self.entries@[i].0;
        assert(self.stands(id, i));
        let j = choose|j: int| self.stands(id, j);
        assert(self.stands(id, j));
        assert(j == i);
    }

    /// The place of a number.
    fn find(&self, id: u32) -> (r: Option<usize>)
        requires
            self.wf(),
        ensures
            match r {
                Some(i) => i < self.entries@.len() && self.entries@[i as int].0 == id
                    && self@.dom().contains(id) && self@[id] == self.entries@[i as int].1,
                None => !self@.dom().contains(id),
            },
    {
        let mut i: usize = 0;
        while i < self.entries.len()
            invariant
                self.wf(),
                i <= self.entries@.len(),
                forall|j: int| 0 <= j < i ==> (#[trigger] self.entries@[j]).0 != id,
            decreases self.entries@.len() - i,
        {
            if self.entries[i].0 == id {
                proof {
                    self.value_at(i as int);
                }
                return Some(i);
            }
            i += 1;
        }
        None
    }

    /// Whether a number has a value.
    pub fn contains(&self, id: u32) -> (r: bool)
        requires
            self.wf(),
        ensures
            r == self@.dom().contains(id),
    {
        self.find(id).is_some()
    }

    /// The value of a number.
    pub fn get(&self, id: u32) -> (r: Option<&V>)
        requires
            self.wf(),
        ensures
            match r {
                Some(v) => self@.dom().contains(id) && *v == self@[id],
                None => !self@.dom().contains(id),
            },
    {
        match self.find(id) {
            Some(i) => Some(&self.entries[i].1),
            None => None,
        }
    }

    /// Takes a number and its value out.
    pub fn remove(&mut self, id: u32) -> (r: Option<V>)
        requires
            old(self).wf(),
        ensures
            final(self).wf(),
            final(self)@ == old(self)@.remove(id),
            match r {
                Some(v) => old(self)@.dom().contains(id) && v == old(self)@[id],
                None => !old(self)@.dom().contains(id),
            },
    {
        match self.find(id) {
            None => {
                assert(self@ =~= old(self)@.remove(id));
                None
            },
            Some(i) => {
                let ghost before = *self;
                let (_, v) = self.entries.remove(i);
                proof {
                    assert forall|k: u32| #![auto]
                        self@.dom().contains(k) <==> before@.remove(id).dom().contains(k) by {
                        if self@.dom().contains(k) {
                            let j = choose|j: int| self.stands(k, j);
                            let j0 = if j < i { j } else { j + 1 };
                            assert(before.stands(k, j0));
                            assert(before.entries@[j0].0 != before.entries@[i as int].0);
                        }
                        if before@.remove(id).dom().contains(k) {
                            let j = choose|j: int| before.stands(k, j);
                            let j1 = if j < i { j } else { j - 1 };
                            assert(self.stands(k, j1));
                        }
                    }
                    assert forall|k: u32| #![auto] self@.dom().contains(k) implies self@[k]
                        == before@[k] by {
                        let j = choose|j: int| self.stands(k, j);
                        let j0 = if j < i { j } else { j + 1 };
                        self.value_at(j);
                        before.value_at(j0);
                    }
                    assert(self@ =~= before@.remove(id));
                }
                Some(v)
            },
        }
    }

    /// Gives a number a value, in place of the one it had.
    pub fn insert(&mut self, id: u32, value: V)
        requires
            old(self).wf(),
        ensures
            final(self).wf(),
            final(self)@ == old(self)@.insert(id, value),
    {
        let _ = self.remove(id);
        let ghost before = *self;
        proof {
            assert forall|j: int| 0 <= j < before.entries@.len() implies (
            #[trigger] before.entries@[j]).0 != id by {
                before.value_at(j);
            }
        }
        self.entries.push((id, value));
        proof {
            let n = before.entries@.len() as int;
            assert forall|k: u32| #![auto]
                self@.dom().contains(k) <==> before@.insert(id, value).dom().contains(k) by {
                if self@.dom().contains(k) {
                    let j = choose|j: int| self.stands(k, j);
                    if j < n {
                        assert(before.stands(k, j));
                    }
                }
                if k == id {
                    assert(self.stands(k, n));
                } else if before@.dom().contains(k) {
                    let j = choose|j: int| before.stands(k, j);
                    assert(self.stands(k, j));
                }
            }
            assert forall|k: u32| #![auto] self@.dom().contains(k) implies self@[k]
                == before@.insert(id, value)[k] by {
                let j = choose|j: int| self.stands(k, j);
                self.value_at(j);
                if j < n {
                    before.value_at(j);
                }
            }
            assert(self@ =~= before@.insert(id, value));
            assert(self@ =~= old(self)@.insert(id, value));
        }
    }

    /// The numbers, each once.
    pub fn ids(&self) -> (r: Vec<u32>)
        requires
            self.wf(),
        ensures
            r@.no_duplicates(),
            forall|id: u32| r@.contains(id) <==> self@.dom().contains(id),
    {
        let mut out: Vec<u32> = Vec::new();
        let mut i: usize = 0;
        while i < self.entries.len()
            invariant
                self.wf(),
                i <= self.entries@.len(),
                out@.len() == i,
                forall|j: int| 0 <= j < i ==> out@[j] == (#[trigger] self.entries@[j]).0,
            decreases self.entries@.len() - i,
        {
            out.push(self.entries[i].0);
            i += 1;
        }
        proof {
            assert forall|a: int, b: int| 0 <= a < b < out@.len() implies out@[a] != out@[b] by {
                assert(self.entries@[a].0 != self.entries@[b].0);
            }
            assert forall|id: u32| out@.contains(id) <==> self@.dom().contains(id) by {
                if out@.contains(id) {
                    let j = choose|j: int| 0 <= j < out@.len() && out@[j] == id;
                    assert(self.entries@[j].0 == id);
                    self.value_at(j);
                }
                if self@.dom().contains(id) {
                    let j = choose|j: int| self.stands(id, j);
                    assert(self.entries@[j].0 == id);
                    assert(out@[j] == id);
                }
            }
        }
        out
    }
}

/// A set of numbers.
pub struct IdSet {
    table: Table<()>,
}

impl View for IdSet {
    type V = Set<u32>;

    closed spec fn view(&self) -> Set<u32> {
        self.table@.dom()
    }
}

impl IdSet {
    /// No number is held twice.
    pub closed spec fn wf(self) -> bool {
        self.table.wf()
    }

    /// The empty set.
    pub fn new() -> (r: Self)
        ensures
            r.wf(),
            r@ == Set::<u32>::empty(),
    {
        let r = IdSet { table: Table::new() };
        assert(r@ =~= Set::<u32>::empty());
        r
    }

    /// Whether a number is in the set.
    pub fn contains(&self, id: u32) -> (r: bool)
        requires
            self.wf(),
        ensures
            r == self@.contains(id),
    {
        self.table.contains(id)
    }

    /// Adds a number.
    pub fn insert(&mut self, id: u32)
        requires
            old(self).wf(),
        ensures
            final(self).wf(),
            final(self)@ == old(self)@.insert(id),
    {
        self.table.insert(id, ());
        assert(self@ =~= old(self)@.insert(id));
    }

    /// Takes a number out; says whether it was there.
    pub fn remove(&mut self, id: u32) -> (r: bool)
        requires
            old(self).wf(),
        ensures
            final(self).wf(),
            final(self)@ == old(self)@.remove(id),
            r == old(self)@.contains(id),
    {
        let r = self.table.remove(id).is_some();
        assert(self@ =~= old(self)@.remove(id));
        r
    }
}

} // verus!
