//! A small table keyed by document id, for what is walked in order. What is
//! only looked up is a map of the standard library.

use std::collections::HashMap;
use vstd::prelude::*;

verus! {

/// Values by document id, in the order they were put in. No id twice.
pub struct Table<V> {
    pub rows: Vec<(u64, V)>,
}

impl<V> Table<V> {
    /// No id has two rows.
    pub open spec fn wf(&self) -> bool {
        forall|i: int, j: int|
            0 <= i < j < self.rows@.len() ==> (#[trigger] self.rows@[i]).0 != (
            #[trigger] self.rows@[j]).0
    }

    /// Whether `id` has a row.
    pub open spec fn has(&self, id: u64) -> bool {
        exists|i: int| 0 <= i < self.rows@.len() && (#[trigger] self.rows@[i]).0 == id
    }

    /// The position of the row of `id`.
    pub open spec fn place(&self, id: u64) -> int {
        choose|i: int| 0 <= i < self.rows@.len() && (#[trigger] self.rows@[i]).0 == id
    }

    /// What the table says, as a map.
    pub open spec fn view(&self) -> Map<u64, V> {
        Map::new(|id: u64| self.has(id), |id: u64| self.rows@[self.place(id)].1)
    }

    /// The row at `i` is the row of its id.
    pub proof fn row_is_its_own(&self, i: int)
        requires
            self.wf(),
            0 <= i < self.rows@.len(),
        ensures
            self@.contains_key(self.rows@[i].0),
            self.place(self.rows@[i].0) == i,
            self@[self.rows@[i].0] == self.rows@[i].1,
    {
        let id = self.rows@[i].0;
        assert(self.has(id));
        let p = self.place(id);
        if p < i {
            assert(self.rows@[p].0 != self.rows@[i].0);
        } else if i < p {
            assert(self.rows@[i].0 != self.rows@[p].0);
        }
    }

    /// An empty table.
    pub fn new() -> (t: Table<V>)
        ensures
            t.wf(),
            t@ == Map::<u64, V>::empty(),
    {
        let t: Table<V> = Table { rows: Vec::new() };
        assert(t@ =~= Map::<u64, V>::empty());
        t
    }

    /// The position of the row of `id`.
    pub fn find(&self, id: u64) -> (at: Option<usize>)
        requires
            self.wf(),
        ensures
            at is Some == self@.contains_key(id),
            at matches Some(i) ==> i < self.rows@.len() && self.rows@[i as int].0 == id
                && self.rows@[i as int].1 == self@[id] && self.place(id) == i,
    {
        let mut i: usize = 0;
        while i < self.rows.len()
            invariant
                self.wf(),
                i <= self.rows@.len(),
                forall|j: int| 0 <= j < i ==> (#[trigger] self.rows@[j]).0 != id,
            decreases self.rows@.len() - i,
        {
            if self.rows[i].0 == id {
                proof {
                    self.row_is_its_own(i as int);
                }
                return Some(i);
            }
            i += 1;
        }
        None
    }

    /// Whether `id` has a row.
    pub fn contains(&self, id: u64) -> (r: bool)
        requires
            self.wf(),
        ensures
            r == self@.contains_key(id),
    {
        self.find(id).is_some()
    }

    /// The value of `id`.
    pub fn get(&self, id: u64) -> (v: Option<&V>)
        requires
            self.wf(),
        ensures
            v is Some == self@.contains_key(id),
            v matches Some(v) ==> *v == self@[id],
    {
        match self.find(id) {
            Some(i) => Some(&self.rows[i].1),
            None => None,
        }
    }

    /// Gives `id` the value `value`, in place of any it has.
    pub fn insert(&mut self, id: u64, value: V)
        requires
            old(self).wf(),
        ensures
            final(self).wf(),
            final(self)@ == old(self)@.insert(id, value),
    {
        let ghost before = *self;
        match self.find(id) {
            Some(i) => {
                self.rows[i] = (id, value);
                proof {
                    assert(forall|j: int|
                        0 <= j < before.rows@.len() ==> (#[trigger] self.rows@[j]).0
                            == before.rows@[j].0);
                    assert(self.wf());
                    assert forall|k: u64| #[trigger] self@.contains_key(k) == before@.insert(
                        id,
                        value,
                    ).contains_key(k) by {
                        if self.has(k) {
                            let p = self.place(k);
                            before.row_is_its_own(p);
                        }
                        if before.has(k) {
                            let p = before.place(k);
                            self.row_is_its_own(p);
                        }
                    }
                    assert forall|k: u64| #[trigger] self@.contains_key(k) implies self@[k]
                        == before@.insert(id, value)[k] by {
                        let p = self.place(k);
                        before.row_is_its_own(p);
                        self.row_is_its_own(i as int);
                    }
                    assert(self@ =~= before@.insert(id, value));
                }
            },
            None => {
                self.rows.push((id, value));
                proof {
                    assert forall|a: int, b: int| 0 <= a < b < self.rows@.len() implies (
                    #[trigger] self.rows@[a]).0 != (#[trigger] self.rows@[b]).0 by {
                        assert(self.rows@[a] == before.rows@[a]);
                        if b == before.rows@.len() {
                            before.row_is_its_own(a);
                        } else {
                            assert(self.rows@[b] == before.rows@[b]);
                        }
                    }
                    assert(self.wf());
                    let n = before.rows@.len() as int;
                    self.row_is_its_own(n);
                    assert forall|k: u64| #[trigger] self@.contains_key(k) == before@.insert(
                        id,
                        value,
                    ).contains_key(k) by {
                        if self.has(k) {
                            let p = self.place(k);
                            if p < n {
                                assert(self.rows@[p] == before.rows@[p]);
                                before.row_is_its_own(p);
                            }
                        }
                        if before.has(k) {
                            let p = before.place(k);
                            assert(self.rows@[p] == before.rows@[p]);
                            self.row_is_its_own(p);
                        }
                    }
                    assert forall|k: u64| #[trigger] self@.contains_key(k) implies self@[k]
                        == before@.insert(id, value)[k] by {
                        let p = self.place(k);
                        if p < n {
                            assert(self.rows@[p] == before.rows@[p]);
                            before.row_is_its_own(p);
                        }
                    }
                    assert(self@ =~= before@.insert(id, value));
                }
            },
        }
    }

    /// Drops the row of `id` and returns its value.
    pub fn remove(&mut self, id: u64) -> (value: Option<V>)
        requires
            old(self).wf(),
        ensures
            final(self).wf(),
            final(self)@ == old(self)@.remove(id),
            value is Some == old(self)@.contains_key(id),
            value matches Some(v) ==> v == old(self)@[id],
            value is Some ==> final(self).rows@ == old(self).rows@.remove(old(self).place(id)),
            value is None ==> *final(self) == *old(self),
    {
        let ghost before = *self;
        match self.find(id) {
            Some(i) => {
                let row = self.rows.remove(i);
                proof {
                    assert forall|a: int, b: int| 0 <= a < b < self.rows@.len() implies (
                    #[trigger] self.rows@[a]).0 != (#[trigger] self.rows@[b]).0 by {
                        let x = if a < i {
                            a
                        } else {
                            a + 1
                        };
                        let y = if b < i {
                            b
                        } else {
                            b + 1
                        };
                        assert(self.rows@[a] == before.rows@[x]);
                        assert(self.rows@[b] == before.rows@[y]);
                    }
                    assert(self.wf());
                    assert forall|k: u64| #[trigger] self@.contains_key(k) == before@.remove(
                        id,
                    ).contains_key(k) by {
                        if self.has(k) {
                            let p = self.place(k);
                            let x = if p < i {
                                p
                            } else {
                                p + 1
                            };
                            assert(self.rows@[p] == before.rows@[x]);
                            before.row_is_its_own(x);
                        }
                        if before.has(k) && k != id {
                            let x = before.place(k);
                            let p = if x < i {
                                x
                            } else {
                                x - 1
                            };
                            assert(self.rows@[p] == before.rows@[x]);
                            self.row_is_its_own(p);
                        }
                    }
                    assert forall|k: u64| #[trigger] self@.contains_key(k) implies self@[k]
                        == before@.remove(id)[k] by {
                        let p = self.place(k);
                        let x = if p < i {
                            p
                        } else {
                            p + 1
                        };
                        assert(self.rows@[p] == before.rows@[x]);
                        before.row_is_its_own(x);
                    }
                    assert(self@ =~= before@.remove(id));
                }
                Some(row.1)
            },
            None => {
                assert(self@ =~= before@.remove(id));
                None
            },
        }
    }
}

/// Drops what `map` has for an id that is not in `ids`.
pub fn keep_only<V>(map: &mut HashMap<u64, V>, ids: &Vec<u64>)
    ensures
        final(map)@ == old(map)@.restrict(ids@.to_set()),
{
    let ghost before = map@;
    let mut kept: HashMap<u64, V> = HashMap::new();
    let mut i: usize = 0;
    while i < ids.len()
        invariant
            i <= ids@.len(),
            forall|k: u64| #[trigger]
                kept@.contains_key(k) == (before.contains_key(k) && ids@.take(i as int).contains(
                    k,
                )),
            forall|k: u64| #[trigger] kept@.contains_key(k) ==> kept@[k] == before[k],
            forall|k: u64| #[trigger]
                map@.contains_key(k) == (before.contains_key(k) && !ids@.take(i as int).contains(
                    k,
                )),
            forall|k: u64| #[trigger] map@.contains_key(k) ==> map@[k] == before[k],
        decreases ids@.len() - i,
    {
        let id = ids[i];
        proof {
            let seen = ids@.take(i as int);
            let more = ids@.take(i + 1);
            assert(more =~= seen.push(id));
            assert forall|k: u64| #[trigger] more.contains(k) == (seen.contains(k) || k == id) by {
                if seen.contains(k) {
                    let j = choose|j: int| 0 <= j < seen.len() && seen[j] == k;
                    assert(more[j] == k);
                }
                assert(more[i as int] == id);
            }
        }
        if let Some(value) = map.remove(&id) {
            kept.insert(id, value);
        }
        i += 1;
    }
    assert(ids@.take(ids@.len() as int) =~= ids@);
    assert(kept@ =~= before.restrict(ids@.to_set()));
    *map = kept;
}

/// Whether `ids` has `id`.
pub fn has_id(ids: &Vec<u64>, id: u64) -> (r: bool)
    ensures
        r == ids@.contains(id),
{
    let mut i: usize = 0;
    while i < ids.len()
        invariant
            i <= ids@.len(),
            forall|j: int| 0 <= j < i ==> ids@[j] != id,
        decreases ids@.len() - i,
    {
        if ids[i] == id {
            return true;
        }
        i += 1;
    }
    false
}

} // verus!
