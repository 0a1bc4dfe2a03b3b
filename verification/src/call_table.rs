//! A table with one entry for each node, in the order of the node identifiers.

use vstd::prelude::*;

use crate::node_id::{precedes, precedes_is_strict, precedes_is_transitive, NodeId, Relation};

verus! {

/// Maps node identifiers to values. The entries are kept in ascending order.
pub struct CallTable<V> {
    entries: Vec<(NodeId, V)>,
}

/// The position of the entry with the given identifier.
pub open spec fn position_of<V>(entries: Seq<(NodeId, V)>, id: Seq<u8>) -> int {
    choose|i: int| 0 <= i < entries.len() && (#[trigger] entries[i]).0@ == id
}

/// Whether there is an entry with the given identifier.
pub open spec fn has_entry<V>(entries: Seq<(NodeId, V)>, id: Seq<u8>) -> bool {
    exists|i: int| 0 <= i < entries.len() && (#[trigger] entries[i]).0@ == id
}

/// Whether the identifiers ascend.
pub open spec fn ascending<V>(entries: Seq<(NodeId, V)>) -> bool {
    forall|i: int, j: int|
        0 <= i < j < entries.len() ==> precedes(
            (#[trigger] entries[i]).0@,
            (#[trigger] entries[j]).0@,
        )
}

/// The map that entries stand for.
pub open spec fn map_of<V>(entries: Seq<(NodeId, V)>) -> Map<Seq<u8>, V> {
    Map::new(
        |id: Seq<u8>| has_entry(entries, id),
        |id: Seq<u8>| entries[position_of(entries, id)].1,
    )
}

impl<V> View for CallTable<V> {
    type V = Map<Seq<u8>, V>;

    open spec fn view(&self) -> Map<Seq<u8>, V> {
        map_of(self.listed())
    }
}

proof fn position_is_unique<V>(entries: Seq<(NodeId, V)>, i: int)
    requires
        ascending(entries),
        0 <= i < entries.len(),
    ensures
        has_entry(entries, entries[i].0@),
        position_of(entries, entries[i].0@) == i,
{
    let id = entries[i].0@;
    let k = position_of(entries, id);
    assert(entries[i].0@ == id);
    if k < i {
        precedes_is_strict(entries[k].0@, entries[i].0@);
    } else if i < k {
        precedes_is_strict(entries[i].0@, entries[k].0@);
    }
}

/// An entry of a table is what the table's map has for its identifier.
pub proof fn entries_are_mapped<V>(entries: Seq<(NodeId, V)>, i: int)
    requires
        ascending(entries),
        0 <= i < entries.len(),
    ensures
        map_of(entries).contains_key(entries[i].0@),
        map_of(entries)[entries[i].0@] == entries[i].1,
{
    position_is_unique(entries, i);
}

impl<V> CallTable<V> {
    /// The entries in ascending order.
    pub closed spec fn listed(self) -> Seq<(NodeId, V)> {
        self.entries@
    }

    /// The identifiers ascend, so that none occurs twice.
    pub open spec fn wf(self) -> bool {
        ascending(self.listed())
    }

    /// Makes an empty table.
    pub fn new() -> (table: Self)
        ensures
            table.wf(),
            table@ == Map::<Seq<u8>, V>::empty(),
    {
        let table: CallTable<V> = CallTable { entries: Vec::new() };
        assert(table@ =~= Map::<Seq<u8>, V>::empty());
        table
    }

    /// Finds the position of the first entry that does not come before `id`, and whether it
    /// is the entry of `id`.
    fn find(&self, id: &NodeId) -> (found: (usize, bool))
        requires
            self.wf(),
        ensures
            found.0 <= self.listed().len(),
            forall|j: int| 0 <= j < found.0 ==> precedes((#[trigger] self.listed()[j]).0@, id@),
            found.1 ==> found.0 < self.listed().len() && self.listed()[found.0 as int].0@ == id@,
            !found.1 ==> forall|j: int|
                found.0 <= j < self.listed().len() ==> precedes(
                    id@,
                    (#[trigger] self.listed()[j]).0@,
                ),
            found.1 == self@.contains_key(id@),
            found.1 ==> self@[id@] == self.listed()[found.0 as int].1,
    {
        let mut next: usize = 0;
        while next < self.entries.len()
            invariant
                self.wf(),
                next <= self.entries@.len(),
                forall|j: int| 0 <= j < next ==> precedes((#[trigger] self.entries@[j]).0@, id@),
            decreases self.entries@.len() - next,
        {
            match self.entries[next].0.relate(id) {
                Relation::Before => {},
                Relation::Same => {
                    proof {
                        position_is_unique(self.entries@, next as int);
                    }
                    return (next, true);
                },
                Relation::After => {
                    proof {
                        let n = next as int;
                        assert forall|j: int| n <= j < self.entries@.len() implies precedes(
                            id@,
                            (#[trigger] self.entries@[j]).0@,
                        ) by {
                            if n < j {
                                precedes_is_transitive(
                                    id@,
                                    self.entries@[n].0@,
                                    self.entries@[j].0@,
                                );
                            }
                        }
                        Self::absent(self.entries@, id@, n);
                    }
                    return (next, false);
                },
            }
            next = next + 1;
        }
        proof {
            Self::absent(self.entries@, id@, next as int);
        }
        (next, false)
    }

    proof fn absent(entries: Seq<(NodeId, V)>, id: Seq<u8>, at: int)
        requires
            0 <= at <= entries.len(),
            forall|j: int| 0 <= j < at ==> precedes((#[trigger] entries[j]).0@, id),
            forall|j: int| at <= j < entries.len() ==> precedes(id, (#[trigger] entries[j]).0@),
        ensures
            !has_entry(entries, id),
    {
        if has_entry(entries, id) {
            let i = position_of(entries, id);
            if i < at {
                precedes_is_strict(entries[i].0@, id);
            } else {
                precedes_is_strict(id, entries[i].0@);
            }
        }
    }

    /// Whether the table has an entry for `id`.
    pub fn contains_key(&self, id: &NodeId) -> (contains: bool)
        requires
            self.wf(),
        ensures
            contains == self@.contains_key(id@),
    {
        self.find(id).1
    }

    /// Returns the value of `id`, if there is one.
    pub fn get(&self, id: &NodeId) -> (value: Option<&V>)
        requires
            self.wf(),
        ensures
            value is Some <==> self@.contains_key(id@),
            value matches Some(found) ==> *found == self@[id@],
    {
        let (at, found) = self.find(id);
        if found {
            Some(&self.entries[at].1)
        } else {
            None
        }
    }

    /// Sets the value of `id` and returns the one that it had, if there was one.
    pub fn insert(&mut self, id: NodeId, value: V) -> (previous: Option<V>)
        requires
            old(self).wf(),
        ensures
            final(self).wf(),
            final(self)@ == old(self)@.insert(id@, value),
            previous is Some <==> old(self)@.contains_key(id@),
            previous matches Some(had) ==> had == old(self)@[id@],
    {
        let (at, found) = self.find(&id);
        let ghost before = self.entries@;
        let previous: Option<V> = if found {
            let (_, had) = self.entries.remove(at);
            Some(had)
        } else {
            None
        };
        self.entries.insert(at, (id, value));
        proof {
            let after = self.entries@;
            let k = at as int;
            // Where an entry of `before` is found in `after`.
            let shift = if found {
                0int
            } else {
                1int
            };
            assert(after.len() == before.len() + shift);
            assert forall|i: int| 0 <= i < after.len() && i != k implies #[trigger] after[i] == (
            if i < k {
                before[i]
            } else {
                before[i - shift]
            }) by {}
            assert forall|i: int, j: int| 0 <= i < j < after.len() implies precedes(
                (#[trigger] after[i]).0@,
                (#[trigger] after[j]).0@,
            ) by {
                if i == k {
                    if found {
                        assert(precedes(before[k].0@, before[j].0@));
                    } else {
                        assert(precedes(id@, before[j - 1].0@));
                    }
                } else if j == k {
                    assert(precedes(before[i].0@, id@));
                } else {
                    let a = if i < k {
                        i
                    } else {
                        i - shift
                    };
                    let b = if j < k {
                        j
                    } else {
                        j - shift
                    };
                    assert(precedes(before[a].0@, before[b].0@));
                }
            }
            assert(ascending(after));
            assert forall|key: Seq<u8>| #[trigger] map_of(after).contains_key(key) == map_of(
                before,
            ).insert(id@, value).contains_key(key) by {
                if has_entry(after, key) {
                    let i = position_of(after, key);
                    if i != k {
                        let a = if i < k {
                            i
                        } else {
                            i - shift
                        };
                        assert(before[a].0@ == key);
                    }
                }
                if has_entry(before, key) {
                    let a = position_of(before, key);
                    if a < k {
                        assert(after[a].0@ == key);
                    } else {
                        assert(after[a + shift].0@ == key);
                    }
                }
                assert(after[k].0@ == id@);
            }
            assert forall|key: Seq<u8>| #[trigger] map_of(after).contains_key(key) implies map_of(
                after,
            )[key] == map_of(before).insert(id@, value)[key] by {
                let i = position_of(after, key);
                assert(after[i].0@ == key);
                if i == k {
                    assert(key == id@);
                } else {
                    let a = if i < k {
                        i
                    } else {
                        i - shift
                    };
                    assert(before[a].0@ == key);
                    position_is_unique(before, a);
                    position_is_unique(after, k);
                    assert(key != id@);
                }
            }
            assert(map_of(after) =~= map_of(before).insert(id@, value));
        }
        previous
    }

    /// Removes the entry of `id` and returns its value, if there was one.
    pub fn remove(&mut self, id: &NodeId) -> (removed: Option<V>)
        requires
            old(self).wf(),
        ensures
            final(self).wf(),
            final(self)@ == old(self)@.remove(id@),
            removed is Some <==> old(self)@.contains_key(id@),
            removed matches Some(had) ==> had == old(self)@[id@],
    {
        let (at, found) = self.find(id);
        let ghost before = self.entries@;
        if found {
            let (_, had) = self.entries.remove(at);
            proof {
                let after = self.entries@;
                let k = at as int;
                assert forall|i: int| 0 <= i < after.len() implies #[trigger] after[i] == (if i < k {
                    before[i]
                } else {
                    before[i + 1]
                }) by {}
                assert forall|i: int, j: int| 0 <= i < j < after.len() implies precedes(
                    (#[trigger] after[i]).0@,
                    (#[trigger] after[j]).0@,
                ) by {
                    let a = if i < k {
                        i
                    } else {
                        i + 1
                    };
                    let b = if j < k {
                        j
                    } else {
                        j + 1
                    };
                    assert(precedes(before[a].0@, before[b].0@));
                }
                assert forall|key: Seq<u8>| #[trigger] map_of(after).contains_key(key) == map_of(
                    before,
                ).remove(id@).contains_key(key) by {
                    if has_entry(after, key) {
                        let i = position_of(after, key);
                        let a = if i < k {
                            i
                        } else {
                            i + 1
                        };
                        assert(before[a].0@ == key);
                        position_is_unique(before, a);
                        position_is_unique(before, k);
                    }
                    if has_entry(before, key) && key != id@ {
                        let a = position_of(before, key);
                        if a < k {
                            assert(after[a].0@ == key);
                        } else {
                            assert(after[a - 1].0@ == key);
                        }
                    }
                }
                assert forall|key: Seq<u8>| #[trigger]
                    map_of(after).contains_key(key) implies map_of(after)[key] == map_of(
                    before,
                ).remove(id@)[key] by {
                    let i = position_of(after, key);
                    assert(after[i].0@ == key);
                    let a = if i < k {
                        i
                    } else {
                        i + 1
                    };
                    assert(before[a].0@ == key);
                    position_is_unique(before, a);
                }
                assert(map_of(after) =~= map_of(before).remove(id@));
            }
            Some(had)
        } else {
            assert(map_of(before) =~= map_of(before).remove(id@));
            None
        }
    }

    /// Returns the number of entries.
    pub fn len(&self) -> (len: usize)
        ensures
            len == self.listed().len(),
    {
        self.entries.len()
    }

    /// Returns the entry at a position of the ascending order.
    pub fn entry(&self, at: usize) -> (entry: &(NodeId, V))
        requires
            at < self.listed().len(),
        ensures
            *entry == self.listed()[at as int],
    {
        &self.entries[at]
    }
}

/// A table's map has exactly the identifiers of its entries.
pub proof fn mapped_are_entries<V>(entries: Seq<(NodeId, V)>, id: Seq<u8>)
    ensures
        map_of(entries).contains_key(id) <==> exists|i: int|
            0 <= i < entries.len() && (#[trigger] entries[i]).0@ == id,
{
}

/// The entries of a table ascend: an earlier one comes before a later one, so that no identifier
/// is listed twice.
pub proof fn entries_ascend<V>(entries: Seq<(NodeId, V)>, i: int, j: int)
    requires
        ascending(entries),
        0 <= i < j < entries.len(),
    ensures
        precedes(entries[i].0@, entries[j].0@),
        entries[i].0@ != entries[j].0@,
{
    precedes_is_strict(entries[i].0@, entries[j].0@);
}

} // verus!
