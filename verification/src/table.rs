//! A small table from keys to values, kept as a list of entries in which no
//! key stands twice.

use vstd::prelude::*;

verus! {

/// A key of a table: a value that can be told apart from another by what it
/// stands for.
pub trait TableKey: Sized {
    /// What the key stands for.
    type Id;

    /// What this key stands for.
    spec fn id(&self) -> Self::Id;

    /// Whether two keys stand for the same thing.
    fn same_as(&self, other: &Self) -> (same: bool)
        ensures
            same == (self.id() == other.id()),
    ;
}

/// Some entry at or after `from` has the key `id`.
pub open spec fn listed_from<K: TableKey, V>(entries: Seq<(K, V)>, id: K::Id, from: int) -> bool {
    exists|i: int| from <= i < entries.len() && (#[trigger] entries[i]).0.id() == id
}

/// The place of the entry with the key `id`.
pub open spec fn place_of<K: TableKey, V>(entries: Seq<(K, V)>, id: K::Id) -> int {
    choose|i: int| 0 <= i < entries.len() && (#[trigger] entries[i]).0.id() == id
}

/// No key stands twice.
pub open spec fn distinct_keys<K: TableKey, V>(entries: Seq<(K, V)>) -> bool {
    forall|i: int, j: int|
        0 <= i < entries.len() && 0 <= j < entries.len() && (#[trigger] entries[i]).0.id() == (
        #[trigger] entries[j]).0.id() ==> i == j
}

/// The map that a list of entries stands for.
pub open spec fn as_map<K: TableKey, V>(entries: Seq<(K, V)>) -> Map<K::Id, V> {
    Map::new(
        |id: K::Id| listed_from(entries, id, 0),
        |id: K::Id| entries[place_of(entries, id)].1,
    )
}

/// The sum of all balances of a list of entries.
pub open spec fn total<K>(entries: Seq<(K, u128)>) -> nat
    decreases entries.len(),
{
    if entries.len() == 0 {
        0
    } else {
        total(entries.drop_last()) + entries.last().1 as nat
    }
}

/// No balance is larger than the sum of all.
pub proof fn lemma_total_bounds<K>(entries: Seq<(K, u128)>, i: int)
    requires
        0 <= i < entries.len(),
    ensures
        entries[i].1 <= total(entries),
    decreases entries.len(),
{
    if i < entries.len() - 1 {
        lemma_total_bounds(entries.drop_last(), i);
    }
}

/// Changing one balance changes the sum by the difference.
pub proof fn lemma_total_update<K>(entries: Seq<(K, u128)>, i: int, entry: (K, u128))
    requires
        0 <= i < entries.len(),
    ensures
        total(entries.update(i, entry)) == total(entries) - entries[i].1 + entry.1,
    decreases entries.len(),
{
    let changed = entries.update(i, entry);
    if i < entries.len() - 1 {
        lemma_total_update(entries.drop_last(), i, entry);
        assert(changed.drop_last() =~= entries.drop_last().update(i, entry));
    } else {
        assert(changed.drop_last() =~= entries.drop_last());
    }
}

/// A table from keys to values.
pub struct Table<K: TableKey, V: Copy> {
    entries: Vec<(K, V)>,
}

impl<K: TableKey, V: Copy> Table<K, V> {
    /// The entries of the table.
    pub closed spec fn entries(&self) -> Seq<(K, V)> {
        self.entries@
    }

    /// The map that the table stands for.
    pub open spec fn map(&self) -> Map<K::Id, V> {
        as_map(self.entries())
    }

    /// No key stands twice in the table.
    pub open spec fn well_formed(&self) -> bool {
        distinct_keys(self.entries())
    }

    /// A table without entries.
    pub fn new() -> (table: Self)
        ensures
            table.well_formed(),
            table.map() == Map::<K::Id, V>::empty(),
            table.entries().len() == 0,
    {
        let table = Table { entries: Vec::new() };
        assert(table.map() =~= Map::<K::Id, V>::empty());
        table
    }

    /// The place of a key among the entries, if it is there.
    fn find(&self, key: &K) -> (place: Option<usize>)
        requires
            self.well_formed(),
        ensures
            match place {
                Some(i) => i < self.entries().len() && self.entries()[i as int].0.id() == key.id()
                    && self.map().contains_key(key.id()) && self.map()[key.id()]
                    == self.entries()[i as int].1 && place_of(self.entries(), key.id()) == i,
                None => !self.map().contains_key(key.id()),
            },
    {
        let mut i: usize = 0;
        while i < self.entries.len()
            invariant
                self.well_formed(),
                i <= self.entries.len(),
                forall|j: int| 0 <= j < i ==> (#[trigger] self.entries@[j]).0.id() != key.id(),
            decreases self.entries.len() - i,
        {
            if self.entries[i].0.same_as(key) {
                proof {
                    assert(self.entries@[i as int].0.id() == key.id());
                    assert(listed_from(self.entries@, key.id(), 0));
                    let chosen = place_of(self.entries@, key.id());
                    assert(self.entries@[chosen].0.id() == key.id());
                }
                return Some(i);
            }
            i += 1;
        }
        None
    }

    /// The value under a key, if the table has one.
    pub fn get(&self, key: &K) -> (value: Option<V>)
        requires
            self.well_formed(),
        ensures
            value == if self.map().contains_key(key.id()) {
                Some(self.map()[key.id()])
            } else {
                None
            },
    {
        match self.find(key) {
            Some(i) => Some(self.entries[i].1),
            None => None,
        }
    }

    /// Stores a value under a key, in place of the one that was there.
    pub fn insert(&mut self, key: K, value: V)
        requires
            old(self).well_formed(),
        ensures
            final(self).well_formed(),
            final(self).map() == old(self).map().insert(key.id(), value),
            final(self).entries() == if old(self).map().contains_key(key.id()) {
                old(self).entries().update(place_of(old(self).entries(), key.id()), (key, value))
            } else {
                old(self).entries().push((key, value))
            },
    {
        let ghost id = key.id();
        let place = self.find(&key);
        match place {
            Some(i) => {
                self.entries[i] = (key, value);
            },
            None => {
                self.entries.push((key, value));
            },
        }
        proof {
            let before = old(self).entries@;
            let after = self.entries@;
            assert forall|i: int| 0 <= i < before.len() implies (#[trigger] after[i]).0.id()
                == before[i].0.id() by {}
            assert forall|i: int, j: int|
                0 <= i < after.len() && 0 <= j < after.len() && (#[trigger] after[i]).0.id() == (
                #[trigger] after[j]).0.id() implies i == j by {
                if i < before.len() {
                    assert(listed_from(before, before[i].0.id(), 0));
                }
                if j < before.len() {
                    assert(listed_from(before, before[j].0.id(), 0));
                }
            }
            assert forall|other: K::Id| #[trigger]
                as_map(after).contains_key(other) <==> old(self).map().insert(
                    id,
                    value,
                ).contains_key(other) by {
                if listed_from(after, other, 0) {
                    let i = place_of(after, other);
                    if other != id {
                        assert(before[i].0.id() == other);
                        assert(listed_from(before, other, 0));
                    }
                }
                if other == id {
                    match place {
                        Some(i) => {
                            assert(after[i as int].0.id() == other);
                        },
                        None => {
                            assert(after[after.len() - 1].0.id() == other);
                        },
                    }
                    assert(listed_from(after, other, 0));
                } else if listed_from(before, other, 0) {
                    let i = place_of(before, other);
                    assert(after[i].0.id() == other);
                    assert(listed_from(after, other, 0));
                }
            }
            assert forall|other: K::Id| #[trigger] as_map(after).contains_key(other) implies as_map(
                after,
            )[other] == old(self).map().insert(id, value)[other] by {
                let i = place_of(after, other);
                if other == id {
                    match place {
                        Some(k) => {
                            assert(after[k as int].0.id() == other);
                        },
                        None => {
                            assert(after[after.len() - 1].0.id() == other);
                        },
                    }
                } else {
                    assert(before[i].0.id() == other);
                    let k = place_of(before, other);
                    assert(before[k].0.id() == other);
                    assert(i == k);
                }
            }
            assert(as_map(after) =~= old(self).map().insert(id, value));
        }
    }

    /// Takes the entry of a key out of the table, if there is one.
    pub fn remove(&mut self, key: &K)
        requires
            old(self).well_formed(),
        ensures
            final(self).well_formed(),
            final(self).map() == old(self).map().remove(key.id()),
    {
        let place = self.find(key);
        match place {
            Some(i) => {
                self.entries.remove(i);
                proof {
                    let before = old(self).entries@;
                    let after = self.entries@;
                    let at = i as int;
                    assert forall|k: int| 0 <= k < after.len() implies #[trigger] after[k]
                        == before[if k < at {
                        k
                    } else {
                        k + 1
                    }] by {}
                    assert forall|a: int, b: int|
                        0 <= a < after.len() && 0 <= b < after.len() && (#[trigger] after[a]).0.id()
                            == (#[trigger] after[b]).0.id() implies a == b by {
                        let x = if a < at { a } else { a + 1 };
                        let y = if b < at { b } else { b + 1 };
                        assert(before[x].0.id() == before[y].0.id());
                    }
                    assert forall|other: K::Id| #[trigger]
                        as_map(after).contains_key(other) <==> old(self).map().remove(
                            key.id(),
                        ).contains_key(other) by {
                        if listed_from(after, other, 0) {
                            let k = place_of(after, other);
                            let x = if k < at { k } else { k + 1 };
                            assert(before[x].0.id() == other);
                            assert(listed_from(before, other, 0));
                            assert(before[at].0.id() == key.id());
                        }
                        if other != key.id() && listed_from(before, other, 0) {
                            let x = place_of(before, other);
                            let k = if x < at { x } else { x - 1 };
                            assert(after[k].0.id() == other);
                            assert(listed_from(after, other, 0));
                        }
                    }
                    assert forall|other: K::Id| #[trigger]
                        as_map(after).contains_key(other) implies as_map(after)[other] == old(
                        self,
                    ).map().remove(key.id())[other] by {
                        let k = place_of(after, other);
                        let x = if k < at { k } else { k + 1 };
                        assert(before[x].0.id() == other);
                        let y = place_of(before, other);
                        assert(before[y].0.id() == other);
                    }
                    assert(as_map(after) =~= old(self).map().remove(key.id()));
                }
            },
            None => {
                assert(self.map() =~= old(self).map().remove(key.id()));
            },
        }
    }
}

impl<K: TableKey> Table<K, u128> {
    /// The sum of all balances in the table.
    pub open spec fn sum(&self) -> nat {
        total(self.entries())
    }

    /// No balance of a table is larger than the sum of all of them.
    pub proof fn lemma_balance_bounded(&self, id: K::Id)
        requires
            self.well_formed(),
            self.map().contains_key(id),
        ensures
            self.map()[id] <= self.sum(),
    {
        lemma_total_bounds(self.entries(), place_of(self.entries(), id));
    }

    /// Storing a balance changes the sum by what it adds to the balance that
    /// was there.
    pub proof fn lemma_insert_sum(before: Self, after: Self, key: K, value: u128)
        requires
            before.well_formed(),
            after.entries() == if before.map().contains_key(key.id()) {
                before.entries().update(place_of(before.entries(), key.id()), (key, value))
            } else {
                before.entries().push((key, value))
            },
        ensures
            after.sum() == before.sum() - (if before.map().contains_key(key.id()) {
                before.map()[key.id()]
            } else {
                0
            }) + value,
    {
        if before.map().contains_key(key.id()) {
            lemma_total_update(before.entries(), place_of(before.entries(), key.id()), (key, value));
        } else {
            assert(after.entries().drop_last() =~= before.entries());
        }
    }
}

} // verus!
