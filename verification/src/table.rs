//! A table whose keys strictly increase in insertion order.

use vstd::prelude::*;

verus! {

/// Values under strictly increasing keys, oldest first.
#[derive(Debug)]
pub struct OrderedTable<V> {
    rows: Vec<(u64, V)>,
}

/// Whether the rows' keys strictly increase.
pub open spec fn ascending<V>(rows: Seq<(u64, V)>) -> bool {
    forall|i: int, j: int| 0 <= i < j < rows.len() ==> rows[i].0 < rows[j].0
}

/// Whether some row is filed under `key`.
pub open spec fn has_key<V>(rows: Seq<(u64, V)>, key: u64) -> bool {
    exists|i: int| 0 <= i < rows.len() && rows[i].0 == key
}

/// The position of the row filed under `key`.
pub open spec fn index_of<V>(rows: Seq<(u64, V)>, key: u64) -> int {
    choose|i: int| 0 <= i < rows.len() && rows[i].0 == key
}

/// Whether every key is at most `bound`.
pub open spec fn keys_at_most<V>(rows: Seq<(u64, V)>, bound: u64) -> bool {
    forall|i: int| 0 <= i < rows.len() ==> rows[i].0 <= bound
}

/// An ascending table files at most one row under each key.
pub proof fn lemma_index_is_unique<V>(rows: Seq<(u64, V)>, i: int)
    requires
        ascending(rows),
        0 <= i < rows.len(),
    ensures
        has_key(rows, rows[i].0),
        index_of(rows, rows[i].0) == i,
{
    let key = rows[i].0;
    assert(has_key(rows, key));
    let j = index_of(rows, key);
    assert(0 <= j < rows.len() && rows[j].0 == key);
    if i < j {
        assert(rows[i].0 < rows[j].0);
    } else if j < i {
        assert(rows[j].0 < rows[i].0);
    }
}

impl<V> OrderedTable<V> {
    /// The rows, oldest first.
    pub closed spec fn view(&self) -> Seq<(u64, V)> {
        self.rows@
    }

    /// An empty table.
    pub fn new() -> (table: OrderedTable<V>)
        ensures
            table@ == Seq::<(u64, V)>::empty(),
    {
        OrderedTable { rows: Vec::new() }
    }

    /// The number of rows.
    pub fn len(&self) -> (count: usize)
        ensures
            count == self@.len(),
    {
        self.rows.len()
    }

    /// Whether the table holds no row.
    pub fn is_empty(&self) -> (empty: bool)
        ensures
            empty == (self@.len() == 0),
    {
        self.rows.len() == 0
    }

    /// Files `value` under a key above all others.
    pub fn push(&mut self, key: u64, value: V)
        ensures
            final(self)@ == old(self)@.push((key, value)),
    {
        self.rows.push((key, value));
    }

    /// The position of `key`'s row.
    pub fn position(&self, key: u64) -> (found: Option<usize>)
        requires
            ascending(self@),
        ensures
            found is Some <==> has_key(self@, key),
            found matches Some(index) ==> index == index_of(self@, key) && index < self@.len()
                && self@[index as int].0 == key,
    {
        let mut index: usize = 0;
        while index < self.rows.len()
            invariant
                index <= self.rows@.len(),
                ascending(self@),
                forall|i: int| 0 <= i < index ==> self@[i].0 != key,
            decreases self.rows@.len() - index,
        {
            if self.rows[index].0 == key {
                proof {
                    lemma_index_is_unique(self@, index as int);
                }
                return Some(index);
            }
            index = index + 1;
        }
        None
    }

    /// Looks at the row at `index`.
    pub fn get(&self, index: usize) -> (row: &(u64, V))
        requires
            index < self@.len(),
        ensures
            *row == self@[index as int],
    {
        &self.rows[index]
    }

    /// The value at `index`, open to change.
    pub fn value_mut(&mut self, index: usize) -> (value: &mut V)
        requires
            index < old(self)@.len(),
        ensures
            *value == old(self)@[index as int].1,
            final(self)@ == old(self)@.update(
                index as int,
                (old(self)@[index as int].0, *final(value)),
            ),
    {
        &mut self.rows[index].1
    }

    /// Removes the row at `index`, closing the gap.
    pub fn remove_at(&mut self, index: usize) -> (row: (u64, V))
        requires
            index < old(self)@.len(),
        ensures
            row == old(self)@[index as int],
            final(self)@ == old(self)@.remove(index as int),
    {
        self.rows.remove(index)
    }

    /// Removes the oldest row.
    pub fn pop_first(&mut self) -> (row: Option<(u64, V)>)
        ensures
            old(self)@.len() == 0 ==> row is None && final(self)@ == old(self)@,
            old(self)@.len() > 0 ==> row == Some(old(self)@[0]) && final(self)@ == old(
                self,
            )@.skip(1),
    {
        if self.rows.len() == 0 {
            None
        } else {
            let row = self.rows.remove(0);
            proof {
                assert(self.rows@ =~= old(self).rows@.skip(1));
            }
            Some(row)
        }
    }
}

} // verus!
