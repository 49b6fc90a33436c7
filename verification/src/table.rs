//! Keyed tables with automatically assigned identifiers.
//!
//! A table keeps its rows in the order they were inserted. Identifiers start
//! at 1 and only grow, so rows stay sorted by identifier and no identifier is
//! ever used twice, even after a row is deleted.

use vstd::prelude::*;

verus! {

/// A record that carries its own identifier.
pub trait Row: Sized {
    spec fn key(&self) -> u32;

    fn id(&self) -> (id: u32)
        ensures
            id == self.key(),
    ;
}

/// The mathematical content of a [`Table`].
#[verifier::ext_equal]
pub struct TableView<T> {
    pub rows: Seq<T>,
    pub next_id: u32,
}

impl<T: Row> TableView<T> {
    /// A table without rows whose first identifier will be 1.
    pub open spec fn empty() -> Self {
        TableView { rows: Seq::empty(), next_id: 1 }
    }

    /// Rows are sorted by identifier, and every identifier is positive and
    /// below the next one to be handed out.
    pub open spec fn wf(self) -> bool {
        &&& self.next_id >= 1
        &&& forall|i: int, j: int|
            0 <= i < j < self.rows.len() ==> (#[trigger] self.rows[i]).key() < (
            #[trigger] self.rows[j]).key()
        &&& forall|i: int|
            0 <= i < self.rows.len() ==> 1 <= (#[trigger] self.rows[i]).key() < self.next_id
    }

    /// Some row has identifier `id`.
    pub open spec fn contains(self, id: u32) -> bool {
        exists|i: int| 0 <= i < self.rows.len() && (#[trigger] self.rows[i]).key() == id
    }

    /// Position of the row with identifier `id` (meaningful when there is one).
    pub open spec fn index_of(self, id: u32) -> int {
        choose|i: int| 0 <= i < self.rows.len() && (#[trigger] self.rows[i]).key() == id
    }

    /// The row with identifier `id` (meaningful when there is one).
    pub open spec fn get(self, id: u32) -> T {
        self.rows[self.index_of(id)]
    }

    /// No identifier is left to hand out.
    pub open spec fn is_full(self) -> bool {
        self.next_id == u32::MAX
    }

    /// The table after `row` is appended under the next identifier.
    pub open spec fn insert(self, row: T) -> Self {
        TableView { rows: self.rows.push(row), next_id: (self.next_id + 1) as u32 }
    }

    /// The table after the row with `row`'s identifier is replaced by `row`.
    pub open spec fn update(self, row: T) -> Self {
        TableView { rows: self.rows.update(self.index_of(row.key()), row), ..self }
    }

    /// The table after the row with identifier `id` is deleted.
    pub open spec fn delete(self, id: u32) -> Self {
        TableView { rows: self.rows.remove(self.index_of(id)), ..self }
    }

    /// The table after every row that fails `keep` is deleted.
    pub open spec fn filter(self, keep: spec_fn(T) -> bool) -> Self {
        TableView { rows: self.rows.filter(keep), ..self }
    }

    /// In a well-formed table a row is found at its own position.
    pub proof fn lemma_index_of(self, i: int)
        requires
            self.wf(),
            0 <= i < self.rows.len(),
        ensures
            self.contains(self.rows[i].key()),
            self.index_of(self.rows[i].key()) == i,
            self.get(self.rows[i].key()) == self.rows[i],
    {
        let id = self.rows[i].key();
        let j = self.index_of(id);
        assert(0 <= j < self.rows.len() && self.rows[j].key() == id);
        if j < i {
            assert(self.rows[j].key() < self.rows[i].key());
        } else if i < j {
            assert(self.rows[i].key() < self.rows[j].key());
        }
    }

    /// The row in position `i` has an identifier above `i`.
    pub proof fn lemma_key_lower_bound(self, i: int)
        requires
            self.wf(),
            0 <= i < self.rows.len(),
        ensures
            self.rows[i].key() > i,
        decreases i,
    {
        if i > 0 {
            self.lemma_key_lower_bound(i - 1);
            assert(self.rows[i - 1].key() < self.rows[i].key());
        }
    }

    /// A well-formed table holds fewer rows than identifiers were handed out.
    pub proof fn lemma_len_bound(self)
        requires
            self.wf(),
        ensures
            self.rows.len() < self.next_id,
    {
        if self.rows.len() > 0 {
            self.lemma_key_lower_bound(self.rows.len() - 1);
        }
    }

    /// Inserting keeps a table well formed, adds the row and moves no other.
    pub proof fn lemma_insert(self, row: T)
        requires
            self.wf(),
            !self.is_full(),
            row.key() == self.next_id,
        ensures
            self.insert(row).wf(),
            self.insert(row).contains(row.key()),
            self.insert(row).get(row.key()) == row,
            !self.contains(row.key()),
            forall|id: u32| self.contains(id) ==> self.insert(row).contains(id),
            forall|id: u32|
                self.contains(id) ==> self.insert(row).index_of(id) == self.index_of(id),
            forall|id: u32|
                #![trigger self.insert(row).contains(id)]
                self.insert(row).contains(id) ==> id == row.key() || self.contains(id),
    {
        let after = self.insert(row);
        assert(after.rows[self.rows.len() as int] == row);
        assert(after.wf());
        after.lemma_index_of(self.rows.len() as int);
        assert forall|id: u32| self.contains(id) implies after.contains(id) && after.index_of(id)
            == self.index_of(id) by {
            let i = self.index_of(id);
            assert(after.rows[i] == self.rows[i]);
            after.lemma_index_of(i);
        }
        assert forall|id: u32| after.contains(id) implies id == row.key() || self.contains(
            id,
        ) by {
            let i = after.index_of(id);
            if i < self.rows.len() {
                assert(self.rows[i] == after.rows[i]);
            }
        }
    }

    /// Replacing a row keeps a table well formed and touches no other row.
    pub proof fn lemma_update(self, row: T)
        requires
            self.wf(),
            self.contains(row.key()),
        ensures
            self.update(row).wf(),
            self.update(row).rows.len() == self.rows.len(),
            self.update(row).get(row.key()) == row,
            forall|id: u32| self.update(row).contains(id) == self.contains(id),
            forall|id: u32|
                self.contains(id) ==> self.update(row).index_of(id) == self.index_of(id),
            forall|id: u32|
                id != row.key() && self.contains(id) ==> self.update(row).get(id) == self.get(
                    id,
                ),
    {
        let after = self.update(row);
        let k = self.index_of(row.key());
        assert forall|i: int| 0 <= i < after.rows.len() implies (#[trigger] after.rows[i]).key()
            == self.rows[i].key() by {}
        assert(after.wf());
        assert forall|id: u32| after.contains(id) == self.contains(id) by {
            if after.contains(id) {
                let i = after.index_of(id);
                assert(self.rows[i].key() == id);
            }
            if self.contains(id) {
                let i = self.index_of(id);
                assert(after.rows[i].key() == id);
            }
        }
        assert forall|id: u32| self.contains(id) implies after.index_of(id) == self.index_of(
            id,
        ) by {
            let i = self.index_of(id);
            assert(after.rows[i].key() == id);
            after.lemma_index_of(i);
        }
    }

    /// Deleting a row keeps a table well formed and touches no other row.
    pub proof fn lemma_delete(self, id: u32)
        requires
            self.wf(),
            self.contains(id),
        ensures
            self.delete(id).wf(),
            !self.delete(id).contains(id),
            forall|other: u32|
                other != id ==> self.delete(id).contains(other) == self.contains(other),
            forall|other: u32|
                other != id && self.contains(other) ==> self.delete(id).get(other) == self.get(
                    other,
                ),
    {
        let after = self.delete(id);
        let k = self.index_of(id);
        assert forall|i: int| 0 <= i < after.rows.len() implies #[trigger] after.rows[i] == (if i
            < k {
            self.rows[i]
        } else {
            self.rows[i + 1]
        }) by {}
        assert(after.wf());
        if after.contains(id) {
            let i = after.index_of(id);
            if i < k {
                assert(self.rows[i].key() < self.rows[k].key());
            } else {
                assert(self.rows[k].key() < self.rows[i + 1].key());
            }
        }
        assert forall|other: u32| other != id implies after.contains(other) == self.contains(
            other,
        ) by {
            if after.contains(other) {
                let i = after.index_of(other);
                if i < k {
                    assert(self.rows[i].key() == other);
                } else {
                    assert(self.rows[i + 1].key() == other);
                }
            }
            if self.contains(other) {
                let i = self.index_of(other);
                if i < k {
                    assert(after.rows[i].key() == other);
                } else {
                    assert(after.rows[i - 1].key() == other);
                }
            }
        }
        assert forall|other: u32| other != id && self.contains(other) implies after.get(other)
            == self.get(other) by {
            let i = self.index_of(other);
            if i < k {
                assert(after.rows[i] == self.rows[i]);
                after.lemma_index_of(i);
            } else {
                assert(after.rows[i - 1] == self.rows[i]);
                after.lemma_index_of(i - 1);
            }
        }
    }

    /// Deleting rows keeps a table well formed; what is left are rows of the
    /// table that pass `keep`.
    pub proof fn lemma_filter(self, keep: spec_fn(T) -> bool)
        requires
            self.wf(),
        ensures
            self.filter(keep).wf(),
            forall|i: int|
                0 <= i < self.filter(keep).rows.len() ==> keep(
                    #[trigger] self.filter(keep).rows[i],
                ) && self.contains(self.filter(keep).rows[i].key()) && self.get(
                    self.filter(keep).rows[i].key(),
                ) == self.filter(keep).rows[i],
            forall|i: int|
                0 <= i < self.rows.len() && keep(#[trigger] self.rows[i]) ==> self.filter(
                    keep,
                ).contains(self.rows[i].key()),
        decreases self.rows.len(),
    {
        reveal(Seq::filter);
        let after = self.filter(keep);
        if self.rows.len() > 0 {
            let n = self.rows.len() - 1;
            let front = TableView { rows: self.rows.drop_last(), ..self };
            assert forall|i: int| 0 <= i < front.rows.len() implies #[trigger] front.rows[i]
                == self.rows[i] by {}
            assert(front.wf());
            front.lemma_filter(keep);
            let kept = front.filter(keep);
            assert forall|i: int| 0 <= i < kept.rows.len() implies (#[trigger] kept.rows[i]).key()
                < self.rows[n].key() && self.contains(kept.rows[i].key()) && self.get(
                kept.rows[i].key(),
            ) == kept.rows[i] by {
                let id = kept.rows[i].key();
                let k = front.index_of(id);
                assert(front.rows[k] == self.rows[k]);
                self.lemma_index_of(k);
                front.lemma_index_of(k);
            }
            if keep(self.rows[n]) {
                assert(after.rows == kept.rows.push(self.rows[n]));
                self.lemma_index_of(n);
                assert(after.wf());
                assert(after.rows[kept.rows.len() as int] == self.rows[n]);
            } else {
                assert(after.rows == kept.rows);
            }
            assert forall|i: int| 0 <= i < self.rows.len() && keep(
                #[trigger] self.rows[i],
            ) implies after.contains(self.rows[i].key()) by {
                if i < n {
                    assert(front.rows[i] == self.rows[i]);
                    let j = kept.index_of(self.rows[i].key());
                    assert(after.rows[j] == kept.rows[j]);
                }
            }
        }
    }
}

/// Filtering one row more either appends that row or changes nothing.
pub proof fn lemma_filter_step<T>(rows: Seq<T>, keep: spec_fn(T) -> bool, i: int)
    requires
        0 <= i < rows.len(),
    ensures
        rows.take(i + 1).filter(keep) == if keep(rows[i]) {
            rows.take(i).filter(keep).push(rows[i])
        } else {
            rows.take(i).filter(keep)
        },
{
    reveal(Seq::filter);
    assert(rows.take(i + 1).drop_last() =~= rows.take(i));
}

/// Rows in insertion order, and the identifier the next insert will use.
pub struct Table<T> {
    pub rows: Vec<T>,
    pub next_id: u32,
}

impl<T: Row> View for Table<T> {
    type V = TableView<T>;

    open spec fn view(&self) -> TableView<T> {
        TableView { rows: self.rows@, next_id: self.next_id }
    }
}

impl<T: Row> Table<T> {
    /// A table without rows.
    pub fn new() -> (table: Self)
        ensures
            table@ == TableView::<T>::empty(),
            table@.wf(),
    {
        Table { rows: Vec::new(), next_id: 1 }
    }

    /// Checks that the rows are sorted by identifier and that every
    /// identifier is positive and below the next one to be handed out.
    pub fn is_well_formed(&self) -> (ok: bool)
        ensures
            ok == self@.wf(),
    {
        if self.next_id < 1 {
            return false;
        }
        let mut i: usize = 0;
        while i < self.rows.len()
            invariant
                i <= self.rows.len(),
                self.next_id >= 1,
                forall|a: int, b: int|
                    0 <= a < b < i ==> (#[trigger] self.rows[a]).key() < (
                    #[trigger] self.rows[b]).key(),
                forall|a: int| 0 <= a < i ==> 1 <= (#[trigger] self.rows[a]).key() < self.next_id,
            decreases self.rows.len() - i,
        {
            let id = self.rows[i].id();
            if id < 1 || id >= self.next_id {
                assert(!(1 <= self@.rows[i as int].key() < self@.next_id));
                return false;
            }
            if i > 0 && self.rows[i - 1].id() >= id {
                assert(!(self@.rows[i - 1].key() < self@.rows[i as int].key()));
                return false;
            }
            i += 1;
        }
        true
    }

    /// Whether another row can still be inserted.
    pub fn has_room(&self) -> (room: bool)
        ensures
            room == !self@.is_full(),
    {
        self.next_id < u32::MAX
    }

    /// Position of the row with identifier `id`, if there is one.
    pub fn find(&self, id: u32) -> (found: Option<usize>)
        requires
            self@.wf(),
        ensures
            found is Some == self@.contains(id),
            found matches Some(i) ==> i < self.rows.len() && i == self@.index_of(id)
                && self.rows[i as int].key() == id,
    {
        let mut i: usize = 0;
        while i < self.rows.len()
            invariant
                i <= self.rows.len(),
                self@.wf(),
                forall|k: int| 0 <= k < i ==> (#[trigger] self.rows[k]).key() != id,
            decreases self.rows.len() - i,
        {
            if self.rows[i].id() == id {
                proof {
                    self@.lemma_index_of(i as int);
                }
                return Some(i);
            }
            i += 1;
        }
        None
    }

    /// Appends `row`, which must already carry the next identifier.
    pub fn insert(&mut self, row: T)
        requires
            old(self)@.wf(),
            !old(self)@.is_full(),
            row.key() == old(self).next_id,
        ensures
            final(self)@ == old(self)@.insert(row),
            final(self)@.wf(),
            final(self).rows@ == old(self).rows@.push(row),
            final(self).next_id == old(self).next_id + 1,
    {
        self.rows.push(row);
        self.next_id = self.next_id + 1;
    }

    /// Replaces the row in position `i` by `row`, which keeps its identifier.
    pub fn replace(&mut self, i: usize, row: T)
        requires
            old(self)@.wf(),
            i < old(self).rows.len(),
            row.key() == old(self).rows[i as int].key(),
        ensures
            final(self)@ == old(self)@.update(row),
            final(self)@.wf(),
            final(self).rows@ == old(self).rows@.update(i as int, row),
            final(self).next_id == old(self).next_id,
    {
        self.rows.set(i, row);
    }

    /// Deletes the row in position `i` and hands it back.
    pub fn remove(&mut self, i: usize) -> (row: T)
        requires
            old(self)@.wf(),
            i < old(self).rows.len(),
        ensures
            row == old(self).rows[i as int],
            final(self)@ == old(self)@.delete(row.key()),
            final(self)@.wf(),
            final(self).rows@ == old(self).rows@.remove(i as int),
            final(self).next_id == old(self).next_id,
    {
        self.rows.remove(i)
    }
}

} // verus!
