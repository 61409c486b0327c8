//! The board columns table: user columns in sort order, and the default
//! columns of a new board.

use crate::storage::records::{column_before, columns_ordered, ColumnRecord};
use crate::storage::{same_but_columns, same_tables, AppStorage, StorageError, StorageTables};
use crate::text::{trim, trim_text};
use vstd::prelude::*;
use vstd::string::*;

verus! {

/// The largest sort order among the columns, if there is a column.
pub open spec fn max_sort_order(s: Seq<ColumnRecord>) -> Option<int>
    decreases s.len(),
{
    if s.len() == 0 {
        None
    } else {
        match max_sort_order(s.drop_last()) {
            None => Some(s.last().sort_order as int),
            Some(m) => Some(
                if m >= s.last().sort_order {
                    m
                } else {
                    s.last().sort_order as int
                },
            ),
        }
    }
}

/// The sort order a new column gets: one more than the largest, or 1 on an
/// empty board.
pub open spec fn next_sort_order(s: Seq<ColumnRecord>) -> int {
    match max_sort_order(s) {
        None => 1,
        Some(m) => m + 1,
    }
}

/// `new` is `old` with one column appended that has this id, name and sort order.
pub open spec fn column_appended(
    old: Seq<ColumnRecord>,
    new: Seq<ColumnRecord>,
    id: int,
    name: Seq<char>,
    sort_order: int,
) -> bool {
    &&& new.len() == old.len() + 1
    &&& new.subrange(0, old.len() as int) == old
    &&& new.last().id == id
    &&& new.last().name@ == name
    &&& new.last().sort_order == sort_order
}

/// The store after a column is created: one column appended, with the next
/// id, the trimmed name and the next sort order; the other tables as before.
pub open spec fn column_created(before: StorageTables, after: StorageTables, name: Seq<char>) -> bool {
    &&& same_but_columns(after, before)
    &&& after.last_column_id == before.last_column_id + 1
    &&& column_appended(
        before.columns@,
        after.columns@,
        before.last_column_id + 1,
        trim(name),
        next_sort_order(before.columns@),
    )
}

/// The names of the columns a new board starts with, in order.
pub open spec fn default_column_name(i: int) -> Seq<char> {
    if i == 0 {
        "To Plan"@
    } else if i == 1 {
        "In Progress"@
    } else if i == 2 {
        "Waiting"@
    } else {
        "Done"@
    }
}

proof fn lemma_max_sort_order_bounds(s: Seq<ColumnRecord>)
    ensures
        s.len() > 0 ==> max_sort_order(s) is Some,
        max_sort_order(s) matches Some(m) ==> forall|i: int|
            0 <= i < s.len() ==> #[trigger] s[i].sort_order <= m,
    decreases s.len(),
{
    if s.len() > 0 {
        lemma_max_sort_order_bounds(s.drop_last());
        let m = max_sort_order(s).unwrap();
        assert forall|i: int| 0 <= i < s.len() implies #[trigger] s[i].sort_order <= m by {
            if i < s.len() - 1 {
                assert(s[i] == s.drop_last()[i]);
            }
        }
    }
}

impl AppStorage {
    /// The sort order for a new column, when it fits in an `i64`.
    fn next_column_sort_order(&self) -> (r: Option<i64>)
        requires
            self.wf(),
        ensures
            r matches Some(o) ==> o == next_sort_order(self@.columns@),
            r is None ==> next_sort_order(self@.columns@) > i64::MAX,
    {
        let cols = &self.tables.columns;
        let mut max: Option<i64> = None;
        let mut i: usize = 0;
        while i < cols.len()
            invariant
                i <= cols@.len(),
                max_sort_order(cols@.subrange(0, i as int)) == match max {
                    None => None::<int>,
                    Some(m) => Some(m as int),
                },
            decreases cols@.len() - i,
        {
            let so = cols[i].sort_order;
            let ghost prefix = cols@.subrange(0, i + 1);
            assert(prefix.drop_last() =~= cols@.subrange(0, i as int));
            max = match max {
                None => Some(so),
                Some(m) => Some(
                    if m >= so {
                        m
                    } else {
                        so
                    },
                ),
            };
            i = i + 1;
        }
        assert(cols@.subrange(0, cols@.len() as int) =~= cols@);
        match max {
            None => Some(1),
            Some(m) => if m == i64::MAX {
                None
            } else {
                Some(m + 1)
            },
        }
    }

    /// Appends a column with the next id, stamped with `created_at`.
    fn append_column(&mut self, name: String, sort_order: i64, created_at: String) -> (r: Result<
        (),
        StorageError,
    >)
        requires
            old(self).wf(),
            forall|i: int|
                0 <= i < old(self)@.columns@.len() ==> #[trigger] old(self)@.columns@[i].sort_order
                    < sort_order,
        ensures
            final(self).wf(),
            old(self)@.last_column_id == i64::MAX ==> r == Err::<(), _>(StorageError::IdsExhausted)
                && same_tables(final(self)@, old(self)@),
            old(self)@.last_column_id < i64::MAX ==> r is Ok && same_but_columns(
                final(self)@,
                old(self)@,
            ) && final(self)@.last_column_id == old(self)@.last_column_id + 1 && column_appended(
                old(self)@.columns@,
                final(self)@.columns@,
                old(self)@.last_column_id + 1,
                name@,
                sort_order as int,
            ) && final(self)@.columns@.last().created_at@ == created_at@,
    {
        if self.tables.last_column_id == i64::MAX {
            return Err(StorageError::IdsExhausted);
        }
        let ghost old_cols = self.tables.columns@;
        let id = self.tables.last_column_id + 1;
        let record = ColumnRecord { id, name, sort_order, created_at };
        self.tables.columns.push(record);
        self.tables.last_column_id = id;
        let ghost new_cols = self.tables.columns@;
        assert(new_cols.subrange(0, old_cols.len() as int) =~= old_cols);
        assert forall|a: int, b: int| 0 <= a < b < new_cols.len() implies column_before(
            #[trigger] new_cols[a],
            #[trigger] new_cols[b],
        ) by {
            if b < old_cols.len() {
                assert(new_cols[a] == old_cols[a] && new_cols[b] == old_cols[b]);
            } else {
                assert(new_cols[a] == old_cols[a]);
            }
        }
        Ok(())
    }

    /// Adds a column named by the trimmed name, after every other column (sort
    /// order one more than the largest) and with the next id, stamped with
    /// `created_at`.
    pub fn create_column(&mut self, name: &str, created_at: &str) -> (r: Result<(), StorageError>)
        requires
            old(self).wf(),
        ensures
            final(self).wf(),
            trim(name@).len() == 0 ==> r == Err::<(), _>(StorageError::EmptyColumnName),
            trim(name@).len() != 0 && next_sort_order(old(self)@.columns@) > i64::MAX ==> r == Err::<
                (),
                _,
            >(StorageError::ColumnOrderUnavailable),
            trim(name@).len() != 0 && next_sort_order(old(self)@.columns@) <= i64::MAX
                && old(self)@.last_column_id == i64::MAX ==> r == Err::<(), _>(
                StorageError::IdsExhausted,
            ),
            r is Ok <==> (trim(name@).len() != 0 && next_sort_order(old(self)@.columns@) <= i64::MAX
                && old(self)@.last_column_id < i64::MAX),
            r is Err ==> same_tables(final(self)@, old(self)@),
            r is Ok ==> column_created(old(self)@, final(self)@, name@),
            r is Ok ==> final(self)@.columns@.last().created_at@ == created_at@,
    {
        let clean = trim_text(name);
        if clean.unicode_len() == 0 {
            return Err(StorageError::EmptyColumnName);
        }
        let sort_order = match self.next_column_sort_order() {
            Some(o) => o,
            None => {
                return Err(StorageError::ColumnOrderUnavailable);
            },
        };
        proof {
            lemma_max_sort_order_bounds(self@.columns@);
        }
        self.append_column(clean, sort_order, created_at.to_owned())
    }

    /// On a board with no columns, adds "To Plan", "In Progress", "Waiting" and
    /// "Done" with sort orders 1 to 4; a board with columns is left as it is.
    /// Columns are added one by one, so when ids run out the ones added stay.
    /// Each is stamped with `created_at`.
    pub fn ensure_default_columns(&mut self, created_at: &str) -> (r: Result<(), StorageError>)
        requires
            old(self).wf(),
        ensures
            final(self).wf(),
            old(self)@.columns@.len() > 0 ==> r is Ok && same_tables(final(self)@, old(self)@),
            old(self)@.columns@.len() == 0 ==> {
                let n = if old(self)@.last_column_id <= i64::MAX - 4 {
                    4
                } else {
                    i64::MAX - old(self)@.last_column_id
                };
                &&& same_but_columns(final(self)@, old(self)@)
                &&& final(self)@.columns@.len() == n
                &&& final(self)@.last_column_id == old(self)@.last_column_id + n
                &&& forall|i: int|
                    0 <= i < n ==> {
                        &&& (#[trigger] final(self)@.columns@[i]).id == old(self)@.last_column_id
                            + 1 + i
                        &&& final(self)@.columns@[i].sort_order == i + 1
                        &&& final(self)@.columns@[i].name@ == default_column_name(i)
                        &&& final(self)@.columns@[i].created_at@ == created_at@
                    }
                &&& (r is Ok <==> n == 4)
                &&& (r is Err ==> r == Err::<(), _>(StorageError::IdsExhausted))
            },
    {
        if self.tables.columns.len() > 0 {
            return Ok(());
        }
        let ghost last0 = self@.last_column_id;
        let r = self.append_column("To Plan".to_owned(), 1, created_at.to_owned());
        if r.is_err() {
            return r;
        }
        let ghost c1 = self@.columns@;
        let r = self.append_column("In Progress".to_owned(), 2, created_at.to_owned());
        if r.is_err() {
            return r;
        }
        let ghost c2 = self@.columns@;
        assert(c2[0] == c1[0]);
        let r = self.append_column("Waiting".to_owned(), 3, created_at.to_owned());
        if r.is_err() {
            return r;
        }
        let ghost c3 = self@.columns@;
        assert(c3[0] == c2[0]);
        assert(c3[1] == c2[1]);
        let r = self.append_column("Done".to_owned(), 4, created_at.to_owned());
        let ghost c4 = self@.columns@;
        if r.is_ok() {
            assert(c4[0] == c3[0]);
            assert(c4[1] == c3[1]);
            assert(c4[2] == c3[2]);
        }
        r
    }
}

/// A created column comes after every other column: its sort order is above
/// all of theirs, its id is new, and its name is the trimmed name.
pub proof fn law_created_column_comes_last(
    before: StorageTables,
    after: StorageTables,
    name: Seq<char>,
)
    requires
        column_created(before, after, name),
    ensures
        after.columns@.len() == before.columns@.len() + 1,
        after.columns@.last().name@ == trim(name),
        forall|i: int|
            0 <= i < before.columns@.len() ==> #[trigger] after.columns@[i].sort_order
                < after.columns@.last().sort_order,
        forall|i: int|
            0 <= i < before.columns@.len() ==> #[trigger] after.columns@[i] == before.columns@[i],
{
    lemma_max_sort_order_bounds(before.columns@);
    assert forall|i: int| 0 <= i < before.columns@.len() implies #[trigger] after.columns@[i]
        == before.columns@[i] by {
        assert(after.columns@.subrange(0, before.columns@.len() as int)[i] == after.columns@[i]);
    }
}

} // verus!
