//! A model of the tables in the database, over which it is stated what reads give back of writes.
//!
//! A table holds rows by their first column, which is the key. The statements of this library
//! change it in three ways, and each query picks rows by a condition.

use crate::sql::{rows_view, values_view, Fetch, FetchAll, SqlView};
use vstd::prelude::*;

verus! {

/// What a table holds: rows by key.
pub type Table = Map<SqlView, Seq<SqlView>>;

/// What a statement does to a table.
pub enum Change {
    /// Puts a row in, in place of one with the same key.
    Put { row: Seq<SqlView> },
    /// Takes the row with a key out, if there is one.
    Remove { key: SqlView },
    /// Sets a column of the row with a key, if there is one and the column is null.
    Mark { key: SqlView, column: int, value: SqlView },
}

impl Change {
    /// The key of the row that is changed.
    pub open spec fn key(self) -> SqlView {
        match self {
            Change::Put { row } => row[0],
            Change::Remove { key } => key,
            Change::Mark { key, column, value } => key,
        }
    }

    /// The table after the change.
    pub open spec fn made(self, table: Table) -> Table {
        match self {
            Change::Put { row } => table.insert(row[0], row),
            Change::Remove { key } => table.remove(key),
            Change::Mark { key, column, value } => if table.contains_key(key) && table[key][column]
                == SqlView::Null {
                table.insert(key, table[key].update(column, value))
            } else {
                table
            },
        }
    }
}

/// A table that was empty, after changes.
pub open spec fn table_after(changes: Seq<Change>) -> Table
    decreases changes.len(),
{
    if changes.len() == 0 {
        Map::empty()
    } else {
        changes.last().made(table_after(changes.drop_last()))
    }
}

/// Whether rows are those of a table that a condition picks, each once, in any order.
pub open spec fn picks(
    rows: Seq<Seq<SqlView>>,
    table: Table,
    condition: spec_fn(Seq<SqlView>) -> bool,
) -> bool {
    &&& forall|i: int|
        0 <= i < rows.len() ==> condition(#[trigger] rows[i]) && table.contains_pair(
            rows[i][0],
            rows[i],
        )
    &&& forall|i: int, j: int|
        0 <= i < j < rows.len() ==> (#[trigger] rows[i])[0] != (#[trigger] rows[j])[0]
    &&& forall|key: SqlView| #[trigger]
        table.contains_key(key) && condition(table[key]) ==> rows.contains(table[key])
}

/// Whether an answer holds all the rows of a table that a condition picks.
pub open spec fn answers_all(
    answer: FetchAll,
    table: Table,
    condition: spec_fn(Seq<SqlView>) -> bool,
) -> bool {
    answer.failed is None && picks(rows_view(answer.rows@), table, condition)
}

/// Whether an answer is the row with a key, if the table has it and a condition picks it.
pub open spec fn answers_one(
    answer: Fetch,
    table: Table,
    key: SqlView,
    condition: spec_fn(Seq<SqlView>) -> bool,
) -> bool {
    match answer {
        Fetch::Row(row) => table.contains_pair(key, values_view(row@)) && condition(
            values_view(row@),
        ),
        Fetch::NoRows => !(table.contains_key(key) && condition(table[key])),
        Fetch::Failed(_) => false,
    }
}

/// Whether an answer is one column of the row with a key, if the table has it.
pub open spec fn answers_column(answer: Fetch, table: Table, key: SqlView, column: int) -> bool {
    match answer {
        Fetch::Row(row) => table.contains_key(key) && values_view(row@) == seq![table[key][column]],
        Fetch::NoRows => !table.contains_key(key),
        Fetch::Failed(_) => false,
    }
}

/// Whether an answer tells if the table has a row with a key.
pub open spec fn answers_presence(answer: Fetch, table: Table, key: SqlView) -> bool {
    match answer {
        Fetch::Row(_) => table.contains_key(key),
        Fetch::NoRows => !table.contains_key(key),
        Fetch::Failed(_) => false,
    }
}

/// The condition that picks every row.
pub open spec fn any_row() -> spec_fn(Seq<SqlView>) -> bool {
    |row: Seq<SqlView>| true
}

/// The table after changes up to a place is that before it with the change made.
pub proof fn lemma_table_step(changes: Seq<Change>, place: int)
    requires
        0 <= place < changes.len(),
    ensures
        table_after(changes.take(place + 1)) == changes[place].made(
            table_after(changes.take(place)),
        ),
{
    assert(changes.take(place + 1).drop_last() =~= changes.take(place));
}

/// Changes of other rows leave a row as it is.
pub proof fn lemma_other_changes(changes: Seq<Change>, place: int, key: SqlView)
    requires
        -1 <= place < changes.len(),
        forall|k: int| place < k < changes.len() ==> (#[trigger] changes[k]).key() != key,
    ensures
        table_after(changes).contains_key(key) == table_after(changes.take(place + 1)).contains_key(
            key,
        ),
        table_after(changes)[key] == table_after(changes.take(place + 1))[key],
    decreases changes.len(),
{
    if place + 1 == changes.len() {
        assert(changes.take(place + 1) =~= changes);
    } else {
        let shorter = changes.drop_last();
        lemma_other_changes(shorter, place, key);
        assert(shorter.take(place + 1) =~= changes.take(place + 1));
        assert(changes[changes.len() - 1].key() != key);
    }
}

/// A row that was put in and not changed since is there.
pub proof fn lemma_last_put(changes: Seq<Change>, place: int)
    requires
        0 <= place < changes.len(),
        changes[place] is Put,
        forall|k: int|
            place < k < changes.len() ==> (#[trigger] changes[k]).key() != changes[place].key(),
    ensures
        table_after(changes).contains_pair(changes[place].key(), changes[place]->row),
{
    lemma_table_step(changes, place);
    lemma_other_changes(changes, place, changes[place].key());
}

/// A row that was taken out last, or never changed, is not there.
pub proof fn lemma_not_there(changes: Seq<Change>, place: int, key: SqlView)
    requires
        -1 <= place < changes.len(),
        place >= 0 ==> changes[place] == (Change::Remove { key }),
        forall|k: int| place < k < changes.len() ==> (#[trigger] changes[k]).key() != key,
    ensures
        !table_after(changes).contains_key(key),
{
    lemma_other_changes(changes, place, key);
    if place >= 0 {
        lemma_table_step(changes, place);
    }
}

/// Where rows are only put in, each row that is there is the last put in under its key.
pub proof fn lemma_rows_were_put(changes: Seq<Change>, key: SqlView) -> (place: int)
    requires
        forall|k: int| 0 <= k < changes.len() ==> #[trigger] changes[k] is Put,
        table_after(changes).contains_key(key),
    ensures
        0 <= place < changes.len(),
        changes[place].key() == key,
        changes[place]->row == table_after(changes)[key],
        forall|k: int| place < k < changes.len() ==> (#[trigger] changes[k]).key() != key,
    decreases changes.len(),
{
    let last = changes.len() - 1;
    assert(changes[last] is Put);
    if changes[last].key() == key {
        last
    } else {
        let shorter = changes.drop_last();
        assert forall|k: int| 0 <= k < shorter.len() implies #[trigger] shorter[k] is Put by {
            assert(changes[k] is Put);
        }
        let place = lemma_rows_were_put(shorter, key);
        assert forall|k: int| place < k < changes.len() implies (#[trigger] changes[k]).key()
            != key by {
            if k < last {
                assert(shorter[k].key() != key);
            }
        }
        place
    }
}

/// Whether setting a column, which every such row has, keeps what holds of a row.
pub open spec fn setting_keeps(
    good: spec_fn(Seq<SqlView>) -> bool,
    column: int,
    value: SqlView,
) -> bool {
    forall|row: Seq<SqlView>|
        good(row) ==> column < row.len() && #[trigger] good(row.update(column, value))
}

/// Whether a change puts in only what a condition holds of, and keeps it.
pub open spec fn change_keeps(change: Change, good: spec_fn(Seq<SqlView>) -> bool) -> bool {
    match change {
        Change::Put { row } => good(row),
        Change::Remove { key } => true,
        Change::Mark { key, column, value } => column > 0 && setting_keeps(good, column, value),
    }
}

/// What holds of every row that is put in, and is kept when a column is set, holds of every row
/// that is there, and each stands under its first column.
pub proof fn lemma_all_rows(changes: Seq<Change>, good: spec_fn(Seq<SqlView>) -> bool)
    requires
        forall|k: int| 0 <= k < changes.len() ==> change_keeps(#[trigger] changes[k], good),
        forall|row: Seq<SqlView>| #[trigger] good(row) ==> row.len() > 0,
    ensures
        forall|key: SqlView| #[trigger]
            table_after(changes).contains_key(key) ==> good(table_after(changes)[key])
                && table_after(changes)[key][0] == key,
    decreases changes.len(),
{
    if changes.len() > 0 {
        let shorter = changes.drop_last();
        let last = changes[changes.len() - 1];
        assert forall|k: int| 0 <= k < shorter.len() implies change_keeps(
            #[trigger] shorter[k],
            good,
        ) by {
            assert(shorter[k] == changes[k]);
        }
        assert(change_keeps(last, good));
        lemma_all_rows(shorter, good);
        let before = table_after(shorter);
        assert forall|key: SqlView| #[trigger]
            table_after(changes).contains_key(key) implies good(table_after(changes)[key])
            && table_after(changes)[key][0] == key by {
            if key != last.key() {
                assert(before.contains_key(key));
            } else {
                match last {
                    Change::Mark { key: marked, column, value } => {
                        assert(before.contains_key(key));
                        assert(good(before[key]));
                        assert(good(before[key].update(column, value)));
                        assert(before[key].len() > 0);
                    },
                    _ => {},
                }
            }
        }
    }
}

/// A row that was put in with a null column, which only settings of that column followed, has
/// there what the first of them set.
pub proof fn lemma_first_mark(changes: Seq<Change>, put: int, first: Option<int>, column: int)
    requires
        0 <= put < changes.len(),
        changes[put] is Put,
        0 < column < changes[put]->row.len(),
        changes[put]->row[column] == SqlView::Null,
        forall|k: int|
            put < k < changes.len() && (#[trigger] changes[k]).key() == changes[put].key()
                ==> changes[k] is Mark && changes[k]->column == column && changes[k]->value
                != SqlView::Null,
        match first {
            Some(f) => {
                &&& put < f < changes.len()
                &&& changes[f].key() == changes[put].key()
                &&& forall|k: int|
                    put < k < f ==> (#[trigger] changes[k]).key() != changes[put].key()
            },
            None => forall|k: int|
                put < k < changes.len() ==> (#[trigger] changes[k]).key() != changes[put].key(),
        },
    ensures
        table_after(changes).contains_pair(
            changes[put].key(),
            match first {
                Some(f) => changes[put]->row.update(column, changes[f]->value),
                None => changes[put]->row,
            },
        ),
    decreases changes.len(),
{
    let key = changes[put].key();
    match first {
        None => {
            lemma_last_put(changes, put);
        },
        Some(f) => {
            let last = changes.len() - 1;
            let shorter = changes.drop_last();
            assert(shorter[put] == changes[put]);
            assert forall|k: int|
                put < k < shorter.len() && (#[trigger] shorter[k]).key()
                    == key implies shorter[k] is Mark && shorter[k]->column == column
                && shorter[k]->value != SqlView::Null by {
                assert(shorter[k] == changes[k]);
            }
            if f == last {
                assert forall|k: int| put < k < shorter.len() implies (#[trigger] shorter[k]).key()
                    != key by {
                    assert(shorter[k] == changes[k]);
                }
                lemma_first_mark(shorter, put, None, column);
            } else {
                assert(shorter[f] == changes[f]);
                assert forall|k: int| put < k < f implies (#[trigger] shorter[k]).key() != key by {
                    assert(shorter[k] == changes[k]);
                }
                lemma_first_mark(shorter, put, Some(f), column);
                assert(changes[f].key() == key);
                assert(changes[last].key() == key ==> changes[last] is Mark);
            }
        },
    }
}

} // verus!
