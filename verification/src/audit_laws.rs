//! Which entries of the audit log a query gives back, and what a purge removes, over a model of
//! the table.
//!
//! Times are compared by the texts they are stored as, byte by byte, as the database compares
//! them.

use crate::audit_log::{
    audit_fault, audit_in_row, entries_read, entry_is_storable, number_or, purge_statement,
    stores_entry, AuditLogEntry, AuditLogQuery, AuditLogView, DEFAULT_AUDIT_LIMIT,
};
use crate::sql::{rows_view, time_value, DbError, FetchAll, RowError, SqlView, Statement};
use crate::tables::{picks, Table};
use crate::text::text_before;
use crate::timestamp::Timestamp;
use crate::vaults::page_of;
use vstd::prelude::*;

verus! {

/// An entry that was stored under the number that the database gave it, or a purge, with the
/// statement that did so.
pub enum AuditCall {
    Insert { id: i64, entry: AuditLogView, statement: Statement },
    Purge { cutoff: Timestamp, statement: Statement },
}

impl AuditCall {
    /// Whether the statement is the one for the call.
    pub open spec fn made(self) -> bool {
        match self {
            AuditCall::Insert { id, entry, statement } => stores_entry(statement, entry),
            AuditCall::Purge { cutoff, statement } => statement@ == purge_statement(cutoff),
        }
    }

    /// The row that is stored.
    pub open spec fn row(self) -> Seq<SqlView> {
        seq![SqlView::Integer(self->id)] + self->Insert_statement@.params
    }

    /// The entry as it is read back.
    pub open spec fn stored(self) -> AuditLogView {
        AuditLogView { id: self->id, ..self->entry }
    }
}

/// Whether one value is a text that comes before another.
pub open spec fn comes_first(a: SqlView, b: SqlView) -> bool {
    a matches SqlView::Text(a) && b matches SqlView::Text(b) && text_before(a, b)
}

/// The table after calls: a purge leaves the rows whose time does not come before the cutoff.
pub open spec fn audit_table(calls: Seq<AuditCall>) -> Table
    decreases calls.len(),
{
    if calls.len() == 0 {
        Map::empty()
    } else {
        let before = audit_table(calls.drop_last());
        match calls.last() {
            AuditCall::Insert { id, .. } => before.insert(
                SqlView::Integer(id),
                calls.last().row(),
            ),
            AuditCall::Purge { statement, .. } => before.restrict(
                Set::new(|key: SqlView| !comes_first(before[key][1], statement@.params[0])),
            ),
        }
    }
}

/// Whether the time of an entry does not come before that of another.
pub open spec fn no_older(entry: Timestamp, other: Timestamp) -> bool {
    !text_before(entry.rfc3339(), other.rfc3339())
}

/// Whether no purge after it removed the entry that was stored at a place.
pub open spec fn survives(calls: Seq<AuditCall>, place: int) -> bool {
    forall|k: int|
        place < k < calls.len() && (#[trigger] calls[k]) is Purge ==> no_older(
            calls[place]->entry.timestamp,
            calls[k]->cutoff,
        )
}

/// Whether an entry was stored and is still there.
pub open spec fn stands(calls: Seq<AuditCall>, entry: AuditLogView) -> bool {
    exists|place: int|
        0 <= place < calls.len() && (#[trigger] calls[place]) is Insert && calls[place].stored()
            == entry && survives(calls, place)
}

/// Whether no two entries were stored under one number.
pub open spec fn numbers_differ(calls: Seq<AuditCall>) -> bool {
    forall|p: int, q: int|
        0 <= p < q < calls.len() && (#[trigger] calls[p]) is Insert && (
        #[trigger] calls[q]) is Insert ==> calls[p]->id != calls[q]->id
}

/// Whether a query asks for an entry.
pub open spec fn asks_for(query: AuditLogQuery, entry: AuditLogView) -> bool {
    &&& query.user_id matches Some(user_id) ==> entry.user_id == user_id@
    &&& query.action matches Some(action) ==> entry.action == action@
    &&& query.resource matches Some(resource) ==> entry.resource == resource@
    &&& query.result matches Some(result) ==> entry.result == result@
    &&& query.after matches Some(after) ==> no_older(entry.timestamp, after)
    &&& query.before matches Some(before) ==> no_older(before, entry.timestamp)
}

/// The condition by which a query picks rows.
pub open spec fn picked_by(query: AuditLogQuery) -> spec_fn(Seq<SqlView>) -> bool {
    |row: Seq<SqlView>|
        {
            &&& query.user_id matches Some(user_id) ==> row[2] == SqlView::Text(user_id@)
            &&& query.action matches Some(action) ==> row[3] == SqlView::Text(action@)
            &&& query.resource matches Some(resource) ==> row[4] == SqlView::Text(resource@)
            &&& query.result matches Some(result) ==> row[5] == SqlView::Text(result@)
            &&& query.after matches Some(after) ==> !comes_first(row[1], time_value(after))
            &&& query.before matches Some(before) ==> !comes_first(time_value(before), row[1])
        }
}

/// Whether rows stand with the newest first.
pub open spec fn newest_row_first(rows: Seq<Seq<SqlView>>) -> bool {
    forall|i: int, j: int|
        0 <= i < j < rows.len() ==> !comes_first((#[trigger] rows[i])[1], (#[trigger] rows[j])[1])
}

/// Whether an answer is the page that a query asks for of the rows it picks, the newest first.
/// Rows of the same time may stand in any order.
pub open spec fn answers_page(answer: FetchAll, table: Table, query: AuditLogQuery) -> bool {
    &&& answer.failed is None
    &&& exists|sorted: Seq<Seq<SqlView>>| #[trigger]
        newest_row_first(sorted) && picks(sorted, table, picked_by(query)) && rows_view(answer.rows@)
            == page_of(
            sorted,
            number_or(query.offset, 0) as int,
            number_or(query.limit, DEFAULT_AUDIT_LIMIT) as int,
        )
}

/// Whether `all` are the entries that are there and that a query asks for, each once, the newest
/// first.
pub open spec fn lists_asked(
    calls: Seq<AuditCall>,
    query: AuditLogQuery,
    all: Seq<AuditLogView>,
) -> bool {
    &&& forall|entry: AuditLogView| #[trigger]
        all.contains(entry) <==> stands(calls, entry) && asks_for(query, entry)
    &&& forall|i: int, j: int|
        0 <= i < j < all.len() ==> (#[trigger] all[i]).id != (#[trigger] all[j]).id && no_older(
            all[i].timestamp,
            all[j].timestamp,
        )
}

/// The entries with texts as characters.
pub open spec fn entry_views(entries: Seq<AuditLogEntry>) -> Seq<AuditLogView> {
    entries.map_values(|entry: AuditLogEntry| entry@)
}

/// An entry that is there has its row in the table.
proof fn lemma_standing_row(calls: Seq<AuditCall>, place: int)
    requires
        forall|i: int| 0 <= i < calls.len() ==> (#[trigger] calls[i]).made(),
        numbers_differ(calls),
        0 <= place < calls.len(),
        calls[place] is Insert,
        survives(calls, place),
    ensures
        audit_table(calls).contains_pair(SqlView::Integer(calls[place]->id), calls[place].row()),
    decreases calls.len(),
{
    let last = calls.len() - 1;
    if place < last {
        let earlier = calls.drop_last();
        assert forall|i: int| 0 <= i < earlier.len() implies (#[trigger] earlier[i]).made() by {
            assert(earlier[i] == calls[i]);
        }
        assert forall|p: int, q: int|
            0 <= p < q < earlier.len() && (#[trigger] earlier[p]) is Insert && (
            #[trigger] earlier[q]) is Insert implies earlier[p]->id != earlier[q]->id by {
            assert(calls[p] is Insert && calls[q] is Insert);
        }
        assert forall|k: int|
            place < k < earlier.len() && (#[trigger] earlier[k]) is Purge implies no_older(
            earlier[place]->entry.timestamp,
            earlier[k]->cutoff,
        ) by {
            assert(calls[k] is Purge);
        }
        lemma_standing_row(earlier, place);
        assert(calls[last].made());
        assert(calls[place].made());
        if calls[last] is Insert {
            assert(calls[place]->id != calls[last]->id);
        } else {
            assert(no_older(calls[place]->entry.timestamp, calls[last]->cutoff));
            assert(calls[place].row()[1] == time_value(calls[place]->entry.timestamp));
        }
    }
}

/// A row in the table is that of an entry that is there.
proof fn lemma_row_stands(calls: Seq<AuditCall>, key: SqlView) -> (place: int)
    requires
        forall|i: int| 0 <= i < calls.len() ==> (#[trigger] calls[i]).made(),
        audit_table(calls).contains_key(key),
    ensures
        0 <= place < calls.len(),
        calls[place] is Insert,
        survives(calls, place),
        key == SqlView::Integer(calls[place]->id),
        audit_table(calls)[key] == calls[place].row(),
    decreases calls.len(),
{
    let last = calls.len() - 1;
    let earlier = calls.drop_last();
    assert(calls[last].made());
    if calls[last] is Insert && key == SqlView::Integer(calls[last]->id) {
        last
    } else {
        assert forall|i: int| 0 <= i < earlier.len() implies (#[trigger] earlier[i]).made() by {
            assert(earlier[i] == calls[i]);
        }
        let place = lemma_row_stands(earlier, key);
        assert(calls[place].made());
        assert forall|k: int|
            place < k < calls.len() && (#[trigger] calls[k]) is Purge implies no_older(
            calls[place]->entry.timestamp,
            calls[k]->cutoff,
        ) by {
            if k < last {
                assert(earlier[k] is Purge);
            } else {
                assert(audit_table(earlier)[key][1] == time_value(calls[place]->entry.timestamp));
            }
        }
        place
    }
}

/// A stored row is picked exactly if its entry is asked for, and is read as the entry.
proof fn lemma_row_of_call(call: AuditCall, query: AuditLogQuery)
    requires
        call is Insert,
        call.made(),
        entry_is_storable(call->entry),
    ensures
        audit_in_row(call.row()) == Ok::<_, RowError>(call.stored()),
        picked_by(query)(call.row()) == asks_for(query, call.stored()),
        call.row()[0] == SqlView::Integer(call->id),
        call.row()[1] == time_value(call->entry.timestamp),
{
    assert(stores_entry(call->Insert_statement, call->entry));
    let row = call.row();
    assert(row[2] == SqlView::Text(call->entry.user_id));
    assert(row[3] == SqlView::Text(call->entry.action));
    assert(row[4] == SqlView::Text(call->entry.resource));
    assert(row[5] == SqlView::Text(call->entry.result));
}

/// A query gives back a page of the entries that were stored and not purged since, and that it
/// asks for: each stands once, the newest first, and the page begins after as many as the query
/// passes over and holds as many as it asks for, or a hundred. The entries must be such that they
/// are read back.
pub proof fn law_query_gives_a_page_of_what_is_asked(
    calls: Seq<AuditCall>,
    query: AuditLogQuery,
    answer: FetchAll,
    entries: Result<Vec<AuditLogEntry>, DbError>,
)
    requires
        forall|i: int| 0 <= i < calls.len() ==> (#[trigger] calls[i]).made(),
        forall|i: int|
            0 <= i < calls.len() && (#[trigger] calls[i]) is Insert ==> entry_is_storable(
                calls[i]->entry,
            ),
        numbers_differ(calls),
        answers_page(answer, audit_table(calls), query),
        entries_read(answer, entries),
    ensures
        entries is Ok,
        exists|all: Seq<AuditLogView>| #[trigger]
            lists_asked(calls, query, all) && entry_views(entries->Ok_0@) == page_of(
                all,
                number_or(query.offset, 0) as int,
                number_or(query.limit, DEFAULT_AUDIT_LIMIT) as int,
            ),
{
    let table = audit_table(calls);
    let offset = number_or(query.offset, 0) as int;
    let limit = number_or(query.limit, DEFAULT_AUDIT_LIMIT) as int;
    let rows = rows_view(answer.rows@);
    let sorted = choose|sorted: Seq<Seq<SqlView>>| #[trigger]
        newest_row_first(sorted) && picks(sorted, table, picked_by(query)) && rows == page_of(
            sorted,
            offset,
            limit,
        );
    let all = Seq::new(sorted.len(), |i: int| audit_in_row(sorted[i])->Ok_0);
    lemma_sorted_entries(calls, query, sorted, all);
    assert forall|i: int| 0 <= i < rows.len() implies audit_fault()(#[trigger] rows[i]) is None by {
        let from = if offset <= sorted.len() { offset } else { sorted.len() as int };
        assert(rows[i] == sorted[from + i]);
    }
    let out = entries->Ok_0@;
    assert(rows.len() == answer.rows@.len() && rows.len() == out.len());
    assert(entry_views(out) =~= page_of(all, offset, limit)) by {
        let from = if offset <= sorted.len() { offset } else { sorted.len() as int };
        assert forall|i: int| 0 <= i < out.len() implies #[trigger] entry_views(out)[i]
            == page_of(all, offset, limit)[i] by {
            assert(rows[i] == sorted[from + i]);
            assert(audit_in_row(rows[i]) == Ok::<_, RowError>(out[i]@));
            assert(page_of(all, offset, limit)[i] == all[from + i]);
        }
    }
    assert(lists_asked(calls, query, all));
}

/// The rows that a query picks, read one by one, are the entries it asks for.
proof fn lemma_sorted_entries(
    calls: Seq<AuditCall>,
    query: AuditLogQuery,
    sorted: Seq<Seq<SqlView>>,
    all: Seq<AuditLogView>,
)
    requires
        forall|i: int| 0 <= i < calls.len() ==> (#[trigger] calls[i]).made(),
        forall|i: int|
            0 <= i < calls.len() && (#[trigger] calls[i]) is Insert ==> entry_is_storable(
                calls[i]->entry,
            ),
        numbers_differ(calls),
        newest_row_first(sorted),
        picks(sorted, audit_table(calls), picked_by(query)),
        all == Seq::new(sorted.len(), |i: int| audit_in_row(sorted[i])->Ok_0),
    ensures
        lists_asked(calls, query, all),
        forall|i: int| 0 <= i < sorted.len() ==> audit_in_row(#[trigger] sorted[i]) is Ok,
{
    let table = audit_table(calls);
    assert forall|i: int| 0 <= i < sorted.len() implies {
        &&& audit_in_row(#[trigger] sorted[i]) == Ok::<_, RowError>(all[i])
        &&& stands(calls, all[i])
        &&& asks_for(query, all[i])
        &&& sorted[i][0] == SqlView::Integer(all[i].id)
        &&& sorted[i][1] == time_value(all[i].timestamp)
    } by {
        assert(picked_by(query)(sorted[i]));
        assert(table.contains_pair(sorted[i][0], sorted[i]));
        let place = lemma_row_stands(calls, sorted[i][0]);
        assert(calls[place].made());
        lemma_row_of_call(calls[place], query);
        assert(calls[place].stored() == all[i]);
    }
    assert forall|entry: AuditLogView| #[trigger] all.contains(entry) <==> stands(calls, entry)
        && asks_for(query, entry) by {
        if all.contains(entry) {
            let i = all.index_of(entry);
            assert(audit_in_row(sorted[i]) == Ok::<_, RowError>(all[i]));
        }
        if stands(calls, entry) && asks_for(query, entry) {
            let place = choose|place: int|
                0 <= place < calls.len() && (#[trigger] calls[place]) is Insert
                    && calls[place].stored() == entry && survives(calls, place);
            assert(calls[place].made());
            lemma_standing_row(calls, place);
            lemma_row_of_call(calls[place], query);
            let key = SqlView::Integer(calls[place]->id);
            assert(table.contains_key(key));
            assert(picked_by(query)(table[key]));
            let i = sorted.index_of(table[key]);
            assert(audit_in_row(sorted[i]) == Ok::<_, RowError>(entry));
            assert(all[i] == entry);
        }
    }
    assert forall|i: int, j: int| 0 <= i < j < all.len() implies (#[trigger] all[i]).id != (
    #[trigger] all[j]).id && no_older(all[i].timestamp, all[j].timestamp) by {
        assert(audit_in_row(sorted[i]) == Ok::<_, RowError>(all[i]));
        assert(audit_in_row(sorted[j]) == Ok::<_, RowError>(all[j]));
        assert(sorted[i][0] != sorted[j][0]);
        assert(!comes_first(sorted[i][1], sorted[j][1]));
    }
}

/// A purge removes exactly the entries whose time comes before the cutoff.
pub proof fn law_purge_removes_what_is_older(
    calls: Seq<AuditCall>,
    cutoff: Timestamp,
    statement: Statement,
    entry: AuditLogView,
)
    ensures
        stands(calls.push(AuditCall::Purge { cutoff, statement }), entry) <==> stands(calls, entry)
            && no_older(entry.timestamp, cutoff),
{
    let purge = AuditCall::Purge { cutoff, statement };
    let longer = calls.push(purge);
    if stands(longer, entry) {
        let place = choose|place: int|
            0 <= place < longer.len() && (#[trigger] longer[place]) is Insert
                && longer[place].stored() == entry && survives(longer, place);
        assert(longer[calls.len() as int] is Purge);
        assert(calls[place] is Insert);
        assert forall|k: int|
            place < k < calls.len() && (#[trigger] calls[k]) is Purge implies no_older(
            calls[place]->entry.timestamp,
            calls[k]->cutoff,
        ) by {
            assert(longer[k] is Purge);
        }
        assert(survives(calls, place));
    }
    if stands(calls, entry) && no_older(entry.timestamp, cutoff) {
        let place = choose|place: int|
            0 <= place < calls.len() && (#[trigger] calls[place]) is Insert
                && calls[place].stored() == entry && survives(calls, place);
        assert(longer[place] is Insert);
        assert forall|k: int|
            place < k < longer.len() && (#[trigger] longer[k]) is Purge implies no_older(
            longer[place]->entry.timestamp,
            longer[k]->cutoff,
        ) by {
            if k < calls.len() {
                assert(calls[k] is Purge);
            }
        }
        assert(survives(longer, place));
    }
}

} // verus!
