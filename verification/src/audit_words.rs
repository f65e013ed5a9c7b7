//! What the words of the statements about the audit log say, read together with the values bound
//! to them.
//!
//! A query restricts the rows clause by clause. `row_picked` reads the clauses off its words from
//! left to right, each with the next value, and says which rows they pick.

use crate::audit_laws::{
    answers_page, audit_table, comes_first, entry_views, law_query_gives_a_page_of_what_is_asked,
    lists_asked, newest_row_first, numbers_differ, picked_by, AuditCall,
};
use crate::audit_log::{
    entry_is_storable, purges, text_if, time_if, words_if, AuditLogEntry, AuditLogQuery,
    AuditLogView,
};
use crate::db::Db;
use crate::sql::{rows_view, DbError, FetchAll, SqlView, Statement, StatementView};
use crate::tables::{picks, Table};
use crate::text::opt_text;
use crate::timestamp::{rfc3339_text, Timestamp};
use crate::vaults::page_of;
use vstd::prelude::*;

verus! {

/// How a clause compares a column with its value.
pub enum Comparison {
    /// The column is the value.
    Equal,
    /// The column is a text that does not come before the value.
    NotBefore,
    /// The column is a text that does not come after the value.
    NotAfter,
}

/// What a clause says: which column it compares, counted as the rows have them, and how.
pub struct Clause {
    pub column: int,
    pub comparison: Comparison,
}

/// Whether words begin with others.
pub open spec fn begins_with(words: Seq<char>, start: Seq<char>) -> bool {
    start.len() <= words.len() && words.take(start.len() as int) == start
}

/// The clause that words begin with, and how many characters it has.
pub open spec fn first_clause(words: Seq<char>) -> Option<(nat, Clause)> {
    if begins_with(words, " AND user_id = ?"@) {
        Some((16nat, Clause { column: 2, comparison: Comparison::Equal }))
    } else if begins_with(words, " AND action = ?"@) {
        Some((15nat, Clause { column: 3, comparison: Comparison::Equal }))
    } else if begins_with(words, " AND resource = ?"@) {
        Some((17nat, Clause { column: 4, comparison: Comparison::Equal }))
    } else if begins_with(words, " AND result = ?"@) {
        Some((15nat, Clause { column: 5, comparison: Comparison::Equal }))
    } else if begins_with(words, " AND timestamp >= ?"@) {
        Some((19nat, Clause { column: 1, comparison: Comparison::NotBefore }))
    } else if begins_with(words, " AND timestamp <= ?"@) {
        Some((19nat, Clause { column: 1, comparison: Comparison::NotAfter }))
    } else {
        None
    }
}

/// Whether a row meets a clause with a value.
pub open spec fn meets(row: Seq<SqlView>, clause: Clause, value: SqlView) -> bool {
    match clause.comparison {
        Comparison::Equal => row[clause.column] == value,
        Comparison::NotBefore => !comes_first(row[clause.column], value),
        Comparison::NotAfter => !comes_first(value, row[clause.column]),
    }
}

/// Whether a row meets all the clauses that words begin with, each with the next of the values.
pub open spec fn row_picked(row: Seq<SqlView>, words: Seq<char>, values: Seq<SqlView>) -> bool
    decreases words.len(),
{
    match first_clause(words) {
        Some((n, clause)) => if 0 < n <= words.len() {
            &&& values.len() > 0
            &&& meets(row, clause, values[0])
            &&& row_picked(row, words.skip(n as int), values.skip(1))
        } else {
            true
        },
        None => true,
    }
}

/// What follows after the clauses that words begin with: the words, and the values left for them.
pub open spec fn after_clauses(words: Seq<char>, values: Seq<SqlView>) -> (
    Seq<char>,
    Seq<SqlView>,
)
    decreases words.len(),
{
    match first_clause(words) {
        Some((n, _)) => if 0 < n <= words.len() {
            after_clauses(words.skip(n as int), values.skip(1))
        } else {
            (words, values)
        },
        None => (words, values),
    }
}

/// What a query for audit entries begins with: all the columns of all the rows.
pub open spec fn all_rows() -> Seq<char> {
    "SELECT id, timestamp, user_id, action, resource, result, ip_address, details FROM audit_logs WHERE 1=1"@
}

/// The words of a query for audit entries after the beginning.
pub open spec fn restricting_words(statement: StatementView) -> Seq<char> {
    statement.sql.skip(all_rows().len() as int)
}

/// The condition by which the words and values of a query pick rows.
pub open spec fn condition_stated(statement: StatementView) -> spec_fn(Seq<SqlView>) -> bool {
    |row: Seq<SqlView>| row_picked(row, restricting_words(statement), statement.params)
}

/// Whether a statement asks for the rows that its condition picks, the newest first, and of these
/// for the stretch of `limit` rows that begins after `offset` of them.
pub open spec fn asks_for_page(statement: StatementView, limit: i64, offset: i64) -> bool {
    &&& begins_with(statement.sql, all_rows())
    &&& after_clauses(restricting_words(statement), statement.params) == (
        " ORDER BY timestamp DESC"@ + " LIMIT ? OFFSET ?"@,
        seq![SqlView::Integer(limit), SqlView::Integer(offset)],
    )
}

/// Whether an answer is what a statement asks for of a table. Rows of the same time may stand in
/// any order.
pub open spec fn answers_statement(
    answer: FetchAll,
    table: Table,
    statement: StatementView,
) -> bool {
    &&& answer.failed is None
    &&& exists|sorted: Seq<Seq<SqlView>>, limit: i64, offset: i64|
        #![trigger newest_row_first(sorted), asks_for_page(statement, limit, offset)]
        asks_for_page(statement, limit, offset) && newest_row_first(sorted) && picks(
            sorted,
            table,
            condition_stated(statement),
        ) && rows_view(answer.rows@) == page_of(sorted, offset as int, limit as int)
}

// ---- reading the words ----

proof fn lemma_first_clauses(rest: Seq<char>)
    ensures
        first_clause(" AND user_id = ?"@ + rest) == Some(
            (16nat, Clause { column: 2, comparison: Comparison::Equal }),
        ),
        first_clause(" AND action = ?"@ + rest) == Some(
            (15nat, Clause { column: 3, comparison: Comparison::Equal }),
        ),
        first_clause(" AND resource = ?"@ + rest) == Some(
            (17nat, Clause { column: 4, comparison: Comparison::Equal }),
        ),
        first_clause(" AND result = ?"@ + rest) == Some(
            (15nat, Clause { column: 5, comparison: Comparison::Equal }),
        ),
        first_clause(" AND timestamp >= ?"@ + rest) == Some(
            (19nat, Clause { column: 1, comparison: Comparison::NotBefore }),
        ),
        first_clause(" AND timestamp <= ?"@ + rest) == Some(
            (19nat, Clause { column: 1, comparison: Comparison::NotAfter }),
        ),
        " AND user_id = ?"@.len() == 16,
        " AND action = ?"@.len() == 15,
        " AND resource = ?"@.len() == 17,
        " AND result = ?"@.len() == 15,
        " AND timestamp >= ?"@.len() == 19,
        " AND timestamp <= ?"@.len() == 19,
{
    let by_user = " AND user_id = ?"@;
    let by_action = " AND action = ?"@;
    let by_resource = " AND resource = ?"@;
    let by_result = " AND result = ?"@;
    let after = " AND timestamp >= ?"@;
    let before = " AND timestamp <= ?"@;
    reveal_strlit(" AND user_id = ?");
    reveal_strlit(" AND action = ?");
    reveal_strlit(" AND resource = ?");
    reveal_strlit(" AND result = ?");
    reveal_strlit(" AND timestamp >= ?");
    reveal_strlit(" AND timestamp <= ?");
    lemma_begins(by_user, rest);
    lemma_begins(by_action, rest);
    lemma_begins(by_resource, rest);
    lemma_begins(by_result, rest);
    lemma_begins(after, rest);
    lemma_begins(before, rest);
    lemma_differs(by_action + rest, by_user, 5);
    lemma_differs(by_resource + rest, by_user, 5);
    lemma_differs(by_resource + rest, by_action, 5);
    lemma_differs(by_result + rest, by_user, 5);
    lemma_differs(by_result + rest, by_action, 5);
    lemma_differs(by_result + rest, by_resource, 8);
    lemma_differs(after + rest, by_user, 5);
    lemma_differs(after + rest, by_action, 5);
    lemma_differs(after + rest, by_resource, 5);
    lemma_differs(after + rest, by_result, 5);
    lemma_differs(before + rest, by_user, 5);
    lemma_differs(before + rest, by_action, 5);
    lemma_differs(before + rest, by_resource, 5);
    lemma_differs(before + rest, by_result, 5);
    lemma_differs(before + rest, after, 15);
}

proof fn lemma_begins(start: Seq<char>, rest: Seq<char>)
    ensures
        begins_with(start + rest, start),
{
    assert((start + rest).take(start.len() as int) =~= start);
}

proof fn lemma_differs(words: Seq<char>, start: Seq<char>, i: int)
    requires
        0 <= i < words.len(),
        0 <= i < start.len(),
        words[i] != start[i],
    ensures
        !begins_with(words, start),
{
    if begins_with(words, start) {
        assert(words.take(start.len() as int)[i] == start[i]);
    }
}

/// No clause begins where the order is named.
proof fn lemma_no_clause_in_the_end()
    ensures
        first_clause(" ORDER BY timestamp DESC"@ + " LIMIT ? OFFSET ?"@) is None,
{
    let end = " ORDER BY timestamp DESC"@ + " LIMIT ? OFFSET ?"@;
    reveal_strlit(" ORDER BY timestamp DESC");
    reveal_strlit(" AND user_id = ?");
    reveal_strlit(" AND action = ?");
    reveal_strlit(" AND resource = ?");
    reveal_strlit(" AND result = ?");
    reveal_strlit(" AND timestamp >= ?");
    reveal_strlit(" AND timestamp <= ?");
    lemma_differs(end, " AND user_id = ?"@, 1);
    lemma_differs(end, " AND action = ?"@, 1);
    lemma_differs(end, " AND resource = ?"@, 1);
    lemma_differs(end, " AND result = ?"@, 1);
    lemma_differs(end, " AND timestamp >= ?"@, 1);
    lemma_differs(end, " AND timestamp <= ?"@, 1);
}

/// A clause that is there is read with its value, and one that is not is passed over.
proof fn lemma_clause_read(
    given: bool,
    words: Seq<char>,
    clause: Clause,
    value: SqlView,
    rest: Seq<char>,
    bound: Seq<SqlView>,
    values: Seq<SqlView>,
)
    requires
        first_clause(words + rest) == Some((words.len(), clause)),
        words.len() > 0,
        given ==> bound == seq![value],
        !given ==> bound == Seq::<SqlView>::empty(),
    ensures
        forall|row: Seq<SqlView>| #[trigger]
            row_picked(row, words_if(given, words) + rest, bound + values) == ((given ==> meets(
                row,
                clause,
                value,
            )) && row_picked(row, rest, values)),
        after_clauses(words_if(given, words) + rest, bound + values) == after_clauses(
            rest,
            values,
        ),
{
    if given {
        let all = words + rest;
        assert(all.skip(words.len() as int) =~= rest);
        assert((bound + values).skip(1) =~= values);
        assert((bound + values)[0] == value);
    } else {
        assert(words_if(given, words) + rest =~= rest);
        assert(bound + values =~= values);
    }
}

/// The condition, as a query asks for it, on the columns of a row.
pub open spec fn row_is_asked_for(query: AuditLogQuery, row: Seq<SqlView>) -> bool {
    &&& query.user_id is Some ==> row[2] == SqlView::Text(query.user_id->Some_0@)
    &&& query.action is Some ==> row[3] == SqlView::Text(query.action->Some_0@)
    &&& query.resource is Some ==> row[4] == SqlView::Text(query.resource->Some_0@)
    &&& query.result is Some ==> row[5] == SqlView::Text(query.result->Some_0@)
    &&& query.after is Some ==> !comes_first(
        row[1],
        SqlView::Text(rfc3339_text(query.after->Some_0.secs(), query.after->Some_0.nanos())),
    )
    &&& query.before is Some ==> !comes_first(
        SqlView::Text(rfc3339_text(query.before->Some_0.secs(), query.before->Some_0.nanos())),
        row[1],
    )
}

proof fn lemma_join<T>(a: Seq<T>, b: Seq<T>, c: Seq<T>)
    ensures
        (a + b) + c == a + (b + c),
{
    assert((a + b) + c =~= a + (b + c));
}

/// Pieces that are joined from the left are the same joined from the right.
proof fn lemma_join_eight<T>(
    a: Seq<T>,
    b: Seq<T>,
    c: Seq<T>,
    d: Seq<T>,
    e: Seq<T>,
    f: Seq<T>,
    g: Seq<T>,
    h: Seq<T>,
)
    ensures
        a + b + c + d + e + f + g + h == a + (b + (c + (d + (e + (f + (g + h)))))),
{
    lemma_join(a + b + c + d + e + f, g, h);
    lemma_join(a + b + c + d + e, f, g + h);
    lemma_join(a + b + c + d, e, f + (g + h));
    lemma_join(a + b + c, d, e + (f + (g + h)));
    lemma_join(a + b, c, d + (e + (f + (g + h))));
    lemma_join(a, b, c + (d + (e + (f + (g + h)))));
}

/// The words for the page, after the clauses.
spec fn page_words() -> Seq<char> {
    " ORDER BY timestamp DESC"@ + " LIMIT ? OFFSET ?"@
}

/// The values for the page: how many entries, and after how many.
spec fn page_values(query: AuditLogQuery) -> Seq<SqlView> {
    seq![
        SqlView::Integer(
            if query.limit is Some {
                query.limit->Some_0 as i64
            } else {
                100
            },
        ),
        SqlView::Integer(
            if query.offset is Some {
                query.offset->Some_0 as i64
            } else {
                0
            },
        ),
    ]
}

/// The clauses on the time, and the page after them.
spec fn words_on_time(query: AuditLogQuery) -> Seq<char> {
    words_if(query.after is Some, " AND timestamp >= ?"@) + (words_if(
        query.before is Some,
        " AND timestamp <= ?"@,
    ) + page_words())
}

spec fn values_on_time(query: AuditLogQuery) -> Seq<SqlView> {
    time_if(query.after) + (time_if(query.before) + page_values(query))
}

/// The clauses on texts, and those on the time and the page after them.
spec fn words_on_texts(query: AuditLogQuery) -> Seq<char> {
    words_if(query.user_id is Some, " AND user_id = ?"@) + (words_if(
        query.action is Some,
        " AND action = ?"@,
    ) + (words_if(query.resource is Some, " AND resource = ?"@) + (words_if(
        query.result is Some,
        " AND result = ?"@,
    ) + words_on_time(query))))
}

spec fn values_on_texts(query: AuditLogQuery) -> Seq<SqlView> {
    text_if(opt_text(query.user_id)) + (text_if(opt_text(query.action)) + (text_if(
        opt_text(query.resource),
    ) + (text_if(opt_text(query.result)) + values_on_time(query))))
}

proof fn lemma_pieces(query: AuditLogQuery)
    ensures
        query.sql() == all_rows() + words_on_texts(query),
        query.params() == values_on_texts(query),
{
    let by_user = words_if(query.user_id is Some, " AND user_id = ?"@);
    let by_action = words_if(query.action is Some, " AND action = ?"@);
    let by_resource = words_if(query.resource is Some, " AND resource = ?"@);
    let by_result = words_if(query.result is Some, " AND result = ?"@);
    let after = words_if(query.after is Some, " AND timestamp >= ?"@);
    let before = words_if(query.before is Some, " AND timestamp <= ?"@);
    lemma_join(
        all_rows() + by_user + by_action + by_resource + by_result + after + before,
        " ORDER BY timestamp DESC"@,
        " LIMIT ? OFFSET ?"@,
    );
    lemma_join_eight(
        all_rows(),
        by_user,
        by_action,
        by_resource,
        by_result,
        after,
        before,
        page_words(),
    );
    let none = Seq::<SqlView>::empty();
    let user = text_if(opt_text(query.user_id));
    lemma_join_eight(
        none,
        user,
        text_if(opt_text(query.action)),
        text_if(opt_text(query.resource)),
        text_if(opt_text(query.result)),
        time_if(query.after),
        time_if(query.before),
        page_values(query),
    );
    assert(none + user =~= user);
    assert(none + values_on_texts(query) =~= values_on_texts(query));
    assert(query.params() =~= user + text_if(opt_text(query.action)) + text_if(
        opt_text(query.resource),
    ) + text_if(opt_text(query.result)) + time_if(query.after) + time_if(query.before)
        + page_values(query));
}

proof fn lemma_time_clauses(query: AuditLogQuery)
    ensures
        forall|row: Seq<SqlView>| #[trigger]
            row_picked(row, words_on_time(query), values_on_time(query)) == {
                &&& query.after is Some ==> !comes_first(
                    row[1],
                    SqlView::Text(
                        rfc3339_text(query.after->Some_0.secs(), query.after->Some_0.nanos()),
                    ),
                )
                &&& query.before is Some ==> !comes_first(
                    SqlView::Text(
                        rfc3339_text(query.before->Some_0.secs(), query.before->Some_0.nanos()),
                    ),
                    row[1],
                )
            },
        after_clauses(words_on_time(query), values_on_time(query)) == (
            page_words(),
            page_values(query),
        ),
{
    let end = page_words();
    let page = page_values(query);
    let rest = words_if(query.before is Some, " AND timestamp <= ?"@) + end;
    let values = time_if(query.before) + page;
    lemma_no_clause_in_the_end();
    lemma_first_clauses(end);
    lemma_first_clauses(rest);
    lemma_clause_read(
        query.before is Some,
        " AND timestamp <= ?"@,
        Clause { column: 1, comparison: Comparison::NotAfter },
        SqlView::Text(rfc3339_text(query.before->Some_0.secs(), query.before->Some_0.nanos())),
        end,
        time_if(query.before),
        page,
    );
    lemma_clause_read(
        query.after is Some,
        " AND timestamp >= ?"@,
        Clause { column: 1, comparison: Comparison::NotBefore },
        SqlView::Text(rfc3339_text(query.after->Some_0.secs(), query.after->Some_0.nanos())),
        rest,
        time_if(query.after),
        values,
    );
    assert forall|row: Seq<SqlView>| row_picked(row, end, page) by {}
}

proof fn lemma_text_clauses(query: AuditLogQuery)
    ensures
        forall|row: Seq<SqlView>| #[trigger]
            row_picked(row, words_on_texts(query), values_on_texts(query)) == {
                &&& query.user_id is Some ==> row[2] == SqlView::Text(query.user_id->Some_0@)
                &&& query.action is Some ==> row[3] == SqlView::Text(query.action->Some_0@)
                &&& query.resource is Some ==> row[4] == SqlView::Text(query.resource->Some_0@)
                &&& query.result is Some ==> row[5] == SqlView::Text(query.result->Some_0@)
                &&& row_picked(row, words_on_time(query), values_on_time(query))
            },
        after_clauses(words_on_texts(query), values_on_texts(query)) == after_clauses(
            words_on_time(query),
            values_on_time(query),
        ),
{
    let w4 = words_on_time(query);
    let w3 = words_if(query.result is Some, " AND result = ?"@) + w4;
    let w2 = words_if(query.resource is Some, " AND resource = ?"@) + w3;
    let w1 = words_if(query.action is Some, " AND action = ?"@) + w2;
    let v4 = values_on_time(query);
    let v3 = text_if(opt_text(query.result)) + v4;
    let v2 = text_if(opt_text(query.resource)) + v3;
    let v1 = text_if(opt_text(query.action)) + v2;
    lemma_first_clauses(w4);
    lemma_first_clauses(w3);
    lemma_first_clauses(w2);
    lemma_first_clauses(w1);
    lemma_clause_read(
        query.result is Some,
        " AND result = ?"@,
        Clause { column: 5, comparison: Comparison::Equal },
        SqlView::Text(query.result->Some_0@),
        w4,
        text_if(opt_text(query.result)),
        v4,
    );
    lemma_clause_read(
        query.resource is Some,
        " AND resource = ?"@,
        Clause { column: 4, comparison: Comparison::Equal },
        SqlView::Text(query.resource->Some_0@),
        w3,
        text_if(opt_text(query.resource)),
        v3,
    );
    lemma_clause_read(
        query.action is Some,
        " AND action = ?"@,
        Clause { column: 3, comparison: Comparison::Equal },
        SqlView::Text(query.action->Some_0@),
        w2,
        text_if(opt_text(query.action)),
        v2,
    );
    lemma_clause_read(
        query.user_id is Some,
        " AND user_id = ?"@,
        Clause { column: 2, comparison: Comparison::Equal },
        SqlView::Text(query.user_id->Some_0@),
        w1,
        text_if(opt_text(query.user_id)),
        v1,
    );
}

/// The words and values of the statement that a query leads to state what the query asks for, and
/// nothing else: each restriction that it names, with its own value, and none that it does not
/// name. The rest asks for the newest first and for the page: as many entries as the query says or
/// a hundred, after as many as it says or none.
pub proof fn law_statement_says_what_the_query_asks(
    db: Db,
    query: AuditLogQuery,
    statement: Statement,
)
    requires
        call_ensures(Db::query_audit_logs_query, (&db, &query), statement),
    ensures
        forall|row: Seq<SqlView>| #[trigger]
            condition_stated(statement@)(row) <==> row_is_asked_for(query, row),
        asks_for_page(
            statement@,
            if query.limit is Some {
                query.limit->Some_0 as i64
            } else {
                100
            },
            if query.offset is Some {
                query.offset->Some_0 as i64
            } else {
                0
            },
        ),
{
    lemma_pieces(query);
    let words = words_on_texts(query);
    let values = values_on_texts(query);
    lemma_begins(all_rows(), words);
    assert(restricting_words(statement@) =~= words);
    lemma_text_clauses(query);
    lemma_time_clauses(query);
    assert forall|row: Seq<SqlView>| #[trigger]
        condition_stated(statement@)(row) <==> row_is_asked_for(query, row) by {
        assert(row_picked(row, words, values) == condition_stated(statement@)(row));
        assert(row_picked(row, words_on_time(query), values_on_time(query)) == {
            &&& query.after is Some ==> !comes_first(
                row[1],
                SqlView::Text(
                    rfc3339_text(query.after->Some_0.secs(), query.after->Some_0.nanos()),
                ),
            )
            &&& query.before is Some ==> !comes_first(
                SqlView::Text(
                    rfc3339_text(query.before->Some_0.secs(), query.before->Some_0.nanos()),
                ),
                row[1],
            )
        });
    }
}

/// What a statement asks for of the page can be read in only one way.
proof fn lemma_one_page(statement: StatementView, limit: i64, offset: i64, l: i64, o: i64)
    requires
        asks_for_page(statement, limit, offset),
        asks_for_page(statement, l, o),
    ensures
        limit == l && offset == o,
{
    let page = seq![SqlView::Integer(limit), SqlView::Integer(offset)];
    assert(page[0] == SqlView::Integer(l) && page[1] == SqlView::Integer(o));
}

/// The statement that a query leads to gets, of the entries that were stored and not purged since,
/// a page of those that the query asks for: what the words and values of the statement pick of the
/// table is read as these, each once, the newest first.
pub proof fn law_statement_gets_what_is_asked(
    db: Db,
    calls: Seq<AuditCall>,
    query: AuditLogQuery,
    statement: Statement,
    answer: FetchAll,
    entries: Result<Vec<AuditLogEntry>, DbError>,
)
    requires
        forall|i: int| 0 <= i < calls.len() ==> (#[trigger] calls[i]).made(),
        forall|i: int|
            0 <= i < calls.len() && (#[trigger] calls[i]) is Insert ==> entry_is_storable(
                calls[i]->entry,
            ),
        numbers_differ(calls),
        call_ensures(Db::query_audit_logs_query, (&db, &query), statement),
        answers_statement(answer, audit_table(calls), statement@),
        call_ensures(Db::query_audit_logs, (&db, answer), entries),
    ensures
        entries is Ok,
        exists|all: Seq<AuditLogView>| #[trigger]
            lists_asked(calls, query, all) && entry_views(entries->Ok_0@) == page_of(
                all,
                if query.offset is Some {
                    query.offset->Some_0 as int
                } else {
                    0
                },
                if query.limit is Some {
                    query.limit->Some_0 as int
                } else {
                    100
                },
            ),
{
    law_statement_says_what_the_query_asks(db, query, statement);
    let table = audit_table(calls);
    let (sorted, limit, offset) = choose|sorted: Seq<Seq<SqlView>>, limit: i64, offset: i64|
        #![trigger newest_row_first(sorted), asks_for_page(statement@, limit, offset)]
        asks_for_page(statement@, limit, offset) && newest_row_first(sorted) && picks(
            sorted,
            table,
            condition_stated(statement@),
        ) && rows_view(answer.rows@) == page_of(sorted, offset as int, limit as int);
    lemma_one_page(
        statement@,
        limit,
        offset,
        if query.limit is Some {
            query.limit->Some_0 as i64
        } else {
            100
        },
        if query.offset is Some {
            query.offset->Some_0 as i64
        } else {
            0
        },
    );
    assert forall|row: Seq<SqlView>| #[trigger]
        condition_stated(statement@)(row) == picked_by(query)(row) by {
        assert(condition_stated(statement@)(row) <==> row_is_asked_for(query, row));
    }
    assert(condition_stated(statement@) =~= picked_by(query));
    assert(answers_page(answer, table, query));
    law_query_gives_a_page_of_what_is_asked(calls, query, answer, entries);
}

/// A purge asks for the entries whose time comes before a cutoff to be removed, and the cutoff lies
/// exactly the given number of days before the given time. It asks for nothing only where the
/// calendar does not reach back that far. A time within a leap second is left out.
pub proof fn law_purge_cuts_off_at_the_day(
    db: Db,
    retention_days: i64,
    now: Timestamp,
    statement: Option<Statement>,
)
    requires
        call_ensures(Db::purge_old_audit_logs_at, (&db, retention_days, &now), statement),
        now.nanos() < 1_000_000_000,
    ensures
        statement is Some ==> {
            let cutoff = now.secs() - retention_days * 86_400;
            &&& statement->Some_0@.sql == "DELETE FROM audit_logs WHERE timestamp < ?1"@
            &&& i64::MIN <= cutoff <= i64::MAX
            &&& statement->Some_0@.params == seq![
                SqlView::Text(rfc3339_text(cutoff as i64, now.nanos())),
            ]
        },
        statement is None ==> !(-8_334_601_228_800 <= now.secs() - retention_days * 86_400
            <= 8_210_266_876_799),
{
}

/// A purge at the time of the clock asks for the entries whose time comes before a cutoff to be
/// removed, and the cutoff lies exactly the given number of days before that time.
pub proof fn law_purge_now_cuts_off_at_the_day(
    db: Db,
    retention_days: i64,
    statement: Option<Statement>,
)
    requires
        call_ensures(Db::purge_old_audit_logs, (&db, retention_days), statement),
    ensures
        statement is Some ==> exists|now: Timestamp|
            {
                let cutoff = now.secs() - retention_days * 86_400;
                &&& #[trigger] now.told_by_clock()
                &&& statement->Some_0@.sql == "DELETE FROM audit_logs WHERE timestamp < ?1"@
                &&& statement->Some_0@.params == seq![
                    SqlView::Text(rfc3339_text(cutoff as i64, now.nanos())),
                ]
            },
        statement is None ==> exists|now: Timestamp|
            #[trigger] now.told_by_clock() && !(-8_334_601_228_800 <= now.secs() - retention_days
                * 86_400 <= 8_210_266_876_799),
{
    let now = choose|now: Timestamp| #[trigger]
        purges(statement, retention_days, now) && now.told_by_clock();
    assert(now.told_by_clock());
}

} // verus!
