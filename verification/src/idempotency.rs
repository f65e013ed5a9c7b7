//! Answers that are given again when a request is repeated within a day.

use crate::db::Db;
use crate::sql::{
    int_at, int_column, text_at, text_column, text_param, time_at, time_column, time_param,
    time_value, values_view, Fetch, SqlValue, SqlView, Statement, StatementView,
};
use crate::tables::{
    answers_one, any_row, lemma_last_put, lemma_not_there, table_after, Change,
};
use crate::timestamp::{four_digit_year, Timestamp};
use vstd::prelude::*;

verus! {

/// An answer that was given to a request with a key.
#[derive(Debug)]
pub struct IdempotencyRecord {
    pub key: String,
    pub status_code: u16,
    pub response_body: String,
    pub created_at: Timestamp,
}

/// A record with texts as characters.
pub struct IdempotencyView {
    pub key: Seq<char>,
    pub status_code: u16,
    pub response_body: Seq<char>,
    pub created_at: Timestamp,
}

impl View for IdempotencyRecord {
    type V = IdempotencyView;

    open spec fn view(&self) -> IdempotencyView {
        IdempotencyView {
            key: self.key@,
            status_code: self.status_code,
            response_body: self.response_body@,
            created_at: self.created_at,
        }
    }
}

/// How long an answer is given again, in seconds.
pub const IDEMPOTENCY_SECS: i64 = 86_400;

pub const STORE_IDEMPOTENCY_SQL: &'static str = "INSERT OR REPLACE INTO idempotency_keys (key, status_code, response_body, created_at)
VALUES (?1, ?2, ?3, ?4)";

pub const SELECT_IDEMPOTENCY_SQL: &'static str = "SELECT key, status_code, response_body, created_at FROM idempotency_keys WHERE key = ?1";

/// The columns of a record, in the order in which they are written and read.
pub open spec fn idempotency_columns(record: IdempotencyView) -> Seq<SqlView> {
    seq![
        SqlView::Text(record.key),
        SqlView::Integer(record.status_code as i64),
        SqlView::Text(record.response_body),
        time_value(record.created_at),
    ]
}

/// The record that a row holds, unless it cannot be read or is older than a day.
pub open spec fn record_in_row(row: Seq<SqlView>, now: Timestamp) -> Option<IdempotencyView> {
    match (time_column(row, 3, 0), text_column(row, 0), int_column(row, 1), text_column(row, 2)) {
        (
            Ok(created_at),
            Ok(key),
            Ok(status),
            Ok(response_body),
        ) if now.seconds_after(created_at) <= IDEMPOTENCY_SECS => Some(
            IdempotencyView { key, status_code: status as u16, response_body, created_at },
        ),
        _ => None,
    }
}

/// The record to give again, as the answer to the query says: there is none where the database
/// has none or failed.
pub open spec fn answered_record(answer: Fetch, now: Timestamp) -> Option<IdempotencyView> {
    match answer {
        Fetch::Row(row) => record_in_row(values_view(row@), now),
        _ => None,
    }
}

/// The record to give again, if it is not older than a day.
pub open spec fn fresh_record(record: IdempotencyView, now: Timestamp) -> Option<IdempotencyView> {
    if now.seconds_after(record.created_at) <= IDEMPOTENCY_SECS {
        Some(record)
    } else {
        None
    }
}

/// Whether a statement stores an answer: it writes the columns, and from a row with these the
/// answer is read for a day and not longer, if the year has four digits.
pub open spec fn stores_answer(statement: Statement, record: IdempotencyView) -> bool {
    &&& statement@ == (StatementView {
        sql: STORE_IDEMPOTENCY_SQL@,
        params: idempotency_columns(record),
    })
    &&& four_digit_year(record.created_at.secs()) ==> forall|later: Timestamp| #[trigger]
        record_in_row(statement@.params, later) == fresh_record(record, later)
}

/// The record, with texts as characters.
pub open spec fn opt_record(record: Option<IdempotencyRecord>) -> Option<IdempotencyView> {
    match record {
        Some(r) => Some(r@),
        None => None,
    }
}

impl Db {
    /// The statement that stores the answer given to a request at a given time. From a row with
    /// the values it stores the answer is read back for a day and not longer, if the year has
    /// four digits.
    pub fn store_idempotency_at(
        &self,
        key: &str,
        status_code: u16,
        response_body: &str,
        now: &Timestamp,
    ) -> (statement: Statement)
        ensures
            stores_answer(
                statement,
                IdempotencyView {
                    key: key@,
                    status_code,
                    response_body: response_body@,
                    created_at: *now,
                },
            ),
    {
        let mut params: Vec<SqlValue> = Vec::new();
        params.push(text_param(key));
        params.push(SqlValue::Integer(status_code as i64));
        params.push(text_param(response_body));
        params.push(time_param(now));
        assert(values_view(params@) =~= idempotency_columns(
            IdempotencyView {
                key: key@,
                status_code,
                response_body: response_body@,
                created_at: *now,
            },
        ));
        Statement { sql: STORE_IDEMPOTENCY_SQL.to_owned(), params }
    }

    /// The statement that stores the answer given to a request, at the time that the
    /// clock tells.
    pub fn store_idempotency(&self, key: &str, status_code: u16, response_body: &str) -> (statement:
        Statement)
        ensures
            exists|now: Timestamp|
                now.told_by_clock() && #[trigger] stores_answer(
                    statement,
                    IdempotencyView {
                        key: key@,
                        status_code,
                        response_body: response_body@,
                        created_at: now,
                    },
                ),
    {
        let now: Timestamp = Timestamp::now();
        self.store_idempotency_at(key, status_code, response_body, &now)
    }

    /// The query for the answer given to requests with a key.
    pub fn check_idempotency_query(&self, key: &str) -> (statement: Statement)
        ensures
            statement@ == (StatementView {
                sql: SELECT_IDEMPOTENCY_SQL@,
                params: seq![SqlView::Text(key@)],
            }),
    {
        let mut params: Vec<SqlValue> = Vec::new();
        params.push(text_param(key));
        assert(values_view(params@) =~= seq![SqlView::Text(key@)]);
        Statement { sql: SELECT_IDEMPOTENCY_SQL.to_owned(), params }
    }

    /// The answer to give again at a given time, as the answer to the query says. There is none
    /// where the database has none or failed, the row cannot be read, or it is older than a day.
    pub fn check_idempotency_at(&self, answer: &Fetch, now: &Timestamp) -> (record: Option<
        IdempotencyRecord,
    >)
        ensures
            opt_record(record) == answered_record(*answer, *now),
    {
        let row: &Vec<SqlValue> = match answer {
            Fetch::Row(row) => row,
            _ => return None,
        };
        let created_at: Timestamp = match time_at(row, 3, 0) {
            Ok(t) => t,
            Err(_) => return None,
        };
        let age: i64 = now.seconds_since(&created_at);
        if age > IDEMPOTENCY_SECS {
            return None;
        }
        let key: String = match text_at(row, 0) {
            Ok(text) => text,
            Err(_) => return None,
        };
        let status: i64 = match int_at(row, 1) {
            Ok(n) => n,
            Err(_) => return None,
        };
        let response_body: String = match text_at(row, 2) {
            Ok(text) => text,
            Err(_) => return None,
        };
        Some(IdempotencyRecord { key, status_code: status as u16, response_body, created_at })
    }

    /// The answer to give again at the time that the clock tells, as the answer to the query says.
    pub fn check_idempotency(&self, answer: &Fetch) -> (record: Option<IdempotencyRecord>)
        ensures
            exists|now: Timestamp|
                now.told_by_clock() && opt_record(record) == #[trigger] answered_record(
                    *answer,
                    now,
                ),
    {
        let now: Timestamp = Timestamp::now();
        self.check_idempotency_at(answer, &now)
    }
}

/// An answer that was stored, with the statement that stored it.
pub struct AnswerStored {
    pub record: IdempotencyView,
    pub statement: Statement,
}

/// What storing answers does to their table.
pub open spec fn answer_changes(stored: Seq<AnswerStored>) -> Seq<Change> {
    Seq::new(stored.len(), |i: int| Change::Put { row: stored[i].statement@.params })
}

/// The last answer that was stored for a key is the one that is given again, for a day and not
/// longer, whatever was stored for other keys; for a key without one none is given. The year needs
/// four digits.
pub proof fn law_last_answer_is_given_again(
    stored: Seq<AnswerStored>,
    place: int,
    key: Seq<char>,
    answer: Fetch,
    now: Timestamp,
)
    requires
        forall|i: int|
            0 <= i < stored.len() ==> stores_answer(
                (#[trigger] stored[i]).statement,
                stored[i].record,
            ),
        -1 <= place < stored.len(),
        place >= 0 ==> stored[place].record.key == key && four_digit_year(
            stored[place].record.created_at.secs(),
        ),
        forall|k: int| place < k < stored.len() ==> (#[trigger] stored[k]).record.key != key,
        answers_one(answer, table_after(answer_changes(stored)), SqlView::Text(key), any_row()),
    ensures
        answered_record(answer, now) == if place >= 0 {
            fresh_record(stored[place].record, now)
        } else {
            None
        },
{
    let changes = answer_changes(stored);
    assert forall|k: int| place < k < changes.len() implies (#[trigger] changes[k]).key()
        != SqlView::Text(key) by {
        assert(stores_answer(stored[k].statement, stored[k].record));
    }
    if place >= 0 {
        assert(stores_answer(stored[place].statement, stored[place].record));
        lemma_last_put(changes, place);
    } else {
        lemma_not_there(changes, place, SqlView::Text(key));
    }
}

} // verus!
