//! The audit log that the database keeps.

use crate::db::Db;
use crate::json::{kept_json, kept_json_text};
use crate::sql::{
    int_at, int_column, is_first_fault, no_fault, opt_text_at, opt_text_column, opt_text_param,
    opt_text_value, rows_view, text_at, text_column, text_param, time_at, time_column, time_param,
    time_value, values_view, DbError, FetchAll, RowError, SqlValue, SqlView, Statement,
    StatementView,
};
use crate::text::opt_text;
use crate::timestamp::{days_before, four_digit_year, Timestamp, MAX_SECS, MIN_SECS};
use vstd::prelude::*;

verus! {

/// An entry of the audit log. The details are a JSON text.
#[derive(Debug)]
pub struct AuditLogEntry {
    pub id: i64,
    pub timestamp: Timestamp,
    pub user_id: String,
    pub action: String,
    pub resource: String,
    pub result: String,
    pub ip_address: String,
    pub details: Option<String>,
}

/// An entry with texts as characters.
pub struct AuditLogView {
    pub id: i64,
    pub timestamp: Timestamp,
    pub user_id: Seq<char>,
    pub action: Seq<char>,
    pub resource: Seq<char>,
    pub result: Seq<char>,
    pub ip_address: Seq<char>,
    pub details: Option<Seq<char>>,
}

impl View for AuditLogEntry {
    type V = AuditLogView;

    open spec fn view(&self) -> AuditLogView {
        AuditLogView {
            id: self.id,
            timestamp: self.timestamp,
            user_id: self.user_id@,
            action: self.action@,
            resource: self.resource@,
            result: self.result@,
            ip_address: self.ip_address@,
            details: opt_text(self.details),
        }
    }
}

/// Which entries of the audit log are asked for. What is not given does not restrict.
#[derive(Debug)]
pub struct AuditLogQuery {
    pub user_id: Option<String>,
    pub action: Option<String>,
    pub resource: Option<String>,
    pub result: Option<String>,
    pub after: Option<Timestamp>,
    pub before: Option<Timestamp>,
    pub limit: Option<u32>,
    pub offset: Option<u32>,
}

/// How many entries are asked for where the query does not say.
pub const DEFAULT_AUDIT_LIMIT: u32 = 100;

pub const INSERT_AUDIT_SQL: &'static str = "INSERT INTO audit_logs (timestamp, user_id, action, resource, result, ip_address, details)
VALUES (?1, ?2, ?3, ?4, ?5, ?6, ?7)";

pub const SELECT_AUDIT_SQL: &'static str = "SELECT id, timestamp, user_id, action, resource, result, ip_address, details FROM audit_logs WHERE 1=1";

pub const BY_USER_SQL: &'static str = " AND user_id = ?";

pub const BY_ACTION_SQL: &'static str = " AND action = ?";

pub const BY_RESOURCE_SQL: &'static str = " AND resource = ?";

pub const BY_RESULT_SQL: &'static str = " AND result = ?";

pub const AFTER_SQL: &'static str = " AND timestamp >= ?";

pub const BEFORE_SQL: &'static str = " AND timestamp <= ?";

pub const NEWEST_FIRST_SQL: &'static str = " ORDER BY timestamp DESC";

pub const PAGE_SQL: &'static str = " LIMIT ? OFFSET ?";

pub const PURGE_AUDIT_SQL: &'static str = "DELETE FROM audit_logs WHERE timestamp < ?1";

/// The words of a restriction, if it is given.
pub open spec fn words_if(given: bool, words: Seq<char>) -> Seq<char> {
    if given {
        words
    } else {
        Seq::empty()
    }
}

/// The value of a restriction to a text, if it is given.
pub open spec fn text_if(text: Option<Seq<char>>) -> Seq<SqlView> {
    match text {
        Some(t) => seq![SqlView::Text(t)],
        None => Seq::empty(),
    }
}

/// The value of a restriction to a time, if it is given.
pub open spec fn time_if(time: Option<Timestamp>) -> Seq<SqlView> {
    match time {
        Some(t) => seq![time_value(t)],
        None => Seq::empty(),
    }
}

/// The number given, or else another.
pub open spec fn number_or(given: Option<u32>, otherwise: u32) -> u32 {
    match given {
        Some(n) => n,
        None => otherwise,
    }
}

impl AuditLogQuery {
    /// The words of the statement that asks for the entries: the restrictions that are given, in
    /// this order, the newest entry first, and a page of them.
    pub open spec fn sql(self) -> Seq<char> {
        SELECT_AUDIT_SQL@ + words_if(self.user_id is Some, BY_USER_SQL@) + words_if(
            self.action is Some,
            BY_ACTION_SQL@,
        ) + words_if(self.resource is Some, BY_RESOURCE_SQL@) + words_if(
            self.result is Some,
            BY_RESULT_SQL@,
        ) + words_if(self.after is Some, AFTER_SQL@) + words_if(self.before is Some, BEFORE_SQL@)
            + NEWEST_FIRST_SQL@ + PAGE_SQL@
    }

    /// The values of the statement that asks for the entries.
    pub open spec fn params(self) -> Seq<SqlView> {
        text_if(opt_text(self.user_id)) + text_if(opt_text(self.action)) + text_if(
            opt_text(self.resource),
        ) + text_if(opt_text(self.result)) + time_if(self.after) + time_if(self.before) + seq![
            SqlView::Integer(number_or(self.limit, DEFAULT_AUDIT_LIMIT) as i64),
            SqlView::Integer(number_or(self.offset, 0) as i64),
        ]
    }
}

/// The columns of an entry, in the order in which they are written; the database gives the
/// number.
pub open spec fn audit_columns(entry: AuditLogView) -> Seq<SqlView> {
    seq![
        time_value(entry.timestamp),
        SqlView::Text(entry.user_id),
        SqlView::Text(entry.action),
        SqlView::Text(entry.resource),
        SqlView::Text(entry.result),
        SqlView::Text(entry.ip_address),
        opt_text_value(entry.details),
    ]
}

/// The entry that a row holds, or the first thing wrong with it: the time is looked at first,
/// then the details, the number and the other texts. Details that are no JSON count as none.
pub open spec fn audit_in_row(row: Seq<SqlView>) -> Result<AuditLogView, RowError> {
    match (
        time_column(row, 1, 1),
        opt_text_column(row, 7),
        int_column(row, 0),
        text_column(row, 2),
        text_column(row, 3),
        text_column(row, 4),
        text_column(row, 5),
        text_column(row, 6),
    ) {
        (Err(e), _, _, _, _, _, _, _) => Err(e),
        (_, Err(e), _, _, _, _, _, _) => Err(e),
        (_, _, Err(e), _, _, _, _, _) => Err(e),
        (_, _, _, Err(e), _, _, _, _) => Err(e),
        (_, _, _, _, Err(e), _, _, _) => Err(e),
        (_, _, _, _, _, Err(e), _, _) => Err(e),
        (_, _, _, _, _, _, Err(e), _) => Err(e),
        (_, _, _, _, _, _, _, Err(e)) => Err(e),
        (
            Ok(timestamp),
            Ok(details),
            Ok(id),
            Ok(user_id),
            Ok(action),
            Ok(resource),
            Ok(result),
            Ok(ip_address),
        ) => Ok(
            AuditLogView {
                id,
                timestamp,
                user_id,
                action,
                resource,
                result,
                ip_address,
                details: kept_json_text(details),
            },
        ),
    }
}

/// What is wrong with a row that should hold an entry.
pub open spec fn audit_fault() -> spec_fn(Seq<SqlView>) -> Option<RowError> {
    |row: Seq<SqlView>|
        match audit_in_row(row) {
            Ok(_) => None,
            Err(e) => Some(e),
        }
}

/// Whether an entry is read back from what is stored of it: its year has four digits and its
/// details are JSON.
pub open spec fn entry_is_storable(entry: AuditLogView) -> bool {
    four_digit_year(entry.timestamp.secs()) && kept_json_text(entry.details) == entry.details
}

/// Whether a statement stores an entry: it writes the columns, and from a row with a number and
/// these the entry is read back under that number, if it can be.
pub open spec fn stores_entry(statement: Statement, entry: AuditLogView) -> bool {
    &&& statement@ == (StatementView { sql: INSERT_AUDIT_SQL@, params: audit_columns(entry) })
    &&& entry_is_storable(entry) ==> forall|id: i64| #[trigger]
        audit_in_row(seq![SqlView::Integer(id)] + statement@.params) == Ok::<_, RowError>(
            (AuditLogView { id, ..entry }),
        )
}

/// Whether `entries` is what an answer with many rows is read as: one entry for each row, or the
/// error in the first row that has one, or else the error that the database stopped with.
pub open spec fn entries_read(
    answer: FetchAll,
    entries: Result<Vec<AuditLogEntry>, DbError>,
) -> bool {
    match entries {
        Err(DbError::Row(e)) => is_first_fault(rows_view(answer.rows@), audit_fault(), e),
        Err(DbError::Driver(words)) => no_fault(rows_view(answer.rows@), audit_fault())
            && answer.failed == Some(words),
        Err(DbError::QueryReturnedNoRows) => false,
        Ok(out) => {
            &&& answer.failed is None
            &&& out@.len() == answer.rows@.len()
            &&& forall|i: int|
                0 <= i < out@.len() ==> audit_in_row(rows_view(answer.rows@)[i]) == Ok::<
                    _,
                    RowError,
                >((#[trigger] out@[i])@)
        },
    }
}

/// What was read, with texts as characters.
pub open spec fn entry_result(read: Result<AuditLogEntry, RowError>) -> Result<
    AuditLogView,
    RowError,
> {
    match read {
        Ok(entry) => Ok(entry@),
        Err(e) => Err(e),
    }
}

/// Reads the entry in a row.
pub fn read_audit_entry(row: &Vec<SqlValue>) -> (read: Result<AuditLogEntry, RowError>)
    ensures
        entry_result(read) == audit_in_row(values_view(row@)),
{
    let timestamp: Timestamp = match time_at(row, 1, 1) {
        Ok(t) => t,
        Err(e) => return Err(e),
    };
    let details: Option<String> = match opt_text_at(row, 7) {
        Ok(text) => kept_json(text),
        Err(e) => return Err(e),
    };
    let id: i64 = match int_at(row, 0) {
        Ok(n) => n,
        Err(e) => return Err(e),
    };
    let user_id: String = match text_at(row, 2) {
        Ok(text) => text,
        Err(e) => return Err(e),
    };
    let action: String = match text_at(row, 3) {
        Ok(text) => text,
        Err(e) => return Err(e),
    };
    let resource: String = match text_at(row, 4) {
        Ok(text) => text,
        Err(e) => return Err(e),
    };
    let result: String = match text_at(row, 5) {
        Ok(text) => text,
        Err(e) => return Err(e),
    };
    let ip_address: String = match text_at(row, 6) {
        Ok(text) => text,
        Err(e) => return Err(e),
    };
    Ok(AuditLogEntry { id, timestamp, user_id, action, resource, result, ip_address, details })
}

/// Adds a restriction to a text, if it is given.
fn restrict_to_text(sql: &mut String, params: &mut Vec<SqlValue>, words: &str, text: &Option<String>)
    ensures
        final(sql)@ == old(sql)@ + words_if(*text is Some, words@),
        values_view(final(params)@) == values_view(old(params)@) + text_if(opt_text(*text)),
{
    match text {
        Some(t) => {
            sql.append(words);
            params.push(text_param(t.as_str()));
            assert(values_view(params@) =~= values_view(old(params)@) + text_if(opt_text(*text)));
        },
        None => {
            assert(sql@ =~= old(sql)@ + words_if(false, words@));
            assert(values_view(params@) =~= values_view(old(params)@) + text_if(None));
        },
    }
}

/// Adds a restriction to a time, if it is given.
fn restrict_to_time(
    sql: &mut String,
    params: &mut Vec<SqlValue>,
    words: &str,
    time: &Option<Timestamp>,
)
    ensures
        final(sql)@ == old(sql)@ + words_if(*time is Some, words@),
        values_view(final(params)@) == values_view(old(params)@) + time_if(*time),
{
    match time {
        Some(t) => {
            sql.append(words);
            params.push(time_param(t));
            assert(values_view(params@) =~= values_view(old(params)@) + time_if(*time));
        },
        None => {
            assert(sql@ =~= old(sql)@ + words_if(false, words@));
            assert(values_view(params@) =~= values_view(old(params)@) + time_if(None));
        },
    }
}

/// The statement that removes the entries from before a time.
pub open spec fn purge_statement(cutoff: Timestamp) -> StatementView {
    StatementView { sql: PURGE_AUDIT_SQL@, params: seq![time_value(cutoff)] }
}

/// Whether `statement` removes the entries from before the time `retention_days` days before
/// `now`, or is absent because the calendar does not reach that far.
pub open spec fn purges(statement: Option<Statement>, retention_days: i64, now: Timestamp) -> bool {
    match statement {
        Some(s) => exists|cutoff: Timestamp| #[trigger]
            purge_statement(cutoff) == s@ && days_before(now.secs(), now.nanos(), retention_days)
                == (cutoff.secs() as int, cutoff.nanos() as int),
        None => !(MIN_SECS <= days_before(now.secs(), now.nanos(), retention_days).0 <= MAX_SECS),
    }
}

impl Db {
    /// The statement that stores an entry. From a row with a number and the values it stores the
    /// entry is read back under that number, if its year has four digits and its details are
    /// JSON.
    pub fn insert_audit_log(&self, entry: &AuditLogEntry) -> (statement: Statement)
        ensures
            stores_entry(statement, entry@),
    {
        let mut params: Vec<SqlValue> = Vec::new();
        params.push(time_param(&entry.timestamp));
        params.push(text_param(entry.user_id.as_str()));
        params.push(text_param(entry.action.as_str()));
        params.push(text_param(entry.resource.as_str()));
        params.push(text_param(entry.result.as_str()));
        params.push(text_param(entry.ip_address.as_str()));
        params.push(opt_text_param(&entry.details));
        assert(values_view(params@) =~= audit_columns(entry@));
        Statement { sql: INSERT_AUDIT_SQL.to_owned(), params }
    }

    /// The statement that asks for the entries that a query wants.
    pub fn query_audit_logs_query(&self, query: &AuditLogQuery) -> (statement: Statement)
        ensures
            statement@ == (StatementView { sql: query.sql(), params: query.params() }),
    {
        let mut sql: String = SELECT_AUDIT_SQL.to_owned();
        let mut params: Vec<SqlValue> = Vec::new();
        assert(values_view(params@) =~= Seq::empty());
        restrict_to_text(&mut sql, &mut params, BY_USER_SQL, &query.user_id);
        restrict_to_text(&mut sql, &mut params, BY_ACTION_SQL, &query.action);
        restrict_to_text(&mut sql, &mut params, BY_RESOURCE_SQL, &query.resource);
        restrict_to_text(&mut sql, &mut params, BY_RESULT_SQL, &query.result);
        restrict_to_time(&mut sql, &mut params, AFTER_SQL, &query.after);
        restrict_to_time(&mut sql, &mut params, BEFORE_SQL, &query.before);
        sql.append(NEWEST_FIRST_SQL);
        let limit: u32 = match query.limit {
            Some(n) => n,
            None => DEFAULT_AUDIT_LIMIT,
        };
        let offset: u32 = match query.offset {
            Some(n) => n,
            None => 0,
        };
        sql.append(PAGE_SQL);
        params.push(SqlValue::Integer(limit as i64));
        params.push(SqlValue::Integer(offset as i64));
        assert(values_view(params@) =~= query.params());
        Statement { sql, params }
    }

    /// The entries, as the answer to the query says. The first row that cannot be read is
    /// reported; after that, the error that the database stopped with.
    pub fn query_audit_logs(&self, answer: FetchAll) -> (entries: Result<
        Vec<AuditLogEntry>,
        DbError,
    >)
        ensures
            entries_read(answer, entries),
    {
        let ghost rows = rows_view(answer.rows@);
        let mut out: Vec<AuditLogEntry> = Vec::new();
        let mut i: usize = 0;
        while i < answer.rows.len()
            invariant
                i <= answer.rows@.len(),
                rows == rows_view(answer.rows@),
                out@.len() == i,
                forall|j: int|
                    0 <= j < i ==> audit_in_row(rows[j]) == Ok::<_, RowError>(
                        (#[trigger] out@[j])@,
                    ),
                no_fault(rows.take(i as int), audit_fault()),
            decreases answer.rows@.len() - i,
        {
            assert(rows[i as int] == values_view(answer.rows@[i as int]@));
            match read_audit_entry(&answer.rows[i]) {
                Ok(entry) => {
                    out.push(entry);
                },
                Err(e) => {
                    return Err(DbError::Row(e));
                },
            }
            proof {
                assert forall|k: int| 0 <= k < rows.take(i + 1).len() implies audit_fault()(
                    #[trigger] rows.take(i + 1)[k],
                ) is None by {
                    if k < i {
                        assert(rows.take(i as int)[k] == rows.take(i + 1)[k]);
                    }
                }
            }
            i = i + 1;
        }
        assert(rows.take(answer.rows@.len() as int) =~= rows);
        match answer.failed {
            Some(words) => Err(DbError::Driver(words)),
            None => Ok(out),
        }
    }

    /// The statement that removes the entries older than a number of days at a given time, or
    /// none where the calendar does not reach back that far.
    pub fn purge_old_audit_logs_at(&self, retention_days: i64, now: &Timestamp) -> (statement: Option<
        Statement,
    >)
        ensures
            purges(statement, retention_days, *now),
    {
        match now.minus_days(retention_days) {
            Some(cutoff) => {
                let mut params: Vec<SqlValue> = Vec::new();
                params.push(time_param(&cutoff));
                let statement: Statement = Statement { sql: PURGE_AUDIT_SQL.to_owned(), params };
                assert(statement@ =~= purge_statement(cutoff));
                Some(statement)
            },
            None => None,
        }
    }

    /// The statement that removes the entries older than a number of days at the time that the
    /// clock tells, or none where the calendar does not reach back that far.
    pub fn purge_old_audit_logs(&self, retention_days: i64) -> (statement: Option<Statement>)
        ensures
            exists|now: Timestamp| #[trigger]
                purges(statement, retention_days, now) && now.told_by_clock(),
    {
        let now: Timestamp = Timestamp::now();
        self.purge_old_audit_logs_at(retention_days, &now)
    }
}

/// Whether a character marks a place for a value.
pub open spec fn is_mark() -> spec_fn(char) -> bool {
    |c: char| c == '?'
}

/// A text without marks has none to find.
proof fn lemma_no_marks(text: Seq<char>)
    requires
        forall|i: int| 0 <= i < text.len() ==> text[i] != '?',
    ensures
        text.filter(is_mark()).len() == 0,
    decreases text.len(),
{
    reveal(Seq::filter);
    if text.len() > 0 {
        lemma_no_marks(text.drop_last());
    }
}

/// A text that ends in its only mark has one.
proof fn lemma_one_mark(text: Seq<char>)
    requires
        text.len() > 0,
        text.last() == '?',
        forall|i: int| 0 <= i < text.len() - 1 ==> text[i] != '?',
    ensures
        text.filter(is_mark()).len() == 1,
{
    reveal(Seq::filter);
    lemma_no_marks(text.drop_last());
}

/// The statement that asks for audit entries has as many marks as values are bound to it, whatever
/// restrictions are given.
pub proof fn law_every_mark_has_a_value(query: AuditLogQuery)
    ensures
        query.sql().filter(is_mark()).len() == query.params().len(),
{
    broadcast use Seq::filter_distributes_over_add;

    reveal(Seq::filter);
    reveal_strlit(" AND user_id = ?");
    reveal_strlit(" AND action = ?");
    reveal_strlit(" AND resource = ?");
    reveal_strlit(" AND result = ?");
    reveal_strlit(" AND timestamp >= ?");
    reveal_strlit(" AND timestamp <= ?");
    reveal_strlit(" ORDER BY timestamp DESC");
    reveal_strlit(" LIMIT ? OFFSET ?");
    lemma_one_mark(BY_USER_SQL@);
    lemma_one_mark(BY_ACTION_SQL@);
    lemma_one_mark(BY_RESOURCE_SQL@);
    lemma_one_mark(BY_RESULT_SQL@);
    lemma_one_mark(AFTER_SQL@);
    lemma_one_mark(BEFORE_SQL@);
    lemma_no_marks(NEWEST_FIRST_SQL@);
    lemma_no_marks(Seq::<char>::empty());
    assert(PAGE_SQL@.filter(is_mark()).len() == 2) by {
        lemma_one_mark(PAGE_SQL@.take(8));
        lemma_one_mark(PAGE_SQL@.skip(8));
        assert(PAGE_SQL@ =~= PAGE_SQL@.take(8) + PAGE_SQL@.skip(8));
    }
    assert(SELECT_AUDIT_SQL@.filter(is_mark()).len() == 0) by {
        reveal_strlit(
            "SELECT id, timestamp, user_id, action, resource, result, ip_address, details FROM audit_logs WHERE 1=1",
        );
        lemma_no_marks(SELECT_AUDIT_SQL@);
    }
}

} // verus!
