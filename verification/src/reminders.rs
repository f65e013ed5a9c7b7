//! Reminders before a vault expires, and subscriptions to a vault's news.
//!
//! The channels and the frequency are kept as JSON texts. They are turned into values by readers
//! that the caller hands in; nothing else here depends on what they are.

use crate::db::Db;
use crate::sql::{
    int_at, int_column, is_first_fault, lemma_signed_bits, lenient_time_at, lenient_time_column,
    no_fault, rows_view, text_at, text_column, text_param, time_param, time_value, values_view,
    DbError, Fetch, FetchAll, RowError, SqlValue, SqlView, Statement, StatementView,
};
use crate::timestamp::{four_digit_year, parsed_timestamp, Timestamp};
use vstd::prelude::*;

verus! {

/// When and how an owner is reminded that a vault expires.
#[derive(Debug)]
pub struct ReminderPreferences<C, F> {
    pub vault_id: u64,
    pub channels: Vec<C>,
    pub hours_before_expiry: u32,
    pub frequency: F,
    /// When the reminder was deleted, if it was.
    pub deleted_at: Option<Timestamp>,
}

/// Who hears of a vault, and how.
#[derive(Debug)]
pub struct Subscription<C, F> {
    pub vault_id: u64,
    pub owner: String,
    pub channels: Vec<C>,
    pub frequency: F,
}

pub const UPSERT_REMINDER_SQL: &'static str = "INSERT INTO reminder_preferences (vault_id, channels, hours_before_expiry, frequency)
VALUES (?1, ?2, ?3, ?4)
ON CONFLICT(vault_id) DO UPDATE SET
  channels = excluded.channels,
  hours_before_expiry = excluded.hours_before_expiry,
  frequency = excluded.frequency,
  deleted_at = NULL";

pub const SELECT_REMINDER_SQL: &'static str = "SELECT vault_id, channels, hours_before_expiry, frequency, deleted_at
FROM reminder_preferences
WHERE vault_id = ?1 AND deleted_at IS NULL";

pub const SELECT_REMINDERS_SQL: &'static str = "SELECT vault_id, channels, hours_before_expiry, frequency, deleted_at
FROM reminder_preferences
WHERE deleted_at IS NULL";

pub const SELECT_REMINDERS_WITH_DELETED_SQL: &'static str = "SELECT vault_id, channels, hours_before_expiry, frequency, deleted_at
FROM reminder_preferences
WHERE vault_id = ?1";

pub const DELETE_REMINDER_SQL: &'static str = "UPDATE reminder_preferences SET deleted_at = ?1 WHERE vault_id = ?2 AND deleted_at IS NULL";

pub const UPSERT_SUBSCRIPTION_SQL: &'static str = "INSERT INTO vault_subscriptions (vault_id, owner, channels, frequency)
VALUES (?1, ?2, ?3, ?4)
ON CONFLICT(vault_id) DO UPDATE SET
  owner = excluded.owner,
  channels = excluded.channels,
  frequency = excluded.frequency";

pub const DELETE_SUBSCRIPTION_SQL: &'static str = "DELETE FROM vault_subscriptions WHERE vault_id = ?1";

pub const SELECT_SUBSCRIPTION_SQL: &'static str = "SELECT vault_id, owner, channels, frequency
FROM vault_subscriptions
WHERE vault_id = ?1";

// ---- reminders ----

/// The columns that a reminder is written to.
pub open spec fn reminder_columns(
    vault_id: u64,
    channels: Seq<char>,
    hours_before_expiry: u32,
    frequency: Seq<char>,
) -> Seq<SqlView> {
    seq![
        SqlView::Integer(vault_id as i64),
        SqlView::Text(channels),
        SqlView::Integer(hours_before_expiry as i64),
        SqlView::Text(frequency),
    ]
}

/// What is wrong with a row that should hold a reminder: the texts are looked at first, then,
/// where it is asked for, the time of deletion, and then the numbers.
pub open spec fn reminder_fault(with_deletion: bool) -> spec_fn(Seq<SqlView>) -> Option<RowError> {
    |row: Seq<SqlView>|
        {
            if text_column(row, 1) is Err {
                Some(text_column(row, 1)->Err_0)
            } else if text_column(row, 3) is Err {
                Some(text_column(row, 3)->Err_0)
            } else if with_deletion && lenient_time_column(row, 4) is Err {
                Some(lenient_time_column(row, 4)->Err_0)
            } else if int_column(row, 0) is Err {
                Some(int_column(row, 0)->Err_0)
            } else if int_column(row, 2) is Err {
                Some(int_column(row, 2)->Err_0)
            } else {
                None
            }
        }
}

/// The channels that a reader made out: none, where it could not read them.
pub open spec fn channels_or_none<C>(read: Option<Vec<C>>, channels: Vec<C>) -> bool {
    match read {
        Some(known) => channels == known,
        None => channels@ == Seq::<C>::empty(),
    }
}

/// Whether a reminder is what a row without faults holds, apart from its channels and frequency.
pub open spec fn reminder_fits<C, F>(
    row: Seq<SqlView>,
    with_deletion: bool,
    reminder: ReminderPreferences<C, F>,
) -> bool {
    &&& int_column(row, 0) matches Ok(vault_id) && reminder.vault_id == vault_id as u64
    &&& int_column(row, 2) matches Ok(hours) && reminder.hours_before_expiry == hours as u32
    &&& if with_deletion {
        lenient_time_column(row, 4) == Ok::<_, RowError>(reminder.deleted_at)
    } else {
        reminder.deleted_at is None
    }
}

/// Whether a reminder is what a row without faults holds, its channels and frequency as the
/// readers make them out from the texts in the row.
pub open spec fn reads_reminder<
    C,
    F,
    ReadChannels: Fn(&String) -> Option<Vec<C>>,
    ReadFrequency: Fn(&String) -> F,
>(
    row: Seq<SqlValue>,
    with_deletion: bool,
    read_channels: ReadChannels,
    read_frequency: ReadFrequency,
    reminder: ReminderPreferences<C, F>,
) -> bool {
    &&& reminder_fits(values_view(row), with_deletion, reminder)
    &&& call_ensures(read_frequency, (&row[3]->Text_0,), reminder.frequency)
    &&& exists|read: Option<Vec<C>>| #[trigger]
        call_ensures(read_channels, (&row[1]->Text_0,), read) && channels_or_none(
            read,
            reminder.channels,
        )
}

/// The reminder in a row, given what was made out of its channels and its frequency.
pub fn reminder_from<C, F>(
    row: &Vec<SqlValue>,
    with_deletion: bool,
    channels: Option<Vec<C>>,
    frequency: F,
) -> (reminder: Result<ReminderPreferences<C, F>, RowError>)
    requires
        text_column(values_view(row@), 1) is Ok,
        text_column(values_view(row@), 3) is Ok,
    ensures
        match reminder {
            Ok(r) => {
                &&& reminder_fault(with_deletion)(values_view(row@)) is None
                &&& reminder_fits(values_view(row@), with_deletion, r)
                &&& channels_or_none(channels, r.channels)
                &&& r.frequency == frequency
            },
            Err(e) => reminder_fault(with_deletion)(values_view(row@)) == Some(e),
        },
{
    let deleted_at: Option<Timestamp> = if with_deletion {
        match lenient_time_at(row, 4) {
            Ok(t) => t,
            Err(e) => return Err(e),
        }
    } else {
        None
    };
    let vault_id: i64 = match int_at(row, 0) {
        Ok(n) => n,
        Err(e) => return Err(e),
    };
    let hours: i64 = match int_at(row, 2) {
        Ok(n) => n,
        Err(e) => return Err(e),
    };
    let channels: Vec<C> = match channels {
        Some(known) => known,
        None => Vec::new(),
    };
    Ok(
        ReminderPreferences {
            vault_id: vault_id as u64,
            channels,
            hours_before_expiry: hours as u32,
            frequency,
            deleted_at,
        },
    )
}

/// Reads the reminder in a row.
pub fn read_reminder<
    C,
    F,
    ReadChannels: Fn(&String) -> Option<Vec<C>>,
    ReadFrequency: Fn(&String) -> F,
>(
    row: &Vec<SqlValue>,
    with_deletion: bool,
    read_channels: &ReadChannels,
    read_frequency: &ReadFrequency,
) -> (reminder: Result<ReminderPreferences<C, F>, RowError>)
    requires
        forall|text: &String| call_requires(*read_channels, (text,)),
        forall|text: &String| call_requires(*read_frequency, (text,)),
    ensures
        match reminder {
            Ok(r) => reminder_fault(with_deletion)(values_view(row@)) is None && reads_reminder(
                row@,
                with_deletion,
                *read_channels,
                *read_frequency,
                r,
            ),
            Err(e) => reminder_fault(with_deletion)(values_view(row@)) == Some(e),
        },
{
    let channels_text: String = match text_at(row, 1) {
        Ok(text) => text,
        Err(e) => return Err(e),
    };
    let frequency_text: String = match text_at(row, 3) {
        Ok(text) => text,
        Err(e) => return Err(e),
    };
    assert(channels_text == row@[1]->Text_0);
    assert(frequency_text == row@[3]->Text_0);
    let channels: Option<Vec<C>> = read_channels(&channels_text);
    let frequency: F = read_frequency(&frequency_text);
    reminder_from(row, with_deletion, channels, frequency)
}

/// Reads the reminders in all rows of an answer.
pub fn read_reminders<
    C,
    F,
    ReadChannels: Fn(&String) -> Option<Vec<C>>,
    ReadFrequency: Fn(&String) -> F,
>(
    answer: FetchAll,
    with_deletion: bool,
    read_channels: &ReadChannels,
    read_frequency: &ReadFrequency,
) -> (reminders: Result<Vec<ReminderPreferences<C, F>>, DbError>)
    requires
        forall|text: &String| call_requires(*read_channels, (text,)),
        forall|text: &String| call_requires(*read_frequency, (text,)),
    ensures
        reminders_read(answer, with_deletion, *read_channels, *read_frequency, reminders),
{
    let ghost rows = rows_view(answer.rows@);
    let ghost fault = reminder_fault(with_deletion);
    let mut out: Vec<ReminderPreferences<C, F>> = Vec::new();
    let mut i: usize = 0;
    while i < answer.rows.len()
        invariant
            i <= answer.rows@.len(),
            rows == rows_view(answer.rows@),
            fault == reminder_fault(with_deletion),
            out@.len() == i,
            forall|text: &String| call_requires(*read_channels, (text,)),
            forall|text: &String| call_requires(*read_frequency, (text,)),
            forall|j: int|
                0 <= j < i ==> reads_reminder(
                    answer.rows@[j]@,
                    with_deletion,
                    *read_channels,
                    *read_frequency,
                    #[trigger] out@[j],
                ),
            no_fault(rows.take(i as int), fault),
        decreases answer.rows@.len() - i,
    {
        assert(rows[i as int] == values_view(answer.rows@[i as int]@));
        match read_reminder(&answer.rows[i], with_deletion, read_channels, read_frequency) {
            Ok(reminder) => {
                out.push(reminder);
            },
            Err(e) => {
                return Err(DbError::Row(e));
            },
        }
        proof {
            assert forall|k: int| 0 <= k < rows.take(i + 1).len() implies fault(
                #[trigger] rows.take(i + 1)[k],
            ) is None by {
                if k < i {
                    assert(rows.take(i as int)[k] == rows.take(i + 1)[k]);
                }
            }
        }
        i = i + 1;
    }
    assert(rows.take(answer.rows@.len() as int) =~= rows);
    match answer.failed {
        Some(words) => Err(DbError::Driver(words)),
        None => Ok(out),
    }
}

/// Whether `reminders` is what an answer with many rows is read as: one reminder for each row, or
/// the error in the first row that has one, or else the error that the database stopped with.
pub open spec fn reminders_read<
    C,
    F,
    ReadChannels: Fn(&String) -> Option<Vec<C>>,
    ReadFrequency: Fn(&String) -> F,
>(
    answer: FetchAll,
    with_deletion: bool,
    read_channels: ReadChannels,
    read_frequency: ReadFrequency,
    reminders: Result<Vec<ReminderPreferences<C, F>>, DbError>,
) -> bool {
    let fault = reminder_fault(with_deletion);
    match reminders {
        Err(DbError::Row(e)) => is_first_fault(rows_view(answer.rows@), fault, e),
        Err(DbError::Driver(words)) => no_fault(rows_view(answer.rows@), fault) && answer.failed
            == Some(words),
        Err(DbError::QueryReturnedNoRows) => false,
        Ok(out) => {
            &&& answer.failed is None
            &&& no_fault(rows_view(answer.rows@), fault)
            &&& out@.len() == answer.rows@.len()
            &&& forall|i: int|
                0 <= i < out@.len() ==> reads_reminder(
                    answer.rows@[i]@,
                    with_deletion,
                    read_channels,
                    read_frequency,
                    #[trigger] out@[i],
                )
        },
    }
}

/// Whether a statement stores a reminder: it writes the reminder's columns, and from a row with
/// these and no time of deletion the reminder is read back.
pub open spec fn stores_reminder<C, F>(
    statement: Statement,
    prefs: ReminderPreferences<C, F>,
    channels_json: Seq<char>,
    frequency_json: Seq<char>,
) -> bool {
    let row = statement@.params.push(SqlView::Null);
    &&& statement@ == (StatementView {
        sql: UPSERT_REMINDER_SQL@,
        params: reminder_columns(
            prefs.vault_id,
            channels_json,
            prefs.hours_before_expiry,
            frequency_json,
        ),
    })
    &&& reminder_fault(true)(row) is None
    &&& text_column(row, 1) == Ok::<_, RowError>(channels_json)
    &&& text_column(row, 3) == Ok::<_, RowError>(frequency_json)
    &&& reminder_fits(row, true, ReminderPreferences { deleted_at: None::<Timestamp>, ..prefs })
}

/// Whether a statement marks the reminder of a vault as deleted at a time, which is read back if
/// its year has four digits.
pub open spec fn marks_deleted(statement: Statement, vault_id: u64, now: Timestamp) -> bool {
    &&& statement@ == (StatementView {
        sql: DELETE_REMINDER_SQL@,
        params: seq![time_value(now), SqlView::Integer(vault_id as i64)],
    })
    &&& four_digit_year(now.secs()) ==> parsed_timestamp(now.rfc3339()) == Some(now)
}

/// Whether `reminder` is what an answer with one row is read as.
pub open spec fn reminder_got<
    C,
    F,
    ReadChannels: Fn(&String) -> Option<Vec<C>>,
    ReadFrequency: Fn(&String) -> F,
>(
    answer: Fetch,
    read_channels: ReadChannels,
    read_frequency: ReadFrequency,
    reminder: Result<ReminderPreferences<C, F>, DbError>,
) -> bool {
    match (answer, reminder) {
        (Fetch::Row(row), Ok(r)) => reminder_fault(false)(values_view(row@)) is None
            && reads_reminder(row@, false, read_channels, read_frequency, r),
        (Fetch::Row(row), Err(DbError::Row(e))) => reminder_fault(false)(values_view(row@)) == Some(
            e,
        ),
        (Fetch::NoRows, Err(DbError::QueryReturnedNoRows)) => true,
        (Fetch::Failed(words), Err(DbError::Driver(reported))) => reported == words,
        _ => false,
    }
}

impl Db {
    /// The statement that stores a reminder, in place of an earlier one of the same vault, which
    /// is then no longer deleted. The channels and the frequency are given as JSON texts. The
    /// numbers are read back from the row as they were.
    pub fn upsert<C, F>(
        &self,
        prefs: &ReminderPreferences<C, F>,
        channels_json: &str,
        frequency_json: &str,
    ) -> (statement: Statement)
        ensures
            stores_reminder(statement, *prefs, channels_json@, frequency_json@),
    {
        let mut params: Vec<SqlValue> = Vec::new();
        params.push(SqlValue::Integer(prefs.vault_id as i64));
        params.push(text_param(channels_json));
        params.push(SqlValue::Integer(prefs.hours_before_expiry as i64));
        params.push(text_param(frequency_json));
        assert(values_view(params@) =~= reminder_columns(
            prefs.vault_id,
            channels_json@,
            prefs.hours_before_expiry,
            frequency_json@,
        ));
        proof {
            lemma_signed_bits(prefs.vault_id);
        }
        Statement { sql: UPSERT_REMINDER_SQL.to_owned(), params }
    }

    /// The query for the reminder of a vault, unless it is deleted.
    pub fn get_query(&self, vault_id: u64) -> (statement: Statement)
        ensures
            statement@ == (StatementView {
                sql: SELECT_REMINDER_SQL@,
                params: seq![SqlView::Integer(vault_id as i64)],
            }),
    {
        let mut params: Vec<SqlValue> = Vec::new();
        params.push(SqlValue::Integer(vault_id as i64));
        assert(values_view(params@) =~= seq![SqlView::Integer(vault_id as i64)]);
        Statement { sql: SELECT_REMINDER_SQL.to_owned(), params }
    }

    /// The reminder of a vault, as the answer to the query says. Channels that cannot be read
    /// count as none.
    pub fn get<
        C,
        F,
        ReadChannels: Fn(&String) -> Option<Vec<C>>,
        ReadFrequency: Fn(&String) -> F,
    >(
        &self,
        answer: Fetch,
        read_channels: &ReadChannels,
        read_frequency: &ReadFrequency,
    ) -> (reminder: Result<ReminderPreferences<C, F>, DbError>)
        requires
            forall|text: &String| call_requires(*read_channels, (text,)),
            forall|text: &String| call_requires(*read_frequency, (text,)),
        ensures
            reminder_got(answer, *read_channels, *read_frequency, reminder),
    {
        match answer {
            Fetch::Row(row) => match read_reminder(&row, false, read_channels, read_frequency) {
                Ok(reminder) => Ok(reminder),
                Err(e) => Err(DbError::Row(e)),
            },
            Fetch::NoRows => Err(DbError::QueryReturnedNoRows),
            Fetch::Failed(words) => Err(DbError::Driver(words)),
        }
    }

    /// The query for all reminders that are not deleted.
    pub fn all_query(&self) -> (statement: Statement)
        ensures
            statement@ == (StatementView { sql: SELECT_REMINDERS_SQL@, params: Seq::empty() }),
    {
        let params: Vec<SqlValue> = Vec::new();
        assert(values_view(params@) =~= Seq::empty());
        Statement { sql: SELECT_REMINDERS_SQL.to_owned(), params }
    }

    /// All reminders that are not deleted, as the answer to the query says.
    pub fn all<C, F, ReadChannels: Fn(&String) -> Option<Vec<C>>, ReadFrequency: Fn(&String) -> F>(
        &self,
        answer: FetchAll,
        read_channels: &ReadChannels,
        read_frequency: &ReadFrequency,
    ) -> (reminders: Result<Vec<ReminderPreferences<C, F>>, DbError>)
        requires
            forall|text: &String| call_requires(*read_channels, (text,)),
            forall|text: &String| call_requires(*read_frequency, (text,)),
        ensures
            reminders_read(answer, false, *read_channels, *read_frequency, reminders),
    {
        read_reminders(answer, false, read_channels, read_frequency)
    }

    /// The statement that marks the reminder of a vault as deleted at a given time.
    pub fn soft_delete_reminder_at(&self, vault_id: u64, now: &Timestamp) -> (statement: Statement)
        ensures
            marks_deleted(statement, vault_id, *now),
    {
        let mut params: Vec<SqlValue> = Vec::new();
        params.push(time_param(now));
        params.push(SqlValue::Integer(vault_id as i64));
        assert(values_view(params@) =~= seq![
            time_value(*now),
            SqlView::Integer(vault_id as i64),
        ]);
        Statement { sql: DELETE_REMINDER_SQL.to_owned(), params }
    }

    /// The statement that marks the reminder of a vault as deleted at the time that the
    /// clock tells.
    pub fn soft_delete_reminder(&self, vault_id: u64) -> (statement: Statement)
        ensures
            exists|now: Timestamp|
                now.told_by_clock() && #[trigger] marks_deleted(statement, vault_id, now),
    {
        let now: Timestamp = Timestamp::now();
        self.soft_delete_reminder_at(vault_id, &now)
    }

    /// The query for the reminder of a vault, deleted or not.
    pub fn all_reminders_including_deleted_query(&self, vault_id: u64) -> (statement: Statement)
        ensures
            statement@ == (StatementView {
                sql: SELECT_REMINDERS_WITH_DELETED_SQL@,
                params: seq![SqlView::Integer(vault_id as i64)],
            }),
    {
        let mut params: Vec<SqlValue> = Vec::new();
        params.push(SqlValue::Integer(vault_id as i64));
        assert(values_view(params@) =~= seq![SqlView::Integer(vault_id as i64)]);
        Statement { sql: SELECT_REMINDERS_WITH_DELETED_SQL.to_owned(), params }
    }

    /// The reminders of a vault, deleted or not, as the answer to the query says. A time of
    /// deletion that cannot be read counts as none.
    pub fn all_reminders_including_deleted<
        C,
        F,
        ReadChannels: Fn(&String) -> Option<Vec<C>>,
        ReadFrequency: Fn(&String) -> F,
    >(
        &self,
        answer: FetchAll,
        read_channels: &ReadChannels,
        read_frequency: &ReadFrequency,
    ) -> (reminders: Result<Vec<ReminderPreferences<C, F>>, DbError>)
        requires
            forall|text: &String| call_requires(*read_channels, (text,)),
            forall|text: &String| call_requires(*read_frequency, (text,)),
        ensures
            reminders_read(answer, true, *read_channels, *read_frequency, reminders),
    {
        read_reminders(answer, true, read_channels, read_frequency)
    }
}

// ---- subscriptions ----

/// The columns of a subscription, in the order in which they are written and read.
pub open spec fn subscription_columns(
    vault_id: u64,
    owner: Seq<char>,
    channels: Seq<char>,
    frequency: Seq<char>,
) -> Seq<SqlView> {
    seq![
        SqlView::Integer(vault_id as i64),
        SqlView::Text(owner),
        SqlView::Text(channels),
        SqlView::Text(frequency),
    ]
}

/// What is wrong with a row that should hold a subscription: the JSON texts are looked at first,
/// then the vault and the owner.
pub open spec fn subscription_fault(row: Seq<SqlView>) -> Option<RowError> {
    if text_column(row, 2) is Err {
        Some(text_column(row, 2)->Err_0)
    } else if text_column(row, 3) is Err {
        Some(text_column(row, 3)->Err_0)
    } else if int_column(row, 0) is Err {
        Some(int_column(row, 0)->Err_0)
    } else if text_column(row, 1) is Err {
        Some(text_column(row, 1)->Err_0)
    } else {
        None
    }
}

/// Whether a subscription is what a row without faults holds, apart from its channels and
/// frequency.
pub open spec fn subscription_fits<C, F>(row: Seq<SqlView>, sub: Subscription<C, F>) -> bool {
    &&& int_column(row, 0) matches Ok(vault_id) && sub.vault_id == vault_id as u64
    &&& text_column(row, 1) == Ok::<_, RowError>(sub.owner@)
}

/// Whether a subscription is what a row without faults holds, its channels and frequency as the
/// readers make them out from the texts in the row.
pub open spec fn reads_subscription<
    C,
    F,
    ReadChannels: Fn(&String) -> Option<Vec<C>>,
    ReadFrequency: Fn(&String) -> F,
>(
    row: Seq<SqlValue>,
    read_channels: ReadChannels,
    read_frequency: ReadFrequency,
    sub: Subscription<C, F>,
) -> bool {
    &&& subscription_fits(values_view(row), sub)
    &&& call_ensures(read_frequency, (&row[3]->Text_0,), sub.frequency)
    &&& exists|read: Option<Vec<C>>| #[trigger]
        call_ensures(read_channels, (&row[2]->Text_0,), read) && channels_or_none(
            read,
            sub.channels,
        )
}

/// The subscription in a row, given what was made out of its channels and its frequency.
pub fn subscription_from<C, F>(
    row: &Vec<SqlValue>,
    channels: Option<Vec<C>>,
    frequency: F,
) -> (sub: Result<Subscription<C, F>, RowError>)
    requires
        text_column(values_view(row@), 2) is Ok,
        text_column(values_view(row@), 3) is Ok,
    ensures
        match sub {
            Ok(s) => {
                &&& subscription_fault(values_view(row@)) is None
                &&& subscription_fits(values_view(row@), s)
                &&& channels_or_none(channels, s.channels)
                &&& s.frequency == frequency
            },
            Err(e) => subscription_fault(values_view(row@)) == Some(e),
        },
{
    let vault_id: i64 = match int_at(row, 0) {
        Ok(n) => n,
        Err(e) => return Err(e),
    };
    let owner: String = match text_at(row, 1) {
        Ok(text) => text,
        Err(e) => return Err(e),
    };
    let channels: Vec<C> = match channels {
        Some(known) => known,
        None => Vec::new(),
    };
    Ok(Subscription { vault_id: vault_id as u64, owner, channels, frequency })
}

/// Whether a statement stores a subscription: it writes the columns, and from a row with these
/// the subscription is read back.
pub open spec fn stores_subscription<C, F>(
    statement: Statement,
    sub: Subscription<C, F>,
    channels_json: Seq<char>,
    frequency_json: Seq<char>,
) -> bool {
    &&& statement@ == (StatementView {
        sql: UPSERT_SUBSCRIPTION_SQL@,
        params: subscription_columns(sub.vault_id, sub.owner@, channels_json, frequency_json),
    })
    &&& subscription_fault(statement@.params) is None
    &&& text_column(statement@.params, 2) == Ok::<_, RowError>(channels_json)
    &&& text_column(statement@.params, 3) == Ok::<_, RowError>(frequency_json)
    &&& subscription_fits(statement@.params, sub)
}

/// Whether a statement removes the subscription to a vault.
pub open spec fn removes_subscription(statement: Statement, vault_id: u64) -> bool {
    statement@ == (StatementView {
        sql: DELETE_SUBSCRIPTION_SQL@,
        params: seq![SqlView::Integer(vault_id as i64)],
    })
}

/// Whether `sub` is what an answer with one row is read as.
pub open spec fn subscription_got<
    C,
    F,
    ReadChannels: Fn(&String) -> Option<Vec<C>>,
    ReadFrequency: Fn(&String) -> F,
>(
    answer: Fetch,
    read_channels: ReadChannels,
    read_frequency: ReadFrequency,
    sub: Result<Option<Subscription<C, F>>, DbError>,
) -> bool {
    match (answer, sub) {
        (Fetch::Row(row), Ok(Some(s))) => subscription_fault(values_view(row@)) is None
            && reads_subscription(row@, read_channels, read_frequency, s),
        (Fetch::Row(row), Err(DbError::Row(e))) => subscription_fault(values_view(row@)) == Some(e),
        (Fetch::NoRows, Ok(None)) => true,
        (Fetch::Failed(words), Err(DbError::Driver(reported))) => reported == words,
        _ => false,
    }
}

impl Db {
    /// The statement that stores a subscription, in place of an earlier one to the same vault.
    /// The channels and the frequency are given as JSON texts. The vault and the owner are read
    /// back from the row as they were.
    pub fn upsert_subscription<C, F>(
        &self,
        sub: &Subscription<C, F>,
        channels_json: &str,
        frequency_json: &str,
    ) -> (statement: Statement)
        ensures
            stores_subscription(statement, *sub, channels_json@, frequency_json@),
    {
        let mut params: Vec<SqlValue> = Vec::new();
        params.push(SqlValue::Integer(sub.vault_id as i64));
        params.push(text_param(sub.owner.as_str()));
        params.push(text_param(channels_json));
        params.push(text_param(frequency_json));
        assert(values_view(params@) =~= subscription_columns(
            sub.vault_id,
            sub.owner@,
            channels_json@,
            frequency_json@,
        ));
        proof {
            lemma_signed_bits(sub.vault_id);
        }
        Statement { sql: UPSERT_SUBSCRIPTION_SQL.to_owned(), params }
    }

    /// The statement that removes the subscription to a vault.
    pub fn delete_subscription(&self, vault_id: u64) -> (statement: Statement)
        ensures
            removes_subscription(statement, vault_id),
    {
        let mut params: Vec<SqlValue> = Vec::new();
        params.push(SqlValue::Integer(vault_id as i64));
        assert(values_view(params@) =~= seq![SqlView::Integer(vault_id as i64)]);
        Statement { sql: DELETE_SUBSCRIPTION_SQL.to_owned(), params }
    }

    /// The query for the subscription to a vault.
    pub fn get_subscription_query(&self, vault_id: u64) -> (statement: Statement)
        ensures
            statement@ == (StatementView {
                sql: SELECT_SUBSCRIPTION_SQL@,
                params: seq![SqlView::Integer(vault_id as i64)],
            }),
    {
        let mut params: Vec<SqlValue> = Vec::new();
        params.push(SqlValue::Integer(vault_id as i64));
        assert(values_view(params@) =~= seq![SqlView::Integer(vault_id as i64)]);
        Statement { sql: SELECT_SUBSCRIPTION_SQL.to_owned(), params }
    }

    /// The subscription to a vault, as the answer to the query says: none where there is no row.
    /// Channels that cannot be read count as none.
    pub fn get_subscription<
        C,
        F,
        ReadChannels: Fn(&String) -> Option<Vec<C>>,
        ReadFrequency: Fn(&String) -> F,
    >(
        &self,
        answer: Fetch,
        read_channels: &ReadChannels,
        read_frequency: &ReadFrequency,
    ) -> (sub: Result<Option<Subscription<C, F>>, DbError>)
        requires
            forall|text: &String| call_requires(*read_channels, (text,)),
            forall|text: &String| call_requires(*read_frequency, (text,)),
        ensures
            subscription_got(answer, *read_channels, *read_frequency, sub),
    {
        let row: Vec<SqlValue> = match answer {
            Fetch::Row(row) => row,
            Fetch::NoRows => return Ok(None),
            Fetch::Failed(words) => return Err(DbError::Driver(words)),
        };
        let channels_text: String = match text_at(&row, 2) {
            Ok(text) => text,
            Err(e) => return Err(DbError::Row(e)),
        };
        let frequency_text: String = match text_at(&row, 3) {
            Ok(text) => text,
            Err(e) => return Err(DbError::Row(e)),
        };
        assert(channels_text == row@[2]->Text_0);
        assert(frequency_text == row@[3]->Text_0);
        let channels: Option<Vec<C>> = read_channels(&channels_text);
        let frequency: F = read_frequency(&frequency_text);
        match subscription_from(&row, channels, frequency) {
            Ok(sub) => Ok(Some(sub)),
            Err(e) => Err(DbError::Row(e)),
        }
    }
}

} // verus!
