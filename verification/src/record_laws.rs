//! How records are read from rows, column by column, and what is wrong with a row that cannot be
//! read.

use crate::audit_log::{audit_fault, audit_in_row, read_audit_entry, AuditLogEntry};
use crate::db::Db;
use crate::idempotency::IdempotencyRecord;
use crate::insurance::{policy_fault, policy_in_row, read_policy, TtlInsurancePolicy};
use crate::json::{json_readable, kept_json, names_vault, string_members};
use crate::reminders::{
    read_reminders, reads_reminder, reminder_fault, reminder_from, subscription_from,
    ReminderPreferences, Subscription,
};
use crate::sql::{
    flag_param, int_at, lenient_time_at, no_fault, opt_text_at, opt_text_param, opt_time_at,
    opt_time_param, rows_view, text_at, text_param, time_at, time_param, values_view, DbError,
    Fetch, FetchAll, RowError, SqlValue, SqlView, Statement,
};
use crate::timestamp::{law_parsed_point_has_the_parts_read, rfc3339_point, rfc3339_text, Timestamp};
use crate::two_factor::{two_factor_from, two_factor_in_row, TwoFactorConfig};
use vstd::prelude::*;

verus! {

// ---- columns ----

/// A column that a row does not have is reported as such, whatever was to be read from it.
pub proof fn law_missing_column_is_reported(
    row: Vec<SqlValue>,
    column: usize,
    number: Result<i64, RowError>,
    text: Result<String, RowError>,
    opt_text: Result<Option<String>, RowError>,
)
    requires
        call_ensures(int_at, (&row, column), number),
        call_ensures(text_at, (&row, column), text),
        call_ensures(opt_text_at, (&row, column), opt_text),
        column >= row@.len(),
    ensures
        number == Err::<i64, RowError>(RowError::InvalidColumnIndex(column)),
        text == Err::<String, RowError>(RowError::InvalidColumnIndex(column)),
        opt_text == Err::<Option<String>, RowError>(RowError::InvalidColumnIndex(column)),
{
}

/// A column is read as what it holds: an integer as an integer, a text as a text, and nothing as no
/// text, where there may be none. A text that is not UTF-8 is reported as one that means nothing,
/// and every other value as one of the wrong kind.
pub proof fn law_column_is_read_as_it_is(
    row: Vec<SqlValue>,
    column: usize,
    number: Result<i64, RowError>,
    text: Result<String, RowError>,
    opt_text: Result<Option<String>, RowError>,
)
    requires
        call_ensures(int_at, (&row, column), number),
        call_ensures(text_at, (&row, column), text),
        call_ensures(opt_text_at, (&row, column), opt_text),
        column < row@.len(),
    ensures
        row@[column as int] matches SqlValue::Integer(n) ==> number == Ok::<i64, RowError>(n) && text
            == Err::<String, RowError>(RowError::InvalidColumnType(column)) && opt_text == Err::<
            Option<String>,
            RowError,
        >(RowError::InvalidColumnType(column)),
        row@[column as int] matches SqlValue::Text(t) ==> number == Err::<i64, RowError>(
            RowError::InvalidColumnType(column),
        ) && text is Ok && text->Ok_0@ == t@ && opt_text is Ok && opt_text->Ok_0 is Some
            && opt_text->Ok_0->Some_0@ == t@,
        row@[column as int] is Null ==> number == Err::<i64, RowError>(
            RowError::InvalidColumnType(column),
        ) && text == Err::<String, RowError>(RowError::InvalidColumnType(column)) && opt_text
            == Ok::<Option<String>, RowError>(None),
        row@[column as int] is Garbled ==> number == Err::<i64, RowError>(
            RowError::InvalidColumnType(column),
        ) && text == Err::<String, RowError>(RowError::FromSqlConversionFailure(column))
            && opt_text == Err::<Option<String>, RowError>(
            RowError::FromSqlConversionFailure(column),
        ),
        row@[column as int] is Other ==> number == Err::<i64, RowError>(
            RowError::InvalidColumnType(column),
        ) && text == Err::<String, RowError>(RowError::InvalidColumnType(column)) && opt_text
            == Err::<Option<String>, RowError>(RowError::InvalidColumnType(column)),
{
    assert(values_view(row@)[column as int] == row@[column as int]@);
}

/// A point in time is read from the text of its column, and a text that is none is reported for the
/// column that is named. Where there may be none, nothing is read as none; and where a text that is
/// no point in time is let pass, it is read as none too.
pub proof fn law_time_is_read_from_its_text(
    row: Vec<SqlValue>,
    column: usize,
    reported: usize,
    text: Result<String, RowError>,
    opt_text: Result<Option<String>, RowError>,
    time: Result<Timestamp, RowError>,
    opt_time: Result<Option<Timestamp>, RowError>,
    lenient: Result<Option<Timestamp>, RowError>,
)
    requires
        call_ensures(text_at, (&row, column), text),
        call_ensures(opt_text_at, (&row, column), opt_text),
        call_ensures(time_at, (&row, column, reported), time),
        call_ensures(opt_time_at, (&row, column, reported), opt_time),
        call_ensures(lenient_time_at, (&row, column), lenient),
    ensures
        text matches Err(e) ==> time == Err::<Timestamp, RowError>(e),
        text matches Ok(t) ==> match rfc3339_point(t@) {
            Some((secs, nanos)) => time is Ok && time->Ok_0.secs() == secs && time->Ok_0.nanos()
                == nanos,
            None => time == Err::<Timestamp, RowError>(
                RowError::FromSqlConversionFailure(reported),
            ),
        },
        opt_text matches Err(e) ==> opt_time == Err::<Option<Timestamp>, RowError>(e) && lenient
            == Err::<Option<Timestamp>, RowError>(e),
        opt_text is Ok && opt_text->Ok_0 is None ==> opt_time == Ok::<Option<Timestamp>, RowError>(
            None,
        ) && lenient == Ok::<Option<Timestamp>, RowError>(None),
        opt_text is Ok && opt_text->Ok_0 is Some ==> match rfc3339_point(
            opt_text->Ok_0->Some_0@,
        ) {
            Some((secs, nanos)) => {
                &&& opt_time is Ok && opt_time->Ok_0 is Some
                &&& opt_time->Ok_0->Some_0.secs() == secs
                &&& opt_time->Ok_0->Some_0.nanos() == nanos
                &&& lenient == opt_time
            },
            None => {
                &&& opt_time == Err::<Option<Timestamp>, RowError>(
                    RowError::FromSqlConversionFailure(reported),
                )
                &&& lenient == Ok::<Option<Timestamp>, RowError>(None)
            },
        },
{
    if let Ok(t) = text {
        law_parsed_point_has_the_parts_read(t@);
    }
    if let Ok(Some(t)) = opt_text {
        law_parsed_point_has_the_parts_read(t@);
    }
}

// ---- records ----

/// A policy is read from six columns: vault, extension, threshold, whether it is enabled, the time
/// of purchase and that of the last extension. The first column that cannot be read is reported;
/// the times are looked at first, then whether it is enabled, and then the numbers.
pub proof fn law_policy_is_read_column_by_column(
    row: Vec<SqlValue>,
    purchased: Result<Timestamp, RowError>,
    extended: Result<Option<Timestamp>, RowError>,
    enabled: Result<i64, RowError>,
    vault: Result<i64, RowError>,
    extension: Result<i64, RowError>,
    threshold: Result<i64, RowError>,
    policy: Result<TtlInsurancePolicy, RowError>,
)
    requires
        call_ensures(time_at, (&row, 4usize, 0usize), purchased),
        call_ensures(opt_time_at, (&row, 5usize, 0usize), extended),
        call_ensures(int_at, (&row, 3usize), enabled),
        call_ensures(int_at, (&row, 0usize), vault),
        call_ensures(int_at, (&row, 1usize), extension),
        call_ensures(int_at, (&row, 2usize), threshold),
        call_ensures(read_policy, (&row,), policy),
    ensures
        if purchased is Err {
            policy == Err::<TtlInsurancePolicy, RowError>(purchased->Err_0)
        } else if extended is Err {
            policy == Err::<TtlInsurancePolicy, RowError>(extended->Err_0)
        } else if enabled is Err {
            policy == Err::<TtlInsurancePolicy, RowError>(enabled->Err_0)
        } else if vault is Err {
            policy == Err::<TtlInsurancePolicy, RowError>(vault->Err_0)
        } else if extension is Err {
            policy == Err::<TtlInsurancePolicy, RowError>(extension->Err_0)
        } else if threshold is Err {
            policy == Err::<TtlInsurancePolicy, RowError>(threshold->Err_0)
        } else {
            policy == Ok::<TtlInsurancePolicy, RowError>(
                TtlInsurancePolicy {
                    vault_id: vault->Ok_0 as u64,
                    extension_seconds: extension->Ok_0 as u64,
                    inactivity_threshold_seconds: threshold->Ok_0 as u64,
                    enabled: enabled->Ok_0 != 0,
                    purchased_at: purchased->Ok_0,
                    last_extended_at: extended->Ok_0,
                },
            )
        },
{
}

/// What an answer with one row comes to: the policy or the time in it, what is wrong with the row,
/// none where there is no row, or the error that the database reported.
pub proof fn law_answers_with_one_row(
    db: Db,
    answer: Fetch,
    policy: Result<Option<TtlInsurancePolicy>, DbError>,
    active: Result<Option<Timestamp>, DbError>,
    read: Result<TtlInsurancePolicy, RowError>,
    time: Result<Timestamp, RowError>,
)
    requires
        call_ensures(Db::get_insurance_policy, (&db, answer), policy),
        call_ensures(Db::get_owner_last_active_at, (&db, answer), active),
        answer matches Fetch::Row(row) ==> call_ensures(read_policy, (&row,), read)
            && call_ensures(time_at, (&row, 0usize, 0usize), time),
    ensures
        answer is Row ==> policy == (match read {
            Ok(p) => Ok::<Option<TtlInsurancePolicy>, DbError>(Some(p)),
            Err(e) => Err(DbError::Row(e)),
        }) && active == (match time {
            Ok(t) => Ok::<Option<Timestamp>, DbError>(Some(t)),
            Err(e) => Err(DbError::Row(e)),
        }),
        answer is NoRows ==> policy == Ok::<Option<TtlInsurancePolicy>, DbError>(None) && active
            == Ok::<Option<Timestamp>, DbError>(None),
        answer matches Fetch::Failed(words) ==> policy == Err::<
            Option<TtlInsurancePolicy>,
            DbError,
        >(DbError::Driver(words)) && active == Err::<Option<Timestamp>, DbError>(
            DbError::Driver(words),
        ),
{
}

/// Many policies are read row by row, in order. The first row that cannot be read is reported, and
/// else the error that the database stopped with.
pub proof fn law_policies_are_read_row_by_row(
    db: Db,
    answer: FetchAll,
    policies: Result<Vec<TtlInsurancePolicy>, DbError>,
    i: int,
    read: Result<TtlInsurancePolicy, RowError>,
)
    requires
        call_ensures(Db::all_enabled_insurance_policies, (&db, answer), policies),
        0 <= i < answer.rows@.len(),
        call_ensures(read_policy, (&answer.rows@[i],), read),
    ensures
        policies is Ok ==> policies->Ok_0@.len() == answer.rows@.len() && read == Ok::<
            TtlInsurancePolicy,
            RowError,
        >(policies->Ok_0@[i]) && answer.failed is None,
        read is Err ==> policies is Err && policies->Err_0 is Row,
        read is Err && (forall|k: int|
            0 <= k < i ==> policy_in_row(values_view((#[trigger] answer.rows@[k])@)) is Ok)
            ==> policies == Err::<Vec<TtlInsurancePolicy>, DbError>(DbError::Row(read->Err_0)),
        policies matches Err(DbError::Driver(words)) ==> answer.failed == Some(words) && read is Ok,
{
    let rows = rows_view(answer.rows@);
    assert forall|k: int| 0 <= k < rows.len() implies #[trigger] rows[k] == values_view(
        answer.rows@[k]@,
    ) by {}
    assert(policy_fault()(rows[i]) is Some <==> read is Err);
    if let Ok(out) = policies {
        assert(policy_in_row(rows[i]) == Ok::<_, RowError>(out@[i]));
    }
    if read is Err {
        if let Err(DbError::Row(e)) = policies {
            let k = choose|k: int|
                0 <= k < rows.len() && policy_fault()(#[trigger] rows[k]) == Some(e) && no_fault(
                    rows.take(k),
                    policy_fault(),
                );
            if i < k {
                assert(rows.take(k)[i] == rows[i]);
            }
            assert(rows[k] == values_view(answer.rows@[k]@));
        }
    }
}

/// A reminder is read from its row: the vault, the hours and, where it is asked for, the time of
/// deletion come from their columns, and the channels and the frequency are those made out. The
/// time of deletion is looked at first, then the vault and the hours.
pub proof fn law_reminder_is_read_column_by_column<C, F>(
    row: Vec<SqlValue>,
    with_deletion: bool,
    channels: Option<Vec<C>>,
    frequency: F,
    deleted: Result<Option<Timestamp>, RowError>,
    vault: Result<i64, RowError>,
    hours: Result<i64, RowError>,
    reminder: Result<ReminderPreferences<C, F>, RowError>,
)
    requires
        row@.len() > 3,
        row@[1] is Text,
        row@[3] is Text,
        call_ensures(lenient_time_at, (&row, 4usize), deleted),
        call_ensures(int_at, (&row, 0usize), vault),
        call_ensures(int_at, (&row, 2usize), hours),
        call_ensures(
            reminder_from::<C, F>,
            (&row, with_deletion, channels, frequency),
            reminder,
        ),
    ensures
        if with_deletion && deleted is Err {
            reminder == Err::<ReminderPreferences<C, F>, RowError>(deleted->Err_0)
        } else if vault is Err {
            reminder == Err::<ReminderPreferences<C, F>, RowError>(vault->Err_0)
        } else if hours is Err {
            reminder == Err::<ReminderPreferences<C, F>, RowError>(hours->Err_0)
        } else {
            &&& reminder is Ok
            &&& reminder->Ok_0.vault_id == vault->Ok_0 as u64
            &&& reminder->Ok_0.hours_before_expiry == hours->Ok_0 as u32
            &&& reminder->Ok_0.frequency == frequency
            &&& reminder->Ok_0.deleted_at == if with_deletion {
                deleted->Ok_0
            } else {
                None
            }
            &&& channels is Some ==> reminder->Ok_0.channels == channels->Some_0
            &&& channels is None ==> reminder->Ok_0.channels@.len() == 0
        },
{
    assert(values_view(row@)[1] == row@[1]@);
    assert(values_view(row@)[3] == row@[3]@);
}

/// A subscription is read from its row: the vault and the owner come from their columns, and the
/// channels and the frequency are those made out. The vault is looked at before the owner.
pub proof fn law_subscription_is_read_column_by_column<C, F>(
    row: Vec<SqlValue>,
    channels: Option<Vec<C>>,
    frequency: F,
    vault: Result<i64, RowError>,
    owner: Result<String, RowError>,
    sub: Result<Subscription<C, F>, RowError>,
)
    requires
        row@.len() > 3,
        row@[2] is Text,
        row@[3] is Text,
        call_ensures(int_at, (&row, 0usize), vault),
        call_ensures(text_at, (&row, 1usize), owner),
        call_ensures(subscription_from::<C, F>, (&row, channels, frequency), sub),
    ensures
        if vault is Err {
            sub == Err::<Subscription<C, F>, RowError>(vault->Err_0)
        } else if owner is Err {
            sub == Err::<Subscription<C, F>, RowError>(owner->Err_0)
        } else {
            &&& sub is Ok
            &&& sub->Ok_0.vault_id == vault->Ok_0 as u64
            &&& sub->Ok_0.owner@ == owner->Ok_0@
            &&& sub->Ok_0.frequency == frequency
            &&& channels is Some ==> sub->Ok_0.channels == channels->Some_0
            &&& channels is None ==> sub->Ok_0.channels@.len() == 0
        },
{
    assert(values_view(row@)[2] == row@[2]@);
    assert(values_view(row@)[3] == row@[3]@);
}

/// A second factor is read from eight columns: the vault, the method, whether it is enabled, the
/// secret, the phone, the email, the time it was made and the time it was verified. The first
/// thing that cannot be read is reported: a method that was not made out, then whether it is
/// enabled, the times, and the texts.
pub proof fn law_second_factor_is_read_column_by_column<M>(
    row: Vec<SqlValue>,
    method: Option<M>,
    enabled: Result<i64, RowError>,
    created: Result<Timestamp, RowError>,
    verified: Result<Option<Timestamp>, RowError>,
    vault: Result<String, RowError>,
    secret: Result<Option<String>, RowError>,
    phone: Result<Option<String>, RowError>,
    email: Result<Option<String>, RowError>,
    config: Result<TwoFactorConfig<M>, RowError>,
)
    requires
        call_ensures(int_at, (&row, 2usize), enabled),
        call_ensures(time_at, (&row, 6usize, 6usize), created),
        call_ensures(lenient_time_at, (&row, 7usize), verified),
        call_ensures(text_at, (&row, 0usize), vault),
        call_ensures(opt_text_at, (&row, 3usize), secret),
        call_ensures(opt_text_at, (&row, 4usize), phone),
        call_ensures(opt_text_at, (&row, 5usize), email),
        call_ensures(two_factor_from::<M>, (&row, method), config),
    ensures
        if method is None {
            config == Err::<TwoFactorConfig<M>, RowError>(RowError::FromSqlConversionFailure(1))
        } else if enabled is Err {
            config == Err::<TwoFactorConfig<M>, RowError>(enabled->Err_0)
        } else if created is Err {
            config == Err::<TwoFactorConfig<M>, RowError>(created->Err_0)
        } else if verified is Err {
            config == Err::<TwoFactorConfig<M>, RowError>(verified->Err_0)
        } else if vault is Err {
            config == Err::<TwoFactorConfig<M>, RowError>(vault->Err_0)
        } else if secret is Err {
            config == Err::<TwoFactorConfig<M>, RowError>(secret->Err_0)
        } else if phone is Err {
            config == Err::<TwoFactorConfig<M>, RowError>(phone->Err_0)
        } else if email is Err {
            config == Err::<TwoFactorConfig<M>, RowError>(email->Err_0)
        } else {
            &&& config is Ok
            &&& config->Ok_0.vault_id@ == vault->Ok_0@
            &&& config->Ok_0.method == method->Some_0
            &&& config->Ok_0.enabled == (enabled->Ok_0 != 0)
            &&& same_opt(config->Ok_0.secret, secret->Ok_0)
            &&& same_opt(config->Ok_0.phone, phone->Ok_0)
            &&& same_opt(config->Ok_0.email, email->Ok_0)
            &&& config->Ok_0.created_at == created->Ok_0
            &&& config->Ok_0.verified_at == verified->Ok_0
        },
{
}

/// Whether two optional texts are both absent, or there and of the same characters.
pub open spec fn same_opt(a: Option<String>, b: Option<String>) -> bool {
    match (a, b) {
        (Some(x), Some(y)) => x@ == y@,
        (None, None) => true,
        _ => false,
    }
}

/// An audit entry is read from eight columns: its number, the time, the user, the action, the
/// resource, the result, the address and the details. Details that are no JSON are dropped. The
/// first column that cannot be read is reported; the time is looked at first, then the details,
/// the number and the other texts.
pub proof fn law_audit_entry_is_read_column_by_column(
    row: Vec<SqlValue>,
    time: Result<Timestamp, RowError>,
    details: Result<Option<String>, RowError>,
    id: Result<i64, RowError>,
    user: Result<String, RowError>,
    action: Result<String, RowError>,
    resource: Result<String, RowError>,
    result: Result<String, RowError>,
    address: Result<String, RowError>,
    entry: Result<AuditLogEntry, RowError>,
)
    requires
        call_ensures(time_at, (&row, 1usize, 1usize), time),
        call_ensures(opt_text_at, (&row, 7usize), details),
        call_ensures(int_at, (&row, 0usize), id),
        call_ensures(text_at, (&row, 2usize), user),
        call_ensures(text_at, (&row, 3usize), action),
        call_ensures(text_at, (&row, 4usize), resource),
        call_ensures(text_at, (&row, 5usize), result),
        call_ensures(text_at, (&row, 6usize), address),
        call_ensures(read_audit_entry, (&row,), entry),
    ensures
        if time is Err {
            entry == Err::<AuditLogEntry, RowError>(time->Err_0)
        } else if details is Err {
            entry == Err::<AuditLogEntry, RowError>(details->Err_0)
        } else if id is Err {
            entry == Err::<AuditLogEntry, RowError>(id->Err_0)
        } else if user is Err {
            entry == Err::<AuditLogEntry, RowError>(user->Err_0)
        } else if action is Err {
            entry == Err::<AuditLogEntry, RowError>(action->Err_0)
        } else if resource is Err {
            entry == Err::<AuditLogEntry, RowError>(resource->Err_0)
        } else if result is Err {
            entry == Err::<AuditLogEntry, RowError>(result->Err_0)
        } else if address is Err {
            entry == Err::<AuditLogEntry, RowError>(address->Err_0)
        } else {
            &&& entry is Ok
            &&& entry->Ok_0.id == id->Ok_0
            &&& entry->Ok_0.timestamp == time->Ok_0
            &&& entry->Ok_0.user_id@ == user->Ok_0@
            &&& entry->Ok_0.action@ == action->Ok_0@
            &&& entry->Ok_0.resource@ == resource->Ok_0@
            &&& entry->Ok_0.result@ == result->Ok_0@
            &&& entry->Ok_0.ip_address@ == address->Ok_0@
            &&& details->Ok_0 is Some && json_readable(details->Ok_0->Some_0@)
                ==> entry->Ok_0.details is Some && entry->Ok_0.details->Some_0@
                == details->Ok_0->Some_0@
            &&& !(details->Ok_0 is Some && json_readable(details->Ok_0->Some_0@))
                ==> entry->Ok_0.details is None
        },
{
}

/// Many audit entries are read row by row, in order. The first row that cannot be read is reported,
/// and else the error that the database stopped with.
pub proof fn law_audit_entries_are_read_row_by_row(
    db: Db,
    answer: FetchAll,
    entries: Result<Vec<AuditLogEntry>, DbError>,
    i: int,
    read: Result<AuditLogEntry, RowError>,
)
    requires
        call_ensures(Db::query_audit_logs, (&db, answer), entries),
        0 <= i < answer.rows@.len(),
        call_ensures(read_audit_entry, (&answer.rows@[i],), read),
    ensures
        entries is Ok ==> entries->Ok_0@.len() == answer.rows@.len() && read is Ok && read->Ok_0@
            == entries->Ok_0@[i]@ && answer.failed is None,
        read is Err ==> entries is Err && entries->Err_0 is Row,
        read is Err && (forall|k: int|
            0 <= k < i ==> audit_in_row(values_view((#[trigger] answer.rows@[k])@)) is Ok)
            ==> entries == Err::<Vec<AuditLogEntry>, DbError>(DbError::Row(read->Err_0)),
        entries matches Err(DbError::Driver(words)) ==> answer.failed == Some(words) && read is Ok,
{
    let rows = rows_view(answer.rows@);
    assert forall|k: int| 0 <= k < rows.len() implies #[trigger] rows[k] == values_view(
        answer.rows@[k]@,
    ) by {}
    assert(audit_fault()(rows[i]) is Some <==> read is Err);
    if let Ok(out) = entries {
        assert(audit_in_row(rows[i]) == Ok::<_, RowError>(out@[i]@));
    }
    if read is Err {
        if let Err(DbError::Row(e)) = entries {
            let k = choose|k: int|
                0 <= k < rows.len() && audit_fault()(#[trigger] rows[k]) == Some(e) && no_fault(
                    rows.take(k),
                    audit_fault(),
                );
            if i < k {
                assert(rows.take(k)[i] == rows[i]);
            }
            assert(rows[k] == values_view(answer.rows@[k]@));
        }
    }
}

// ---- answers that are given again ----

/// An answer is given again exactly as long as not more than 86400 whole seconds have passed since
/// it was given, as the row tells its key, status, body and time. Leap seconds are left out.
pub proof fn law_answer_is_given_again_for_a_day(
    db: Db,
    row: Vec<SqlValue>,
    now: Timestamp,
    key: Seq<char>,
    status: i64,
    body: Seq<char>,
    time: Seq<char>,
    secs: i64,
    nanos: u32,
    record: Option<IdempotencyRecord>,
)
    requires
        values_view(row@) == seq![
            SqlView::Text(key),
            SqlView::Integer(status),
            SqlView::Text(body),
            SqlView::Text(time),
        ],
        rfc3339_point(time) == Some((secs, nanos)),
        nanos < 1_000_000_000,
        now.nanos() < 1_000_000_000,
        call_ensures(Db::check_idempotency_at, (&db, &Fetch::Row(row), &now), record),
    ensures
        record is Some <==> (now.secs() - secs) * 1_000_000_000 + (now.nanos() - nanos) < 86_401
            * 1_000_000_000,
        record is Some ==> {
            &&& record->Some_0.key@ == key
            &&& record->Some_0.status_code == status as u16
            &&& record->Some_0.response_body@ == body
            &&& record->Some_0.created_at.secs() == secs
            &&& record->Some_0.created_at.nanos() == nanos
        },
{
    law_parsed_point_has_the_parts_read(time);
}

/// Without a row that can be read there is no answer to give again.
pub proof fn law_no_answer_without_a_row(
    db: Db,
    answer: Fetch,
    now: Timestamp,
    record: Option<IdempotencyRecord>,
    time: Result<Timestamp, RowError>,
    key: Result<String, RowError>,
    status: Result<i64, RowError>,
    body: Result<String, RowError>,
)
    requires
        call_ensures(Db::check_idempotency_at, (&db, &answer, &now), record),
        answer matches Fetch::Row(row) ==> {
            &&& call_ensures(time_at, (&row, 3usize, 0usize), time)
            &&& call_ensures(text_at, (&row, 0usize), key)
            &&& call_ensures(int_at, (&row, 1usize), status)
            &&& call_ensures(text_at, (&row, 2usize), body)
        },
    ensures
        !(answer is Row) ==> record is None,
        answer is Row && (time is Err || key is Err || status is Err || body is Err)
            ==> record is None,
{
}

// ---- reminders, subscriptions and second factors ----

/// A vault without a row has no reminder, which is reported as such, and an error of the database
/// is handed on. From a row the vault and the hours are read from their columns, the frequency and
/// the channels are what the readers make out of the texts there, channels that cannot be made out
/// are none, and the reminder is not deleted.
pub proof fn law_reminder_is_got_from_its_row<
    C,
    F,
    ReadChannels: Fn(&String) -> Option<Vec<C>>,
    ReadFrequency: Fn(&String) -> F,
>(
    db: Db,
    answer: Fetch,
    read_channels: ReadChannels,
    read_frequency: ReadFrequency,
    reminder: Result<ReminderPreferences<C, F>, DbError>,
)
    requires
        call_ensures(
            Db::get::<C, F, ReadChannels, ReadFrequency>,
            (&db, answer, &read_channels, &read_frequency),
            reminder,
        ),
    ensures
        answer is NoRows ==> reminder == Err::<ReminderPreferences<C, F>, DbError>(
            DbError::QueryReturnedNoRows,
        ),
        answer matches Fetch::Failed(words) ==> reminder == Err::<
            ReminderPreferences<C, F>,
            DbError,
        >(DbError::Driver(words)),
        answer matches Fetch::Row(row) ==> {
            &&& reminder is Err ==> reminder->Err_0 is Row
            &&& reminder is Ok ==> {
                &&& row@.len() > 3
                &&& row@[0] is Integer && reminder->Ok_0.vault_id == row@[0]->Integer_0 as u64
                &&& row@[2] is Integer && reminder->Ok_0.hours_before_expiry
                    == row@[2]->Integer_0 as u32
                &&& row@[1] is Text && row@[3] is Text
                &&& call_ensures(read_frequency, (&row@[3]->Text_0,), reminder->Ok_0.frequency)
                &&& reminder->Ok_0.channels@.len() == 0 || call_ensures(
                    read_channels,
                    (&row@[1]->Text_0,),
                    Some(reminder->Ok_0.channels),
                )
                &&& reminder->Ok_0.deleted_at is None
            }
            &&& row@.len() > 3 && row@[0] is Integer && row@[1] is Text && row@[2] is Integer
                && row@[3] is Text ==> reminder is Ok
        },
{
    if let Fetch::Row(row) = answer {
        lemma_columns(row@);
    }
}

proof fn lemma_columns(row: Seq<SqlValue>)
    ensures
        values_view(row).len() == row.len(),
        forall|i: int| 0 <= i < row.len() ==> #[trigger] values_view(row)[i] == row[i]@,
{
}

/// Many reminders are read row by row, in order: each from its own row, with the time of deletion
/// only where those that are deleted were asked for too.
pub proof fn law_reminders_are_read_row_by_row<
    C,
    F,
    ReadChannels: Fn(&String) -> Option<Vec<C>>,
    ReadFrequency: Fn(&String) -> F,
>(
    db: Db,
    answer: FetchAll,
    read_channels: ReadChannels,
    read_frequency: ReadFrequency,
    standing: Result<Vec<ReminderPreferences<C, F>>, DbError>,
    all: Result<Vec<ReminderPreferences<C, F>>, DbError>,
    i: int,
    deleted: Result<Option<Timestamp>, RowError>,
)
    requires
        call_ensures(
            Db::all::<C, F, ReadChannels, ReadFrequency>,
            (&db, answer, &read_channels, &read_frequency),
            standing,
        ),
        call_ensures(
            Db::all_reminders_including_deleted::<C, F, ReadChannels, ReadFrequency>,
            (&db, answer, &read_channels, &read_frequency),
            all,
        ),
        0 <= i < answer.rows@.len(),
        call_ensures(lenient_time_at, (&answer.rows@[i], 4usize), deleted),
    ensures
        standing is Ok ==> {
            &&& answer.failed is None
            &&& standing->Ok_0@.len() == answer.rows@.len()
            &&& answer.rows@[i]@.len() > 3
            &&& answer.rows@[i]@[0] is Integer && standing->Ok_0@[i].vault_id
                == answer.rows@[i]@[0]->Integer_0 as u64
            &&& answer.rows@[i]@[2] is Integer && standing->Ok_0@[i].hours_before_expiry
                == answer.rows@[i]@[2]->Integer_0 as u32
            &&& call_ensures(
                read_frequency,
                (&answer.rows@[i]@[3]->Text_0,),
                standing->Ok_0@[i].frequency,
            )
            &&& standing->Ok_0@[i].channels@.len() == 0 || call_ensures(
                read_channels,
                (&answer.rows@[i]@[1]->Text_0,),
                Some(standing->Ok_0@[i].channels),
            )
            &&& standing->Ok_0@[i].deleted_at is None
        },
        all is Ok ==> {
            &&& answer.failed is None
            &&& all->Ok_0@.len() == answer.rows@.len()
            &&& answer.rows@[i]@.len() > 3
            &&& answer.rows@[i]@[0] is Integer && all->Ok_0@[i].vault_id
                == answer.rows@[i]@[0]->Integer_0 as u64
            &&& answer.rows@[i]@[2] is Integer && all->Ok_0@[i].hours_before_expiry
                == answer.rows@[i]@[2]->Integer_0 as u32
            &&& call_ensures(
                read_frequency,
                (&answer.rows@[i]@[3]->Text_0,),
                all->Ok_0@[i].frequency,
            )
            &&& all->Ok_0@[i].channels@.len() == 0 || call_ensures(
                read_channels,
                (&answer.rows@[i]@[1]->Text_0,),
                Some(all->Ok_0@[i].channels),
            )
            &&& deleted == Ok::<Option<Timestamp>, RowError>(all->Ok_0@[i].deleted_at)
        },
        standing matches Err(DbError::Driver(words)) ==> answer.failed == Some(words),
        all matches Err(DbError::Driver(words)) ==> answer.failed == Some(words),
{
    let rows = rows_view(answer.rows@);
    assert(rows[i] == values_view(answer.rows@[i]@));
    lemma_columns(answer.rows@[i]@);
    if let Ok(out) = standing {
        assert(reads_reminder(answer.rows@[i]@, false, read_channels, read_frequency, out@[i]));
        assert(reminder_fault(false)(rows[i]) is None);
    }
    if let Ok(out) = all {
        assert(reads_reminder(answer.rows@[i]@, true, read_channels, read_frequency, out@[i]));
        assert(reminder_fault(true)(rows[i]) is None);
    }
}

/// A vault without a row has no subscription, and an error of the database is handed on. From a row
/// the vault and the owner are read from their columns, and the frequency and the channels are what
/// the readers make out of the texts there.
pub proof fn law_subscription_is_got_from_its_row<
    C,
    F,
    ReadChannels: Fn(&String) -> Option<Vec<C>>,
    ReadFrequency: Fn(&String) -> F,
>(
    db: Db,
    answer: Fetch,
    read_channels: ReadChannels,
    read_frequency: ReadFrequency,
    sub: Result<Option<Subscription<C, F>>, DbError>,
)
    requires
        call_ensures(
            Db::get_subscription::<C, F, ReadChannels, ReadFrequency>,
            (&db, answer, &read_channels, &read_frequency),
            sub,
        ),
    ensures
        answer is NoRows ==> sub == Ok::<Option<Subscription<C, F>>, DbError>(None),
        answer matches Fetch::Failed(words) ==> sub == Err::<Option<Subscription<C, F>>, DbError>(
            DbError::Driver(words),
        ),
        answer matches Fetch::Row(row) ==> {
            &&& sub is Err ==> sub->Err_0 is Row
            &&& sub is Ok ==> {
                &&& sub->Ok_0 is Some
                &&& row@.len() > 3
                &&& row@[0] is Integer && sub->Ok_0->Some_0.vault_id == row@[0]->Integer_0 as u64
                &&& row@[1] is Text && sub->Ok_0->Some_0.owner@ == row@[1]->Text_0@
                &&& row@[2] is Text && row@[3] is Text
                &&& call_ensures(read_frequency, (&row@[3]->Text_0,), sub->Ok_0->Some_0.frequency)
                &&& sub->Ok_0->Some_0.channels@.len() == 0 || call_ensures(
                    read_channels,
                    (&row@[2]->Text_0,),
                    Some(sub->Ok_0->Some_0.channels),
                )
            }
            &&& row@.len() > 3 && row@[0] is Integer && row@[1] is Text && row@[2] is Text
                && row@[3] is Text ==> sub is Ok
        },
{
    if let Fetch::Row(row) = answer {
        lemma_columns(row@);
    }
}

/// A vault without a row has no second factor, and an error of the database is handed on. From a
/// row everything is read from its own column, and the method is what the reader makes out of the
/// text there.
pub proof fn law_second_factor_is_got_from_its_row<M, ReadMethod: Fn(&String) -> Option<M>>(
    db: Db,
    answer: Fetch,
    read_method: ReadMethod,
    config: Result<Option<TwoFactorConfig<M>>, DbError>,
)
    requires
        call_ensures(
            Db::get_2fa_config::<M, ReadMethod>,
            (&db, answer, &read_method),
            config,
        ),
    ensures
        answer is NoRows ==> config == Ok::<Option<TwoFactorConfig<M>>, DbError>(None),
        answer matches Fetch::Failed(words) ==> config == Err::<
            Option<TwoFactorConfig<M>>,
            DbError,
        >(DbError::Driver(words)),
        answer matches Fetch::Row(row) ==> {
            &&& config is Err ==> config->Err_0 is Row
            &&& config is Ok ==> {
                let c = config->Ok_0->Some_0;
                &&& config->Ok_0 is Some
                &&& row@.len() > 7
                &&& row@[0] is Text && c.vault_id@ == row@[0]->Text_0@
                &&& row@[1] is Text && call_ensures(
                    read_method,
                    (&row@[1]->Text_0,),
                    Some(c.method),
                )
                &&& row@[2] is Integer && c.enabled == (row@[2]->Integer_0 != 0)
                &&& holds_opt_text(row@[3], c.secret)
                &&& holds_opt_text(row@[4], c.phone)
                &&& holds_opt_text(row@[5], c.email)
                &&& row@[6] is Text && rfc3339_point(row@[6]->Text_0@) == Some(
                    (c.created_at.secs(), c.created_at.nanos()),
                )
                &&& row@[7] is Null ==> c.verified_at is None
                &&& row@[7] is Text ==> match rfc3339_point(row@[7]->Text_0@) {
                    Some((secs, nanos)) => c.verified_at is Some && c.verified_at->Some_0.secs()
                        == secs && c.verified_at->Some_0.nanos() == nanos,
                    None => c.verified_at is None,
                }
            }
        },
{
    if let Fetch::Row(row) = answer {
        lemma_columns(row@);
        if row@.len() > 7 {
            if row@[6] is Text {
                law_parsed_point_has_the_parts_read(row@[6]->Text_0@);
            }
            if row@[7] is Text {
                law_parsed_point_has_the_parts_read(row@[7]->Text_0@);
            }
        }
    }
}

/// Whether a column holds an optional text: nothing for none, and else the text.
pub open spec fn holds_opt_text(column: SqlValue, text: Option<String>) -> bool {
    match text {
        Some(t) => column is Text && column->Text_0@ == t@,
        None => column is Null,
    }
}

// ---- unsubscribing ----

/// A token leads to the owner in its row, with the statement that takes that owner off the list.
/// Without a row, or with one whose owner cannot be read, the token is invalid.
pub proof fn law_token_is_processed(
    db: Db,
    answer: Fetch,
    step: Result<(String, Statement), String>,
    has: bool,
)
    requires
        call_ensures(Db::process_unsubscribe, (&db, &answer), step),
        call_ensures(Db::is_unsubscribed, (&db, &answer), has),
    ensures
        ({
            let known = answer is Row && answer->Row_0@.len() > 0 && answer->Row_0@[0] is Text;
            &&& known ==> {
                &&& step is Ok
                &&& step->Ok_0.0@ == answer->Row_0@[0]->Text_0@
                &&& step->Ok_0.1@.sql
                    == "INSERT OR IGNORE INTO unsubscribed_users (owner) VALUES (?1)"@
                &&& step->Ok_0.1@.params == seq![SqlView::Text(answer->Row_0@[0]->Text_0@)]
            }
            &&& !known ==> step is Err && step->Err_0@ == "invalid or expired unsubscribe token"@
        }),
        has <==> answer is Row,
{
    if let Fetch::Row(row) = answer {
        lemma_columns(row@);
    }
}

/// Unsubscribing returns the owner once the statement has run, and else the words of the error.
pub proof fn law_unsubscribing_returns_the_owner(
    db: Db,
    owner: String,
    failed: Option<String>,
    outcome: Result<String, String>,
)
    requires
        call_ensures(Db::process_unsubscribe_done, (&db, owner, failed), outcome),
    ensures
        failed is None ==> outcome == Ok::<String, String>(owner),
        failed matches Some(words) ==> outcome == Err::<String, String>(words),
{
}

/// An answer that is given again now is the one in the row: its key, status, body and time.
pub proof fn law_answer_given_now_is_that_of_the_row(
    db: Db,
    answer: Fetch,
    record: Option<IdempotencyRecord>,
    time: Result<Timestamp, RowError>,
)
    requires
        call_ensures(Db::check_idempotency, (&db, &answer), record),
        answer matches Fetch::Row(row) ==> call_ensures(time_at, (&row, 3usize, 0usize), time),
    ensures
        !(answer is Row) ==> record is None,
        answer matches Fetch::Row(row) ==> record is Some ==> {
            &&& row@.len() > 3
            &&& row@[0] is Text && record->Some_0.key@ == row@[0]->Text_0@
            &&& row@[1] is Integer && record->Some_0.status_code == row@[1]->Integer_0 as u16
            &&& row@[2] is Text && record->Some_0.response_body@ == row@[2]->Text_0@
            &&& time == Ok::<Timestamp, RowError>(record->Some_0.created_at)
        },
{
    if let Fetch::Row(row) = answer {
        lemma_columns(row@);
    }
}

// ---- values ----

/// A text is bound as it is, nothing is bound for none, yes as one and no as zero, and a point in
/// time as the text it is written as.
pub proof fn law_values_are_bound_as_they_are(
    text: &str,
    text_value: SqlValue,
    opt_text: Option<String>,
    opt_text_value: SqlValue,
    flag: bool,
    flag_value: SqlValue,
    t: Timestamp,
    time_value: SqlValue,
    opt_time: Option<Timestamp>,
    opt_time_value: SqlValue,
)
    requires
        call_ensures(text_param, (text,), text_value),
        call_ensures(opt_text_param, (&opt_text,), opt_text_value),
        call_ensures(flag_param, (flag,), flag_value),
        call_ensures(time_param, (&t,), time_value),
        call_ensures(opt_time_param, (&opt_time,), opt_time_value),
    ensures
        text_value is Text && text_value->Text_0@ == text@,
        holds_opt_text(opt_text_value, opt_text),
        flag_value == SqlValue::Integer(
            if flag {
                1
            } else {
                0
            },
        ),
        time_value is Text && time_value->Text_0@ == rfc3339_text(t.secs(), t.nanos()),
        opt_time is None ==> opt_time_value is Null,
        opt_time matches Some(p) ==> opt_time_value is Text && opt_time_value->Text_0@
            == rfc3339_text(p.secs(), p.nanos()),
{
}

/// A JSON text is kept as it is, and a text that is no JSON is dropped.
pub proof fn law_json_is_kept(text: Option<String>, kept: Option<String>)
    requires
        call_ensures(kept_json, (text,), kept),
    ensures
        text is None ==> kept is None,
        text matches Some(t) ==> if json_readable(t@) {
            kept is Some && kept->Some_0@ == t@
        } else {
            kept is None
        },
{
}

/// A JSON value names a vault exactly if its string member `vault_id` is the id of the vault.
pub proof fn law_value_names_one_vault(value: serde_json::Value, vault_id: &str, named: bool)
    requires
        call_ensures(names_vault, (&value, vault_id), named),
    ensures
        named <==> string_members(value).contains_key("vault_id"@) && string_members(
            value,
        )["vault_id"@] == vault_id@,
{
}

// ---- which fault is reported ----

/// What is wrong with a row that should hold a reminder, given what its columns are read as: the
/// first that cannot be read of the channels, the frequency, the time of deletion where it is asked
/// for, the vault and the hours.
pub open spec fn first_reminder_fault(
    channels: Result<String, RowError>,
    frequency: Result<String, RowError>,
    deleted: Option<Result<Option<Timestamp>, RowError>>,
    vault: Result<i64, RowError>,
    hours: Result<i64, RowError>,
) -> Option<RowError> {
    if channels is Err {
        Some(channels->Err_0)
    } else if frequency is Err {
        Some(frequency->Err_0)
    } else if deleted is Some && deleted->Some_0 is Err {
        Some(deleted->Some_0->Err_0)
    } else if vault is Err {
        Some(vault->Err_0)
    } else if hours is Err {
        Some(hours->Err_0)
    } else {
        None
    }
}

/// A reminder that cannot be read from its row is reported for the first thing wrong: the channels,
/// the frequency, the vault or the hours.
pub proof fn law_faulty_reminder_is_reported<
    C,
    F,
    ReadChannels: Fn(&String) -> Option<Vec<C>>,
    ReadFrequency: Fn(&String) -> F,
>(
    db: Db,
    row: Vec<SqlValue>,
    read_channels: ReadChannels,
    read_frequency: ReadFrequency,
    channels: Result<String, RowError>,
    frequency: Result<String, RowError>,
    vault: Result<i64, RowError>,
    hours: Result<i64, RowError>,
    reminder: Result<ReminderPreferences<C, F>, DbError>,
)
    requires
        call_ensures(text_at, (&row, 1usize), channels),
        call_ensures(text_at, (&row, 3usize), frequency),
        call_ensures(int_at, (&row, 0usize), vault),
        call_ensures(int_at, (&row, 2usize), hours),
        call_ensures(
            Db::get::<C, F, ReadChannels, ReadFrequency>,
            (&db, Fetch::Row(row), &read_channels, &read_frequency),
            reminder,
        ),
    ensures
        match first_reminder_fault(channels, frequency, None, vault, hours) {
            Some(e) => reminder == Err::<ReminderPreferences<C, F>, DbError>(DbError::Row(e)),
            None => reminder is Ok,
        },
{
}

/// Of many rows the first that cannot be read is reported, for the first thing wrong with it.
pub proof fn law_first_faulty_reminder_is_reported<
    C,
    F,
    ReadChannels: Fn(&String) -> Option<Vec<C>>,
    ReadFrequency: Fn(&String) -> F,
>(
    answer: FetchAll,
    with_deletion: bool,
    read_channels: ReadChannels,
    read_frequency: ReadFrequency,
    reminders: Result<Vec<ReminderPreferences<C, F>>, DbError>,
    i: int,
    channels: Result<String, RowError>,
    frequency: Result<String, RowError>,
    deleted: Result<Option<Timestamp>, RowError>,
    vault: Result<i64, RowError>,
    hours: Result<i64, RowError>,
)
    requires
        call_ensures(
            read_reminders::<C, F, ReadChannels, ReadFrequency>,
            (answer, with_deletion, &read_channels, &read_frequency),
            reminders,
        ),
        0 <= i < answer.rows@.len(),
        forall|k: int|
            0 <= k < i ==> reminder_fault(with_deletion)(
                values_view((#[trigger] answer.rows@[k])@),
            ) is None,
        call_ensures(text_at, (&answer.rows@[i], 1usize), channels),
        call_ensures(text_at, (&answer.rows@[i], 3usize), frequency),
        call_ensures(lenient_time_at, (&answer.rows@[i], 4usize), deleted),
        call_ensures(int_at, (&answer.rows@[i], 0usize), vault),
        call_ensures(int_at, (&answer.rows@[i], 2usize), hours),
    ensures
        first_reminder_fault(
            channels,
            frequency,
            if with_deletion {
                Some(deleted)
            } else {
                None
            },
            vault,
            hours,
        ) matches Some(e) ==> reminders == Err::<Vec<ReminderPreferences<C, F>>, DbError>(
            DbError::Row(e),
        ),
{
    let rows = rows_view(answer.rows@);
    let fault = reminder_fault(with_deletion);
    assert forall|k: int| 0 <= k < rows.len() implies #[trigger] rows[k] == values_view(
        answer.rows@[k]@,
    ) by {}
    assert(rows[i] == values_view(answer.rows@[i]@));
    if fault(rows[i]) is Some {
        if let Err(DbError::Row(e)) = reminders {
            let k = choose|k: int|
                0 <= k < rows.len() && fault(#[trigger] rows[k]) == Some(e) && no_fault(
                    rows.take(k),
                    fault,
                );
            if i < k {
                assert(rows.take(k)[i] == rows[i]);
            }
            assert(rows[k] == values_view(answer.rows@[k]@));
        }
    }
}

/// A subscription that cannot be read from its row is reported for the first thing wrong: the
/// channels, the frequency, the vault or the owner.
pub proof fn law_faulty_subscription_is_reported<
    C,
    F,
    ReadChannels: Fn(&String) -> Option<Vec<C>>,
    ReadFrequency: Fn(&String) -> F,
>(
    db: Db,
    row: Vec<SqlValue>,
    read_channels: ReadChannels,
    read_frequency: ReadFrequency,
    channels: Result<String, RowError>,
    frequency: Result<String, RowError>,
    vault: Result<i64, RowError>,
    owner: Result<String, RowError>,
    sub: Result<Option<Subscription<C, F>>, DbError>,
)
    requires
        call_ensures(text_at, (&row, 2usize), channels),
        call_ensures(text_at, (&row, 3usize), frequency),
        call_ensures(int_at, (&row, 0usize), vault),
        call_ensures(text_at, (&row, 1usize), owner),
        call_ensures(
            Db::get_subscription::<C, F, ReadChannels, ReadFrequency>,
            (&db, Fetch::Row(row), &read_channels, &read_frequency),
            sub,
        ),
    ensures
        if channels is Err {
            sub == Err::<Option<Subscription<C, F>>, DbError>(DbError::Row(channels->Err_0))
        } else if frequency is Err {
            sub == Err::<Option<Subscription<C, F>>, DbError>(DbError::Row(frequency->Err_0))
        } else if vault is Err {
            sub == Err::<Option<Subscription<C, F>>, DbError>(DbError::Row(vault->Err_0))
        } else if owner is Err {
            sub == Err::<Option<Subscription<C, F>>, DbError>(DbError::Row(owner->Err_0))
        } else {
            sub is Ok
        },
{
}

/// A second factor whose method cannot be read from its row is reported for that first, and one
/// whose method the reader cannot make out for the column of the method; with a method that is made
/// out, it is what the other columns are read as.
pub proof fn law_faulty_second_factor_is_reported<M, ReadMethod: Fn(&String) -> Option<M>>(
    db: Db,
    row: Vec<SqlValue>,
    read_method: ReadMethod,
    text: Result<String, RowError>,
    config: Result<Option<TwoFactorConfig<M>>, DbError>,
)
    requires
        call_ensures(text_at, (&row, 1usize), text),
        call_ensures(
            Db::get_2fa_config::<M, ReadMethod>,
            (&db, Fetch::Row(row), &read_method),
            config,
        ),
    ensures
        text is Err ==> config == Err::<Option<TwoFactorConfig<M>>, DbError>(
            DbError::Row(text->Err_0),
        ),
        text is Ok ==> exists|method: Option<M>|
            {
                &&& #[trigger] call_ensures(read_method, (&row@[1]->Text_0,), method)
                &&& method is None ==> config == Err::<Option<TwoFactorConfig<M>>, DbError>(
                    DbError::Row(RowError::FromSqlConversionFailure(1)),
                )
                &&& method is Some ==> match two_factor_in_row(values_view(row@)) {
                    Ok(_) => config is Ok && config->Ok_0 is Some && config->Ok_0->Some_0.method
                        == method->Some_0,
                    Err(e) => config == Err::<Option<TwoFactorConfig<M>>, DbError>(
                        DbError::Row(e),
                    ),
                }
            },
{
}

} // verus!
