//! What a run of the migrations asks of the database at each stage, and how it goes on.

use crate::db::Db;
use crate::migrations::{sql_at, version_at, MigrationAction, MigrationStage};
use crate::sql::{Fetch, SqlView};
use crate::timestamp::{rfc3339_text, Timestamp};
use vstd::prelude::*;

verus! {

/// The migrations are numbered from one on, in the order in which they are applied.
pub proof fn law_migrations_are_numbered(place: usize, version: &'static str)
    requires
        call_ensures(version_at, (place,), version),
        place < 5,
    ensures
        version@.len() == 1,
        version@[0] as int == '1' as int + place,
{
    reveal_strlit("1");
    reveal_strlit("2");
    reveal_strlit("3");
    reveal_strlit("4");
    reveal_strlit("5");
}

/// The first migration makes the tables, the second lets reminders be marked as deleted, and the
/// others make the tables of the audit log, of second factors and of subscriptions.
pub proof fn law_migrations_make_the_tables(place: usize, sql: &'static str)
    requires
        call_ensures(sql_at, (place,), sql),
        place < 5,
    ensures
        place == 0 ==> sql@ == "CREATE TABLE IF NOT EXISTS reminder_preferences (
    vault_id             INTEGER PRIMARY KEY,
    channels             TEXT NOT NULL,
    hours_before_expiry  INTEGER NOT NULL,
    frequency            TEXT NOT NULL
);
CREATE TABLE IF NOT EXISTS ttl_insurance_policies (
    vault_id                      INTEGER PRIMARY KEY,
    extension_seconds             INTEGER NOT NULL,
    inactivity_threshold_seconds  INTEGER NOT NULL,
    enabled                        INTEGER NOT NULL,
    purchased_at                   TEXT NOT NULL,
    last_extended_at               TEXT
);
CREATE TABLE IF NOT EXISTS owner_activity (
    owner_id       INTEGER PRIMARY KEY,
    last_active_at TEXT NOT NULL
);
CREATE TABLE IF NOT EXISTS idempotency_keys (
    key           TEXT PRIMARY KEY,
    status_code   INTEGER NOT NULL,
    response_body TEXT NOT NULL,
    created_at    TEXT NOT NULL
);
CREATE TABLE IF NOT EXISTS unsubscribe_tokens (
    token      TEXT PRIMARY KEY,
    owner      TEXT NOT NULL,
    created_at TEXT NOT NULL
);
CREATE TABLE IF NOT EXISTS unsubscribed_users (
    owner TEXT PRIMARY KEY
);"@,
        place == 1 ==> sql@ == "ALTER TABLE reminder_preferences ADD COLUMN deleted_at TEXT;"@,
        place == 2 ==> sql@ == "CREATE TABLE IF NOT EXISTS audit_logs (
    id         INTEGER PRIMARY KEY AUTOINCREMENT,
    timestamp  TEXT NOT NULL,
    user_id    TEXT NOT NULL DEFAULT '',
    action     TEXT NOT NULL,
    resource   TEXT NOT NULL DEFAULT '',
    result     TEXT NOT NULL DEFAULT 'success',
    ip_address TEXT NOT NULL DEFAULT '',
    details    TEXT
);
CREATE INDEX IF NOT EXISTS idx_audit_logs_timestamp ON audit_logs(timestamp);
CREATE INDEX IF NOT EXISTS idx_audit_logs_user_id   ON audit_logs(user_id);
CREATE INDEX IF NOT EXISTS idx_audit_logs_action    ON audit_logs(action);"@,
        place == 3 ==> sql@ == "CREATE TABLE IF NOT EXISTS two_factor_config (
    vault_id     TEXT PRIMARY KEY,
    method       TEXT NOT NULL,
    enabled      INTEGER NOT NULL DEFAULT 0,
    secret       TEXT,
    phone        TEXT,
    email        TEXT,
    created_at   TEXT NOT NULL,
    verified_at  TEXT
);"@,
        place == 4 ==> sql@ == "CREATE TABLE IF NOT EXISTS vault_subscriptions (
    vault_id   INTEGER PRIMARY KEY,
    owner      TEXT NOT NULL,
    channels   TEXT NOT NULL,
    frequency  TEXT NOT NULL
);"@,
{
}

/// A run begins with the table that records the migrations.
pub proof fn law_run_begins_with_the_records(
    db: Db,
    stage: MigrationStage,
    now: Timestamp,
    action: MigrationAction,
)
    requires
        call_ensures(Db::migrate, (&db,), stage),
        call_ensures(MigrationStage::action_at, (&stage, &now), action),
    ensures
        action is Batch,
        action->Batch_0@ == "CREATE TABLE IF NOT EXISTS schema_migrations (
    version    TEXT PRIMARY KEY,
    applied_at TEXT NOT NULL
);"@,
{
}

/// A migration is looked up by its version, applied by its own statements, and recorded by its
/// version and the time. A run that has ended asks for nothing more, and says what it ended with.
pub proof fn law_stage_asks_for_its_migration(
    stage: MigrationStage,
    now: Timestamp,
    action: MigrationAction,
    place: usize,
    version: &'static str,
    sql: &'static str,
)
    requires
        call_ensures(MigrationStage::action_at, (&stage, &now), action),
        place < 5,
        call_ensures(version_at, (place,), version),
        call_ensures(sql_at, (place,), sql),
    ensures
        stage == MigrationStage::Lookup(place) ==> {
            &&& action is Query
            &&& action->Query_0@.sql == "SELECT 1 FROM schema_migrations WHERE version = ?1"@
            &&& action->Query_0@.params == seq![SqlView::Text(version@)]
        },
        stage == MigrationStage::Apply(place) ==> action is Batch && action->Batch_0@ == sql@,
        stage == MigrationStage::Record(place) ==> {
            &&& action is Execute
            &&& action->Execute_0@.sql
                == "INSERT INTO schema_migrations (version, applied_at) VALUES (?1, ?2)"@
            &&& action->Execute_0@.params == seq![
                SqlView::Text(version@),
                SqlView::Text(rfc3339_text(now.secs(), now.nanos())),
            ]
        },
        stage is Done ==> action is Finish,
        stage matches MigrationStage::Failed(words) ==> action is GiveUp && action->GiveUp_0@
            == words@,
{
}

/// An error ends the run with its words, at every stage. Without one the first lookup follows on
/// the table of records, the record of a migration on its statements, and the next lookup on the
/// record, or the end after the fifth.
pub proof fn law_run_goes_on(
    stage: MigrationStage,
    failed: Option<String>,
    next: MigrationStage,
    place: usize,
)
    requires
        call_ensures(MigrationStage::ran, (stage, failed), next),
        place < 5,
    ensures
        failed matches Some(words) ==> next == MigrationStage::Failed(words),
        failed is None && stage is Bootstrap ==> next == MigrationStage::Lookup(0),
        failed is None && stage == MigrationStage::Apply(place) ==> next
            == MigrationStage::Record(place),
        failed is None && stage == MigrationStage::Record(place) && place < 4 ==> next
            == MigrationStage::Lookup((place + 1) as usize),
        failed is None && stage == MigrationStage::Record(4) ==> next is Done,
{
}

/// A migration with a row is passed over, and one without is applied; that the database failed to
/// say counts as without.
pub proof fn law_recorded_migration_is_passed_over(
    place: usize,
    answer: Fetch,
    next: MigrationStage,
)
    requires
        call_ensures(
            MigrationStage::answered,
            (MigrationStage::Lookup(place), &answer),
            next,
        ),
        place < 5,
    ensures
        answer is Row && place < 4 ==> next == MigrationStage::Lookup((place + 1) as usize),
        answer is Row && place == 4 ==> next is Done,
        !(answer is Row) ==> next == MigrationStage::Apply(place),
{
}

/// At the time of the clock a stage asks for what it asks for at any given time.
pub proof fn law_stage_asks_the_same_at_any_time(
    stage: MigrationStage,
    now: Timestamp,
    given: MigrationAction,
    action: MigrationAction,
)
    requires
        call_ensures(MigrationStage::action_at, (&stage, &now), given),
        call_ensures(MigrationStage::action, (&stage,), action),
    ensures
        !(stage is Record) ==> action@ == given@,
        stage is Record ==> action is Execute && given is Execute && action->Execute_0@.sql
            == given->Execute_0@.sql && action->Execute_0@.params[0]
            == given->Execute_0@.params[0],
{
}

} // verus!
