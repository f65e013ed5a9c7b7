//! The words of each statement for the database, and the values bound to its marks in order.

use crate::audit_log::AuditLogEntry;
use crate::db::Db;
use crate::insurance::TtlInsurancePolicy;
use crate::reminders::{ReminderPreferences, Subscription};
use crate::sql::{SqlView, Statement};
use crate::timestamp::{rfc3339_text, Timestamp};
use crate::two_factor::TwoFactorConfig;
use vstd::prelude::*;

verus! {

/// The text that a point in time is stored as.
pub open spec fn stored_time(t: Timestamp) -> SqlView {
    SqlView::Text(rfc3339_text(t.secs(), t.nanos()))
}

/// What an optional point in time is stored as.
pub open spec fn stored_opt_time(t: Option<Timestamp>) -> SqlView {
    match t {
        Some(t) => stored_time(t),
        None => SqlView::Null,
    }
}

/// What an optional text is stored as.
pub open spec fn stored_opt_text(text: Option<String>) -> SqlView {
    match text {
        Some(t) => SqlView::Text(t@),
        None => SqlView::Null,
    }
}

/// What yes or no is stored as.
pub open spec fn stored_flag(flag: bool) -> SqlView {
    SqlView::Integer(
        if flag {
            1
        } else {
            0
        },
    )
}

// ---- insurance and activity ----

/// A policy is put in with its six values, in place of an earlier one of the vault.
pub proof fn law_words_that_store_a_policy(
    db: Db,
    policy: TtlInsurancePolicy,
    statement: Statement,
)
    requires
        call_ensures(Db::upsert_insurance_policy, (&db, &policy), statement),
    ensures
        statement@.sql == "INSERT INTO ttl_insurance_policies (
    vault_id,
    extension_seconds,
    inactivity_threshold_seconds,
    enabled,
    purchased_at,
    last_extended_at
) VALUES (?1, ?2, ?3, ?4, ?5, ?6)
ON CONFLICT(vault_id) DO UPDATE SET
    extension_seconds = excluded.extension_seconds,
    inactivity_threshold_seconds = excluded.inactivity_threshold_seconds,
    enabled = excluded.enabled,
    purchased_at = excluded.purchased_at,
    last_extended_at = excluded.last_extended_at"@,
        statement@.params == seq![
            SqlView::Integer(policy.vault_id as i64),
            SqlView::Integer(policy.extension_seconds as i64),
            SqlView::Integer(policy.inactivity_threshold_seconds as i64),
            stored_flag(policy.enabled),
            stored_time(policy.purchased_at),
            stored_opt_time(policy.last_extended_at),
        ],
{
}

/// The policy of a vault is asked for by the vault, and the enabled ones by that.
pub proof fn law_words_that_ask_for_policies(
    db: Db,
    vault_id: u64,
    one: Statement,
    enabled: Statement,
)
    requires
        call_ensures(Db::get_insurance_policy_query, (&db, vault_id), one),
        call_ensures(Db::all_enabled_insurance_policies_query, (&db,), enabled),
    ensures
        one@.sql == "SELECT vault_id, extension_seconds, inactivity_threshold_seconds, enabled, purchased_at, last_extended_at
FROM ttl_insurance_policies
WHERE vault_id = ?1"@,
        one@.params == seq![SqlView::Integer(vault_id as i64)],
        enabled@.sql == "SELECT vault_id, extension_seconds, inactivity_threshold_seconds, enabled, purchased_at, last_extended_at
FROM ttl_insurance_policies
WHERE enabled = 1"@,
        enabled@.params.len() == 0,
{
}

/// When an owner was active is put in, in place of an earlier time, and asked for by the owner.
pub proof fn law_words_about_activity(
    db: Db,
    owner_id: u64,
    last_active_at: Timestamp,
    noted: Statement,
    asked: Statement,
)
    requires
        call_ensures(Db::upsert_owner_activity, (&db, owner_id, last_active_at), noted),
        call_ensures(Db::get_owner_last_active_at_query, (&db, owner_id), asked),
    ensures
        noted@.sql == "INSERT INTO owner_activity (owner_id, last_active_at)
VALUES (?1, ?2)
ON CONFLICT(owner_id) DO UPDATE SET
    last_active_at = excluded.last_active_at"@,
        noted@.params == seq![
            SqlView::Integer(owner_id as i64),
            stored_time(last_active_at),
        ],
        asked@.sql == "SELECT last_active_at
FROM owner_activity
WHERE owner_id = ?1"@,
        asked@.params == seq![SqlView::Integer(owner_id as i64)],
{
}

// ---- reminders and subscriptions ----

/// A reminder is put in, in place of an earlier one of the vault, and is then not deleted.
pub proof fn law_words_that_store_a_reminder<C, F>(
    db: Db,
    prefs: ReminderPreferences<C, F>,
    channels: &str,
    frequency: &str,
    statement: Statement,
)
    requires
        call_ensures(Db::upsert::<C, F>, (&db, &prefs, channels, frequency), statement),
    ensures
        statement@.sql == "INSERT INTO reminder_preferences (vault_id, channels, hours_before_expiry, frequency)
VALUES (?1, ?2, ?3, ?4)
ON CONFLICT(vault_id) DO UPDATE SET
  channels = excluded.channels,
  hours_before_expiry = excluded.hours_before_expiry,
  frequency = excluded.frequency,
  deleted_at = NULL"@,
        statement@.params == seq![
            SqlView::Integer(prefs.vault_id as i64),
            SqlView::Text(channels@),
            SqlView::Integer(prefs.hours_before_expiry as i64),
            SqlView::Text(frequency@),
        ],
{
}

/// The reminders that are not deleted are asked for, of one vault or of all, and those of a vault
/// deleted or not.
pub proof fn law_words_that_ask_for_reminders(
    db: Db,
    vault_id: u64,
    one: Statement,
    all: Statement,
    with_deleted: Statement,
)
    requires
        call_ensures(Db::get_query, (&db, vault_id), one),
        call_ensures(Db::all_query, (&db,), all),
        call_ensures(Db::all_reminders_including_deleted_query, (&db, vault_id), with_deleted),
    ensures
        one@.sql == "SELECT vault_id, channels, hours_before_expiry, frequency, deleted_at
FROM reminder_preferences
WHERE vault_id = ?1 AND deleted_at IS NULL"@,
        one@.params == seq![SqlView::Integer(vault_id as i64)],
        all@.sql == "SELECT vault_id, channels, hours_before_expiry, frequency, deleted_at
FROM reminder_preferences
WHERE deleted_at IS NULL"@,
        all@.params.len() == 0,
        with_deleted@.sql == "SELECT vault_id, channels, hours_before_expiry, frequency, deleted_at
FROM reminder_preferences
WHERE vault_id = ?1"@,
        with_deleted@.params == seq![SqlView::Integer(vault_id as i64)],
{
}

/// The reminder of a vault is marked with a time of deletion, unless it has one.
pub proof fn law_words_that_delete_a_reminder(
    db: Db,
    vault_id: u64,
    now: Timestamp,
    statement: Statement,
)
    requires
        call_ensures(Db::soft_delete_reminder_at, (&db, vault_id, &now), statement),
    ensures
        statement@.sql == "UPDATE reminder_preferences SET deleted_at = ?1 WHERE vault_id = ?2 AND deleted_at IS NULL"@,
        statement@.params == seq![
            stored_time(now),
            SqlView::Integer(vault_id as i64),
        ],
{
}

/// A subscription is put in, in place of an earlier one to the vault; it is asked for and removed by
/// the vault.
pub proof fn law_words_about_subscriptions<C, F>(
    db: Db,
    sub: Subscription<C, F>,
    channels: &str,
    frequency: &str,
    vault_id: u64,
    stored: Statement,
    asked: Statement,
    removed: Statement,
)
    requires
        call_ensures(Db::upsert_subscription::<C, F>, (&db, &sub, channels, frequency), stored),
        call_ensures(Db::get_subscription_query, (&db, vault_id), asked),
        call_ensures(Db::delete_subscription, (&db, vault_id), removed),
    ensures
        stored@.sql == "INSERT INTO vault_subscriptions (vault_id, owner, channels, frequency)
VALUES (?1, ?2, ?3, ?4)
ON CONFLICT(vault_id) DO UPDATE SET
  owner = excluded.owner,
  channels = excluded.channels,
  frequency = excluded.frequency"@,
        stored@.params == seq![
            SqlView::Integer(sub.vault_id as i64),
            SqlView::Text(sub.owner@),
            SqlView::Text(channels@),
            SqlView::Text(frequency@),
        ],
        asked@.sql == "SELECT vault_id, owner, channels, frequency
FROM vault_subscriptions
WHERE vault_id = ?1"@,
        asked@.params == seq![SqlView::Integer(vault_id as i64)],
        removed@.sql == "DELETE FROM vault_subscriptions WHERE vault_id = ?1"@,
        removed@.params == seq![SqlView::Integer(vault_id as i64)],
{
}

// ---- the second factor ----

/// A second factor is put in with its eight values, in place of an earlier one of the vault; it is
/// asked for and removed by the vault.
pub proof fn law_words_about_the_second_factor<M>(
    db: Db,
    config: TwoFactorConfig<M>,
    method: &str,
    vault_id: &str,
    stored: Statement,
    asked: Statement,
    removed: Statement,
)
    requires
        call_ensures(Db::upsert_2fa_config::<M>, (&db, &config, method), stored),
        call_ensures(Db::get_2fa_config_query, (&db, vault_id), asked),
        call_ensures(Db::delete_2fa_config, (&db, vault_id), removed),
    ensures
        stored@.sql == "INSERT INTO two_factor_config (vault_id, method, enabled, secret, phone, email, created_at, verified_at)
VALUES (?1, ?2, ?3, ?4, ?5, ?6, ?7, ?8)
ON CONFLICT(vault_id) DO UPDATE SET
    method = excluded.method,
    enabled = excluded.enabled,
    secret = excluded.secret,
    phone = excluded.phone,
    email = excluded.email,
    created_at = excluded.created_at,
    verified_at = excluded.verified_at"@,
        stored@.params == seq![
            SqlView::Text(config.vault_id@),
            SqlView::Text(method@),
            stored_flag(config.enabled),
            stored_opt_text(config.secret),
            stored_opt_text(config.phone),
            stored_opt_text(config.email),
            stored_time(config.created_at),
            stored_opt_time(config.verified_at),
        ],
        asked@.sql == "SELECT vault_id, method, enabled, secret, phone, email, created_at, verified_at
FROM two_factor_config
WHERE vault_id = ?1"@,
        asked@.params == seq![SqlView::Text(vault_id@)],
        removed@.sql == "DELETE FROM two_factor_config WHERE vault_id = ?1"@,
        removed@.params == seq![SqlView::Text(vault_id@)],
{
}

// ---- answers, tokens and the audit log ----

/// An answer is put in under its key, with the status, the body and the time, and asked for by the
/// key.
pub proof fn law_words_about_answers(
    db: Db,
    key: &str,
    status_code: u16,
    body: &str,
    now: Timestamp,
    stored: Statement,
    asked: Statement,
)
    requires
        call_ensures(Db::store_idempotency_at, (&db, key, status_code, body, &now), stored),
        call_ensures(Db::check_idempotency_query, (&db, key), asked),
    ensures
        stored@.sql == "INSERT OR REPLACE INTO idempotency_keys (key, status_code, response_body, created_at)
VALUES (?1, ?2, ?3, ?4)"@,
        stored@.params == seq![
            SqlView::Text(key@),
            SqlView::Integer(status_code as i64),
            SqlView::Text(body@),
            stored_time(now),
        ],
        asked@.sql == "SELECT key, status_code, response_body, created_at FROM idempotency_keys WHERE key = ?1"@,
        asked@.params == seq![SqlView::Text(key@)],
{
}

/// A token is put in with its owner and the time; the owner is asked for by the token, and whether an
/// owner has unsubscribed by the owner.
pub proof fn law_words_about_unsubscribing(
    db: Db,
    token: &str,
    owner: &str,
    now: Timestamp,
    stored: Statement,
    asked: Statement,
    has: Statement,
)
    requires
        call_ensures(Db::store_unsubscribe_token_at, (&db, token, owner, &now), stored),
        call_ensures(Db::process_unsubscribe_query, (&db, token), asked),
        call_ensures(Db::is_unsubscribed_query, (&db, owner), has),
    ensures
        stored@.sql == "INSERT OR REPLACE INTO unsubscribe_tokens (token, owner, created_at)
VALUES (?1, ?2, ?3)"@,
        stored@.params == seq![
            SqlView::Text(token@),
            SqlView::Text(owner@),
            stored_time(now),
        ],
        asked@.sql == "SELECT owner FROM unsubscribe_tokens WHERE token = ?1"@,
        asked@.params == seq![SqlView::Text(token@)],
        has@.sql == "SELECT 1 FROM unsubscribed_users WHERE owner = ?1"@,
        has@.params == seq![SqlView::Text(owner@)],
{
}

/// An audit entry is put in with all its values but the number, which the database gives.
pub proof fn law_words_that_store_an_audit_entry(
    db: Db,
    entry: AuditLogEntry,
    statement: Statement,
)
    requires
        call_ensures(Db::insert_audit_log, (&db, &entry), statement),
    ensures
        statement@.sql == "INSERT INTO audit_logs (timestamp, user_id, action, resource, result, ip_address, details)
VALUES (?1, ?2, ?3, ?4, ?5, ?6, ?7)"@,
        statement@.params == seq![
            stored_time(entry.timestamp),
            SqlView::Text(entry.user_id@),
            SqlView::Text(entry.action@),
            SqlView::Text(entry.resource@),
            SqlView::Text(entry.result@),
            SqlView::Text(entry.ip_address@),
            stored_opt_text(entry.details),
        ],
{
}

/// Whether the database answers is asked without touching a table.
pub proof fn law_words_that_try_the_connection(
    db: Db,
    statement: Statement,
)
    requires
        call_ensures(Db::check_connectivity, (&db,), statement),
    ensures
        statement@.sql == "SELECT 1"@,
        statement@.params.len() == 0,
{
}

// ---- at the time of the clock ----

/// What is stored at the time of the clock is stored as at any given time: only the time is that
/// of the clock, and everything else is as it was handed in.
pub proof fn law_clock_gives_only_the_time(
    db: Db,
    key: &str,
    status_code: u16,
    body: &str,
    token: &str,
    owner: &str,
    vault_id: u64,
    answer: Statement,
    kept: Statement,
    marked: Statement,
)
    requires
        call_ensures(Db::store_idempotency, (&db, key, status_code, body), answer),
        call_ensures(Db::store_unsubscribe_token, (&db, token, owner), kept),
        call_ensures(Db::soft_delete_reminder, (&db, vault_id), marked),
    ensures
        exists|now: Timestamp|
            {
                &&& #[trigger] now.told_by_clock()
                &&& answer@.sql == "INSERT OR REPLACE INTO idempotency_keys (key, status_code, response_body, created_at)
VALUES (?1, ?2, ?3, ?4)"@
                &&& answer@.params == seq![
                    SqlView::Text(key@),
                    SqlView::Integer(status_code as i64),
                    SqlView::Text(body@),
                    stored_time(now),
                ]
            },
        exists|now: Timestamp|
            {
                &&& #[trigger] now.told_by_clock()
                &&& kept@.sql == "INSERT OR REPLACE INTO unsubscribe_tokens (token, owner, created_at)
VALUES (?1, ?2, ?3)"@
                &&& kept@.params == seq![
                    SqlView::Text(token@),
                    SqlView::Text(owner@),
                    stored_time(now),
                ]
            },
        exists|now: Timestamp|
            {
                &&& #[trigger] now.told_by_clock()
                &&& marked@.sql
                    == "UPDATE reminder_preferences SET deleted_at = ?1 WHERE vault_id = ?2 AND deleted_at IS NULL"@
                &&& marked@.params == seq![stored_time(now), SqlView::Integer(vault_id as i64)]
            },
{
}

/// A token that is made for an owner is kept as it is handed back, for that owner.
pub proof fn law_made_token_is_kept(db: Db, owner: &str, made: (String, Statement))
    requires
        call_ensures(Db::generate_unsubscribe_token, (&db, owner), made),
    ensures
        made.0@.len() == 36,
        made.1@.params.len() == 3,
        made.1@.params[0] == SqlView::Text(made.0@),
        made.1@.params[1] == SqlView::Text(owner@),
        made.1@.sql == "INSERT OR REPLACE INTO unsubscribe_tokens (token, owner, created_at)
VALUES (?1, ?2, ?3)"@,
{
}

} // verus!
