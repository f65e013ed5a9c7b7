use ethos_vault::audit_log::{AuditLogEntry, AuditLogQuery};
use ethos_vault::db::Db;
use ethos_vault::insurance::TtlInsurancePolicy;
use ethos_vault::reminders::{ReminderPreferences, Subscription};
use ethos_vault::sql::{DbError, Fetch, FetchAll, RowError, SqlValue, Statement};
use ethos_vault::timestamp::{Timestamp, MIN_SECS};
use ethos_vault::two_factor::TwoFactorConfig;

fn db() -> Db {
    Db::open("test.db").0
}

fn at(secs: i64) -> Timestamp {
    Timestamp::new(secs, 0).unwrap()
}

fn text(s: &str) -> SqlValue {
    SqlValue::Text(s.to_string())
}

fn copy(value: &SqlValue) -> SqlValue {
    match value {
        SqlValue::Null => SqlValue::Null,
        SqlValue::Integer(n) => SqlValue::Integer(*n),
        SqlValue::Text(t) => SqlValue::Text(t.clone()),
        SqlValue::Garbled => SqlValue::Garbled,
        SqlValue::Other => SqlValue::Other,
    }
}

fn row(values: &[SqlValue]) -> Vec<SqlValue> {
    values.iter().map(copy).collect()
}

fn is_text(value: &SqlValue, expected: &str) -> bool {
    matches!(value, SqlValue::Text(t) if t == expected)
}

fn is_integer(value: &SqlValue, expected: i64) -> bool {
    matches!(value, SqlValue::Integer(n) if *n == expected)
}

fn one_text(statement: &Statement, expected: &str) -> bool {
    statement.params.len() == 1 && is_text(&statement.params[0], expected)
}

fn one_integer(statement: &Statement, expected: i64) -> bool {
    statement.params.len() == 1 && is_integer(&statement.params[0], expected)
}

fn policy() -> TtlInsurancePolicy {
    TtlInsurancePolicy {
        vault_id: u64::MAX,
        extension_seconds: 86_400,
        inactivity_threshold_seconds: 3_600,
        enabled: true,
        purchased_at: at(1_709_209_815),
        last_extended_at: Some(at(1_709_209_900)),
    }
}

#[test]
fn a_policy_is_stored_in_six_columns() {
    let statement = db().upsert_insurance_policy(&policy());
    assert!(statement.sql.starts_with("INSERT INTO ttl_insurance_policies"));
    assert!(statement.sql.contains("ON CONFLICT(vault_id) DO UPDATE SET"));
    assert_eq!(statement.params.len(), 6);
    assert!(is_integer(&statement.params[0], -1));
    assert!(is_integer(&statement.params[1], 86_400));
    assert!(is_integer(&statement.params[3], 1));
    assert!(is_text(&statement.params[4], "2024-02-29T12:30:15+00:00"));
    assert!(is_text(&statement.params[5], "2024-02-29T12:31:40+00:00"));
}

#[test]
fn a_stored_policy_is_read_back() {
    let statement = db().upsert_insurance_policy(&policy());
    let read = db().get_insurance_policy(Fetch::Row(statement.params)).unwrap().unwrap();
    assert_eq!(read.vault_id, u64::MAX);
    assert_eq!(read.extension_seconds, 86_400);
    assert_eq!(read.inactivity_threshold_seconds, 3_600);
    assert!(read.enabled);
    assert_eq!(read.purchased_at, at(1_709_209_815));
    assert_eq!(read.last_extended_at, Some(at(1_709_209_900)));
}

#[test]
fn a_policy_that_was_never_extended_is_read_back() {
    let policy = TtlInsurancePolicy { enabled: false, last_extended_at: None, ..policy() };
    let statement = db().upsert_insurance_policy(&policy);
    assert!(matches!(statement.params[5], SqlValue::Null));
    let read = db().get_insurance_policy(Fetch::Row(statement.params)).unwrap().unwrap();
    assert!(!read.enabled);
    assert_eq!(read.last_extended_at, None);
}

#[test]
fn a_missing_policy_and_a_failing_database() {
    assert!(one_integer(&db().get_insurance_policy_query(7), 7));
    assert!(db().get_insurance_policy(Fetch::NoRows).unwrap().is_none());
    let failed = db().get_insurance_policy(Fetch::Failed("locked".to_string()));
    assert!(matches!(failed, Err(DbError::Driver(words)) if words == "locked"));
}

#[test]
fn a_faulty_policy_is_reported_for_the_first_thing_wrong() {
    let good = db().upsert_insurance_policy(&policy()).params;
    let read = |values: Vec<SqlValue>| match db().get_insurance_policy(Fetch::Row(values)) {
        Err(DbError::Row(e)) => Some(e),
        _ => None,
    };
    let mut bad = row(&good);
    bad[4] = text("soon");
    bad[0] = SqlValue::Null;
    assert_eq!(read(bad), Some(RowError::FromSqlConversionFailure(0)));
    let mut bad = row(&good);
    bad[5] = text("soon");
    assert_eq!(read(bad), Some(RowError::FromSqlConversionFailure(0)));
    let mut bad = row(&good);
    bad[4] = SqlValue::Integer(3);
    assert_eq!(read(bad), Some(RowError::InvalidColumnType(4)));
    let mut bad = row(&good);
    bad[0] = text("7");
    bad[3] = SqlValue::Other;
    assert_eq!(read(bad), Some(RowError::InvalidColumnType(3)));
    let mut bad = row(&good);
    bad[0] = text("7");
    assert_eq!(read(bad), Some(RowError::InvalidColumnType(0)));
    assert_eq!(read(Vec::new()), Some(RowError::InvalidColumnIndex(4)));
}

#[test]
fn all_policies_are_read_or_the_first_fault_is_reported() {
    let good = db().upsert_insurance_policy(&policy()).params;
    assert!(db().all_enabled_insurance_policies_query().sql.ends_with("WHERE enabled = 1"));
    let all = db()
        .all_enabled_insurance_policies(FetchAll { rows: vec![row(&good), row(&good)], failed: None })
        .unwrap();
    assert_eq!(all.len(), 2);
    let mut bad = row(&good);
    bad[4] = SqlValue::Null;
    let faulty = FetchAll { rows: vec![row(&good), bad], failed: Some("late".to_string()) };
    assert!(matches!(
        db().all_enabled_insurance_policies(faulty),
        Err(DbError::Row(RowError::InvalidColumnType(4)))
    ));
    let stopped = FetchAll { rows: vec![row(&good)], failed: Some("late".to_string()) };
    assert!(matches!(
        db().all_enabled_insurance_policies(stopped),
        Err(DbError::Driver(words)) if words == "late"
    ));
}

#[test]
fn owner_activity_is_stored_and_read_back() {
    let statement = db().upsert_owner_activity(9, at(1_709_209_815));
    assert!(is_integer(&statement.params[0], 9));
    let stored = row(&statement.params[1..]);
    let read = db().get_owner_last_active_at(Fetch::Row(stored)).unwrap();
    assert_eq!(read, Some(at(1_709_209_815)));
    assert!(one_integer(&db().get_owner_last_active_at_query(9), 9));
    assert_eq!(db().get_owner_last_active_at(Fetch::NoRows).unwrap(), None);
    assert!(matches!(
        db().get_owner_last_active_at(Fetch::Row(vec![text("never")])),
        Err(DbError::Row(RowError::FromSqlConversionFailure(0)))
    ));
}

fn words(json: &String) -> Option<Vec<String>> {
    serde_json::from_str(json).ok()
}

fn word(json: &String) -> String {
    serde_json::from_str(json).unwrap()
}

#[test]
fn a_reminder_is_stored_and_read_back() {
    let prefs = ReminderPreferences {
        vault_id: 3,
        channels: vec!["email".to_string()],
        hours_before_expiry: 48,
        frequency: "daily".to_string(),
        deleted_at: None,
    };
    let statement = db().upsert(&prefs, "[\"email\"]", "\"daily\"");
    assert!(statement.sql.contains("deleted_at = NULL"));
    let mut stored = statement.params;
    assert!(one_integer(&db().get_query(3), 3));
    let read = db().get(Fetch::Row(row(&stored)), &words, &word).unwrap();
    assert_eq!(read.vault_id, 3);
    assert_eq!(read.channels, ["email"]);
    assert_eq!(read.hours_before_expiry, 48);
    assert_eq!(read.frequency, "daily");
    stored.push(text("2024-02-29T12:30:15+00:00"));
    let all = db()
        .all_reminders_including_deleted(
            FetchAll { rows: vec![row(&stored)], failed: None },
            &words,
            &word,
        )
        .unwrap();
    assert_eq!(all[0].deleted_at, Some(at(1_709_209_815)));
    let all =
        db().all(FetchAll { rows: vec![row(&stored)], failed: None }, &words, &word).unwrap();
    assert_eq!(all[0].deleted_at, None);
    assert!(one_integer(&db().all_reminders_including_deleted_query(3), 3));
    assert!(db().all_query().sql.ends_with("WHERE deleted_at IS NULL"));
}

#[test]
fn channels_that_cannot_be_read_count_as_none() {
    let stored =
        vec![SqlValue::Integer(3), text("?"), SqlValue::Integer(-1), text("\"once\"")];
    let read = db().get(Fetch::Row(stored), &words, &word).unwrap();
    assert!(read.channels.is_empty());
    assert_eq!(read.hours_before_expiry, u32::MAX);
}

#[test]
fn a_reminder_that_is_missing_or_faulty() {
    assert!(matches!(
        db().get(Fetch::NoRows, &words, &word),
        Err(DbError::QueryReturnedNoRows)
    ));
    let stored = vec![text("3"), text("[]"), SqlValue::Integer(1), text("\"once\"")];
    assert!(matches!(
        db().get(Fetch::Row(stored), &words, &word),
        Err(DbError::Row(RowError::InvalidColumnType(0)))
    ));
    let stored = vec![text("3"), SqlValue::Null];
    assert!(matches!(
        db().get(Fetch::Row(stored), &words, &word),
        Err(DbError::Row(RowError::InvalidColumnType(1)))
    ));
}

#[test]
fn a_deletion_time_that_cannot_be_read_counts_as_none() {
    let stored = |deleted: SqlValue| {
        vec![SqlValue::Integer(3), text("[]"), SqlValue::Integer(1), text("\"once\""), deleted]
    };
    let read = |deleted: SqlValue| {
        db().all_reminders_including_deleted(
            FetchAll { rows: vec![stored(deleted)], failed: None },
            &words,
            &word,
        )
    };
    assert_eq!(read(text("long ago")).unwrap()[0].deleted_at, None);
    assert_eq!(read(SqlValue::Null).unwrap()[0].deleted_at, None);
    assert!(matches!(
        read(SqlValue::Integer(0)),
        Err(DbError::Row(RowError::InvalidColumnType(4)))
    ));
}

#[test]
fn a_reminder_is_marked_as_deleted() {
    let statement = db().soft_delete_reminder_at(3, &at(1_709_209_815));
    assert!(statement.sql.ends_with("AND deleted_at IS NULL"));
    assert!(is_text(&statement.params[0], "2024-02-29T12:30:15+00:00"));
    assert!(is_integer(&statement.params[1], 3));
    assert!(is_integer(&db().soft_delete_reminder(4).params[1], 4));
}

#[test]
fn a_subscription_is_stored_and_read_back() {
    let sub = Subscription {
        vault_id: 5,
        owner: "ann".to_string(),
        channels: vec!["push".to_string()],
        frequency: "weekly".to_string(),
    };
    let statement = db().upsert_subscription(&sub, "[\"push\"]", "\"weekly\"");
    let read =
        db().get_subscription(Fetch::Row(statement.params), &words, &word).unwrap().unwrap();
    assert_eq!(read.vault_id, 5);
    assert_eq!(read.owner, "ann");
    assert_eq!(read.channels, ["push"]);
    assert_eq!(read.frequency, "weekly");
    assert!(one_integer(&db().get_subscription_query(5), 5));
    assert!(one_integer(&db().delete_subscription(5), 5));
    assert!(db().get_subscription(Fetch::NoRows, &words, &word).unwrap().is_none());
    let faulty = vec![SqlValue::Integer(5), SqlValue::Null, text("[]"), text("\"weekly\"")];
    assert!(matches!(
        db().get_subscription(Fetch::Row(faulty), &words, &word),
        Err(DbError::Row(RowError::InvalidColumnType(1)))
    ));
}

fn two_factor() -> TwoFactorConfig<String> {
    TwoFactorConfig {
        vault_id: "v1".to_string(),
        method: "totp".to_string(),
        enabled: true,
        secret: Some("s".to_string()),
        phone: None,
        email: Some("ann@example.org".to_string()),
        created_at: at(1_709_209_815),
        verified_at: None,
    }
}

fn method(json: &String) -> Option<String> {
    serde_json::from_str(json).ok()
}

#[test]
fn a_second_factor_is_stored_and_read_back() {
    let statement = db().upsert_2fa_config(&two_factor(), "\"totp\"");
    assert_eq!(statement.params.len(), 8);
    let read =
        db().get_2fa_config(Fetch::Row(row(&statement.params)), &method).unwrap().unwrap();
    assert_eq!(read.vault_id, "v1");
    assert_eq!(read.method, "totp");
    assert!(read.enabled);
    assert_eq!(read.secret.as_deref(), Some("s"));
    assert_eq!(read.phone, None);
    assert_eq!(read.email.as_deref(), Some("ann@example.org"));
    assert_eq!(read.created_at, at(1_709_209_815));
    assert_eq!(read.verified_at, None);
    assert!(one_text(&db().get_2fa_config_query("v1"), "v1"));
    assert!(one_text(&db().delete_2fa_config("v1"), "v1"));
    assert!(db().get_2fa_config(Fetch::NoRows, &method).unwrap().is_none());
}

#[test]
fn a_faulty_second_factor_is_reported_for_the_first_thing_wrong() {
    let good = db().upsert_2fa_config(&two_factor(), "\"totp\"").params;
    let read = |column: usize, value: SqlValue| {
        let mut stored = row(&good);
        stored[column] = value;
        match db().get_2fa_config(Fetch::Row(stored), &method) {
            Err(DbError::Row(e)) => Some(e),
            _ => None,
        }
    };
    assert_eq!(read(1, text("totp")), Some(RowError::FromSqlConversionFailure(1)));
    assert_eq!(read(1, SqlValue::Null), Some(RowError::InvalidColumnType(1)));
    assert_eq!(read(2, text("1")), Some(RowError::InvalidColumnType(2)));
    assert_eq!(read(6, text("soon")), Some(RowError::FromSqlConversionFailure(6)));
    assert_eq!(read(7, SqlValue::Integer(1)), Some(RowError::InvalidColumnType(7)));
    assert_eq!(read(0, SqlValue::Null), Some(RowError::InvalidColumnType(0)));
    assert_eq!(read(5, SqlValue::Other), Some(RowError::InvalidColumnType(5)));
    assert_eq!(read(5, SqlValue::Garbled), Some(RowError::FromSqlConversionFailure(5)));
    assert_eq!(read(0, SqlValue::Garbled), Some(RowError::FromSqlConversionFailure(0)));
    assert_eq!(read(2, SqlValue::Garbled), Some(RowError::InvalidColumnType(2)));
    assert_eq!(read(7, text("soon")), None);
}

#[test]
fn an_answer_is_given_again_for_a_day() {
    let stored = db().store_idempotency_at("k", 201, "{}", &at(1_709_209_815));
    assert!(is_text(&stored.params[0], "k"));
    assert!(is_integer(&stored.params[1], 201));
    let answer = Fetch::Row(stored.params);
    let again = db().check_idempotency_at(&answer, &at(1_709_209_815 + 86_400)).unwrap();
    assert_eq!(again.key, "k");
    assert_eq!(again.status_code, 201);
    assert_eq!(again.response_body, "{}");
    assert_eq!(again.created_at, at(1_709_209_815));
    assert!(db().check_idempotency_at(&answer, &at(1_709_209_815 + 86_401)).is_none());
    assert!(db().check_idempotency(&answer).is_none());
    assert!(db().check_idempotency_at(&answer, &at(0)).is_some());
}

#[test]
fn an_answer_stored_just_now_is_given_again() {
    let stored = db().store_idempotency("k", 404, "gone");
    let again = db().check_idempotency(&Fetch::Row(stored.params)).unwrap();
    assert_eq!(again.status_code, 404);
    assert_eq!(again.response_body, "gone");
    assert!(one_text(&db().check_idempotency_query("k"), "k"));
}

#[test]
fn an_answer_that_cannot_be_read_is_not_given_again() {
    let now = at(1_709_209_815);
    let time = || text("2024-02-29T12:30:15+00:00");
    assert!(db().check_idempotency_at(&Fetch::NoRows, &now).is_none());
    assert!(db().check_idempotency_at(&Fetch::Failed("x".to_string()), &now).is_none());
    let row = |key: SqlValue, status: SqlValue, body: SqlValue, created: SqlValue| {
        Fetch::Row(vec![key, status, body, created])
    };
    let ok = row(text("k"), SqlValue::Integer(65_737), text("b"), time());
    assert_eq!(db().check_idempotency_at(&ok, &now).unwrap().status_code, 201);
    let bad = row(text("k"), text("201"), text("b"), time());
    assert!(db().check_idempotency_at(&bad, &now).is_none());
    let bad = row(text("k"), SqlValue::Integer(201), text("b"), text("now"));
    assert!(db().check_idempotency_at(&bad, &now).is_none());
    let bad = row(SqlValue::Null, SqlValue::Integer(201), text("b"), time());
    assert!(db().check_idempotency_at(&bad, &now).is_none());
}

#[test]
fn a_token_takes_its_owner_off_the_list() {
    let (token, statement) = db().generate_unsubscribe_token("ann");
    assert!(is_text(&statement.params[0], &token));
    assert!(is_text(&statement.params[1], "ann"));
    assert!(one_text(&db().process_unsubscribe_query(&token), &token));
    let answer = Fetch::Row(row(&statement.params[1..2]));
    let (owner, step) = db().process_unsubscribe(&answer).unwrap();
    assert_eq!(owner, "ann");
    assert_eq!(step.sql, "INSERT OR IGNORE INTO unsubscribed_users (owner) VALUES (?1)");
    assert!(one_text(&step, "ann"));
    assert_eq!(db().process_unsubscribe_done(owner, None), Ok("ann".to_string()));
    let failed = db().process_unsubscribe_done("ann".to_string(), Some("full".to_string()));
    assert_eq!(failed, Err("full".to_string()));
}

#[test]
fn a_token_without_owner_is_invalid() {
    let message = "invalid or expired unsubscribe token";
    for answer in [
        Fetch::NoRows,
        Fetch::Failed("locked".to_string()),
        Fetch::Row(vec![SqlValue::Null]),
        Fetch::Row(Vec::new()),
    ] {
        assert!(matches!(db().process_unsubscribe(&answer), Err(words) if words == message));
    }
}

#[test]
fn fresh_tokens_are_random_identifiers() {
    let first = db().generate_unsubscribe_token("ann").0;
    let second = db().generate_unsubscribe_token("ann").0;
    assert_ne!(first, second);
    for token in [first, second] {
        let chars: Vec<char> = token.chars().collect();
        assert_eq!(chars.len(), 36);
        for (i, c) in chars.iter().enumerate() {
            if [8, 13, 18, 23].contains(&i) {
                assert_eq!(*c, '-');
            } else {
                assert!(c.is_ascii_digit() || ('a'..='f').contains(c));
            }
        }
        assert_eq!(chars[14], '4');
        assert!(['8', '9', 'a', 'b'].contains(&chars[19]));
    }
}

#[test]
fn only_a_row_means_unsubscribed() {
    assert!(db().is_unsubscribed(&Fetch::Row(vec![SqlValue::Integer(1)])));
    assert!(!db().is_unsubscribed(&Fetch::NoRows));
    assert!(!db().is_unsubscribed(&Fetch::Failed("locked".to_string())));
    assert!(one_text(&db().is_unsubscribed_query("ann"), "ann"));
    let kept = db().store_unsubscribe_token_at("t", "ann", &at(1_709_209_815));
    assert!(is_text(&kept.params[2], "2024-02-29T12:30:15+00:00"));
    assert_eq!(db().store_unsubscribe_token("t", "ann").params.len(), 3);
}

fn entry(details: Option<&str>) -> AuditLogEntry {
    AuditLogEntry {
        id: 0,
        timestamp: at(1_709_209_815),
        user_id: "ann".to_string(),
        action: "create".to_string(),
        resource: "vault".to_string(),
        result: "success".to_string(),
        ip_address: "::1".to_string(),
        details: details.map(String::from),
    }
}

fn open_query() -> AuditLogQuery {
    AuditLogQuery {
        user_id: None,
        action: None,
        resource: None,
        result: None,
        after: None,
        before: None,
        limit: None,
        offset: None,
    }
}

#[test]
fn an_audit_entry_is_stored_and_read_back_under_its_number() {
    let statement = db().insert_audit_log(&entry(Some("{\"a\":1}")));
    assert_eq!(statement.params.len(), 7);
    let mut stored = vec![SqlValue::Integer(12)];
    stored.extend(row(&statement.params));
    let entries =
        db().query_audit_logs(FetchAll { rows: vec![stored], failed: None }).unwrap();
    assert_eq!(entries.len(), 1);
    assert_eq!(entries[0].id, 12);
    assert_eq!(entries[0].timestamp, at(1_709_209_815));
    assert_eq!(entries[0].user_id, "ann");
    assert_eq!(entries[0].action, "create");
    assert_eq!(entries[0].resource, "vault");
    assert_eq!(entries[0].result, "success");
    assert_eq!(entries[0].ip_address, "::1");
    assert_eq!(entries[0].details.as_deref(), Some("{\"a\":1}"));
}

#[test]
fn details_that_are_no_json_count_as_none() {
    for (details, kept) in
        [(None, None), (Some("{"), None), (Some("[1]"), Some("[1]")), (Some(""), None)]
    {
        let mut stored = vec![SqlValue::Integer(1)];
        stored.extend(row(&db().insert_audit_log(&entry(details)).params));
        let entries =
            db().query_audit_logs(FetchAll { rows: vec![stored], failed: None }).unwrap();
        assert_eq!(entries[0].details.as_deref(), kept);
    }
}

#[test]
fn a_faulty_audit_entry_is_reported() {
    let mut good = vec![SqlValue::Integer(1)];
    good.extend(row(&db().insert_audit_log(&entry(None)).params));
    let read = |column: usize, value: SqlValue| {
        let mut bad = row(&good);
        bad[column] = value;
        match db().query_audit_logs(FetchAll { rows: vec![row(&good), bad], failed: None }) {
            Err(DbError::Row(e)) => Some(e),
            _ => None,
        }
    };
    assert_eq!(read(1, text("now")), Some(RowError::FromSqlConversionFailure(1)));
    assert_eq!(read(7, SqlValue::Integer(1)), Some(RowError::InvalidColumnType(7)));
    assert_eq!(read(0, text("1")), Some(RowError::InvalidColumnType(0)));
    assert_eq!(read(6, SqlValue::Null), Some(RowError::InvalidColumnType(6)));
    assert_eq!(read(6, text("::2")), None);
    let stopped = FetchAll { rows: Vec::new(), failed: Some("gone".to_string()) };
    assert!(matches!(
        db().query_audit_logs(stopped),
        Err(DbError::Driver(words)) if words == "gone"
    ));
}

#[test]
fn an_open_audit_query_asks_for_the_first_hundred() {
    let statement = db().query_audit_logs_query(&open_query());
    assert_eq!(
        statement.sql,
        "SELECT id, timestamp, user_id, action, resource, result, ip_address, details \
         FROM audit_logs WHERE 1=1 ORDER BY timestamp DESC LIMIT ? OFFSET ?"
    );
    assert_eq!(statement.params.len(), 2);
    assert!(is_integer(&statement.params[0], 100));
    assert!(is_integer(&statement.params[1], 0));
}

#[test]
fn a_full_audit_query_binds_each_restriction() {
    let query = AuditLogQuery {
        user_id: Some("ann".to_string()),
        action: Some("create".to_string()),
        resource: Some("vault".to_string()),
        result: Some("failure".to_string()),
        after: Some(at(0)),
        before: Some(at(1_709_209_815)),
        limit: Some(5),
        offset: Some(10),
    };
    let statement = db().query_audit_logs_query(&query);
    assert_eq!(
        statement.sql,
        "SELECT id, timestamp, user_id, action, resource, result, ip_address, details \
         FROM audit_logs WHERE 1=1 AND user_id = ? AND action = ? AND resource = ? \
         AND result = ? AND timestamp >= ? AND timestamp <= ? \
         ORDER BY timestamp DESC LIMIT ? OFFSET ?"
    );
    let texts = [
        "ann",
        "create",
        "vault",
        "failure",
        "1970-01-01T00:00:00+00:00",
        "2024-02-29T12:30:15+00:00",
    ];
    for (value, expected) in statement.params.iter().zip(texts) {
        assert!(is_text(value, expected));
    }
    assert!(is_integer(&statement.params[6], 5));
    assert!(is_integer(&statement.params[7], 10));
    assert_eq!(statement.params.len(), 8);
    assert_eq!(statement.sql.matches('?').count(), 8);
}

#[test]
fn some_restrictions_of_an_audit_query() {
    let query =
        AuditLogQuery { action: Some("x".to_string()), before: Some(at(0)), ..open_query() };
    let statement = db().query_audit_logs_query(&query);
    assert!(statement.sql.contains("WHERE 1=1 AND action = ? AND timestamp <= ? ORDER BY"));
    assert_eq!(statement.params.len(), 4);
    assert_eq!(statement.sql.matches('?').count(), 4);
}

#[test]
fn old_audit_entries_are_removed() {
    let statement =
        db().purge_old_audit_logs_at(30, &at(1_709_209_815 + 30 * 86_400)).unwrap();
    assert_eq!(statement.sql, "DELETE FROM audit_logs WHERE timestamp < ?1");
    assert!(one_text(&statement, "2024-02-29T12:30:15+00:00"));
    assert!(db().purge_old_audit_logs_at(1, &at(MIN_SECS)).is_none());
    assert!(db().purge_old_audit_logs(i64::MAX).is_none());
    assert!(db().purge_old_audit_logs(30).is_some());
}

fn key(row: &[SqlValue]) -> String {
    format!("{:?}", row[0])
}

fn put(table: &mut Vec<Vec<SqlValue>>, row: Vec<SqlValue>) {
    table.retain(|other| key(other) != key(&row));
    table.push(row);
}

#[test]
fn the_enabled_policies_are_the_last_stored() {
    let mut table: Vec<Vec<SqlValue>> = Vec::new();
    for (vault_id, enabled, extension) in
        [(1, true, 10), (2, true, 20), (1, false, 11), (3, false, 30), (3, true, 31), (2, true, 21)]
    {
        let stored = TtlInsurancePolicy {
            vault_id,
            enabled,
            extension_seconds: extension,
            ..policy()
        };
        put(&mut table, db().upsert_insurance_policy(&stored).params);
    }
    let rows = table.iter().filter(|r| is_integer(&r[3], 1)).map(|r| row(r)).collect();
    let mut found: Vec<(u64, u64)> = db()
        .all_enabled_insurance_policies(FetchAll { rows, failed: None })
        .unwrap()
        .iter()
        .map(|p| (p.vault_id, p.extension_seconds))
        .collect();
    found.sort();
    assert_eq!(found, [(2, 21), (3, 31)]);
}

fn mark_deleted(table: &mut [Vec<SqlValue>], statement: &Statement) {
    for row in table {
        if format!("{:?}", row[0]) == format!("{:?}", statement.params[1])
            && matches!(row[4], SqlValue::Null)
        {
            row[4] = copy(&statement.params[0]);
        }
    }
}

#[test]
fn a_deleted_reminder_keeps_its_first_time_until_it_is_stored_again() {
    let prefs = |hours: u32| ReminderPreferences {
        vault_id: 3,
        channels: vec!["email".to_string()],
        hours_before_expiry: hours,
        frequency: "daily".to_string(),
        deleted_at: Some(at(1)),
    };
    let store = |table: &mut Vec<Vec<SqlValue>>, hours: u32| {
        let mut stored = db().upsert(&prefs(hours), "[\"email\"]", "\"daily\"").params;
        stored.push(SqlValue::Null);
        put(table, stored);
    };
    let shown = |table: &[Vec<SqlValue>]| {
        let rows = table.iter().map(|r| row(r)).collect();
        db().all_reminders_including_deleted(FetchAll { rows, failed: None }, &words, &word)
            .unwrap()
    };
    let mut table: Vec<Vec<SqlValue>> = Vec::new();
    assert!(shown(&table).is_empty());
    store(&mut table, 5);
    assert_eq!(shown(&table)[0].deleted_at, None);
    mark_deleted(&mut table, &db().soft_delete_reminder_at(3, &at(100)));
    mark_deleted(&mut table, &db().soft_delete_reminder_at(3, &at(200)));
    mark_deleted(&mut table, &db().soft_delete_reminder_at(4, &at(50)));
    let reminders = shown(&table);
    assert_eq!(reminders.len(), 1);
    assert_eq!(reminders[0].deleted_at, Some(at(100)));
    assert_eq!(reminders[0].hours_before_expiry, 5);
    assert_eq!(reminders[0].channels, ["email"]);
    store(&mut table, 6);
    let reminders = shown(&table);
    assert_eq!(reminders.len(), 1);
    assert_eq!(reminders[0].deleted_at, None);
    assert_eq!(reminders[0].hours_before_expiry, 6);
}

#[test]
fn the_last_second_factor_of_a_vault_is_read() {
    let mut table: Vec<Vec<SqlValue>> = Vec::new();
    put(&mut table, db().upsert_2fa_config(&two_factor(), "\"totp\"").params);
    let other = TwoFactorConfig {
        method: "sms".to_string(),
        secret: None,
        verified_at: Some(at(7)),
        ..two_factor()
    };
    put(&mut table, db().upsert_2fa_config(&other, "\"sms\"").params);
    assert_eq!(table.len(), 1);
    let read = db().get_2fa_config(Fetch::Row(row(&table[0])), &method).unwrap().unwrap();
    assert_eq!(read.method, "sms");
    assert_eq!(read.secret, None);
    assert_eq!(read.verified_at, Some(at(7)));
}

#[test]
fn the_last_policy_and_activity_are_got() {
    let mut policies: Vec<Vec<SqlValue>> = Vec::new();
    let mut activity: Vec<Vec<SqlValue>> = Vec::new();
    for (id, enabled, secs) in [(1, true, 10), (2, true, 20), (1, false, 30)] {
        let stored = TtlInsurancePolicy { vault_id: id, enabled, ..policy() };
        put(&mut policies, db().upsert_insurance_policy(&stored).params);
        put(&mut activity, db().upsert_owner_activity(id, at(secs)).params);
    }
    let found = |table: &[Vec<SqlValue>], id: i64| {
        table.iter().find(|r| is_integer(&r[0], id)).map(|r| row(r)).unwrap()
    };
    let read = db().get_insurance_policy(Fetch::Row(found(&policies, 1))).unwrap().unwrap();
    assert!(!read.enabled);
    let last = row(&found(&activity, 1)[1..]);
    assert_eq!(db().get_owner_last_active_at(Fetch::Row(last)).unwrap(), Some(at(30)));
    let last = row(&found(&activity, 2)[1..]);
    assert_eq!(db().get_owner_last_active_at(Fetch::Row(last)).unwrap(), Some(at(20)));
}

#[test]
fn the_last_subscription_is_got_until_it_is_removed() {
    let mut table: Vec<Vec<SqlValue>> = Vec::new();
    for owner in ["ann", "bob"] {
        let sub = Subscription {
            vault_id: 5,
            owner: owner.to_string(),
            channels: vec!["push".to_string()],
            frequency: "weekly".to_string(),
        };
        put(&mut table, db().upsert_subscription(&sub, "[\"push\"]", "\"weekly\"").params);
    }
    assert_eq!(table.len(), 1);
    let answer = Fetch::Row(row(&table[0]));
    let read = db().get_subscription(answer, &words, &word).unwrap().unwrap();
    assert_eq!(read.owner, "bob");
    let removal = db().delete_subscription(5);
    table.retain(|r| key(r) != key(&removal.params));
    assert!(table.is_empty());
}

#[test]
fn the_last_answer_for_a_key_is_given_again() {
    let mut table: Vec<Vec<SqlValue>> = Vec::new();
    for (name, status, secs) in [("k", 200, 100), ("other", 201, 150), ("k", 500, 200)] {
        put(&mut table, db().store_idempotency_at(name, status, "b", &at(secs)).params);
    }
    let answer = |name: &str| {
        Fetch::Row(row(table.iter().find(|r| is_text(&r[0], name)).unwrap()))
    };
    let now = at(86_500);
    assert_eq!(db().check_idempotency_at(&answer("k"), &now).unwrap().status_code, 500);
    assert_eq!(db().check_idempotency_at(&answer("other"), &now).unwrap().status_code, 201);
    assert!(db().check_idempotency_at(&answer("other"), &at(86_551)).is_none());
}

#[test]
fn a_used_token_still_leads_to_its_owner() {
    let mut tokens: Vec<Vec<SqlValue>> = Vec::new();
    let mut gone: Vec<Vec<SqlValue>> = Vec::new();
    for (token, owner) in [("t1", "ann"), ("t2", "bob"), ("t1", "cid")] {
        put(&mut tokens, db().store_unsubscribe_token_at(token, owner, &at(1)).params);
    }
    for _ in 0..2 {
        let kept = tokens.iter().find(|r| is_text(&r[0], "t1")).unwrap();
        let (owner, step) = db().process_unsubscribe(&Fetch::Row(row(&kept[1..2]))).unwrap();
        assert_eq!(owner, "cid");
        put(&mut gone, step.params);
    }
    let answer = |owner: &str| match gone.iter().any(|r| is_text(&r[0], owner)) {
        true => Fetch::Row(vec![SqlValue::Integer(1)]),
        false => Fetch::NoRows,
    };
    assert!(db().is_unsubscribed(&answer("cid")));
    assert!(!db().is_unsubscribed(&answer("ann")));
    assert!(!db().is_unsubscribed(&answer("bob")));
}

#[test]
fn a_page_of_the_audit_log_holds_the_newest_that_were_asked_for() {
    let mut table: Vec<Vec<SqlValue>> = Vec::new();
    for (id, user, secs) in
        [(1, "ann", 100), (2, "bob", 400), (3, "ann", 300), (4, "ann", 200), (5, "ann", 50)]
    {
        let stored = AuditLogEntry {
            user_id: user.to_string(),
            timestamp: at(secs),
            ..entry(None)
        };
        let mut values = vec![SqlValue::Integer(id)];
        values.extend(db().insert_audit_log(&stored).params);
        table.push(values);
    }
    let time = |r: &[SqlValue]| match &r[1] {
        SqlValue::Text(t) => t.clone(),
        other => panic!("{other:?}"),
    };
    let purge = db().purge_old_audit_logs_at(0, &at(100)).unwrap();
    table.retain(|r| match &purge.params[0] {
        SqlValue::Text(cutoff) => time(r) >= *cutoff,
        _ => true,
    });
    assert_eq!(table.len(), 4);
    let query = AuditLogQuery {
        user_id: Some("ann".to_string()),
        limit: Some(2),
        offset: Some(1),
        ..open_query()
    };
    let statement = db().query_audit_logs_query(&query);
    assert!(is_text(&statement.params[0], "ann"));
    table.retain(|r| is_text(&r[2], "ann"));
    table.sort_by_key(|r| std::cmp::Reverse(time(r)));
    let rows = table.iter().skip(1).take(2).map(|r| row(r)).collect();
    let ids: Vec<i64> = db()
        .query_audit_logs(FetchAll { rows, failed: None })
        .unwrap()
        .iter()
        .map(|e| e.id)
        .collect();
    assert_eq!(ids, [4, 1]);
}
