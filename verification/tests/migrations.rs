use ethos_vault::db::Db;
use ethos_vault::migrations::{MigrationAction, MigrationStage, MIGRATION_COUNT};
use ethos_vault::sql::{Fetch, SqlValue, Statement};
use ethos_vault::timestamp::Timestamp;

struct Database {
    recorded: Vec<String>,
    executed: Vec<String>,
    fail_on: Option<&'static str>,
    lookups_fail: bool,
}

impl Database {
    fn new() -> Database {
        Database {
            recorded: Vec::new(),
            executed: Vec::new(),
            fail_on: None,
            lookups_fail: false,
        }
    }

    fn failure(&self, sql: &str) -> Option<String> {
        match self.fail_on {
            Some(words) if sql.contains(words) => Some(format!("no {words}")),
            _ => None,
        }
    }

    fn run(&mut self) -> Result<(), String> {
        let mut stage = Db::open("test.db").0.migrate();
        loop {
            stage = match stage.action() {
                MigrationAction::Batch(sql) => {
                    let failed = self.failure(&sql);
                    if failed.is_none() {
                        self.executed.push(sql);
                    }
                    stage.ran(failed)
                }
                MigrationAction::Execute(statement) => {
                    let failed = self.failure(&statement.sql);
                    if failed.is_none() {
                        self.recorded.push(version(&statement));
                    }
                    stage.ran(failed)
                }
                MigrationAction::Query(statement) => {
                    let answer = if self.lookups_fail {
                        Fetch::Failed("locked".to_string())
                    } else if self.recorded.contains(&version(&statement)) {
                        Fetch::Row(vec![SqlValue::Integer(1)])
                    } else {
                        Fetch::NoRows
                    };
                    stage.answered(&answer)
                }
                MigrationAction::Finish => return Ok(()),
                MigrationAction::GiveUp(words) => return Err(words),
            };
        }
    }
}

fn version(statement: &Statement) -> String {
    match &statement.params[0] {
        SqlValue::Text(version) => version.clone(),
        other => panic!("{other:?}"),
    }
}

#[test]
fn a_new_database_gets_all_migrations_in_order() {
    let mut database = Database::new();
    assert_eq!(database.run(), Ok(()));
    assert_eq!(database.recorded, ["1", "2", "3", "4", "5"]);
    assert_eq!(database.executed.len(), MIGRATION_COUNT + 1);
    let words = [
        "schema_migrations",
        "reminder_preferences (",
        "ADD COLUMN deleted_at",
        "idx_audit_logs_action",
        "two_factor_config",
        "vault_subscriptions",
    ];
    for (sql, words) in database.executed.iter().zip(words) {
        assert!(sql.contains(words), "{sql}");
    }
    for table in ["ttl_insurance_policies", "owner_activity", "idempotency_keys"] {
        assert!(database.executed[1].contains(table));
    }
}

#[test]
fn a_second_run_applies_nothing() {
    let mut database = Database::new();
    assert_eq!(database.run(), Ok(()));
    database.executed.clear();
    assert_eq!(database.run(), Ok(()));
    assert_eq!(database.executed.len(), 1);
    assert_eq!(database.recorded.len(), MIGRATION_COUNT);
}

#[test]
fn a_run_applies_what_is_missing() {
    let mut database = Database::new();
    database.recorded = vec!["1".to_string(), "2".to_string(), "4".to_string()];
    assert_eq!(database.run(), Ok(()));
    assert_eq!(database.recorded, ["1", "2", "4", "3", "5"]);
    assert_eq!(database.executed.len(), 3);
}

#[test]
fn a_migration_that_fails_ends_the_run_and_is_not_recorded() {
    let mut database = Database::new();
    database.fail_on = Some("audit_logs");
    assert_eq!(database.run(), Err("no audit_logs".to_string()));
    assert_eq!(database.recorded, ["1", "2"]);
    database.fail_on = None;
    assert_eq!(database.run(), Ok(()));
    assert_eq!(database.recorded, ["1", "2", "3", "4", "5"]);
}

#[test]
fn without_the_table_of_records_nothing_is_applied() {
    let mut database = Database::new();
    database.fail_on = Some("CREATE TABLE IF NOT EXISTS schema_migrations");
    assert!(database.run().is_err());
    assert!(database.executed.is_empty());
}

#[test]
fn a_lookup_that_fails_counts_as_not_applied() {
    let mut database = Database::new();
    database.recorded = vec!["1".to_string()];
    database.lookups_fail = true;
    assert_eq!(database.run(), Ok(()));
    assert_eq!(database.executed.len(), MIGRATION_COUNT + 1);
}

#[test]
fn a_record_holds_the_version_and_the_time() {
    let now = Timestamp::new(1_709_209_815, 0).unwrap();
    match MigrationStage::Record(1).action_at(&now) {
        MigrationAction::Execute(statement) => {
            assert_eq!(
                statement.sql,
                "INSERT INTO schema_migrations (version, applied_at) VALUES (?1, ?2)"
            );
            assert_eq!(version(&statement), "2");
            assert!(matches!(
                &statement.params[1],
                SqlValue::Text(time) if time == "2024-02-29T12:30:15+00:00"
            ));
        }
        other => panic!("{other:?}"),
    }
}
