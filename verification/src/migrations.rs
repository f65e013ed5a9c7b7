//! Bringing the database to the current schema, one numbered migration after the other.
//!
//! A run is a sequence of requests to the database. `MigrationStage::action` says what to ask of
//! it, and `ran` and `answered` say how the run goes on.

use crate::db::Db;
use crate::sql::{
    text_param, time_param, time_value, Fetch, SqlValue, SqlView, Statement, StatementView,
};
use crate::timestamp::Timestamp;
use vstd::prelude::*;

verus! {

pub const BOOTSTRAP_SQL: &'static str = "CREATE TABLE IF NOT EXISTS schema_migrations (
    version    TEXT PRIMARY KEY,
    applied_at TEXT NOT NULL
);";

pub const INITIAL_TABLES_SQL: &'static str = "CREATE TABLE IF NOT EXISTS reminder_preferences (
    vault_id             INTEGER PRIMARY KEY,
    channels             TEXT NOT NULL,
    hours_before_expiry  INTEGER NOT NULL,
    frequency            TEXT NOT NULL
);
CREATE TABLE IF NOT EXISTS ttl_insurance_policies (
    vault_id                      INTEGER PRIMARY KEY,
    extension_seconds             INTEGER NOT NULL,
    inactivity_threshold_seconds  INTEGER NOT NULL,
    enabled                        INTEGER NOT NULL,
    purchased_at                   TEXT NOT NULL,
    last_extended_at               TEXT
);
CREATE TABLE IF NOT EXISTS owner_activity (
    owner_id       INTEGER PRIMARY KEY,
    last_active_at TEXT NOT NULL
);
CREATE TABLE IF NOT EXISTS idempotency_keys (
    key           TEXT PRIMARY KEY,
    status_code   INTEGER NOT NULL,
    response_body TEXT NOT NULL,
    created_at    TEXT NOT NULL
);
CREATE TABLE IF NOT EXISTS unsubscribe_tokens (
    token      TEXT PRIMARY KEY,
    owner      TEXT NOT NULL,
    created_at TEXT NOT NULL
);
CREATE TABLE IF NOT EXISTS unsubscribed_users (
    owner TEXT PRIMARY KEY
);";

pub const REMINDER_DELETION_SQL: &'static str = "ALTER TABLE reminder_preferences ADD COLUMN deleted_at TEXT;";

pub const AUDIT_TABLE_SQL: &'static str = "CREATE TABLE IF NOT EXISTS audit_logs (
    id         INTEGER PRIMARY KEY AUTOINCREMENT,
    timestamp  TEXT NOT NULL,
    user_id    TEXT NOT NULL DEFAULT '',
    action     TEXT NOT NULL,
    resource   TEXT NOT NULL DEFAULT '',
    result     TEXT NOT NULL DEFAULT 'success',
    ip_address TEXT NOT NULL DEFAULT '',
    details    TEXT
);
CREATE INDEX IF NOT EXISTS idx_audit_logs_timestamp ON audit_logs(timestamp);
CREATE INDEX IF NOT EXISTS idx_audit_logs_user_id   ON audit_logs(user_id);
CREATE INDEX IF NOT EXISTS idx_audit_logs_action    ON audit_logs(action);";

pub const TWO_FACTOR_TABLE_SQL: &'static str = "CREATE TABLE IF NOT EXISTS two_factor_config (
    vault_id     TEXT PRIMARY KEY,
    method       TEXT NOT NULL,
    enabled      INTEGER NOT NULL DEFAULT 0,
    secret       TEXT,
    phone        TEXT,
    email        TEXT,
    created_at   TEXT NOT NULL,
    verified_at  TEXT
);";

pub const SUBSCRIPTION_TABLE_SQL: &'static str = "CREATE TABLE IF NOT EXISTS vault_subscriptions (
    vault_id   INTEGER PRIMARY KEY,
    owner      TEXT NOT NULL,
    channels   TEXT NOT NULL,
    frequency  TEXT NOT NULL
);";

pub const SELECT_MIGRATION_SQL: &'static str = "SELECT 1 FROM schema_migrations WHERE version = ?1";

pub const RECORD_MIGRATION_SQL: &'static str = "INSERT INTO schema_migrations (version, applied_at) VALUES (?1, ?2)";

/// The number of migrations.
pub const MIGRATION_COUNT: usize = 5;

/// The version of a migration, by its place in the order in which they are applied.
pub open spec fn migration_version(place: int) -> Seq<char> {
    if place == 0 {
        "1"@
    } else if place == 1 {
        "2"@
    } else if place == 2 {
        "3"@
    } else if place == 3 {
        "4"@
    } else {
        "5"@
    }
}

/// The statements of a migration, by its place in the order in which they are applied.
pub open spec fn migration_sql(place: int) -> Seq<char> {
    if place == 0 {
        INITIAL_TABLES_SQL@
    } else if place == 1 {
        REMINDER_DELETION_SQL@
    } else if place == 2 {
        AUDIT_TABLE_SQL@
    } else if place == 3 {
        TWO_FACTOR_TABLE_SQL@
    } else {
        SUBSCRIPTION_TABLE_SQL@
    }
}

/// The version of the migration at a place.
pub fn version_at(place: usize) -> (version: &'static str)
    requires
        place < MIGRATION_COUNT,
    ensures
        version@ == migration_version(place as int),
{
    match place {
        0 => "1",
        1 => "2",
        2 => "3",
        3 => "4",
        _ => "5",
    }
}

/// The statements of the migration at a place.
pub fn sql_at(place: usize) -> (sql: &'static str)
    requires
        place < MIGRATION_COUNT,
    ensures
        sql@ == migration_sql(place as int),
{
    match place {
        0 => INITIAL_TABLES_SQL,
        1 => REMINDER_DELETION_SQL,
        2 => AUDIT_TABLE_SQL,
        3 => TWO_FACTOR_TABLE_SQL,
        _ => SUBSCRIPTION_TABLE_SQL,
    }
}

/// How far a run of the migrations has come.
#[derive(Debug)]
pub enum MigrationStage {
    /// The table that records the migrations is to be made.
    Bootstrap,
    /// The database is to be asked whether the migration at this place was applied.
    Lookup(usize),
    /// The migration at this place is to be applied.
    Apply(usize),
    /// It is to be recorded that the migration at this place was applied.
    Record(usize),
    /// All migrations are applied.
    Done,
    /// The database reported an error, in these words, and the run has ended.
    Failed(String),
}

/// What to ask of the database next.
#[derive(Debug)]
pub enum MigrationAction {
    /// Run these statements.
    Batch(String),
    /// Ask for one row.
    Query(Statement),
    /// Run one statement with values.
    Execute(Statement),
    /// Nothing: the run has ended well.
    Finish,
    /// Nothing: the run has ended with this error.
    GiveUp(String),
}

/// What is asked of the database, as characters.
pub enum MigrationActionView {
    Batch(Seq<char>),
    Query(StatementView),
    Execute(StatementView),
    Finish,
    GiveUp(Seq<char>),
}

impl View for MigrationAction {
    type V = MigrationActionView;

    open spec fn view(&self) -> MigrationActionView {
        match *self {
            MigrationAction::Batch(sql) => MigrationActionView::Batch(sql@),
            MigrationAction::Query(statement) => MigrationActionView::Query(statement@),
            MigrationAction::Execute(statement) => MigrationActionView::Execute(statement@),
            MigrationAction::Finish => MigrationActionView::Finish,
            MigrationAction::GiveUp(words) => MigrationActionView::GiveUp(words@),
        }
    }
}

/// The query whether a migration was applied.
pub open spec fn lookup_statement(version: Seq<char>) -> StatementView {
    StatementView { sql: SELECT_MIGRATION_SQL@, params: seq![SqlView::Text(version)] }
}

/// The statement that records that a migration was applied.
pub open spec fn record_statement(version: Seq<char>, now: Timestamp) -> StatementView {
    StatementView {
        sql: RECORD_MIGRATION_SQL@,
        params: seq![SqlView::Text(version), time_value(now)],
    }
}

/// The stage that looks at the migration at a place, or the end after the last one.
pub open spec fn lookup_or_done(place: int) -> MigrationStage {
    if place < MIGRATION_COUNT {
        MigrationStage::Lookup(place as usize)
    } else {
        MigrationStage::Done
    }
}

impl MigrationStage {
    /// Whether the places that a stage speaks of exist.
    pub open spec fn well_formed(self) -> bool {
        match self {
            MigrationStage::Lookup(place) => place < MIGRATION_COUNT,
            MigrationStage::Apply(place) => place < MIGRATION_COUNT,
            MigrationStage::Record(place) => place < MIGRATION_COUNT,
            _ => true,
        }
    }

    /// Whether statements are run at this stage.
    pub open spec fn runs(self) -> bool {
        self is Bootstrap || self is Apply || self is Record
    }

    /// What is asked of the database at this stage.
    pub open spec fn asks(self, now: Timestamp) -> MigrationActionView {
        match self {
            MigrationStage::Bootstrap => MigrationActionView::Batch(BOOTSTRAP_SQL@),
            MigrationStage::Lookup(place) => MigrationActionView::Query(
                lookup_statement(migration_version(place as int)),
            ),
            MigrationStage::Apply(place) => MigrationActionView::Batch(migration_sql(place as int)),
            MigrationStage::Record(place) => MigrationActionView::Execute(
                record_statement(migration_version(place as int), now),
            ),
            MigrationStage::Done => MigrationActionView::Finish,
            MigrationStage::Failed(words) => MigrationActionView::GiveUp(words@),
        }
    }

    /// The stage after statements were run, with the words of the error if they failed: an error
    /// ends the run.
    pub open spec fn after_running(self, failed: Option<String>) -> MigrationStage {
        match (self, failed) {
            (_, Some(words)) => MigrationStage::Failed(words),
            (MigrationStage::Bootstrap, None) => lookup_or_done(0),
            (MigrationStage::Apply(place), None) => MigrationStage::Record(place),
            (MigrationStage::Record(place), None) => lookup_or_done(place + 1),
            (stage, None) => stage,
        }
    }

    /// The stage after the database said whether the migration at a place was applied: one that
    /// was is skipped.
    pub open spec fn after_lookup(place: int, applied: bool) -> MigrationStage {
        if applied {
            lookup_or_done(place + 1)
        } else {
            MigrationStage::Apply(place as usize)
        }
    }

    /// What to ask of the database at this stage, at a given time.
    pub fn action_at(&self, now: &Timestamp) -> (action: MigrationAction)
        requires
            self.well_formed(),
        ensures
            action@ == self.asks(*now),
    {
        match self {
            MigrationStage::Bootstrap => MigrationAction::Batch(BOOTSTRAP_SQL.to_owned()),
            MigrationStage::Lookup(place) => {
                let mut params: Vec<SqlValue> = Vec::new();
                params.push(text_param(version_at(*place)));
                let statement: Statement = Statement {
                    sql: SELECT_MIGRATION_SQL.to_owned(),
                    params,
                };
                assert(statement@ =~= lookup_statement(migration_version(*place as int)));
                MigrationAction::Query(statement)
            },
            MigrationStage::Apply(place) => MigrationAction::Batch(sql_at(*place).to_owned()),
            MigrationStage::Record(place) => {
                let mut params: Vec<SqlValue> = Vec::new();
                params.push(text_param(version_at(*place)));
                params.push(time_param(now));
                let statement: Statement = Statement {
                    sql: RECORD_MIGRATION_SQL.to_owned(),
                    params,
                };
                assert(statement@ =~= record_statement(migration_version(*place as int), *now));
                MigrationAction::Execute(statement)
            },
            MigrationStage::Done => MigrationAction::Finish,
            MigrationStage::Failed(words) => MigrationAction::GiveUp(words.clone()),
        }
    }

    /// What to ask of the database at this stage, at the time that the clock tells.
    pub fn action(&self) -> (action: MigrationAction)
        requires
            self.well_formed(),
        ensures
            exists|now: Timestamp| now.told_by_clock() && action@ == #[trigger] self.asks(now),
    {
        let now: Timestamp = Timestamp::now();
        self.action_at(&now)
    }

    /// Goes on after statements were run, with the words of the error if they failed.
    pub fn ran(self, failed: Option<String>) -> (next: MigrationStage)
        requires
            self.well_formed(),
            self.runs(),
        ensures
            next == self.after_running(failed),
            next.well_formed(),
    {
        match failed {
            Some(words) => MigrationStage::Failed(words),
            None => match self {
                MigrationStage::Apply(place) => MigrationStage::Record(place),
                MigrationStage::Record(place) => if place + 1 < MIGRATION_COUNT {
                    MigrationStage::Lookup(place + 1)
                } else {
                    MigrationStage::Done
                },
                _ => MigrationStage::Lookup(0),
            },
        }
    }

    /// Goes on after the database was asked whether the migration at this stage's place was
    /// applied. It was if there is a row; a database that fails counts as a no.
    pub fn answered(self, answer: &Fetch) -> (next: MigrationStage)
        requires
            self.well_formed(),
            self is Lookup,
        ensures
            next == MigrationStage::after_lookup(self->Lookup_0 as int, *answer is Row),
            next.well_formed(),
    {
        let place: usize = match self {
            MigrationStage::Lookup(place) => place,
            _ => 0,
        };
        match answer {
            Fetch::Row(_) => if place + 1 < MIGRATION_COUNT {
                MigrationStage::Lookup(place + 1)
            } else {
                MigrationStage::Done
            },
            _ => MigrationStage::Apply(place),
        }
    }
}

impl Db {
    /// Begins a run of the migrations.
    pub fn migrate(&self) -> (stage: MigrationStage)
        ensures
            stage == MigrationStage::Bootstrap,
            stage.well_formed(),
    {
        MigrationStage::Bootstrap
    }
}

/// What a database that never fails has recorded and has run.
#[verifier::ext_equal]
pub struct Ledger {
    /// The versions of the migrations that are recorded as applied.
    pub recorded: Set<Seq<char>>,
    /// The statements that were run, apart from the records.
    pub executed: Seq<Seq<char>>,
}

/// A database that never fails, after it did what a stage asks of it.
pub open spec fn performed(ledger: Ledger, stage: MigrationStage) -> Ledger {
    match stage {
        MigrationStage::Bootstrap => Ledger {
            executed: ledger.executed.push(BOOTSTRAP_SQL@),
            ..ledger
        },
        MigrationStage::Apply(place) => Ledger {
            executed: ledger.executed.push(migration_sql(place as int)),
            ..ledger
        },
        MigrationStage::Record(place) => Ledger {
            recorded: ledger.recorded.insert(migration_version(place as int)),
            ..ledger
        },
        _ => ledger,
    }
}

/// The stage after a database that never fails did what a stage asks of it.
pub open spec fn proceeded(ledger: Ledger, stage: MigrationStage) -> MigrationStage {
    match stage {
        MigrationStage::Lookup(place) => MigrationStage::after_lookup(
            place as int,
            ledger.recorded.contains(migration_version(place as int)),
        ),
        MigrationStage::Done => stage,
        MigrationStage::Failed(_) => stage,
        _ => stage.after_running(None),
    }
}

/// A run against a database that never fails, after a number of steps.
pub open spec fn run_for(ledger: Ledger, stage: MigrationStage, steps: nat) -> (
    Ledger,
    MigrationStage,
)
    decreases steps,
{
    if steps == 0 {
        (ledger, stage)
    } else {
        run_for(performed(ledger, stage), proceeded(ledger, stage), (steps - 1) as nat)
    }
}

/// The statements of the migrations from a place on that are not recorded, in order.
pub open spec fn missing_sql(recorded: Set<Seq<char>>, place: int) -> Seq<Seq<char>>
    decreases MIGRATION_COUNT - place,
{
    if place < 0 || place >= MIGRATION_COUNT {
        Seq::empty()
    } else if recorded.contains(migration_version(place)) {
        missing_sql(recorded, place + 1)
    } else {
        seq![migration_sql(place)] + missing_sql(recorded, place + 1)
    }
}

/// What is recorded once the migrations from a place on are too.
pub open spec fn all_recorded(recorded: Set<Seq<char>>, place: int) -> Set<Seq<char>> {
    recorded.union(
        Set::new(
            |version: Seq<char>|
                exists|k: int|
                    place <= k < MIGRATION_COUNT && #[trigger] migration_version(k) == version,
        ),
    )
}

/// Migrations at different places have different versions.
proof fn lemma_versions_differ(a: int, b: int)
    requires
        0 <= a < MIGRATION_COUNT,
        0 <= b < MIGRATION_COUNT,
        a != b,
    ensures
        migration_version(a) != migration_version(b),
{
    reveal_strlit("1");
    reveal_strlit("2");
    reveal_strlit("3");
    reveal_strlit("4");
    reveal_strlit("5");
    assert(migration_version(a)[0] != migration_version(b)[0]);
}

/// What is missing from a place on does not depend on earlier versions.
proof fn lemma_missing_after(recorded: Set<Seq<char>>, earlier: int, place: int)
    requires
        0 <= earlier < place,
        earlier < MIGRATION_COUNT,
    ensures
        missing_sql(recorded.insert(migration_version(earlier)), place) == missing_sql(
            recorded,
            place,
        ),
    decreases MIGRATION_COUNT - place,
{
    if place < MIGRATION_COUNT {
        lemma_versions_differ(earlier, place);
        lemma_missing_after(recorded, earlier, place + 1);
    }
}

/// From a place on a run applies what is missing, records it, and ends.
proof fn lemma_run_from(ledger: Ledger, place: int)
    requires
        0 <= place <= MIGRATION_COUNT,
    ensures
        exists|steps: nat| #[trigger]
            run_for(ledger, lookup_or_done(place), steps) == (
                Ledger {
                    recorded: all_recorded(ledger.recorded, place),
                    executed: ledger.executed + missing_sql(ledger.recorded, place),
                },
                MigrationStage::Done,
            ),
    decreases MIGRATION_COUNT - place,
{
    let stage = lookup_or_done(place);
    if place == MIGRATION_COUNT {
        assert(all_recorded(ledger.recorded, place) =~= ledger.recorded);
        assert(ledger.executed + missing_sql(ledger.recorded, place) =~= ledger.executed);
        assert(run_for(ledger, stage, 0) == (ledger, stage));
    } else {
        let version = migration_version(place);
        if ledger.recorded.contains(version) {
            lemma_run_from(ledger, place + 1);
            let rest = choose|steps: nat| #[trigger]
                run_for(ledger, lookup_or_done(place + 1), steps) == (
                    Ledger {
                        recorded: all_recorded(ledger.recorded, place + 1),
                        executed: ledger.executed + missing_sql(ledger.recorded, place + 1),
                    },
                    MigrationStage::Done,
                );
            assert(run_for(ledger, stage, rest + 1) == run_for(
                ledger,
                lookup_or_done(place + 1),
                rest,
            ));
            assert(all_recorded(ledger.recorded, place) =~= all_recorded(
                ledger.recorded,
                place + 1,
            ));
        } else {
            let applied = Ledger { executed: ledger.executed.push(migration_sql(place)), ..ledger };
            let next = Ledger { recorded: ledger.recorded.insert(version), ..applied };
            lemma_run_from(next, place + 1);
            lemma_missing_after(ledger.recorded, place, place + 1);
            let rest = choose|steps: nat| #[trigger]
                run_for(next, lookup_or_done(place + 1), steps) == (
                    Ledger {
                        recorded: all_recorded(next.recorded, place + 1),
                        executed: next.executed + missing_sql(next.recorded, place + 1),
                    },
                    MigrationStage::Done,
                );
            let record = MigrationStage::Record(place as usize);
            let apply = MigrationStage::Apply(place as usize);
            assert(run_for(applied, record, rest + 1) == run_for(
                next,
                lookup_or_done(place + 1),
                rest,
            ));
            assert(run_for(ledger, apply, rest + 2) == run_for(applied, record, rest + 1));
            assert(run_for(ledger, stage, rest + 3) == run_for(ledger, apply, rest + 2));
            assert(all_recorded(ledger.recorded, place) =~= all_recorded(
                next.recorded,
                place + 1,
            ));
            assert(ledger.executed + missing_sql(ledger.recorded, place) =~= next.executed
                + missing_sql(next.recorded, place + 1));
        }
    }
}

/// Against a database that never fails a run ends, has run exactly the migrations that were not
/// recorded, in order, after the table of records was made, and has recorded all of them.
pub proof fn law_run_applies_what_is_missing(ledger: Ledger)
    ensures
        exists|steps: nat| #[trigger]
            run_for(ledger, MigrationStage::Bootstrap, steps) == (
                Ledger {
                    recorded: all_recorded(ledger.recorded, 0),
                    executed: ledger.executed.push(BOOTSTRAP_SQL@) + missing_sql(
                        ledger.recorded,
                        0,
                    ),
                },
                MigrationStage::Done,
            ),
{
    let next = Ledger { executed: ledger.executed.push(BOOTSTRAP_SQL@), ..ledger };
    lemma_run_from(next, 0);
    let rest = choose|steps: nat| #[trigger]
        run_for(next, lookup_or_done(0), steps) == (
            Ledger {
                recorded: all_recorded(next.recorded, 0),
                executed: next.executed + missing_sql(next.recorded, 0),
            },
            MigrationStage::Done,
        );
    assert(run_for(ledger, MigrationStage::Bootstrap, rest + 1) == run_for(
        next,
        lookup_or_done(0),
        rest,
    ));
}

/// A run after a run against a database that never fails applies nothing and records nothing: at
/// no step is a migration to be applied or recorded, so that the records stay as they were made,
/// and nothing is run but the statement that makes the table of records.
pub proof fn law_second_run_applies_nothing(first: Ledger, second: Ledger, steps: nat)
    requires
        second.recorded == all_recorded(first.recorded, 0),
    ensures
        missing_sql(second.recorded, 0) == Seq::<Seq<char>>::empty(),
        run_for(second, MigrationStage::Bootstrap, steps).1 !is Apply,
        run_for(second, MigrationStage::Bootstrap, steps).1 !is Record,
        run_for(second, MigrationStage::Bootstrap, steps).0.recorded == second.recorded,
        run_for(second, MigrationStage::Bootstrap, steps).0.executed == if steps == 0 {
            second.executed
        } else {
            second.executed.push(BOOTSTRAP_SQL@)
        },
{
    lemma_none_missing(first.recorded, 0);
    assert forall|place: int| 0 <= place < MIGRATION_COUNT implies second.recorded.contains(
        #[trigger] migration_version(place),
    ) by {}
    if steps > 0 {
        let next = performed(second, MigrationStage::Bootstrap);
        lemma_run_only_looks(next, lookup_or_done(0), (steps - 1) as nat);
    }
}

/// Where all migrations are recorded, a run only looks them up.
proof fn lemma_run_only_looks(ledger: Ledger, stage: MigrationStage, steps: nat)
    requires
        forall|place: int|
            0 <= place < MIGRATION_COUNT ==> ledger.recorded.contains(
                #[trigger] migration_version(place),
            ),
        stage is Lookup || stage is Done,
        stage.well_formed(),
    ensures
        run_for(ledger, stage, steps).1 is Lookup || run_for(ledger, stage, steps).1 is Done,
        run_for(ledger, stage, steps).0 == ledger,
    decreases steps,
{
    if steps > 0 {
        if let MigrationStage::Lookup(place) = stage {
            assert(ledger.recorded.contains(migration_version(place as int)));
        }
        lemma_run_only_looks(ledger, proceeded(ledger, stage), (steps - 1) as nat);
    }
}

/// Where all migrations are recorded, none is missing from a place on.
proof fn lemma_none_missing(recorded: Set<Seq<char>>, place: int)
    requires
        0 <= place <= MIGRATION_COUNT,
    ensures
        missing_sql(all_recorded(recorded, 0), place) == Seq::<Seq<char>>::empty(),
    decreases MIGRATION_COUNT - place,
{
    if place < MIGRATION_COUNT {
        assert(all_recorded(recorded, 0).contains(migration_version(place)));
        lemma_none_missing(recorded, place + 1);
    }
}

/// A migration is recorded only right after it ran without an error.
pub proof fn law_only_what_ran_is_recorded(
    stage: MigrationStage,
    failed: Option<String>,
    place: usize,
    applied: bool,
)
    requires
        stage.runs(),
    ensures
        stage.after_running(failed) == MigrationStage::Record(place) ==> stage
            == MigrationStage::Apply(place) && failed is None,
        MigrationStage::after_lookup(place as int, applied) !is Record,
{
}

/// A database that has recorded nothing gets all migrations, in order.
pub proof fn law_new_database_gets_all_migrations()
    ensures
        missing_sql(Set::empty(), 0) == Seq::new(
            MIGRATION_COUNT as nat,
            |place: int| migration_sql(place),
        ),
{
    reveal_with_fuel(missing_sql, 6);
    assert(missing_sql(Set::empty(), 0) =~= Seq::new(
        MIGRATION_COUNT as nat,
        |place: int| migration_sql(place),
    ));
}

} // verus!
