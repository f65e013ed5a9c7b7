//! Insurance against a vault's release through inactivity, and when owners were last active.

use crate::db::Db;
use crate::sql::{
    flag_param, flag_value, int_at, int_column, is_first_fault, lemma_signed_bits, no_fault,
    opt_time_at, opt_time_column, opt_time_param, opt_time_value, rows_view, time_at, time_column,
    time_param, time_value, values_view, DbError, Fetch, FetchAll, RowError, SqlValue, SqlView,
    Statement, StatementView,
};
use crate::timestamp::{four_digit_year, Timestamp};
use vstd::prelude::*;

verus! {

/// A policy that extends a vault's time when its owner is inactive.
#[derive(Debug, Clone, Copy)]
pub struct TtlInsurancePolicy {
    pub vault_id: u64,
    pub extension_seconds: u64,
    pub inactivity_threshold_seconds: u64,
    pub enabled: bool,
    pub purchased_at: Timestamp,
    pub last_extended_at: Option<Timestamp>,
}

pub const UPSERT_POLICY_SQL: &'static str = "INSERT INTO ttl_insurance_policies (
    vault_id,
    extension_seconds,
    inactivity_threshold_seconds,
    enabled,
    purchased_at,
    last_extended_at
) VALUES (?1, ?2, ?3, ?4, ?5, ?6)
ON CONFLICT(vault_id) DO UPDATE SET
    extension_seconds = excluded.extension_seconds,
    inactivity_threshold_seconds = excluded.inactivity_threshold_seconds,
    enabled = excluded.enabled,
    purchased_at = excluded.purchased_at,
    last_extended_at = excluded.last_extended_at";

pub const SELECT_POLICY_SQL: &'static str = "SELECT vault_id, extension_seconds, inactivity_threshold_seconds, enabled, purchased_at, last_extended_at
FROM ttl_insurance_policies
WHERE vault_id = ?1";

pub const SELECT_ENABLED_POLICIES_SQL: &'static str = "SELECT vault_id, extension_seconds, inactivity_threshold_seconds, enabled, purchased_at, last_extended_at
FROM ttl_insurance_policies
WHERE enabled = 1";

pub const UPSERT_ACTIVITY_SQL: &'static str = "INSERT INTO owner_activity (owner_id, last_active_at)
VALUES (?1, ?2)
ON CONFLICT(owner_id) DO UPDATE SET
    last_active_at = excluded.last_active_at";

pub const SELECT_ACTIVITY_SQL: &'static str = "SELECT last_active_at
FROM owner_activity
WHERE owner_id = ?1";

/// The columns of a policy, in the order in which they are written and read.
pub open spec fn policy_columns(policy: TtlInsurancePolicy) -> Seq<SqlView> {
    seq![
        SqlView::Integer(policy.vault_id as i64),
        SqlView::Integer(policy.extension_seconds as i64),
        SqlView::Integer(policy.inactivity_threshold_seconds as i64),
        flag_value(policy.enabled),
        time_value(policy.purchased_at),
        opt_time_value(policy.last_extended_at),
    ]
}

/// The policy that a row holds, or the first thing wrong with it: the purchase time is looked at
/// first, then the time of the last extension, whether the policy is enabled, and the numbers.
pub open spec fn policy_in_row(row: Seq<SqlView>) -> Result<TtlInsurancePolicy, RowError> {
    match (
        time_column(row, 4, 0),
        opt_time_column(row, 5, 0),
        int_column(row, 3),
        int_column(row, 0),
        int_column(row, 1),
        int_column(row, 2),
    ) {
        (Err(e), _, _, _, _, _) => Err(e),
        (_, Err(e), _, _, _, _) => Err(e),
        (_, _, Err(e), _, _, _) => Err(e),
        (_, _, _, Err(e), _, _) => Err(e),
        (_, _, _, _, Err(e), _) => Err(e),
        (_, _, _, _, _, Err(e)) => Err(e),
        (
            Ok(purchased_at),
            Ok(last_extended_at),
            Ok(enabled),
            Ok(vault_id),
            Ok(extension),
            Ok(threshold),
        ) => Ok(
            TtlInsurancePolicy {
                vault_id: vault_id as u64,
                extension_seconds: extension as u64,
                inactivity_threshold_seconds: threshold as u64,
                enabled: enabled != 0,
                purchased_at,
                last_extended_at,
            },
        ),
    }
}

/// Whether the times of a policy have years of four digits.
pub open spec fn policy_is_storable(policy: TtlInsurancePolicy) -> bool {
    &&& four_digit_year(policy.purchased_at.secs())
    &&& policy.last_extended_at matches Some(t) ==> four_digit_year(t.secs())
}

/// What is wrong with a row that should hold a policy.
pub open spec fn policy_fault() -> spec_fn(Seq<SqlView>) -> Option<RowError> {
    |row: Seq<SqlView>|
        match policy_in_row(row) {
            Ok(_) => None,
            Err(e) => Some(e),
        }
}

/// Whether a statement stores a policy: it writes the policy's columns, and a row with these is
/// read as the policy, if its times have years of four digits.
pub open spec fn stores_policy(statement: Statement, policy: TtlInsurancePolicy) -> bool {
    &&& statement@ == (StatementView { sql: UPSERT_POLICY_SQL@, params: policy_columns(policy) })
    &&& policy_is_storable(policy) ==> policy_in_row(statement@.params) == Ok::<_, RowError>(policy)
}

/// Whether `policy` is what an answer with one row is read as.
pub open spec fn policy_got(
    answer: Fetch,
    policy: Result<Option<TtlInsurancePolicy>, DbError>,
) -> bool {
    match answer {
        Fetch::Row(row) => match policy_in_row(values_view(row@)) {
            Ok(p) => policy == Ok::<_, DbError>(Some(p)),
            Err(e) => policy == Err::<Option<TtlInsurancePolicy>, _>(DbError::Row(e)),
        },
        Fetch::NoRows => policy == Ok::<_, DbError>(None::<TtlInsurancePolicy>),
        Fetch::Failed(words) => policy == Err::<Option<TtlInsurancePolicy>, _>(
            DbError::Driver(words),
        ),
    }
}

/// Whether a statement notes when an owner was last active, which is read back if the year has
/// four digits.
pub open spec fn stores_activity(
    statement: Statement,
    owner_id: u64,
    last_active_at: Timestamp,
) -> bool {
    &&& statement@ == (StatementView {
        sql: UPSERT_ACTIVITY_SQL@,
        params: seq![SqlView::Integer(owner_id as i64), time_value(last_active_at)],
    })
    &&& four_digit_year(last_active_at.secs()) ==> time_column(seq![statement@.params[1]], 0, 0)
        == Ok::<_, RowError>(last_active_at)
}

/// Whether `last_active_at` is what an answer with one row is read as.
pub open spec fn activity_got(
    answer: Fetch,
    last_active_at: Result<Option<Timestamp>, DbError>,
) -> bool {
    match answer {
        Fetch::Row(row) => match time_column(values_view(row@), 0, 0) {
            Ok(t) => last_active_at == Ok::<_, DbError>(Some(t)),
            Err(e) => last_active_at == Err::<Option<Timestamp>, _>(DbError::Row(e)),
        },
        Fetch::NoRows => last_active_at == Ok::<_, DbError>(None::<Timestamp>),
        Fetch::Failed(words) => last_active_at == Err::<Option<Timestamp>, _>(
            DbError::Driver(words),
        ),
    }
}

/// Whether `policies` is what an answer with many rows is read as: one policy for each row, or the
/// error in the first row that has one, or else the error that the database stopped with.
pub open spec fn policies_read(
    answer: FetchAll,
    policies: Result<Vec<TtlInsurancePolicy>, DbError>,
) -> bool {
    match policies {
        Err(DbError::Row(e)) => is_first_fault(rows_view(answer.rows@), policy_fault(), e),
        Err(DbError::Driver(words)) => no_fault(rows_view(answer.rows@), policy_fault())
            && answer.failed == Some(words),
        Err(DbError::QueryReturnedNoRows) => false,
        Ok(out) => {
            &&& answer.failed is None
            &&& out@.len() == answer.rows@.len()
            &&& forall|i: int|
                0 <= i < out@.len() ==> policy_in_row(rows_view(answer.rows@)[i]) == Ok::<
                    _,
                    RowError,
                >(#[trigger] out@[i])
        },
    }
}

/// Reads the policy in a row.
pub fn read_policy(row: &Vec<SqlValue>) -> (policy: Result<TtlInsurancePolicy, RowError>)
    ensures
        policy == policy_in_row(values_view(row@)),
{
    let purchased_at: Timestamp = match time_at(row, 4, 0) {
        Ok(t) => t,
        Err(e) => return Err(e),
    };
    let last_extended_at: Option<Timestamp> = match opt_time_at(row, 5, 0) {
        Ok(t) => t,
        Err(e) => return Err(e),
    };
    let enabled: i64 = match int_at(row, 3) {
        Ok(n) => n,
        Err(e) => return Err(e),
    };
    let vault_id: i64 = match int_at(row, 0) {
        Ok(n) => n,
        Err(e) => return Err(e),
    };
    let extension: i64 = match int_at(row, 1) {
        Ok(n) => n,
        Err(e) => return Err(e),
    };
    let threshold: i64 = match int_at(row, 2) {
        Ok(n) => n,
        Err(e) => return Err(e),
    };
    Ok(
        TtlInsurancePolicy {
            vault_id: vault_id as u64,
            extension_seconds: extension as u64,
            inactivity_threshold_seconds: threshold as u64,
            enabled: enabled != 0,
            purchased_at,
            last_extended_at,
        },
    )
}

impl Db {
    /// The statement that stores a policy, in place of an earlier one of the same vault. A row
    /// with the values it stores is read as the policy, if its times have years of four digits.
    pub fn upsert_insurance_policy(&self, policy: &TtlInsurancePolicy) -> (statement: Statement)
        ensures
            stores_policy(statement, *policy),
    {
        let mut params: Vec<SqlValue> = Vec::new();
        params.push(SqlValue::Integer(policy.vault_id as i64));
        params.push(SqlValue::Integer(policy.extension_seconds as i64));
        params.push(SqlValue::Integer(policy.inactivity_threshold_seconds as i64));
        params.push(flag_param(policy.enabled));
        params.push(time_param(&policy.purchased_at));
        params.push(opt_time_param(&policy.last_extended_at));
        assert(values_view(params@) =~= policy_columns(*policy));
        proof {
            lemma_signed_bits(policy.vault_id);
            lemma_signed_bits(policy.extension_seconds);
            lemma_signed_bits(policy.inactivity_threshold_seconds);
        }
        Statement { sql: UPSERT_POLICY_SQL.to_owned(), params }
    }

    /// The query for the policy of a vault.
    pub fn get_insurance_policy_query(&self, vault_id: u64) -> (statement: Statement)
        ensures
            statement@ == (StatementView {
                sql: SELECT_POLICY_SQL@,
                params: seq![SqlView::Integer(vault_id as i64)],
            }),
    {
        let mut params: Vec<SqlValue> = Vec::new();
        params.push(SqlValue::Integer(vault_id as i64));
        assert(values_view(params@) =~= seq![SqlView::Integer(vault_id as i64)]);
        Statement { sql: SELECT_POLICY_SQL.to_owned(), params }
    }

    /// The policy of a vault, as the answer to the query says: none where there is no row.
    pub fn get_insurance_policy(&self, answer: Fetch) -> (policy: Result<
        Option<TtlInsurancePolicy>,
        DbError,
    >)
        ensures
            policy_got(answer, policy),
    {
        match answer {
            Fetch::Row(row) => match read_policy(&row) {
                Ok(policy) => Ok(Some(policy)),
                Err(e) => Err(DbError::Row(e)),
            },
            Fetch::NoRows => Ok(None),
            Fetch::Failed(words) => Err(DbError::Driver(words)),
        }
    }

    /// The query for all enabled policies.
    pub fn all_enabled_insurance_policies_query(&self) -> (statement: Statement)
        ensures
            statement@ == (StatementView {
                sql: SELECT_ENABLED_POLICIES_SQL@,
                params: Seq::empty(),
            }),
    {
        let params: Vec<SqlValue> = Vec::new();
        assert(values_view(params@) =~= Seq::empty());
        Statement { sql: SELECT_ENABLED_POLICIES_SQL.to_owned(), params }
    }

    /// All enabled policies, as the answer to the query says. The first row that cannot be read
    /// is reported; after that, the error that the database stopped with.
    pub fn all_enabled_insurance_policies(&self, answer: FetchAll) -> (policies: Result<
        Vec<TtlInsurancePolicy>,
        DbError,
    >)
        ensures
            policies_read(answer, policies),
    {
        let ghost rows = rows_view(answer.rows@);
        let mut out: Vec<TtlInsurancePolicy> = Vec::new();
        let mut i: usize = 0;
        while i < answer.rows.len()
            invariant
                i <= answer.rows@.len(),
                rows == rows_view(answer.rows@),
                out@.len() == i,
                forall|j: int|
                    0 <= j < i ==> policy_in_row(rows[j]) == Ok::<_, RowError>(#[trigger] out@[j]),
                no_fault(rows.take(i as int), policy_fault()),
            decreases answer.rows@.len() - i,
        {
            assert(rows[i as int] == values_view(answer.rows@[i as int]@));
            match read_policy(&answer.rows[i]) {
                Ok(policy) => {
                    out.push(policy);
                },
                Err(e) => {
                    return Err(DbError::Row(e));
                },
            }
            proof {
                assert forall|k: int| 0 <= k < rows.take(i + 1).len() implies policy_fault()(
                    #[trigger] rows.take(i + 1)[k],
                ) is None by {
                    if k < i {
                        assert(rows.take(i as int)[k] == rows.take(i + 1)[k]);
                    }
                }
            }
            i = i + 1;
        }
        assert(rows.take(answer.rows@.len() as int) =~= rows);
        match answer.failed {
            Some(words) => Err(DbError::Driver(words)),
            None => Ok(out),
        }
    }

    /// The statement that notes when an owner was last active.
    pub fn upsert_owner_activity(&self, owner_id: u64, last_active_at: Timestamp) -> (statement:
        Statement)
        ensures
            stores_activity(statement, owner_id, last_active_at),
    {
        let mut params: Vec<SqlValue> = Vec::new();
        params.push(SqlValue::Integer(owner_id as i64));
        params.push(time_param(&last_active_at));
        assert(values_view(params@) =~= seq![
            SqlView::Integer(owner_id as i64),
            time_value(last_active_at),
        ]);
        Statement { sql: UPSERT_ACTIVITY_SQL.to_owned(), params }
    }

    /// The query for when an owner was last active.
    pub fn get_owner_last_active_at_query(&self, owner_id: u64) -> (statement: Statement)
        ensures
            statement@ == (StatementView {
                sql: SELECT_ACTIVITY_SQL@,
                params: seq![SqlView::Integer(owner_id as i64)],
            }),
    {
        let mut params: Vec<SqlValue> = Vec::new();
        params.push(SqlValue::Integer(owner_id as i64));
        assert(values_view(params@) =~= seq![SqlView::Integer(owner_id as i64)]);
        Statement { sql: SELECT_ACTIVITY_SQL.to_owned(), params }
    }

    /// When an owner was last active, as the answer to the query says: never where there is no
    /// row.
    pub fn get_owner_last_active_at(&self, answer: Fetch) -> (last_active_at: Result<
        Option<Timestamp>,
        DbError,
    >)
        ensures
            activity_got(answer, last_active_at),
    {
        match answer {
            Fetch::Row(row) => match time_at(&row, 0, 0) {
                Ok(t) => Ok(Some(t)),
                Err(e) => Err(DbError::Row(e)),
            },
            Fetch::NoRows => Ok(None),
            Fetch::Failed(words) => Err(DbError::Driver(words)),
        }
    }
}

} // verus!
