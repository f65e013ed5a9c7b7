//! The second factor that guards a vault.
//!
//! The method is kept as a JSON text. It is turned into a value by a reader that the caller hands
//! in; nothing else here depends on what it is.

use crate::db::Db;
use crate::sql::{
    flag_param, flag_value, int_at, int_column, lenient_time_at, lenient_time_column, opt_text_at,
    opt_text_column, opt_text_param, opt_text_value, opt_time_param, opt_time_value, text_at,
    text_column, text_param, time_at, time_column, time_param, time_value, values_view, DbError,
    Fetch, RowError, SqlValue, SqlView, Statement, StatementView,
};
use crate::text::opt_text;
use crate::timestamp::{four_digit_year, Timestamp};
use vstd::prelude::*;

verus! {

/// How a vault is guarded by a second factor.
#[derive(Debug)]
pub struct TwoFactorConfig<M> {
    pub vault_id: String,
    pub method: M,
    pub enabled: bool,
    pub secret: Option<String>,
    pub phone: Option<String>,
    pub email: Option<String>,
    pub created_at: Timestamp,
    pub verified_at: Option<Timestamp>,
}

pub const UPSERT_2FA_SQL: &'static str = "INSERT INTO two_factor_config (vault_id, method, enabled, secret, phone, email, created_at, verified_at)
VALUES (?1, ?2, ?3, ?4, ?5, ?6, ?7, ?8)
ON CONFLICT(vault_id) DO UPDATE SET
    method = excluded.method,
    enabled = excluded.enabled,
    secret = excluded.secret,
    phone = excluded.phone,
    email = excluded.email,
    created_at = excluded.created_at,
    verified_at = excluded.verified_at";

pub const SELECT_2FA_SQL: &'static str = "SELECT vault_id, method, enabled, secret, phone, email, created_at, verified_at
FROM two_factor_config
WHERE vault_id = ?1";

pub const DELETE_2FA_SQL: &'static str = "DELETE FROM two_factor_config WHERE vault_id = ?1";

/// All of a second factor but its method, with texts as characters.
pub struct TwoFactorFacts {
    pub vault_id: Seq<char>,
    pub enabled: bool,
    pub secret: Option<Seq<char>>,
    pub phone: Option<Seq<char>>,
    pub email: Option<Seq<char>>,
    pub created_at: Timestamp,
    pub verified_at: Option<Timestamp>,
}

impl<M> TwoFactorConfig<M> {
    pub open spec fn facts(self) -> TwoFactorFacts {
        TwoFactorFacts {
            vault_id: self.vault_id@,
            enabled: self.enabled,
            secret: opt_text(self.secret),
            phone: opt_text(self.phone),
            email: opt_text(self.email),
            created_at: self.created_at,
            verified_at: self.verified_at,
        }
    }
}

/// The columns of a second factor, in the order in which they are written and read.
pub open spec fn two_factor_columns(facts: TwoFactorFacts, method: Seq<char>) -> Seq<SqlView> {
    seq![
        SqlView::Text(facts.vault_id),
        SqlView::Text(method),
        flag_value(facts.enabled),
        opt_text_value(facts.secret),
        opt_text_value(facts.phone),
        opt_text_value(facts.email),
        time_value(facts.created_at),
        opt_time_value(facts.verified_at),
    ]
}

/// All that a row holds but the method, or the first thing wrong with it: whether it is enabled
/// is looked at first, then the times, and then the texts. A time of verification that cannot be
/// read counts as none.
pub open spec fn two_factor_in_row(row: Seq<SqlView>) -> Result<TwoFactorFacts, RowError> {
    match (
        int_column(row, 2),
        time_column(row, 6, 6),
        lenient_time_column(row, 7),
        text_column(row, 0),
        opt_text_column(row, 3),
        opt_text_column(row, 4),
        opt_text_column(row, 5),
    ) {
        (Err(e), _, _, _, _, _, _) => Err(e),
        (_, Err(e), _, _, _, _, _) => Err(e),
        (_, _, Err(e), _, _, _, _) => Err(e),
        (_, _, _, Err(e), _, _, _) => Err(e),
        (_, _, _, _, Err(e), _, _) => Err(e),
        (_, _, _, _, _, Err(e), _) => Err(e),
        (_, _, _, _, _, _, Err(e)) => Err(e),
        (
            Ok(enabled),
            Ok(created_at),
            Ok(verified_at),
            Ok(vault_id),
            Ok(secret),
            Ok(phone),
            Ok(email),
        ) => Ok(
            TwoFactorFacts {
                vault_id,
                enabled: enabled != 0,
                secret,
                phone,
                email,
                created_at,
                verified_at,
            },
        ),
    }
}

/// Whether the times of a second factor have years of four digits.
pub open spec fn two_factor_is_storable(facts: TwoFactorFacts) -> bool {
    &&& four_digit_year(facts.created_at.secs())
    &&& facts.verified_at matches Some(t) ==> four_digit_year(t.secs())
}

/// Whether `config` is what a row is read as, given what was made out of its method: a method
/// that could not be read is reported for its column, before anything else in the row.
pub open spec fn two_factor_read<M>(
    row: Seq<SqlView>,
    method: Option<M>,
    config: Result<TwoFactorConfig<M>, RowError>,
) -> bool {
    match method {
        None => config == Err::<TwoFactorConfig<M>, _>(RowError::FromSqlConversionFailure(1)),
        Some(m) => match (two_factor_in_row(row), config) {
            (Ok(facts), Ok(c)) => c.facts() == facts && c.method == m,
            (Err(e), Err(reported)) => reported == e,
            _ => false,
        },
    }
}

/// The second factor in a row, given what was made out of its method.
pub fn two_factor_from<M>(row: &Vec<SqlValue>, method: Option<M>) -> (config: Result<
    TwoFactorConfig<M>,
    RowError,
>)
    ensures
        two_factor_read(values_view(row@), method, config),
{
    let method: M = match method {
        Some(m) => m,
        None => return Err(RowError::FromSqlConversionFailure(1)),
    };
    let enabled: i64 = match int_at(row, 2) {
        Ok(n) => n,
        Err(e) => return Err(e),
    };
    let created_at: Timestamp = match time_at(row, 6, 6) {
        Ok(t) => t,
        Err(e) => return Err(e),
    };
    let verified_at: Option<Timestamp> = match lenient_time_at(row, 7) {
        Ok(t) => t,
        Err(e) => return Err(e),
    };
    let vault_id: String = match text_at(row, 0) {
        Ok(text) => text,
        Err(e) => return Err(e),
    };
    let secret: Option<String> = match opt_text_at(row, 3) {
        Ok(text) => text,
        Err(e) => return Err(e),
    };
    let phone: Option<String> = match opt_text_at(row, 4) {
        Ok(text) => text,
        Err(e) => return Err(e),
    };
    let email: Option<String> = match opt_text_at(row, 5) {
        Ok(text) => text,
        Err(e) => return Err(e),
    };
    Ok(
        TwoFactorConfig {
            vault_id,
            method,
            enabled: enabled != 0,
            secret,
            phone,
            email,
            created_at,
            verified_at,
        },
    )
}

/// Whether a statement stores a second factor: it writes the columns, and from a row with these
/// everything is read back, if the times have years of four digits.
pub open spec fn stores_two_factor(
    statement: Statement,
    facts: TwoFactorFacts,
    method_json: Seq<char>,
) -> bool {
    &&& statement@ == (StatementView {
        sql: UPSERT_2FA_SQL@,
        params: two_factor_columns(facts, method_json),
    })
    &&& text_column(statement@.params, 1) == Ok::<_, RowError>(method_json)
    &&& two_factor_is_storable(facts) ==> two_factor_in_row(statement@.params) == Ok::<_, RowError>(
        facts,
    )
}

/// Whether a statement removes the second factor of a vault.
pub open spec fn removes_two_factor(statement: Statement, vault_id: Seq<char>) -> bool {
    statement@ == (StatementView { sql: DELETE_2FA_SQL@, params: seq![SqlView::Text(vault_id)] })
}

/// Whether `config` is what an answer with one row is read as, its method as the reader makes it
/// out from the text in the row.
pub open spec fn two_factor_got<M, ReadMethod: Fn(&String) -> Option<M>>(
    answer: Fetch,
    read_method: ReadMethod,
    config: Result<Option<TwoFactorConfig<M>>, DbError>,
) -> bool {
    match (answer, config) {
        (Fetch::Row(row), Ok(Some(c))) => {
            &&& text_column(values_view(row@), 1) is Ok
            &&& exists|method: Option<M>| #[trigger]
                call_ensures(read_method, (&row@[1]->Text_0,), method) && two_factor_read(
                    values_view(row@),
                    method,
                    Ok(c),
                )
        },
        (Fetch::Row(row), Err(DbError::Row(e))) => match text_column(values_view(row@), 1) {
            Err(fault) => e == fault,
            Ok(_) => exists|method: Option<M>| #[trigger]
                call_ensures(read_method, (&row@[1]->Text_0,), method) && two_factor_read(
                    values_view(row@),
                    method,
                    Err(e),
                ),
        },
        (Fetch::NoRows, Ok(None)) => true,
        (Fetch::Failed(words), Err(DbError::Driver(reported))) => reported == words,
        _ => false,
    }
}

impl Db {
    /// The statement that stores the second factor of a vault, in place of an earlier one. The
    /// method is given as JSON text. From a row with the values it stores everything is read
    /// back, if the times have years of four digits.
    pub fn upsert_2fa_config<M>(&self, config: &TwoFactorConfig<M>, method_json: &str) -> (statement:
        Statement)
        ensures
            stores_two_factor(statement, config.facts(), method_json@),
    {
        let mut params: Vec<SqlValue> = Vec::new();
        params.push(text_param(config.vault_id.as_str()));
        params.push(text_param(method_json));
        params.push(flag_param(config.enabled));
        params.push(opt_text_param(&config.secret));
        params.push(opt_text_param(&config.phone));
        params.push(opt_text_param(&config.email));
        params.push(time_param(&config.created_at));
        params.push(opt_time_param(&config.verified_at));
        assert(values_view(params@) =~= two_factor_columns(config.facts(), method_json@));
        Statement { sql: UPSERT_2FA_SQL.to_owned(), params }
    }

    /// The query for the second factor of a vault.
    pub fn get_2fa_config_query(&self, vault_id: &str) -> (statement: Statement)
        ensures
            statement@ == (StatementView {
                sql: SELECT_2FA_SQL@,
                params: seq![SqlView::Text(vault_id@)],
            }),
    {
        let mut params: Vec<SqlValue> = Vec::new();
        params.push(text_param(vault_id));
        assert(values_view(params@) =~= seq![SqlView::Text(vault_id@)]);
        Statement { sql: SELECT_2FA_SQL.to_owned(), params }
    }

    /// The second factor of a vault, as the answer to the query says: none where there is no row.
    pub fn get_2fa_config<M, ReadMethod: Fn(&String) -> Option<M>>(
        &self,
        answer: Fetch,
        read_method: &ReadMethod,
    ) -> (config: Result<Option<TwoFactorConfig<M>>, DbError>)
        requires
            forall|text: &String| call_requires(*read_method, (text,)),
        ensures
            two_factor_got(answer, *read_method, config),
    {
        let row: Vec<SqlValue> = match answer {
            Fetch::Row(row) => row,
            Fetch::NoRows => return Ok(None),
            Fetch::Failed(words) => return Err(DbError::Driver(words)),
        };
        let method_text: String = match text_at(&row, 1) {
            Ok(text) => text,
            Err(e) => return Err(DbError::Row(e)),
        };
        assert(method_text == row@[1]->Text_0);
        let method: Option<M> = read_method(&method_text);
        match two_factor_from(&row, method) {
            Ok(config) => Ok(Some(config)),
            Err(e) => Err(DbError::Row(e)),
        }
    }

    /// The statement that removes the second factor of a vault.
    pub fn delete_2fa_config(&self, vault_id: &str) -> (statement: Statement)
        ensures
            removes_two_factor(statement, vault_id@),
    {
        let mut params: Vec<SqlValue> = Vec::new();
        params.push(text_param(vault_id));
        assert(values_view(params@) =~= seq![SqlView::Text(vault_id@)]);
        Statement { sql: DELETE_2FA_SQL.to_owned(), params }
    }
}

} // verus!
