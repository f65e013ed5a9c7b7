//! Tokens by which an owner takes themselves off the mailing list.

use crate::db::Db;
use crate::ids::{is_random_id, new_id, was_drawn};
use crate::sql::{
    text_at, text_column, text_param, time_param, time_value, values_view, Fetch, SqlValue,
    SqlView, Statement, StatementView,
};
use crate::tables::{answers_column, answers_presence, Change, Table};
use crate::timestamp::Timestamp;
use vstd::prelude::*;

verus! {

pub const STORE_UNSUBSCRIBE_TOKEN_SQL: &'static str = "INSERT OR REPLACE INTO unsubscribe_tokens (token, owner, created_at)
VALUES (?1, ?2, ?3)";

pub const SELECT_UNSUBSCRIBE_OWNER_SQL: &'static str = "SELECT owner FROM unsubscribe_tokens WHERE token = ?1";

pub const UNSUBSCRIBE_SQL: &'static str = "INSERT OR IGNORE INTO unsubscribed_users (owner) VALUES (?1)";

pub const SELECT_UNSUBSCRIBED_SQL: &'static str = "SELECT 1 FROM unsubscribed_users WHERE owner = ?1";

pub const INVALID_TOKEN: &'static str = "invalid or expired unsubscribe token";

/// The statement that keeps a token of an owner.
pub open spec fn token_statement(
    token: Seq<char>,
    owner: Seq<char>,
    now: Timestamp,
) -> StatementView {
    StatementView {
        sql: STORE_UNSUBSCRIBE_TOKEN_SQL@,
        params: seq![SqlView::Text(token), SqlView::Text(owner), time_value(now)],
    }
}

/// The statement that takes an owner off the list.
pub open spec fn unsubscribe_statement(owner: Seq<char>) -> StatementView {
    StatementView { sql: UNSUBSCRIBE_SQL@, params: seq![SqlView::Text(owner)] }
}

/// The owner of a token, as the answer to the query says.
pub open spec fn token_owner(answer: Fetch) -> Option<Seq<char>> {
    match answer {
        Fetch::Row(row) => match text_column(values_view(row@), 0) {
            Ok(owner) => Some(owner),
            Err(_) => None,
        },
        _ => None,
    }
}

/// What processing a token comes to: the owner that the answer tells, with the statement that
/// takes them off the list, or that the token is invalid.
pub open spec fn processes(answer: Fetch, step: Result<(String, Statement), String>) -> bool {
    match (token_owner(answer), step) {
        (Some(owner), Ok((name, statement))) => name@ == owner && statement@
            == unsubscribe_statement(owner),
        (None, Err(message)) => message@ == INVALID_TOKEN@,
        _ => false,
    }
}

impl Db {
    /// The statement that keeps a token of an owner, made at a given time.
    pub fn store_unsubscribe_token_at(&self, token: &str, owner: &str, now: &Timestamp) -> (statement:
        Statement)
        ensures
            statement@ == token_statement(token@, owner@, *now),
    {
        let mut params: Vec<SqlValue> = Vec::new();
        params.push(text_param(token));
        params.push(text_param(owner));
        params.push(time_param(now));
        assert(values_view(params@) =~= seq![
            SqlView::Text(token@),
            SqlView::Text(owner@),
            time_value(*now),
        ]);
        Statement { sql: STORE_UNSUBSCRIBE_TOKEN_SQL.to_owned(), params }
    }

    /// The statement that keeps a token of an owner, made at the time that the clock
    /// tells.
    pub fn store_unsubscribe_token(&self, token: &str, owner: &str) -> (statement: Statement)
        ensures
            exists|now: Timestamp|
                now.told_by_clock() && statement@ == #[trigger] token_statement(
                    token@,
                    owner@,
                    now,
                ),
    {
        let now: Timestamp = Timestamp::now();
        self.store_unsubscribe_token_at(token, owner, &now)
    }

    /// A fresh token for an owner, and the statement that keeps it.
    pub fn generate_unsubscribe_token(&self, owner: &str) -> (made: (String, Statement))
        ensures
            was_drawn(made.0@),
            is_random_id(made.0@),
            exists|now: Timestamp|
                now.told_by_clock() && made.1@ == #[trigger] token_statement(
                    made.0@,
                    owner@,
                    now,
                ),
    {
        let token: String = new_id();
        let statement: Statement = self.store_unsubscribe_token(token.as_str(), owner);
        (token, statement)
    }

    /// The query for the owner of a token.
    pub fn process_unsubscribe_query(&self, token: &str) -> (statement: Statement)
        ensures
            statement@ == (StatementView {
                sql: SELECT_UNSUBSCRIBE_OWNER_SQL@,
                params: seq![SqlView::Text(token@)],
            }),
    {
        let mut params: Vec<SqlValue> = Vec::new();
        params.push(text_param(token));
        assert(values_view(params@) =~= seq![SqlView::Text(token@)]);
        Statement { sql: SELECT_UNSUBSCRIBE_OWNER_SQL.to_owned(), params }
    }

    /// The owner who unsubscribes with a token, and the statement that takes them off the list,
    /// as the answer to the query says. A token without an owner that can be read is invalid,
    /// whatever the reason.
    pub fn process_unsubscribe(&self, answer: &Fetch) -> (step: Result<(String, Statement), String>)
        ensures
            processes(*answer, step),
    {
        match answer {
            Fetch::Row(row) => match text_at(row, 0) {
                Ok(owner) => {
                    let mut params: Vec<SqlValue> = Vec::new();
                    params.push(text_param(owner.as_str()));
                    assert(values_view(params@) =~= seq![SqlView::Text(owner@)]);
                    Ok((owner, Statement { sql: UNSUBSCRIBE_SQL.to_owned(), params }))
                },
                Err(_) => Err(INVALID_TOKEN.to_owned()),
            },
            _ => Err(INVALID_TOKEN.to_owned()),
        }
    }

    /// What unsubscribing returns once the statement has run: the owner, or the words of the
    /// error that the database reported.
    pub fn process_unsubscribe_done(&self, owner: String, failed: Option<String>) -> (outcome: Result<
        String,
        String,
    >)
        ensures
            outcome == match failed {
                Some(words) => Err(words),
                None => Ok(owner),
            },
    {
        match failed {
            Some(words) => Err(words),
            None => Ok(owner),
        }
    }

    /// The query whether an owner has unsubscribed.
    pub fn is_unsubscribed_query(&self, owner: &str) -> (statement: Statement)
        ensures
            statement@ == (StatementView {
                sql: SELECT_UNSUBSCRIBED_SQL@,
                params: seq![SqlView::Text(owner@)],
            }),
    {
        let mut params: Vec<SqlValue> = Vec::new();
        params.push(text_param(owner));
        assert(values_view(params@) =~= seq![SqlView::Text(owner@)]);
        Statement { sql: SELECT_UNSUBSCRIBED_SQL.to_owned(), params }
    }

    /// Whether an owner has unsubscribed: a database that fails counts as a no.
    pub fn is_unsubscribed(&self, answer: &Fetch) -> (unsubscribed: bool)
        ensures
            unsubscribed == (*answer is Row),
    {
        match answer {
            Fetch::Row(_) => true,
            _ => false,
        }
    }
}

/// A token that was kept, or an owner who was taken off the list, with the statement that did so.
pub enum UnsubscribeCall {
    Store { token: Seq<char>, owner: Seq<char>, now: Timestamp, statement: Statement },
    Unsubscribe { owner: Seq<char>, statement: Statement },
}

impl UnsubscribeCall {
    /// Whether the statement is the one for the call.
    pub open spec fn made(self) -> bool {
        match self {
            UnsubscribeCall::Store { token, owner, now, statement } => statement@
                == token_statement(token, owner, now),
            UnsubscribeCall::Unsubscribe { owner, statement } => statement@
                == unsubscribe_statement(owner),
        }
    }

    /// Whether the call keeps this token.
    pub open spec fn stores(self, kept: Seq<char>) -> bool {
        self matches UnsubscribeCall::Store { token, .. } && token == kept
    }

    /// Whether the call takes this owner off the list.
    pub open spec fn unsubscribes(self, gone: Seq<char>) -> bool {
        self matches UnsubscribeCall::Unsubscribe { owner, .. } && owner == gone
    }
}

/// The table of tokens after calls. To take an owner off the list leaves it as it is.
pub open spec fn tokens_after(calls: Seq<UnsubscribeCall>) -> Table
    decreases calls.len(),
{
    if calls.len() == 0 {
        Map::empty()
    } else {
        let before = tokens_after(calls.drop_last());
        match calls.last() {
            UnsubscribeCall::Store { statement, .. } => (Change::Put {
                row: statement@.params,
            }).made(before),
            UnsubscribeCall::Unsubscribe { .. } => before,
        }
    }
}

/// The table of owners who are off the list, after calls. To keep a token leaves it as it is.
pub open spec fn unsubscribed_after(calls: Seq<UnsubscribeCall>) -> Table
    decreases calls.len(),
{
    if calls.len() == 0 {
        Map::empty()
    } else {
        let before = unsubscribed_after(calls.drop_last());
        match calls.last() {
            UnsubscribeCall::Store { .. } => before,
            UnsubscribeCall::Unsubscribe { statement, .. } => (Change::Put {
                row: statement@.params,
            }).made(before),
        }
    }
}

proof fn lemma_token_row(calls: Seq<UnsubscribeCall>, place: int, token: Seq<char>)
    requires
        forall|i: int| 0 <= i < calls.len() ==> (#[trigger] calls[i]).made(),
        -1 <= place < calls.len(),
        place >= 0 ==> calls[place].stores(token),
        forall|k: int| place < k < calls.len() ==> !(#[trigger] calls[k]).stores(token),
    ensures
        if place >= 0 {
            tokens_after(calls).contains_pair(
                SqlView::Text(token),
                calls[place]->Store_statement@.params,
            )
        } else {
            !tokens_after(calls).contains_key(SqlView::Text(token))
        },
    decreases calls.len(),
{
    if calls.len() > 0 {
        let last = calls.len() - 1;
        let earlier = calls.drop_last();
        assert(calls[last].made());
        if place < last {
            assert forall|i: int| 0 <= i < earlier.len() implies (#[trigger] earlier[i]).made() by {
                assert(earlier[i] == calls[i]);
            }
            assert forall|k: int| place < k < earlier.len() implies !(#[trigger] earlier[k]).stores(
                token,
            ) by {
                assert(earlier[k] == calls[k]);
            }
            lemma_token_row(earlier, place, token);
            assert(!calls[last].stores(token));
        }
    }
}

/// A token that was kept leads to the owner it was last kept for, also after it was used; one that
/// was not is invalid.
pub proof fn law_token_leads_to_its_owner(
    calls: Seq<UnsubscribeCall>,
    place: int,
    token: Seq<char>,
    answer: Fetch,
    step: Result<(String, Statement), String>,
)
    requires
        forall|i: int| 0 <= i < calls.len() ==> (#[trigger] calls[i]).made(),
        -1 <= place < calls.len(),
        place >= 0 ==> calls[place].stores(token),
        forall|k: int| place < k < calls.len() ==> !(#[trigger] calls[k]).stores(token),
        answers_column(answer, tokens_after(calls), SqlView::Text(token), 1),
        processes(answer, step),
    ensures
        if place >= 0 {
            step matches Ok((owner, statement)) && owner@ == calls[place]->Store_owner
                && statement@ == unsubscribe_statement(owner@)
        } else {
            step matches Err(message) && message@ == INVALID_TOKEN@
        },
{
    lemma_token_row(calls, place, token);
    if place >= 0 {
        assert(calls[place].made());
    }
}

proof fn lemma_unsubscribed_row(calls: Seq<UnsubscribeCall>, owner: Seq<char>)
    requires
        forall|i: int| 0 <= i < calls.len() ==> (#[trigger] calls[i]).made(),
    ensures
        unsubscribed_after(calls).contains_key(SqlView::Text(owner)) <==> exists|i: int|
            0 <= i < calls.len() && (#[trigger] calls[i]).unsubscribes(owner),
    decreases calls.len(),
{
    if calls.len() > 0 {
        let last = calls.len() - 1;
        let earlier = calls.drop_last();
        assert forall|i: int| 0 <= i < earlier.len() implies (#[trigger] earlier[i]).made() by {
            assert(earlier[i] == calls[i]);
        }
        lemma_unsubscribed_row(earlier, owner);
        assert(calls[last].made());
        if unsubscribed_after(earlier).contains_key(SqlView::Text(owner)) {
            let i = choose|i: int|
                0 <= i < earlier.len() && (#[trigger] earlier[i]).unsubscribes(owner);
            assert(calls[i].unsubscribes(owner));
        }
        if exists|i: int| 0 <= i < calls.len() && (#[trigger] calls[i]).unsubscribes(owner) {
            let i = choose|i: int|
                0 <= i < calls.len() && (#[trigger] calls[i]).unsubscribes(owner);
            if i < last {
                assert(earlier[i].unsubscribes(owner));
            }
        }
        if unsubscribed_after(calls).contains_key(SqlView::Text(owner))
            && !unsubscribed_after(earlier).contains_key(SqlView::Text(owner)) {
            assert(calls[last].unsubscribes(owner));
        }
    }
}

/// Exactly the owners who were taken off the list have unsubscribed: the answer to whether an owner
/// has is a row if and only if a call took them off.
pub proof fn law_unsubscribed_are_those_taken_off(
    calls: Seq<UnsubscribeCall>,
    owner: Seq<char>,
    answer: Fetch,
)
    requires
        forall|i: int| 0 <= i < calls.len() ==> (#[trigger] calls[i]).made(),
        answers_presence(answer, unsubscribed_after(calls), SqlView::Text(owner)),
    ensures
        answer is Row <==> exists|i: int|
            0 <= i < calls.len() && (#[trigger] calls[i]).unsubscribes(owner),
{
    lemma_unsubscribed_row(calls, owner);
}

} // verus!
