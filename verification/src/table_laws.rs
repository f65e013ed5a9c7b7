//! What reads of the database give back of writes, over the model of its tables.

use crate::insurance::{
    activity_got, policies_read, policy_columns, policy_fault, policy_got, policy_in_row,
    policy_is_storable, stores_activity, stores_policy, TtlInsurancePolicy,
};
use crate::reminders::{
    marks_deleted, reads_reminder, reminder_fault, reminder_got, reminders_read,
    removes_subscription, stores_reminder, stores_subscription, subscription_got,
    ReminderPreferences, Subscription,
};
use crate::sql::{
    lemma_signed_bits, opt_text_column, rows_view, time_value, values_view, DbError, Fetch,
    FetchAll, RowError, SqlValue, SqlView, Statement,
};
use crate::tables::{
    answers_all, answers_column, answers_one, any_row, change_keeps, lemma_all_rows, lemma_first_mark,
    lemma_last_put, lemma_not_there, lemma_other_changes, lemma_rows_were_put, lemma_table_step,
    setting_keeps, table_after, Change,
};
use crate::timestamp::{four_digit_year, Timestamp};
use crate::two_factor::{
    removes_two_factor, stores_two_factor, two_factor_got, two_factor_is_storable,
    TwoFactorConfig,
};
use vstd::prelude::*;

verus! {

/// Vaults with the same key column are the same.
proof fn lemma_same_key(a: u64, b: u64)
    ensures
        SqlView::Integer(a as i64) == SqlView::Integer(b as i64) ==> a == b,
{
    lemma_signed_bits(a);
    lemma_signed_bits(b);
}

// ---- insurance ----

/// A policy that was stored, with the statement that stored it.
pub struct PolicyUpsert {
    pub policy: TtlInsurancePolicy,
    pub statement: Statement,
}

/// What storing policies does to their table.
pub open spec fn policy_changes(upserts: Seq<PolicyUpsert>) -> Seq<Change> {
    Seq::new(upserts.len(), |i: int| Change::Put { row: upserts[i].statement@.params })
}

/// Whether no later policy is of the same vault.
pub open spec fn is_last_upsert(upserts: Seq<PolicyUpsert>, place: int) -> bool {
    forall|k: int|
        place < k < upserts.len() ==> (#[trigger] upserts[k]).policy.vault_id
            != upserts[place].policy.vault_id
}

/// Whether a policy is enabled and the last that was stored for its vault.
pub open spec fn stands_enabled(upserts: Seq<PolicyUpsert>, policy: TtlInsurancePolicy) -> bool {
    policy.enabled && exists|place: int|
        0 <= place < upserts.len() && #[trigger] is_last_upsert(upserts, place)
            && upserts[place].policy == policy
}

/// The condition that picks the enabled policies.
pub open spec fn enabled_row() -> spec_fn(Seq<SqlView>) -> bool {
    |row: Seq<SqlView>| row[3] == SqlView::Integer(1)
}

/// The last policy of a vault is the one that the table holds.
proof fn lemma_last_policy(upserts: Seq<PolicyUpsert>, place: int)
    requires
        forall|i: int|
            0 <= i < upserts.len() ==> stores_policy(
                (#[trigger] upserts[i]).statement,
                upserts[i].policy,
            ),
        0 <= place < upserts.len(),
        is_last_upsert(upserts, place),
    ensures
        table_after(policy_changes(upserts)).contains_pair(
            SqlView::Integer(upserts[place].policy.vault_id as i64),
            policy_columns(upserts[place].policy),
        ),
{
    let changes = policy_changes(upserts);
    assert(stores_policy(upserts[place].statement, upserts[place].policy));
    assert forall|k: int| place < k < changes.len() implies (#[trigger] changes[k]).key()
        != changes[place].key() by {
        assert(stores_policy(upserts[k].statement, upserts[k].policy));
        lemma_same_key(upserts[k].policy.vault_id, upserts[place].policy.vault_id);
    }
    lemma_last_put(changes, place);
}

/// A row that the table holds is that of the last policy of a vault.
proof fn lemma_policy_of_row(upserts: Seq<PolicyUpsert>, key: SqlView) -> (place: int)
    requires
        forall|i: int|
            0 <= i < upserts.len() ==> stores_policy(
                (#[trigger] upserts[i]).statement,
                upserts[i].policy,
            ),
        table_after(policy_changes(upserts)).contains_key(key),
    ensures
        0 <= place < upserts.len(),
        is_last_upsert(upserts, place),
        key == SqlView::Integer(upserts[place].policy.vault_id as i64),
        table_after(policy_changes(upserts))[key] == policy_columns(upserts[place].policy),
{
    let changes = policy_changes(upserts);
    let place = lemma_rows_were_put(changes, key);
    assert(stores_policy(upserts[place].statement, upserts[place].policy));
    assert forall|k: int| place < k < upserts.len() implies (#[trigger] upserts[k]).policy.vault_id
        != upserts[place].policy.vault_id by {
        assert(stores_policy(upserts[k].statement, upserts[k].policy));
        assert(changes[k].key() != key);
    }
    place
}

/// The enabled policies are those that were stored last for their vaults and are enabled, each
/// once, and nothing else: one that was stored again as disabled is gone, and one that was stored
/// again as enabled is back with its new values.
pub proof fn law_enabled_policies_are_the_last_stored(
    upserts: Seq<PolicyUpsert>,
    answer: FetchAll,
    policies: Result<Vec<TtlInsurancePolicy>, DbError>,
)
    requires
        forall|i: int|
            0 <= i < upserts.len() ==> stores_policy(
                (#[trigger] upserts[i]).statement,
                upserts[i].policy,
            ) && policy_is_storable(upserts[i].policy),
        answers_all(answer, table_after(policy_changes(upserts)), enabled_row()),
        policies_read(answer, policies),
    ensures
        policies is Ok,
        forall|policy: TtlInsurancePolicy|
            policies->Ok_0@.contains(policy) <==> #[trigger] stands_enabled(upserts, policy),
        forall|i: int, j: int|
            0 <= i < j < policies->Ok_0@.len() ==> (#[trigger] policies->Ok_0@[i]).vault_id != (
            #[trigger] policies->Ok_0@[j]).vault_id,
{
    let table = table_after(policy_changes(upserts));
    let rows = rows_view(answer.rows@);
    assert forall|i: int| 0 <= i < rows.len() implies exists|place: int|
        0 <= place < upserts.len() && #[trigger] is_last_upsert(upserts, place)
            && upserts[place].policy.enabled && rows[i] == policy_columns(upserts[place].policy)
            && policy_in_row(#[trigger] rows[i]) == Ok::<_, RowError>(upserts[place].policy) by {
        assert(enabled_row()(rows[i]));
        let place = lemma_policy_of_row(upserts, rows[i][0]);
        let upsert = upserts[place];
        assert(stores_policy(upsert.statement, upsert.policy));
        assert(is_last_upsert(upserts, place));
    }
    assert forall|i: int| 0 <= i < rows.len() implies policy_fault()(#[trigger] rows[i]) is None by {
        assert(policy_in_row(rows[i]) is Ok);
    }
    let out = policies->Ok_0@;
    assert forall|policy: TtlInsurancePolicy| out.contains(policy) <==> #[trigger] stands_enabled(
        upserts,
        policy,
    ) by {
        if stands_enabled(upserts, policy) {
            let place = choose|place: int|
                0 <= place < upserts.len() && #[trigger] is_last_upsert(upserts, place)
                    && upserts[place].policy == policy;
            lemma_last_policy(upserts, place);
            assert(stores_policy(upserts[place].statement, policy));
            let key = SqlView::Integer(policy.vault_id as i64);
            assert(table.contains_key(key));
            assert(enabled_row()(table[key]));
            let i = rows.index_of(table[key]);
            assert(rows[i] == policy_columns(policy));
            assert(out[i] == policy);
        }
        if out.contains(policy) {
            let i = out.index_of(policy);
            assert(policy_in_row(rows[i]) is Ok);
        }
    }
    assert forall|i: int, j: int| 0 <= i < j < out.len() implies (#[trigger] out[i]).vault_id != (
    #[trigger] out[j]).vault_id by {
        assert(rows[i][0] != rows[j][0]);
        assert(policy_in_row(rows[i]) is Ok);
        assert(policy_in_row(rows[j]) is Ok);
    }
}

/// The policy that is got of a vault is the last that was stored for it, enabled or not, and none
/// where none was stored. Its times need years of four digits.
pub proof fn law_last_policy_is_got(
    upserts: Seq<PolicyUpsert>,
    place: int,
    vault_id: u64,
    answer: Fetch,
    policy: Result<Option<TtlInsurancePolicy>, DbError>,
)
    requires
        forall|i: int|
            0 <= i < upserts.len() ==> stores_policy(
                (#[trigger] upserts[i]).statement,
                upserts[i].policy,
            ),
        -1 <= place < upserts.len(),
        place >= 0 ==> upserts[place].policy.vault_id == vault_id && policy_is_storable(
            upserts[place].policy,
        ),
        forall|k: int|
            place < k < upserts.len() ==> (#[trigger] upserts[k]).policy.vault_id != vault_id,
        answers_one(
            answer,
            table_after(policy_changes(upserts)),
            SqlView::Integer(vault_id as i64),
            any_row(),
        ),
        policy_got(answer, policy),
    ensures
        policy == Ok::<_, DbError>(
            if place >= 0 {
                Some(upserts[place].policy)
            } else {
                None
            },
        ),
{
    if place >= 0 {
        assert(is_last_upsert(upserts, place));
        lemma_last_policy(upserts, place);
        assert(stores_policy(upserts[place].statement, upserts[place].policy));
    } else {
        let changes = policy_changes(upserts);
        let key = SqlView::Integer(vault_id as i64);
        assert forall|k: int| place < k < changes.len() implies (#[trigger] changes[k]).key()
            != key by {
            assert(stores_policy(upserts[k].statement, upserts[k].policy));
            lemma_same_key(upserts[k].policy.vault_id, vault_id);
        }
        lemma_not_there(changes, place, key);
    }
}

// ---- activity of owners ----

/// When an owner was active, with the statement that noted it.
pub struct ActivityUpsert {
    pub owner_id: u64,
    pub last_active_at: Timestamp,
    pub statement: Statement,
}

/// What noting activity does to its table.
pub open spec fn activity_changes(upserts: Seq<ActivityUpsert>) -> Seq<Change> {
    Seq::new(upserts.len(), |i: int| Change::Put { row: upserts[i].statement@.params })
}

/// When an owner was last active is what was noted last for them, and never where nothing was. The
/// year needs four digits.
pub proof fn law_last_activity_is_got(
    upserts: Seq<ActivityUpsert>,
    place: int,
    owner_id: u64,
    answer: Fetch,
    last_active_at: Result<Option<Timestamp>, DbError>,
)
    requires
        forall|i: int|
            0 <= i < upserts.len() ==> stores_activity(
                (#[trigger] upserts[i]).statement,
                upserts[i].owner_id,
                upserts[i].last_active_at,
            ),
        -1 <= place < upserts.len(),
        place >= 0 ==> upserts[place].owner_id == owner_id && four_digit_year(
            upserts[place].last_active_at.secs(),
        ),
        forall|k: int| place < k < upserts.len() ==> (#[trigger] upserts[k]).owner_id != owner_id,
        answers_column(
            answer,
            table_after(activity_changes(upserts)),
            SqlView::Integer(owner_id as i64),
            1,
        ),
        activity_got(answer, last_active_at),
    ensures
        last_active_at == Ok::<_, DbError>(
            if place >= 0 {
                Some(upserts[place].last_active_at)
            } else {
                None
            },
        ),
{
    let changes = activity_changes(upserts);
    let key = SqlView::Integer(owner_id as i64);
    assert forall|k: int| place < k < changes.len() implies (#[trigger] changes[k]).key() != key by {
        let upsert = upserts[k];
        assert(stores_activity(upsert.statement, upsert.owner_id, upsert.last_active_at));
        lemma_same_key(upsert.owner_id, owner_id);
    }
    if place >= 0 {
        let upsert = upserts[place];
        assert(stores_activity(upsert.statement, upsert.owner_id, upsert.last_active_at));
        assert(changes[place].key() == key);
        lemma_last_put(changes, place);
    } else {
        lemma_not_there(changes, place, key);
    }
}

// ---- subscriptions ----

/// A subscription that was stored or removed, with the statement that did so.
pub enum SubscriptionCall<C, F> {
    Upsert {
        sub: Subscription<C, F>,
        channels_json: Seq<char>,
        frequency_json: Seq<char>,
        statement: Statement,
    },
    Delete { vault_id: u64, statement: Statement },
}

impl<C, F> SubscriptionCall<C, F> {
    /// The vault that the call is about.
    pub open spec fn vault(self) -> u64 {
        match self {
            SubscriptionCall::Upsert { sub, .. } => sub.vault_id,
            SubscriptionCall::Delete { vault_id, .. } => vault_id,
        }
    }

    /// Whether the statement is the one for the call.
    pub open spec fn made(self) -> bool {
        match self {
            SubscriptionCall::Upsert { sub, channels_json, frequency_json, statement } =>
                stores_subscription(statement, sub, channels_json, frequency_json),
            SubscriptionCall::Delete { vault_id, statement } => removes_subscription(
                statement,
                vault_id,
            ),
        }
    }

    /// What the statement does to the table.
    pub open spec fn change(self) -> Change {
        match self {
            SubscriptionCall::Upsert { statement, .. } => Change::Put { row: statement@.params },
            SubscriptionCall::Delete { statement, .. } => Change::Remove {
                key: statement@.params[0],
            },
        }
    }
}

/// What calls do to the table.
pub open spec fn subscription_changes<C, F>(calls: Seq<SubscriptionCall<C, F>>) -> Seq<Change> {
    Seq::new(calls.len(), |i: int| calls[i].change())
}

/// The last call about a vault decides what subscription is got: the one that was stored, if it
/// was a store, and none, if it was a removal or there was none. The readers must make out the
/// channels and the frequency from the texts they were written as.
pub proof fn law_last_call_decides_subscription<
    C,
    F,
    ReadChannels: Fn(&String) -> Option<Vec<C>>,
    ReadFrequency: Fn(&String) -> F,
>(
    calls: Seq<SubscriptionCall<C, F>>,
    place: int,
    vault_id: u64,
    answer: Fetch,
    read_channels: ReadChannels,
    read_frequency: ReadFrequency,
    got: Result<Option<Subscription<C, F>>, DbError>,
)
    requires
        forall|i: int| 0 <= i < calls.len() ==> (#[trigger] calls[i]).made(),
        -1 <= place < calls.len(),
        place >= 0 ==> calls[place].vault() == vault_id,
        forall|k: int| place < k < calls.len() ==> (#[trigger] calls[k]).vault() != vault_id,
        place >= 0 && calls[place] is Upsert ==> reads_texts(
            read_channels,
            read_frequency,
            calls[place]->channels_json,
            calls[place]->frequency_json,
            calls[place]->sub.channels@,
            calls[place]->sub.frequency,
        ),
        answers_one(
            answer,
            table_after(subscription_changes(calls)),
            SqlView::Integer(vault_id as i64),
            any_row(),
        ),
        subscription_got(answer, read_channels, read_frequency, got),
    ensures
        if place >= 0 && calls[place] is Upsert {
            got matches Ok(Some(s)) && s.vault_id == vault_id && s.owner@
                == calls[place]->sub.owner@ && s.channels@ == calls[place]->sub.channels@
                && s.frequency == calls[place]->sub.frequency
        } else {
            got == Ok::<_, DbError>(None::<Subscription<C, F>>)
        },
{
    let changes = subscription_changes(calls);
    let key = SqlView::Integer(vault_id as i64);
    assert forall|k: int| place < k < changes.len() implies (#[trigger] changes[k]).key() != key by {
        assert(calls[k].made());
        assert(calls[k].vault() != vault_id);
        lemma_same_key(calls[k].vault(), vault_id);
    }
    if place >= 0 {
        assert(calls[place].made());
    }
    if place >= 0 && calls[place] is Upsert {
        assert(changes[place].key() == key);
        lemma_last_put(changes, place);
        let row = answer->Row_0;
        assert(values_view(row@) == calls[place]->Upsert_statement@.params);
        assert(values_view(row@)[2] == row@[2]@);
        assert(values_view(row@)[3] == row@[3]@);
    } else {
        lemma_not_there(changes, place, key);
    }
}

// ---- second factor ----

/// A second factor that was stored or removed, with the statement that did so.
pub enum TwoFactorCall<M> {
    Upsert { config: TwoFactorConfig<M>, method_json: Seq<char>, statement: Statement },
    Delete { vault_id: Seq<char>, statement: Statement },
}

impl<M> TwoFactorCall<M> {
    /// The vault that the call is about.
    pub open spec fn vault(self) -> Seq<char> {
        match self {
            TwoFactorCall::Upsert { config, .. } => config.vault_id@,
            TwoFactorCall::Delete { vault_id, .. } => vault_id,
        }
    }

    /// Whether the statement is the one for the call.
    pub open spec fn made(self) -> bool {
        match self {
            TwoFactorCall::Upsert { config, method_json, statement } => stores_two_factor(
                statement,
                config.facts(),
                method_json,
            ),
            TwoFactorCall::Delete { vault_id, statement } => removes_two_factor(
                statement,
                vault_id,
            ),
        }
    }

    /// What the statement does to the table.
    pub open spec fn change(self) -> Change {
        match self {
            TwoFactorCall::Upsert { statement, .. } => Change::Put { row: statement@.params },
            TwoFactorCall::Delete { statement, .. } => Change::Remove {
                key: statement@.params[0],
            },
        }
    }
}

/// What calls do to the table.
pub open spec fn two_factor_changes<M>(calls: Seq<TwoFactorCall<M>>) -> Seq<Change> {
    Seq::new(calls.len(), |i: int| calls[i].change())
}

/// Whether a reader makes out a method from the JSON text it was written as.
pub open spec fn reads_method<M, ReadMethod: Fn(&String) -> Option<M>>(
    read_method: ReadMethod,
    json: Seq<char>,
    method: M,
) -> bool {
    forall|text: String, read: Option<M>|
        text@ == json && #[trigger] call_ensures(read_method, (&text,), read) ==> read == Some(
            method,
        )
}

/// The last call about a vault decides what is read of its second factor: all of what was stored,
/// if it was a store, and nothing, if it was a removal or there was none. The reader of methods
/// must make out each from the text it was written as, and the times need years of four digits.
pub proof fn law_last_call_decides_second_factor<M, ReadMethod: Fn(&String) -> Option<M>>(
    calls: Seq<TwoFactorCall<M>>,
    place: int,
    vault_id: Seq<char>,
    answer: Fetch,
    read_method: ReadMethod,
    config: Result<Option<TwoFactorConfig<M>>, DbError>,
)
    requires
        forall|i: int| 0 <= i < calls.len() ==> (#[trigger] calls[i]).made(),
        -1 <= place < calls.len(),
        place >= 0 ==> calls[place].vault() == vault_id,
        forall|k: int| place < k < calls.len() ==> (#[trigger] calls[k]).vault() != vault_id,
        place >= 0 ==> (calls[place] matches TwoFactorCall::Upsert { config: c, method_json, .. }
            ==> reads_method(read_method, method_json, c.method) && two_factor_is_storable(
            c.facts(),
        )),
        answers_one(
            answer,
            table_after(two_factor_changes(calls)),
            SqlView::Text(vault_id),
            any_row(),
        ),
        two_factor_got(answer, read_method, config),
    ensures
        if place >= 0 && calls[place] is Upsert {
            config matches Ok(Some(c)) && c.facts() == calls[place]->config.facts() && c.method
                == calls[place]->config.method
        } else {
            config == Ok::<_, DbError>(None::<TwoFactorConfig<M>>)
        },
{
    let changes = two_factor_changes(calls);
    let key = SqlView::Text(vault_id);
    assert forall|k: int| place < k < changes.len() implies (#[trigger] changes[k]).key() != key by {
        assert(calls[k].made());
        assert(calls[k].vault() != vault_id);
    }
    if place >= 0 {
        assert(calls[place].made());
    }
    if place >= 0 && calls[place] is Upsert {
        assert(changes[place].key() == key);
        lemma_last_put(changes, place);
        let row = answer->Row_0;
        assert(values_view(row@) == calls[place]->Upsert_statement@.params);
        assert(values_view(row@)[1] == row@[1]@);
    } else {
        lemma_not_there(changes, place, key);
    }
}

// ---- reminders ----

/// A reminder that was stored or marked as deleted, with the statement that did so.
pub enum ReminderCall<C, F> {
    Upsert {
        prefs: ReminderPreferences<C, F>,
        channels_json: Seq<char>,
        frequency_json: Seq<char>,
        statement: Statement,
    },
    SoftDelete { vault_id: u64, now: Timestamp, statement: Statement },
}

impl<C, F> ReminderCall<C, F> {
    /// The vault that the call is about.
    pub open spec fn vault(self) -> u64 {
        match self {
            ReminderCall::Upsert { prefs, .. } => prefs.vault_id,
            ReminderCall::SoftDelete { vault_id, .. } => vault_id,
        }
    }

    /// Whether the statement is the one for the call.
    pub open spec fn made(self) -> bool {
        match self {
            ReminderCall::Upsert { prefs, channels_json, frequency_json, statement } =>
                stores_reminder(statement, prefs, channels_json, frequency_json),
            ReminderCall::SoftDelete { vault_id, now, statement } => marks_deleted(
                statement,
                vault_id,
                now,
            ),
        }
    }

    /// What the statement does to the table: a store puts in a row that is not deleted, and a
    /// deletion sets the time only where there is none.
    pub open spec fn change(self) -> Change {
        match self {
            ReminderCall::Upsert { statement, .. } => Change::Put {
                row: statement@.params.push(SqlView::Null),
            },
            ReminderCall::SoftDelete { statement, .. } => Change::Mark {
                key: statement@.params[1],
                column: 4,
                value: statement@.params[0],
            },
        }
    }
}

/// What calls do to the table.
pub open spec fn reminder_changes<C, F>(calls: Seq<ReminderCall<C, F>>) -> Seq<Change> {
    Seq::new(calls.len(), |i: int| calls[i].change())
}

/// The condition that picks the reminders that are not deleted.
pub open spec fn not_deleted() -> spec_fn(Seq<SqlView>) -> bool {
    |row: Seq<SqlView>| row[4] == SqlView::Null
}

/// The condition that picks the reminders of a vault.
pub open spec fn of_vault(vault_id: u64) -> spec_fn(Seq<SqlView>) -> bool {
    |row: Seq<SqlView>| row[0] == SqlView::Integer(vault_id as i64)
}

/// Whether readers make out channels and a frequency from the JSON texts they were written as.
pub open spec fn reads_texts<
    C,
    F,
    ReadChannels: Fn(&String) -> Option<Vec<C>>,
    ReadFrequency: Fn(&String) -> F,
>(
    read_channels: ReadChannels,
    read_frequency: ReadFrequency,
    channels_json: Seq<char>,
    frequency_json: Seq<char>,
    channels: Seq<C>,
    frequency: F,
) -> bool {
    &&& forall|text: String, read: Option<Vec<C>>|
        text@ == channels_json && #[trigger] call_ensures(read_channels, (&text,), read)
            ==> read is Some && read->Some_0@ == channels
    &&& forall|text: String, read: F|
        text@ == frequency_json && #[trigger] call_ensures(read_frequency, (&text,), read) ==> read
            == frequency
}

/// Whether two reminders are the same apart from their deletion.
pub open spec fn same_reminder<C, F>(
    a: ReminderPreferences<C, F>,
    b: ReminderPreferences<C, F>,
) -> bool {
    &&& a.vault_id == b.vault_id
    &&& a.channels@ == b.channels@
    &&& a.hours_before_expiry == b.hours_before_expiry
    &&& a.frequency == b.frequency
}

/// What holds of every row in the table of reminders.
spec fn reminder_row() -> spec_fn(Seq<SqlView>) -> bool {
    |row: Seq<SqlView>| row.len() == 5 && reminder_fault(true)(row) is None
}

proof fn lemma_reminder_rows<C, F>(calls: Seq<ReminderCall<C, F>>)
    requires
        forall|i: int| 0 <= i < calls.len() ==> (#[trigger] calls[i]).made(),
    ensures
        forall|key: SqlView| #[trigger]
            table_after(reminder_changes(calls)).contains_key(key) ==> {
                let row = table_after(reminder_changes(calls))[key];
                row.len() == 5 && reminder_fault(true)(row) is None && row[0] == key
            },
{
    let changes = reminder_changes(calls);
    let good = reminder_row();
    assert forall|k: int| 0 <= k < changes.len() implies change_keeps(
        #[trigger] changes[k],
        good,
    ) by {
        assert(calls[k].made());
        if let ReminderCall::SoftDelete { vault_id, now, statement } = calls[k] {
            let value = statement@.params[0];
            assert(value == time_value(now));
            assert forall|row: Seq<SqlView>| good(row) implies 4 < row.len() && #[trigger] good(
                row.update(4, value),
            ) by {
                let marked = row.update(4, value);
                assert(forall|c: int| 0 <= c < 4 ==> marked[c] == row[c]);
                assert(opt_text_column(marked, 4) is Ok);
            }
            assert(setting_keeps(good, 4, value));
        }
    }
    lemma_all_rows(changes, good);
    assert forall|key: SqlView| #[trigger]
        table_after(reminder_changes(calls)).contains_key(key) implies {
        let row = table_after(reminder_changes(calls))[key];
        row.len() == 5 && reminder_fault(true)(row) is None && row[0] == key
    } by {
        assert(good(table_after(changes)[key]));
    }
}

/// The calls about a vault are those that change the row with its key.
proof fn lemma_reminder_keys<C, F>(calls: Seq<ReminderCall<C, F>>, vault_id: u64)
    requires
        forall|i: int| 0 <= i < calls.len() ==> (#[trigger] calls[i]).made(),
    ensures
        forall|k: int|
            0 <= k < calls.len() ==> ((#[trigger] reminder_changes(calls)[k]).key()
                == SqlView::Integer(vault_id as i64) <==> calls[k].vault() == vault_id),
{
    let changes = reminder_changes(calls);
    assert forall|k: int| 0 <= k < calls.len() implies ((#[trigger] changes[k]).key()
        == SqlView::Integer(vault_id as i64) <==> calls[k].vault() == vault_id) by {
        assert(calls[k].made());
        lemma_same_key(calls[k].vault(), vault_id);
    }
}

/// A reminder that was read from a row that a store wrote, marked as deleted or not, is the one
/// that was stored.
proof fn lemma_reads_stored<
    C,
    F,
    ReadChannels: Fn(&String) -> Option<Vec<C>>,
    ReadFrequency: Fn(&String) -> F,
>(
    call: ReminderCall<C, F>,
    row: Seq<SqlValue>,
    with_deletion: bool,
    read_channels: ReadChannels,
    read_frequency: ReadFrequency,
    reminder: ReminderPreferences<C, F>,
)
    requires
        call is Upsert,
        call.made(),
        reads_texts(
            read_channels,
            read_frequency,
            call->channels_json,
            call->frequency_json,
            call->prefs.channels@,
            call->prefs.frequency,
        ),
        values_view(row).len() == 5,
        forall|c: int| 0 <= c < 4 ==> #[trigger] values_view(row)[c] == call->Upsert_statement@.params[c],
        reads_reminder(row, with_deletion, read_channels, read_frequency, reminder),
    ensures
        same_reminder(reminder, call->prefs),
{
    let view = values_view(row);
    let stored = call->Upsert_statement@.params.push(SqlView::Null);
    assert(view[0] == stored[0] && view[1] == stored[1] && view[2] == stored[2] && view[3]
        == stored[3]);
    assert(view[1] == row[1]@ && view[3] == row[3]@);
}

/// The last call about a vault decides what reminder is got: the one that was stored, if it was a
/// store, whatever was deleted before, and none, if it was a deletion or there was no call.
pub proof fn law_last_call_decides_reminder<
    C,
    F,
    ReadChannels: Fn(&String) -> Option<Vec<C>>,
    ReadFrequency: Fn(&String) -> F,
>(
    calls: Seq<ReminderCall<C, F>>,
    place: int,
    vault_id: u64,
    answer: Fetch,
    read_channels: ReadChannels,
    read_frequency: ReadFrequency,
    reminder: Result<ReminderPreferences<C, F>, DbError>,
)
    requires
        forall|i: int| 0 <= i < calls.len() ==> (#[trigger] calls[i]).made(),
        -1 <= place < calls.len(),
        place >= 0 ==> calls[place].vault() == vault_id,
        forall|k: int| place < k < calls.len() ==> (#[trigger] calls[k]).vault() != vault_id,
        place >= 0 && calls[place] is Upsert ==> reads_texts(
            read_channels,
            read_frequency,
            calls[place]->channels_json,
            calls[place]->frequency_json,
            calls[place]->prefs.channels@,
            calls[place]->prefs.frequency,
        ),
        answers_one(
            answer,
            table_after(reminder_changes(calls)),
            SqlView::Integer(vault_id as i64),
            not_deleted(),
        ),
        reminder_got(answer, read_channels, read_frequency, reminder),
    ensures
        if place >= 0 && calls[place] is Upsert {
            reminder matches Ok(r) && same_reminder(r, calls[place]->prefs) && r.deleted_at is None
        } else {
            reminder == Err::<ReminderPreferences<C, F>, _>(DbError::QueryReturnedNoRows)
        },
{
    let changes = reminder_changes(calls);
    let table = table_after(changes);
    let key = SqlView::Integer(vault_id as i64);
    lemma_reminder_keys(calls, vault_id);
    lemma_reminder_rows(calls);
    assert forall|k: int| place < k < changes.len() implies (#[trigger] changes[k]).key() != key by {
        assert(calls[k].vault() != vault_id);
    }
    if place >= 0 {
        assert(calls[place].made());
        assert(changes[place].key() == key);
    }
    if place >= 0 && calls[place] is Upsert {
        lemma_last_put(changes, place);
        assert(not_deleted()(table[key]));
        let row = answer->Row_0@;
        assert(values_view(row) == table[key]);
        assert(reminder_fault(false)(values_view(row)) is None);
        lemma_reads_stored(
            calls[place],
            row,
            false,
            read_channels,
            read_frequency,
            reminder->Ok_0,
        );
    } else if place >= 0 {
        let until = calls.take(place + 1);
        assert forall|i: int| 0 <= i < until.len() implies (#[trigger] until[i]).made() by {
            assert(until[i] == calls[i]);
        }
        let before = calls.take(place);
        assert forall|i: int| 0 <= i < before.len() implies (#[trigger] before[i]).made() by {
            assert(before[i] == calls[i]);
        }
        lemma_reminder_rows(before);
        assert(reminder_changes(before) =~= changes.take(place));
        lemma_table_step(changes, place);
        lemma_other_changes(changes, place, key);
        if table.contains_key(key) {
            assert(table[key][4] != SqlView::Null);
        }
    } else {
        lemma_not_there(changes, place, key);
    }
}

/// Whether the calls about a vault are a store at one place and after it only deletions, the first
/// of them at another, if there is any.
pub open spec fn stored_and_deleted<C, F>(
    calls: Seq<ReminderCall<C, F>>,
    stored: int,
    first: Option<int>,
    vault_id: u64,
) -> bool {
    &&& 0 <= stored < calls.len()
    &&& calls[stored] is Upsert
    &&& calls[stored].vault() == vault_id
    &&& forall|k: int|
        stored < k < calls.len() && (#[trigger] calls[k]).vault() == vault_id
            ==> calls[k] is SoftDelete
    &&& match first {
        Some(f) => {
            &&& stored < f < calls.len()
            &&& calls[f].vault() == vault_id
            &&& forall|k: int| stored < k < f ==> (#[trigger] calls[k]).vault() != vault_id
        },
        None => forall|k: int|
            stored < k < calls.len() ==> (#[trigger] calls[k]).vault() != vault_id,
    }
}

/// The table holds the row of a reminder that was stored and deleted, with the time of the first
/// deletion.
proof fn lemma_stored_row<C, F>(
    calls: Seq<ReminderCall<C, F>>,
    stored: int,
    first: Option<int>,
    vault_id: u64,
)
    requires
        forall|i: int| 0 <= i < calls.len() ==> (#[trigger] calls[i]).made(),
        stored_and_deleted(calls, stored, first, vault_id),
    ensures
        table_after(reminder_changes(calls)).contains_pair(
            SqlView::Integer(vault_id as i64),
            calls[stored]->Upsert_statement@.params.push(
                match first {
                    Some(f) => time_value(calls[f]->now),
                    None => SqlView::Null,
                },
            ),
        ),
{
    let changes = reminder_changes(calls);
    let key = SqlView::Integer(vault_id as i64);
    lemma_reminder_keys(calls, vault_id);
    assert(calls[stored].made());
    assert(changes[stored].key() == key);
    assert forall|k: int|
        stored < k < changes.len() && (#[trigger] changes[k]).key() == key implies changes[k] is Mark
        && changes[k]->column == 4 && changes[k]->value != SqlView::Null by {
        assert(calls[k].made());
        assert(calls[k].vault() == vault_id);
    }
    match first {
        Some(f) => {
            assert(calls[f].made());
            assert(changes[f].key() == key);
            assert forall|k: int| stored < k < f implies (#[trigger] changes[k]).key() != key by {
                assert(calls[k].vault() != vault_id);
            }
        },
        None => {
            assert forall|k: int| stored < k < changes.len() implies (#[trigger] changes[k]).key()
                != key by {
                assert(calls[k].vault() != vault_id);
            }
        },
    }
    lemma_first_mark(changes, stored, first, 4);
    let params = calls[stored]->Upsert_statement@.params;
    if let Some(f) = first {
        assert(params.push(SqlView::Null).update(4, time_value(calls[f]->now)) =~= params.push(
            time_value(calls[f]->now),
        ));
    }
}

/// Among the reminders of a vault, deleted or not, is the one that was stored last, once, with the
/// time of the first deletion after that, and with none where there was no deletion.
pub proof fn law_first_deletion_time_stays<
    C,
    F,
    ReadChannels: Fn(&String) -> Option<Vec<C>>,
    ReadFrequency: Fn(&String) -> F,
>(
    calls: Seq<ReminderCall<C, F>>,
    stored: int,
    first: Option<int>,
    vault_id: u64,
    answer: FetchAll,
    read_channels: ReadChannels,
    read_frequency: ReadFrequency,
    reminders: Result<Vec<ReminderPreferences<C, F>>, DbError>,
)
    requires
        forall|i: int| 0 <= i < calls.len() ==> (#[trigger] calls[i]).made(),
        stored_and_deleted(calls, stored, first, vault_id),
        first matches Some(f) ==> four_digit_year(calls[f]->now.secs()),
        reads_texts(
            read_channels,
            read_frequency,
            calls[stored]->channels_json,
            calls[stored]->frequency_json,
            calls[stored]->prefs.channels@,
            calls[stored]->prefs.frequency,
        ),
        answers_all(answer, table_after(reminder_changes(calls)), of_vault(vault_id)),
        reminders_read(answer, true, read_channels, read_frequency, reminders),
    ensures
        reminders matches Ok(out) && out@.len() == 1 && same_reminder(
            out@[0],
            calls[stored]->prefs,
        ) && out@[0].deleted_at == match first {
            Some(f) => Some(calls[f]->now),
            None => None,
        },
{
    let table = table_after(reminder_changes(calls));
    let key = SqlView::Integer(vault_id as i64);
    let rows = rows_view(answer.rows@);
    lemma_stored_row(calls, stored, first, vault_id);
    lemma_reminder_rows(calls);
    assert(calls[stored].made());
    assert(table.contains_key(key));
    assert(of_vault(vault_id)(table[key]));
    let i = rows.index_of(table[key]);
    assert(rows[i] == table[key]);
    if rows.len() > 1 {
        assert(of_vault(vault_id)(rows[0]) && of_vault(vault_id)(rows[1]));
        assert(rows[0][0] != rows[1][0]);
    }
    assert forall|k: int| 0 <= k < rows.len() implies reminder_fault(true)(
        #[trigger] rows[k],
    ) is None by {
        assert(table.contains_key(rows[k][0]));
    }
    let out = reminders->Ok_0@;
    let row = answer.rows@[0]@;
    assert(rows[0] == values_view(row));
    assert(reads_reminder(row, true, read_channels, read_frequency, out[0]));
    lemma_reads_stored(calls[stored], row, true, read_channels, read_frequency, out[0]);
    if let Some(f) = first {
        assert(calls[f].made());
        assert(values_view(row)[4] == time_value(calls[f]->now));
    }
}

/// A vault for which no reminder was stored has none, deleted or not.
pub proof fn law_unknown_vault_has_no_reminders<
    C,
    F,
    ReadChannels: Fn(&String) -> Option<Vec<C>>,
    ReadFrequency: Fn(&String) -> F,
>(
    calls: Seq<ReminderCall<C, F>>,
    vault_id: u64,
    answer: FetchAll,
    read_channels: ReadChannels,
    read_frequency: ReadFrequency,
    reminders: Result<Vec<ReminderPreferences<C, F>>, DbError>,
)
    requires
        forall|i: int| 0 <= i < calls.len() ==> (#[trigger] calls[i]).made(),
        forall|i: int|
            0 <= i < calls.len() && (#[trigger] calls[i]).vault() == vault_id
                ==> calls[i] is SoftDelete,
        answers_all(answer, table_after(reminder_changes(calls)), of_vault(vault_id)),
        reminders_read(answer, true, read_channels, read_frequency, reminders),
    ensures
        reminders matches Ok(out) && out@.len() == 0,
{
    let rows = rows_view(answer.rows@);
    lemma_never_stored(calls, vault_id);
    if rows.len() > 0 {
        assert(of_vault(vault_id)(rows[0]));
    }
}

proof fn lemma_never_stored<C, F>(calls: Seq<ReminderCall<C, F>>, vault_id: u64)
    requires
        forall|i: int| 0 <= i < calls.len() ==> (#[trigger] calls[i]).made(),
        forall|i: int|
            0 <= i < calls.len() && (#[trigger] calls[i]).vault() == vault_id
                ==> calls[i] is SoftDelete,
    ensures
        !table_after(reminder_changes(calls)).contains_key(SqlView::Integer(vault_id as i64)),
    decreases calls.len(),
{
    if calls.len() > 0 {
        let shorter = calls.drop_last();
        assert forall|i: int| 0 <= i < shorter.len() implies (#[trigger] shorter[i]).made() by {
            assert(shorter[i] == calls[i]);
        }
        assert forall|i: int|
            0 <= i < shorter.len() && (#[trigger] shorter[i]).vault()
                == vault_id implies shorter[i] is SoftDelete by {
            assert(shorter[i] == calls[i]);
        }
        lemma_never_stored(shorter, vault_id);
        let changes = reminder_changes(calls);
        assert(changes.drop_last() =~= reminder_changes(shorter));
        lemma_reminder_keys(calls, vault_id);
        let last = calls.len() - 1;
        assert(calls[last].made());
        assert(changes[last].key() == SqlView::Integer(vault_id as i64) <==> calls[last].vault()
            == vault_id);
    }
}

/// A reminder that was deleted after it was last stored is not among those that are not deleted,
/// and one that was not is there once.
pub proof fn law_deleted_reminder_is_not_listed<
    C,
    F,
    ReadChannels: Fn(&String) -> Option<Vec<C>>,
    ReadFrequency: Fn(&String) -> F,
>(
    calls: Seq<ReminderCall<C, F>>,
    stored: int,
    first: Option<int>,
    vault_id: u64,
    answer: FetchAll,
    read_channels: ReadChannels,
    read_frequency: ReadFrequency,
    reminders: Result<Vec<ReminderPreferences<C, F>>, DbError>,
)
    requires
        forall|i: int| 0 <= i < calls.len() ==> (#[trigger] calls[i]).made(),
        stored_and_deleted(calls, stored, first, vault_id),
        reads_texts(
            read_channels,
            read_frequency,
            calls[stored]->channels_json,
            calls[stored]->frequency_json,
            calls[stored]->prefs.channels@,
            calls[stored]->prefs.frequency,
        ),
        answers_all(answer, table_after(reminder_changes(calls)), not_deleted()),
        reminders_read(answer, false, read_channels, read_frequency, reminders),
    ensures
        reminders is Ok,
        first is Some ==> forall|i: int|
            0 <= i < reminders->Ok_0@.len() ==> (#[trigger] reminders->Ok_0@[i]).vault_id
                != vault_id,
        first is None ==> exists|i: int|
            0 <= i < reminders->Ok_0@.len() && same_reminder(
                #[trigger] reminders->Ok_0@[i],
                calls[stored]->prefs,
            ),
        forall|i: int, j: int|
            0 <= i < j < reminders->Ok_0@.len() ==> (#[trigger] reminders->Ok_0@[i]).vault_id != (
            #[trigger] reminders->Ok_0@[j]).vault_id,
{
    let table = table_after(reminder_changes(calls));
    let key = SqlView::Integer(vault_id as i64);
    let rows = rows_view(answer.rows@);
    lemma_stored_row(calls, stored, first, vault_id);
    lemma_reminder_rows(calls);
    assert(calls[stored].made());
    assert(table.contains_key(key));
    assert forall|k: int| 0 <= k < rows.len() implies reminder_fault(false)(
        #[trigger] rows[k],
    ) is None by {
        assert(table.contains_key(rows[k][0]));
    }
    let out = reminders->Ok_0@;
    assert forall|i: int| 0 <= i < out.len() implies rows[i][0] == SqlView::Integer(
        (#[trigger] out[i]).vault_id as i64,
    ) by {
        assert(rows[i] == values_view(answer.rows@[i]@));
        assert(reads_reminder(answer.rows@[i]@, false, read_channels, read_frequency, out[i]));
        let number = rows[i][0]->Integer_0;
        assert((number as u64) as i64 == number) by (bit_vector);
    }
    assert forall|i: int, j: int| 0 <= i < j < out.len() implies (#[trigger] out[i]).vault_id != (
    #[trigger] out[j]).vault_id by {
        assert(rows[i][0] != rows[j][0]);
    }
    if first is Some {
        assert forall|i: int| 0 <= i < out.len() implies (#[trigger] out[i]).vault_id
            != vault_id by {
            assert(not_deleted()(rows[i]));
            assert(table.contains_pair(rows[i][0], rows[i]));
            if out[i].vault_id == vault_id {
                assert(rows[i] == table[key]);
                assert(table[key][4] == time_value(calls[first->Some_0]->now));
            }
        }
    } else {
        assert(not_deleted()(table[key]));
        let i = rows.index_of(table[key]);
        assert(rows[i] == table[key]);
        let row = answer.rows@[i]@;
        assert(rows[i] == values_view(row));
        assert(reads_reminder(row, false, read_channels, read_frequency, out[i]));
        lemma_reads_stored(calls[stored], row, false, read_channels, read_frequency, out[i]);
        assert(same_reminder(out[i], calls[stored]->prefs));
    }
}

/// A second factor that was stored last is read back field by field: whether it is enabled, the
/// secret, the phone, the email, the times and the method, each as it was stored.
pub proof fn law_second_factor_is_read_back<M, ReadMethod: Fn(&String) -> Option<M>>(
    calls: Seq<TwoFactorCall<M>>,
    place: int,
    vault_id: Seq<char>,
    answer: Fetch,
    read_method: ReadMethod,
    config: Result<Option<TwoFactorConfig<M>>, DbError>,
)
    requires
        forall|i: int| 0 <= i < calls.len() ==> (#[trigger] calls[i]).made(),
        0 <= place < calls.len(),
        calls[place] is Upsert,
        calls[place].vault() == vault_id,
        forall|k: int| place < k < calls.len() ==> (#[trigger] calls[k]).vault() != vault_id,
        reads_method(
            read_method,
            calls[place]->method_json,
            calls[place]->config.method,
        ),
        two_factor_is_storable(calls[place]->config.facts()),
        answers_one(
            answer,
            table_after(two_factor_changes(calls)),
            SqlView::Text(vault_id),
            any_row(),
        ),
        two_factor_got(answer, read_method, config),
    ensures
        config is Ok && config->Ok_0 is Some,
        ({
            let stored = calls[place]->config;
            let read = config->Ok_0->Some_0;
            &&& read.vault_id@ == stored.vault_id@
            &&& read.method == stored.method
            &&& read.enabled == stored.enabled
            &&& stored.secret is Some == read.secret is Some
            &&& stored.secret is Some ==> read.secret->Some_0@ == stored.secret->Some_0@
            &&& stored.phone is Some == read.phone is Some
            &&& stored.phone is Some ==> read.phone->Some_0@ == stored.phone->Some_0@
            &&& stored.email is Some == read.email is Some
            &&& stored.email is Some ==> read.email->Some_0@ == stored.email->Some_0@
            &&& read.created_at == stored.created_at
            &&& read.verified_at == stored.verified_at
        }),
{
    law_last_call_decides_second_factor(calls, place, vault_id, answer, read_method, config);
    assert(config->Ok_0->Some_0.facts() == calls[place]->config.facts());
}

} // verus!
