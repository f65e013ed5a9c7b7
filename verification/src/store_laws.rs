//! What reads of the in-memory stores, of the cache and of the handle give back of writes, told by
//! the fields of what is stored.

use crate::cache::{
    get_ttl_remaining_cached, get_vault_cached, get_vault_summary_cached, invalidate_vault_cache,
    VaultCache,
};
use crate::db::{Connect, Db};
use crate::json::string_members;
use crate::keyed::KeyedStore;
use crate::models::{
    AuditEntry, ShareToken, Vault, VaultBackup, VaultEvent, VaultNotificationPreferences,
    VaultShare, VaultStatus, VaultSummary,
};
use crate::pool::PoolConfig;
use crate::timestamp::Timestamp;
use crate::vaults::{
    add_share_token, add_vault_share, append_audit_entry, append_audit_entry_at, create_audit_store,
    create_backup_store, create_event_store, create_notification_store, create_share_store,
    create_share_token_store, create_vault_store, entry_naming, event_of, get_backup,
    get_notification_preferences, get_share_token, get_vault_audit_log, get_vault_history,
    get_vault_share_tokens, get_vault_shares, revoke_share_token, set_notification_preferences,
    share_of, store_backup, token_of, AuditStore, BackupStore, EventStore, NotificationStore,
    ShareStore, ShareTokenStore, VaultStore,
};
use crate::webhook::{create_webhook_store, WebhookStore};
use vstd::prelude::*;

verus! {

// ---- the keyed table ----

/// A value that is put into a table is under its key, in place of an earlier one or after all the
/// others, and what is under other keys is as before.
pub proof fn law_put_replaces_or_comes_last<V>(
    store: &mut KeyedStore<V>,
    key: String,
    value: V,
    done: (),
)
    requires
        store.well_formed(),
        call_ensures(KeyedStore::<V>::insert, (store, key, value), done),
    ensures
        final(store)@.contains_pair(key@, value),
        forall|other: Seq<char>|
            other != key@ ==> (#[trigger] final(store)@.contains_key(other) == old(
                store,
            )@.contains_key(other) && final(store)@[other] == old(store)@[other]),
        !old(store)@.contains_key(key@) ==> final(store).values() == old(store).values().push(
            value,
        ),
        old(store)@.contains_key(key@) ==> {
            &&& final(store).keys() == old(store).keys()
            &&& final(store).values().len() == old(store).values().len()
            &&& forall|i: int|
                0 <= i < old(store).values().len() ==> #[trigger] final(store).values()[i] == if old(
                    store,
                ).keys()[i] == key@ {
                    value
                } else {
                    old(store).values()[i]
                }
        },
{
    store.lemma_places();
}

/// A value that is taken out of a table is gone, and what is under other keys is as before.
pub proof fn law_taken_out_is_gone<V>(store: &mut KeyedStore<V>, key: &str, done: ())
    requires
        call_ensures(KeyedStore::<V>::remove, (store, key), done),
    ensures
        !final(store)@.contains_key(key@),
        forall|other: Seq<char>|
            other != key@ ==> (#[trigger] final(store)@.contains_key(other) == old(
                store,
            )@.contains_key(other) && final(store)@[other] == old(store)@[other]),
{
}

/// What is got from a table is what is under the key, and nothing where there is nothing.
pub proof fn law_got_is_what_is_there<V>(store: KeyedStore<V>, key: &str, value: Option<&V>)
    requires
        call_ensures(KeyedStore::<V>::get, (&store, key), value),
    ensures
        value is Some <==> store@.contains_key(key@),
        value matches Some(v) ==> *v == store@[key@],
{
}

// ---- events, audit entries and shares ----

/// The history of a vault is the events with its id, all of them, in the order in which they were
/// stored.
pub proof fn law_history_has_the_events_of_the_vault(
    events: EventStore,
    vault_id: &str,
    history: Vec<VaultEvent>,
)
    requires
        call_ensures(get_vault_history, (&events, vault_id), history),
    ensures
        history@ == events@.filter(|event: VaultEvent| event.vault_id@ == vault_id@),
{
    assert(event_of(vault_id@) =~= |event: VaultEvent| event.vault_id@ == vault_id@);
}

/// The audit log of a vault is the entries whose details have its id as the string `vault_id`, all
/// of them, in the order in which they were made.
pub proof fn law_audit_log_has_the_entries_of_the_vault(
    entries: AuditStore,
    vault_id: &str,
    log: Vec<AuditEntry>,
)
    requires
        call_ensures(get_vault_audit_log, (&entries, vault_id), log),
    ensures
        log@ == entries@.filter(
            |entry: AuditEntry|
                string_members(entry.details).contains_key("vault_id"@) && string_members(
                    entry.details,
                )["vault_id"@] == vault_id@,
        ),
{
    assert(entry_naming(vault_id@) =~= |entry: AuditEntry|
        string_members(entry.details).contains_key("vault_id"@) && string_members(
            entry.details,
        )["vault_id"@] == vault_id@);
}

/// An audit entry that is noted comes last, with the time, the action, the actor and the details
/// as they were handed in, and the entries before it stay.
pub proof fn law_noted_entry_comes_last(
    entries: &mut AuditStore,
    timestamp: Timestamp,
    action: &str,
    actor: &str,
    details: serde_json::Value,
    done: (),
)
    requires
        call_ensures(
            append_audit_entry_at,
            (entries, timestamp, action, actor, details),
            done,
        ),
    ensures
        final(entries)@.len() == old(entries)@.len() + 1,
        forall|i: int|
            0 <= i < old(entries)@.len() ==> #[trigger] final(entries)@[i] == old(entries)@[i],
        ({
            let noted = final(entries)@[old(entries)@.len() as int];
            &&& noted.timestamp == timestamp
            &&& noted.action@ == action@
            &&& noted.actor@ == actor@
            &&& noted.details == details
        }),
{
    assert forall|i: int| 0 <= i < old(entries)@.len() implies #[trigger] final(entries)@[i] == old(
        entries,
    )@[i] by {
        assert(final(entries)@.drop_last()[i] == old(entries)@[i]);
    }
}

/// An audit entry that is noted at the time of the clock comes last, with the action, the actor and
/// the details as they were handed in, and the entries before it stay.
pub proof fn law_entry_noted_now_comes_last(
    entries: &mut AuditStore,
    action: &str,
    actor: &str,
    details: serde_json::Value,
    done: (),
)
    requires
        call_ensures(append_audit_entry, (entries, action, actor, details), done),
    ensures
        final(entries)@.len() == old(entries)@.len() + 1,
        forall|i: int|
            0 <= i < old(entries)@.len() ==> #[trigger] final(entries)@[i] == old(entries)@[i],
        ({
            let noted = final(entries)@[old(entries)@.len() as int];
            &&& noted.timestamp.secs() >= 0
            &&& noted.action@ == action@
            &&& noted.actor@ == actor@
            &&& noted.details == details
        }),
{
    assert forall|i: int| 0 <= i < old(entries)@.len() implies #[trigger] final(entries)@[i] == old(
        entries,
    )@[i] by {
        assert(final(entries)@.drop_last()[i] == old(entries)@[i]);
    }
}

/// A share that is added comes last, and the shares of a vault are those with its id, all of them,
/// in the order in which they were added.
pub proof fn law_shares_are_those_of_the_vault(
    before: &mut ShareStore,
    share: VaultShare,
    done: (),
    shares: ShareStore,
    vault_id: &str,
    listed: Vec<VaultShare>,
)
    requires
        call_ensures(add_vault_share, (before, share), done),
        call_ensures(get_vault_shares, (&shares, vault_id), listed),
    ensures
        final(before)@ == old(before)@.push(share),
        listed@ == shares@.filter(|share: VaultShare| share.vault_id@ == vault_id@),
{
    assert(share_of(vault_id@) =~= |share: VaultShare| share.vault_id@ == vault_id@);
}

// ---- backups, tokens and preferences ----

/// A backup is kept under its own id, and got under it; what is under other ids stays.
pub proof fn law_backup_is_kept_under_its_id(
    store: &mut BackupStore,
    backup: VaultBackup,
    done: (),
    later: BackupStore,
    id: &str,
    got: Option<VaultBackup>,
)
    requires
        call_ensures(store_backup, (store, backup), done),
        call_ensures(get_backup, (&later, id), got),
    ensures
        final(store)@ == old(store)@.insert(backup.backup_id@, backup),
        got is Some <==> later@.contains_key(id@),
        got is Some ==> got->Some_0 == later@[id@],
{
}

/// A token is kept under its own text, and got under it; what is under other texts stays.
pub proof fn law_token_is_kept_under_its_text(
    store: &mut ShareTokenStore,
    token: ShareToken,
    done: (),
    later: ShareTokenStore,
    text: &str,
    got: Option<ShareToken>,
)
    requires
        call_ensures(add_share_token, (store, token), done),
        call_ensures(get_share_token, (&later, text), got),
    ensures
        final(store)@ == old(store)@.insert(token.token@, token),
        got is Some <==> later@.contains_key(text@),
        got is Some ==> got->Some_0 == later@[text@],
{
}

/// The tokens of a vault are those with its id, revoked or not, all of them, in the order of the
/// store.
pub proof fn law_tokens_are_those_of_the_vault(
    store: ShareTokenStore,
    vault_id: &str,
    listed: Vec<ShareToken>,
)
    requires
        call_ensures(get_vault_share_tokens, (&store, vault_id), listed),
    ensures
        listed@ == store.values().filter(|token: ShareToken| token.vault_id@ == vault_id@),
{
    assert(token_of(vault_id@) =~= |token: ShareToken| token.vault_id@ == vault_id@);
}

/// Revoking a token marks it as revoked and changes nothing else of it, nor of any other; it is
/// handed back as it is then. Where there is no such token nothing happens.
pub proof fn law_revoking_marks_the_token(
    store: &mut ShareTokenStore,
    text: &str,
    revoked: Option<ShareToken>,
)
    requires
        call_ensures(revoke_share_token, (store, text), revoked),
    ensures
        !old(store)@.contains_key(text@) ==> revoked is None && *final(store) == *old(store),
        old(store)@.contains_key(text@) ==> {
            let was = old(store)@[text@];
            let left = final(store)@[text@];
            &&& revoked == Some(left)
            &&& left.revoked
            &&& left.token@ == was.token@
            &&& left.vault_id@ == was.vault_id@
            &&& left.body@ == was.body@
            &&& final(store)@.contains_key(text@)
            &&& final(store)@.remove(text@) == old(store)@.remove(text@)
        },
{
    if old(store)@.contains_key(text@) {
        assert(final(store)@.remove(text@) =~= old(store)@.remove(text@));
    }
}

/// Preferences are kept under their owner, and got under them; those of other owners stay.
pub proof fn law_preferences_are_kept_under_their_owner(
    store: &mut NotificationStore,
    prefs: VaultNotificationPreferences,
    done: (),
    later: NotificationStore,
    owner: &str,
    got: Option<VaultNotificationPreferences>,
)
    requires
        call_ensures(set_notification_preferences, (store, prefs), done),
        call_ensures(get_notification_preferences, (&later, owner), got),
    ensures
        final(store)@ == old(store)@.insert(prefs.owner@, prefs),
        got is Some <==> later@.contains_key(owner@),
        got is Some ==> got->Some_0 == later@[owner@],
{
}

// ---- the cache ----

/// A read of a vault gives what the cache holds of it, and else what the store holds. What the
/// store had to give is held from then on; nothing else in the cache changes.
pub proof fn law_vault_is_read_through_the_cache(
    store: VaultStore,
    cache: &mut VaultCache,
    vault_id: &str,
    vault: Option<Vault>,
)
    requires
        call_ensures(get_vault_cached, (&store, cache, vault_id), vault),
    ensures
        ({
            let held = old(cache)@.vaults;
            &&& held.contains_key(vault_id@) ==> vault == Some(held[vault_id@])
                && final(cache)@.vaults == held
            &&& !held.contains_key(vault_id@) && store@.contains_key(vault_id@) ==> vault == Some(
                store@[vault_id@],
            ) && final(cache)@.vaults == held.insert(vault_id@, store@[vault_id@])
            &&& !held.contains_key(vault_id@) && !store@.contains_key(vault_id@) ==> vault is None
                && final(cache)@.vaults == held
        }),
        final(cache)@.ttls == old(cache)@.ttls,
        final(cache)@.summaries == old(cache)@.summaries,
{
}

/// A read of the remaining time gives what the cache holds of it, and else that of the vault in
/// the store. What the store had to give is held from then on; nothing else in the cache changes.
pub proof fn law_ttl_is_read_through_the_cache(
    store: VaultStore,
    cache: &mut VaultCache,
    vault_id: &str,
    ttl: Option<Option<u64>>,
)
    requires
        call_ensures(get_ttl_remaining_cached, (&store, cache, vault_id), ttl),
    ensures
        ({
            let held = old(cache)@.ttls;
            &&& held.contains_key(vault_id@) ==> ttl == Some(held[vault_id@])
                && final(cache)@.ttls == held
            &&& !held.contains_key(vault_id@) && store@.contains_key(vault_id@) ==> ttl == Some(
                store@[vault_id@].ttl_remaining,
            ) && final(cache)@.ttls == held.insert(vault_id@, store@[vault_id@].ttl_remaining)
            &&& !held.contains_key(vault_id@) && !store@.contains_key(vault_id@) ==> ttl is None
                && final(cache)@.ttls == held
        }),
        final(cache)@.vaults == old(cache)@.vaults,
        final(cache)@.summaries == old(cache)@.summaries,
{
}

/// Whether a summary tells of a vault what it has: who and whose it is, its balance, its status and
/// its remaining time.
pub open spec fn sums_up(summary: VaultSummary, vault: Vault) -> bool {
    &&& summary.id@ == vault.id@
    &&& summary.owner@ == vault.owner@
    &&& summary.beneficiary@ == vault.beneficiary@
    &&& summary.balance == vault.balance
    &&& summary.status == vault.status
    &&& summary.ttl_remaining == vault.ttl_remaining
}

/// A read of a summary gives what the cache holds of it, and else the summary of the vault in the
/// store. What the store had to give is held from then on; nothing else in the cache changes.
pub proof fn law_summary_is_read_through_the_cache(
    store: VaultStore,
    cache: &mut VaultCache,
    vault_id: &str,
    summary: Option<VaultSummary>,
)
    requires
        call_ensures(get_vault_summary_cached, (&store, cache, vault_id), summary),
    ensures
        ({
            let held = old(cache)@.summaries;
            &&& held.contains_key(vault_id@) ==> summary == Some(held[vault_id@])
                && final(cache)@.summaries == held
            &&& !held.contains_key(vault_id@) && store@.contains_key(vault_id@) ==> summary is Some
                && sums_up(summary->Some_0, store@[vault_id@]) && final(cache)@.summaries
                == held.insert(vault_id@, summary->Some_0)
            &&& !held.contains_key(vault_id@) && !store@.contains_key(vault_id@) ==> summary is None
                && final(cache)@.summaries == held
        }),
        final(cache)@.vaults == old(cache)@.vaults,
        final(cache)@.ttls == old(cache)@.ttls,
{
}

/// Invalidating a vault makes the cache forget all of that vault and nothing of any other.
pub proof fn law_invalidating_forgets_one_vault(
    cache: &mut VaultCache,
    vault_id: &str,
    done: (),
    other: Seq<char>,
)
    requires
        call_ensures(invalidate_vault_cache, (cache, vault_id), done),
    ensures
        !final(cache)@.vaults.contains_key(vault_id@),
        !final(cache)@.ttls.contains_key(vault_id@),
        !final(cache)@.summaries.contains_key(vault_id@),
        other != vault_id@ ==> {
            &&& final(cache)@.vaults.contains_key(other) == old(cache)@.vaults.contains_key(other)
            &&& final(cache)@.vaults[other] == old(cache)@.vaults[other]
            &&& final(cache)@.ttls.contains_key(other) == old(cache)@.ttls.contains_key(other)
            &&& final(cache)@.ttls[other] == old(cache)@.ttls[other]
            &&& final(cache)@.summaries.contains_key(other) == old(
                cache,
            )@.summaries.contains_key(other)
            &&& final(cache)@.summaries[other] == old(cache)@.summaries[other]
        },
{
}

/// What is remembered by hand is held, and nothing else in the cache changes.
pub proof fn law_remembered_is_held(
    cache: &mut VaultCache,
    vault_id: &str,
    vault: Vault,
    done: (),
    got: Option<Vault>,
    later: VaultCache,
)
    requires
        call_ensures(VaultCache::set_vault, (cache, vault_id, vault), done),
        call_ensures(VaultCache::get_vault, (&later, vault_id), got),
    ensures
        final(cache)@.vaults == old(cache)@.vaults.insert(vault_id@, vault),
        final(cache)@.ttls == old(cache)@.ttls,
        final(cache)@.summaries == old(cache)@.summaries,
        got is Some <==> later@.vaults.contains_key(vault_id@),
        got is Some ==> got->Some_0 == later@.vaults[vault_id@],
{
}

/// A remaining time that is remembered by hand is held, and nothing else in the cache changes.
pub proof fn law_remembered_time_is_held(
    cache: &mut VaultCache,
    vault_id: &str,
    ttl: Option<u64>,
    done: (),
    got: Option<Option<u64>>,
    later: VaultCache,
)
    requires
        call_ensures(VaultCache::set_ttl_remaining, (cache, vault_id, ttl), done),
        call_ensures(VaultCache::get_ttl_remaining, (&later, vault_id), got),
    ensures
        final(cache)@.ttls == old(cache)@.ttls.insert(vault_id@, ttl),
        final(cache)@.vaults == old(cache)@.vaults,
        final(cache)@.summaries == old(cache)@.summaries,
        got is Some <==> later@.ttls.contains_key(vault_id@),
        got is Some ==> got->Some_0 == later@.ttls[vault_id@],
{
}

/// A summary that is remembered by hand is held, and nothing else in the cache changes.
pub proof fn law_remembered_summary_is_held(
    cache: &mut VaultCache,
    vault_id: &str,
    summary: VaultSummary,
    done: (),
    got: Option<VaultSummary>,
    later: VaultCache,
)
    requires
        call_ensures(VaultCache::set_vault_summary, (cache, vault_id, summary), done),
        call_ensures(VaultCache::get_vault_summary, (&later, vault_id), got),
    ensures
        final(cache)@.summaries == old(cache)@.summaries.insert(vault_id@, summary),
        final(cache)@.vaults == old(cache)@.vaults,
        final(cache)@.ttls == old(cache)@.ttls,
        got is Some <==> later@.summaries.contains_key(vault_id@),
        got is Some ==> got->Some_0 == later@.summaries[vault_id@],
{
}

/// Two statuses are the same if both are active, both are released, or both are others of one name.
pub proof fn law_same_status(a: VaultStatus, b: VaultStatus, same: bool)
    requires
        call_ensures(VaultStatus::is_same, (&a, &b), same),
    ensures
        a is Active ==> same == (b is Active),
        a is Released ==> same == (b is Released),
        a is Other ==> same == (b is Other && b->Other_0@ == a->Other_0@),
{
}

// ---- the handle ----

/// A vault that the handle keeps is under its own id, and got under it; the others and the settings
/// stay.
pub proof fn law_handle_keeps_vaults(
    db: &mut Db,
    vault: Vault,
    done: (),
    later: Db,
    id: &str,
    got: Option<Vault>,
)
    requires
        call_ensures(Db::insert_vault, (db, vault), done),
        call_ensures(Db::get_vault, (&later, id), got),
    ensures
        final(db).vault_store@ == old(db).vault_store@.insert(vault.id@, vault),
        final(db).pool_config == old(db).pool_config,
        got is Some <==> later.vault_store@.contains_key(id@),
        got is Some ==> got->Some_0 == later.vault_store@[id@],
{
}

/// A handle has the settings it is opened with, or else a pool of two to ten connections and half a
/// minute; the connection waits for as long as the settings say, and there are no vaults at first.
pub proof fn law_handle_has_its_settings(
    path: &str,
    config: PoolConfig,
    opened: (Db, Connect),
    standard: (Db, Connect),
)
    requires
        call_ensures(Db::open_with_pool_config, (path, &config), opened),
        call_ensures(Db::open, (path,), standard),
    ensures
        opened.0.pool_config == config,
        opened.1.path@ == path@,
        opened.1.busy_timeout_secs == config.timeout_secs,
        standard.0.pool_config == (PoolConfig { min: 2, max: 10, timeout_secs: 30 }),
        standard.1.path@ == path@,
        standard.1.busy_timeout_secs == 30,
        forall|id: Seq<char>| !(#[trigger] opened.0.vault_store@.contains_key(id)),
        forall|id: Seq<char>| !(#[trigger] standard.0.vault_store@.contains_key(id)),
{
}

/// The summary of a vault tells of it what it has.
pub proof fn law_summary_is_of_its_vault(vault: Vault, summary: VaultSummary)
    requires
        call_ensures(<VaultSummary as From<&Vault>>::from, (&vault,), summary),
    ensures
        sums_up(summary, vault),
{
}

/// The stores have nothing in them at first.
pub proof fn law_stores_are_empty_at_first(
    vaults: VaultStore,
    events: EventStore,
    audit: AuditStore,
    backups: BackupStore,
    shares: ShareStore,
    tokens: ShareTokenStore,
    preferences: NotificationStore,
    webhooks: WebhookStore,
    cache: VaultCache,
)
    requires
        call_ensures(create_vault_store, (), vaults),
        call_ensures(create_event_store, (), events),
        call_ensures(create_audit_store, (), audit),
        call_ensures(create_backup_store, (), backups),
        call_ensures(create_share_store, (), shares),
        call_ensures(create_share_token_store, (), tokens),
        call_ensures(create_notification_store, (), preferences),
        call_ensures(create_webhook_store, (), webhooks),
        call_ensures(VaultCache::new, (), cache),
    ensures
        vaults.values().len() == 0,
        events@.len() == 0,
        audit@.len() == 0,
        backups.values().len() == 0,
        shares@.len() == 0,
        tokens.values().len() == 0,
        preferences.values().len() == 0,
        webhooks.values().len() == 0,
        forall|id: Seq<char>| !(#[trigger] vaults@.contains_key(id)),
        forall|id: Seq<char>| !(#[trigger] backups@.contains_key(id)),
        forall|id: Seq<char>| !(#[trigger] tokens@.contains_key(id)),
        forall|id: Seq<char>| !(#[trigger] preferences@.contains_key(id)),
        forall|id: Seq<char>| !(#[trigger] webhooks@.contains_key(id)),
        forall|id: Seq<char>| !(#[trigger] cache@.vaults.contains_key(id)),
        forall|id: Seq<char>| !(#[trigger] cache@.ttls.contains_key(id)),
        forall|id: Seq<char>| !(#[trigger] cache@.summaries.contains_key(id)),
{
}

} // verus!
