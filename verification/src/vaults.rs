//! The in-memory stores: vaults, their events, backups, shares, tokens, audit entries and
//! notification preferences.

use crate::json::{names, names_vault};
use crate::keyed::KeyedStore;
use crate::models::{
    AuditEntry, SearchQuery, SearchResult, ShareToken, Vault, VaultBackup, VaultEvent,
    VaultNotificationPreferences, VaultShare,
};
use crate::text::same_text;
use crate::timestamp::Timestamp;
use vstd::prelude::*;

verus! {

pub type VaultStore = KeyedStore<Vault>;

pub type EventStore = Vec<VaultEvent>;

pub type AuditStore = Vec<AuditEntry>;

pub type BackupStore = KeyedStore<VaultBackup>;

pub type ShareStore = Vec<VaultShare>;

pub type ShareTokenStore = KeyedStore<ShareToken>;

pub type NotificationStore = KeyedStore<VaultNotificationPreferences>;

/// A store without vaults.
pub fn create_vault_store() -> (store: VaultStore)
    ensures
        store@ == Map::<Seq<char>, Vault>::empty(),
        store.values() == Seq::<Vault>::empty(),
        store.well_formed(),
{
    KeyedStore::new()
}

/// A store without events.
pub fn create_event_store() -> (store: EventStore)
    ensures
        store@ == Seq::<VaultEvent>::empty(),
{
    Vec::new()
}

/// A store without audit entries.
pub fn create_audit_store() -> (store: AuditStore)
    ensures
        store@ == Seq::<AuditEntry>::empty(),
{
    Vec::new()
}

/// A store without backups.
pub fn create_backup_store() -> (store: BackupStore)
    ensures
        store@ == Map::<Seq<char>, VaultBackup>::empty(),
        store.values() == Seq::<VaultBackup>::empty(),
        store.well_formed(),
{
    KeyedStore::new()
}

/// A store without shares.
pub fn create_share_store() -> (store: ShareStore)
    ensures
        store@ == Seq::<VaultShare>::empty(),
{
    Vec::new()
}

/// A store without share tokens.
pub fn create_share_token_store() -> (store: ShareTokenStore)
    ensures
        store@ == Map::<Seq<char>, ShareToken>::empty(),
        store.values() == Seq::<ShareToken>::empty(),
        store.well_formed(),
{
    KeyedStore::new()
}

/// A store without notification preferences.
pub fn create_notification_store() -> (store: NotificationStore)
    ensures
        store@ == Map::<Seq<char>, VaultNotificationPreferences>::empty(),
        store.values() == Seq::<VaultNotificationPreferences>::empty(),
        store.well_formed(),
{
    KeyedStore::new()
}

pub(crate) proof fn lemma_filter_step<T>(items: Seq<T>, keep: spec_fn(T) -> bool, i: int)
    requires
        0 <= i < items.len(),
    ensures
        items.take(i + 1).filter(keep) == if keep(items[i]) {
            items.take(i).filter(keep).push(items[i])
        } else {
            items.take(i).filter(keep)
        },
{
    reveal(Seq::filter);
    assert(items.take(i + 1).drop_last() =~= items.take(i));
}

// ---- search ----

/// Whether a vault is one that the query asks for.
pub open spec fn matches_query(vault: Vault, query: SearchQuery) -> bool {
    &&& query.owner matches Some(owner) ==> vault.owner@ == owner@
    &&& query.beneficiary matches Some(beneficiary) ==> vault.beneficiary@ == beneficiary@
    &&& query.status matches Some(status) ==> vault.status.same_as(status)
    &&& query.created_after matches Some(after) ==> !vault.created_at.earlier_than(after)
    &&& query.created_before matches Some(before) ==> !before.earlier_than(vault.created_at)
}

/// The vaults of a store that the query asks for, in the order of the store.
pub open spec fn found_vaults(vaults: Seq<Vault>, query: SearchQuery) -> Seq<Vault> {
    vaults.filter(|vault: Vault| matches_query(vault, query))
}

/// The items from `offset` on, at most `limit` of them.
pub open spec fn page_of<T>(items: Seq<T>, offset: int, limit: int) -> Seq<T> {
    let from = if offset <= items.len() { offset } else { items.len() as int };
    let to = if offset + limit <= items.len() { offset + limit } else { items.len() as int };
    items.subrange(from, to)
}

/// The page that a query asks for: the first, if it names none.
pub open spec fn query_page(query: SearchQuery) -> u32 {
    match query.page {
        Some(page) => page,
        None => 1,
    }
}

/// The size of a page: ten vaults, if the query names none.
pub open spec fn query_limit(query: SearchQuery) -> u32 {
    match query.limit {
        Some(limit) => limit,
        None => 10,
    }
}

/// Whether a vault is one that the query asks for.
pub fn vault_matches(vault: &Vault, query: &SearchQuery) -> (matched: bool)
    ensures
        matched == matches_query(*vault, *query),
{
    if let Some(owner) = &query.owner {
        if vault.owner != *owner {
            return false;
        }
    }
    if let Some(beneficiary) = &query.beneficiary {
        if vault.beneficiary != *beneficiary {
            return false;
        }
    }
    if let Some(status) = &query.status {
        if !vault.status.is_same(status) {
            return false;
        }
    }
    if let Some(after) = &query.created_after {
        if vault.created_at.is_before(after) {
            return false;
        }
    }
    if let Some(before) = &query.created_before {
        if before.is_before(&vault.created_at) {
            return false;
        }
    }
    true
}

/// One page of the vaults that a query asks for, and how many there are on all pages.
pub fn search_vaults(store: &VaultStore, query: &SearchQuery) -> (result: SearchResult)
    requires
        query_page(*query) >= 1,
        (query_page(*query) - 1) * query_limit(*query) <= u32::MAX,
    ensures
        result.vaults@ == page_of(
            found_vaults(store.values(), *query),
            (query_page(*query) - 1) * query_limit(*query),
            query_limit(*query) as int,
        ),
        result.total == found_vaults(store.values(), *query).len() as u32,
        result.page == query_page(*query),
        result.limit == query_limit(*query),
{
    let page: u32 = match query.page {
        Some(page) => page,
        None => 1,
    };
    let limit: u32 = match query.limit {
        Some(limit) => limit,
        None => 10,
    };
    let offset: usize = ((page - 1) * limit) as usize;
    let ghost all = store.values();
    let ghost keep = |vault: Vault| matches_query(vault, *query);

    let mut filtered: Vec<Vault> = Vec::new();
    let mut i: usize = 0;
    while i < store.len()
        invariant
            i <= all.len(),
            all == store.values(),
            keep == (|vault: Vault| matches_query(vault, *query)),
            filtered@ == all.take(i as int).filter(keep),
        decreases all.len() - i,
    {
        proof {
            lemma_filter_step(all, keep, i as int);
        }
        let vault: &Vault = store.value_at(i);
        if vault_matches(vault, query) {
            filtered.push(vault.clone());
        }
        i = i + 1;
    }
    assert(all.take(all.len() as int) =~= all);

    let total: u32 = filtered.len() as u32;
    let mut vaults: Vec<Vault> = Vec::new();
    let mut j: usize = offset;
    while j < filtered.len() && vaults.len() < limit as usize
        invariant
            offset <= j,
            vaults@.len() == j - offset,
            vaults@.len() <= limit,
            offset <= filtered@.len() ==> j <= filtered@.len(),
            offset > filtered@.len() ==> j == offset,
            vaults@.len() > 0 ==> j <= filtered@.len(),
            forall|k: int| 0 <= k < vaults@.len() ==> vaults@[k] == filtered@[offset + k],
        decreases filtered@.len() - j,
    {
        vaults.push(filtered[j].clone());
        j = j + 1;
    }
    assert(vaults@ =~= page_of(filtered@, offset as int, limit as int));
    SearchResult { vaults, total, page, limit }
}

// ---- history and audit ----

/// Whether an event is one of a vault.
pub open spec fn event_of(vault_id: Seq<char>) -> spec_fn(VaultEvent) -> bool {
    |event: VaultEvent| event.vault_id@ == vault_id
}

/// The events of one vault, in the order they happened.
pub open spec fn events_of(events: Seq<VaultEvent>, vault_id: Seq<char>) -> Seq<VaultEvent> {
    events.filter(event_of(vault_id))
}

/// The events of one vault, in the order they happened.
pub fn get_vault_history(event_store: &EventStore, vault_id: &str) -> (history: Vec<VaultEvent>)
    ensures
        history@ == events_of(event_store@, vault_id@),
{
    let ghost keep = event_of(vault_id@);
    let mut history: Vec<VaultEvent> = Vec::new();
    let mut i: usize = 0;
    while i < event_store.len()
        invariant
            i <= event_store@.len(),
            keep == event_of(vault_id@),
            history@ == event_store@.take(i as int).filter(keep),
        decreases event_store@.len() - i,
    {
        proof {
            lemma_filter_step(event_store@, keep, i as int);
        }
        if same_text(&event_store[i].vault_id, vault_id) {
            history.push(event_store[i].clone());
        }
        i = i + 1;
    }
    assert(event_store@.take(event_store@.len() as int) =~= event_store@);
    history
}

/// Whether the details of an audit entry name a vault.
pub open spec fn entry_naming(vault_id: Seq<char>) -> spec_fn(AuditEntry) -> bool {
    |entry: AuditEntry| names(entry.details, vault_id)
}

/// The audit entries whose details name a vault, in the order they were made.
pub open spec fn entries_naming(entries: Seq<AuditEntry>, vault_id: Seq<char>) -> Seq<AuditEntry> {
    entries.filter(entry_naming(vault_id))
}

/// The audit entries whose details name a vault, in the order they were made.
pub fn get_vault_audit_log(audit_store: &AuditStore, vault_id: &str) -> (log: Vec<AuditEntry>)
    ensures
        log@ == entries_naming(audit_store@, vault_id@),
{
    let ghost keep = entry_naming(vault_id@);
    let mut log: Vec<AuditEntry> = Vec::new();
    let mut i: usize = 0;
    while i < audit_store.len()
        invariant
            i <= audit_store@.len(),
            keep == entry_naming(vault_id@),
            log@ == audit_store@.take(i as int).filter(keep),
        decreases audit_store@.len() - i,
    {
        proof {
            lemma_filter_step(audit_store@, keep, i as int);
        }
        if names_vault(&audit_store[i].details, vault_id) {
            log.push(audit_store[i].clone());
        }
        i = i + 1;
    }
    assert(audit_store@.take(audit_store@.len() as int) =~= audit_store@);
    log
}

/// Notes that `actor` did `action` at a given time.
pub fn append_audit_entry_at(
    audit_store: &mut AuditStore,
    timestamp: Timestamp,
    action: &str,
    actor: &str,
    details: serde_json::Value,
)
    ensures
        final(audit_store)@.len() == old(audit_store)@.len() + 1,
        final(audit_store)@.drop_last() == old(audit_store)@,
        final(audit_store)@.last().timestamp == timestamp,
        final(audit_store)@.last().action@ == action@,
        final(audit_store)@.last().actor@ == actor@,
        final(audit_store)@.last().details == details,
{
    audit_store.push(
        AuditEntry { timestamp, action: action.to_owned(), actor: actor.to_owned(), details },
    );
    assert(audit_store@.drop_last() =~= old(audit_store)@);
}

/// Notes that `actor` did `action` at the time that the clock tells.
pub fn append_audit_entry(
    audit_store: &mut AuditStore,
    action: &str,
    actor: &str,
    details: serde_json::Value,
)
    ensures
        final(audit_store)@.len() == old(audit_store)@.len() + 1,
        final(audit_store)@.drop_last() == old(audit_store)@,
        final(audit_store)@.last().timestamp.told_by_clock(),
        final(audit_store)@.last().action@ == action@,
        final(audit_store)@.last().actor@ == actor@,
        final(audit_store)@.last().details == details,
{
    append_audit_entry_at(audit_store, Timestamp::now(), action, actor, details);
}

// ---- backups ----

/// Keeps a backup under its id; an earlier one with that id is replaced.
pub fn store_backup(backup_store: &mut BackupStore, backup: VaultBackup)
    ensures
        final(backup_store).extends(*old(backup_store), backup.backup_id@, backup),
{
    let key: String = backup.backup_id.clone();
    backup_store.insert(key, backup);
}

/// The backup with an id.
pub fn get_backup(backup_store: &BackupStore, backup_id: &str) -> (backup: Option<VaultBackup>)
    ensures
        backup == looked_up(backup_store@, backup_id@),
{
    match backup_store.get(backup_id) {
        Some(backup) => Some(backup.clone()),
        None => None,
    }
}

/// What a table holds under a key.
pub open spec fn looked_up<V>(table: Map<Seq<char>, V>, key: Seq<char>) -> Option<V> {
    if table.contains_key(key) {
        Some(table[key])
    } else {
        None
    }
}

// ---- shares ----

/// Adds a share after those that are there.
pub fn add_vault_share(share_store: &mut ShareStore, share: VaultShare)
    ensures
        final(share_store)@ == old(share_store)@.push(share),
{
    share_store.push(share);
}

/// Whether a share is one of a vault.
pub open spec fn share_of(vault_id: Seq<char>) -> spec_fn(VaultShare) -> bool {
    |share: VaultShare| share.vault_id@ == vault_id
}

/// The shares of one vault, in the order they were added.
pub open spec fn shares_of(shares: Seq<VaultShare>, vault_id: Seq<char>) -> Seq<VaultShare> {
    shares.filter(share_of(vault_id))
}

/// The shares of one vault, in the order they were added.
pub fn get_vault_shares(share_store: &ShareStore, vault_id: &str) -> (shares: Vec<VaultShare>)
    ensures
        shares@ == shares_of(share_store@, vault_id@),
{
    let ghost keep = share_of(vault_id@);
    let mut shares: Vec<VaultShare> = Vec::new();
    let mut i: usize = 0;
    while i < share_store.len()
        invariant
            i <= share_store@.len(),
            keep == share_of(vault_id@),
            shares@ == share_store@.take(i as int).filter(keep),
        decreases share_store@.len() - i,
    {
        proof {
            lemma_filter_step(share_store@, keep, i as int);
        }
        if same_text(&share_store[i].vault_id, vault_id) {
            shares.push(share_store[i].clone());
        }
        i = i + 1;
    }
    assert(share_store@.take(share_store@.len() as int) =~= share_store@);
    shares
}

// ---- share tokens ----

/// Keeps a token under its text; an earlier one with that text is replaced.
pub fn add_share_token(store: &mut ShareTokenStore, token: ShareToken)
    ensures
        final(store).extends(*old(store), token.token@, token),
{
    let key: String = token.token.clone();
    store.insert(key, token);
}

/// The token with this text.
pub fn get_share_token(store: &ShareTokenStore, token: &str) -> (found: Option<ShareToken>)
    ensures
        found == looked_up(store@, token@),
{
    match store.get(token) {
        Some(found) => Some(found.clone()),
        None => None,
    }
}

/// Whether a token is one of a vault.
pub open spec fn token_of(vault_id: Seq<char>) -> spec_fn(ShareToken) -> bool {
    |token: ShareToken| token.vault_id@ == vault_id
}

/// The tokens of one vault, in the order of the store.
pub open spec fn tokens_of(tokens: Seq<ShareToken>, vault_id: Seq<char>) -> Seq<ShareToken> {
    tokens.filter(token_of(vault_id))
}

/// The tokens of one vault, in the order of the store.
pub fn get_vault_share_tokens(store: &ShareTokenStore, vault_id: &str) -> (tokens: Vec<ShareToken>)
    ensures
        tokens@ == tokens_of(store.values(), vault_id@),
{
    let ghost all = store.values();
    let ghost keep = token_of(vault_id@);
    let mut tokens: Vec<ShareToken> = Vec::new();
    let mut i: usize = 0;
    while i < store.len()
        invariant
            i <= all.len(),
            all == store.values(),
            keep == token_of(vault_id@),
            tokens@ == all.take(i as int).filter(keep),
        decreases all.len() - i,
    {
        proof {
            lemma_filter_step(all, keep, i as int);
        }
        let token: &ShareToken = store.value_at(i);
        if same_text(&token.vault_id, vault_id) {
            tokens.push(token.clone());
        }
        i = i + 1;
    }
    assert(all.take(all.len() as int) =~= all);
    tokens
}

/// Revokes the token with this text and returns it as it is then; nothing happens where there is
/// no such token.
pub fn revoke_share_token(store: &mut ShareTokenStore, token: &str) -> (revoked: Option<ShareToken>)
    ensures
        if old(store)@.contains_key(token@) {
            &&& revoked == Some(old(store)@[token@].revoked_form())
            &&& final(store).extends(*old(store), token@, old(store)@[token@].revoked_form())
        } else {
            &&& revoked is None
            &&& *final(store) == *old(store)
        },
{
    let found: Option<ShareToken> = get_share_token(store, token);
    match found {
        Some(mut t) => {
            t.revoked = true;
            let result: ShareToken = t.clone();
            store.insert(token.to_owned(), t);
            Some(result)
        },
        None => None,
    }
}

// ---- notification preferences ----

/// Keeps the preferences of an owner; earlier ones are replaced.
pub fn set_notification_preferences(
    notif_store: &mut NotificationStore,
    prefs: VaultNotificationPreferences,
)
    ensures
        final(notif_store).extends(*old(notif_store), prefs.owner@, prefs),
{
    let key: String = prefs.owner.clone();
    notif_store.insert(key, prefs);
}

/// The preferences of an owner.
pub fn get_notification_preferences(notif_store: &NotificationStore, owner: &str) -> (prefs: Option<
    VaultNotificationPreferences,
>)
    ensures
        prefs == looked_up(notif_store@, owner@),
{
    match notif_store.get(owner) {
        Some(prefs) => Some(prefs.clone()),
        None => None,
    }
}

// ---- laws ----

/// A table gives back what was last put under a key, and keeps what is under the others: so it is
/// with backups, share tokens, notification preferences and vaults.
pub proof fn law_read_back<V>(
    before: KeyedStore<V>,
    after: KeyedStore<V>,
    key: Seq<char>,
    value: V,
    other: Seq<char>,
)
    requires
        after.extends(before, key, value),
    ensures
        looked_up(after@, key) == Some(value),
        other != key ==> looked_up(after@, other) == looked_up(before@, other),
{
}

/// A revoked token is found revoked and otherwise as it was, no other token changes, and revoking
/// it once more changes nothing.
pub proof fn law_revoked_token(
    before: ShareTokenStore,
    after: ShareTokenStore,
    token: Seq<char>,
    other: Seq<char>,
)
    requires
        before@.contains_key(token),
        after.extends(before, token, before@[token].revoked_form()),
    ensures
        looked_up(after@, token) == Some(before@[token].revoked_form()),
        after@[token].revoked,
        other != token ==> looked_up(after@, other) == looked_up(before@, other),
        after@[token].revoked_form() == after@[token],
        after@.insert(token, after@[token].revoked_form()) == after@,
{
    assert(after@.insert(token, after@[token].revoked_form()) =~= after@);
}

/// A search finds a vault exactly when the store holds it and the query asks for it.
pub proof fn law_search_finds(vaults: Seq<Vault>, query: SearchQuery, vault: Vault)
    ensures
        found_vaults(vaults, query).contains(vault) <==> vaults.contains(vault) && matches_query(
            vault,
            query,
        ),
{
    let keep = |vault: Vault| matches_query(vault, query);
    broadcast use vstd::seq_lib::group_filter_ensures;

    if vaults.contains(vault) && matches_query(vault, query) {
        let i = choose|i: int| 0 <= i < vaults.len() && vaults[i] == vault;
        assert(keep(vaults[i]));
    }
    if found_vaults(vaults, query).contains(vault) {
        let found = found_vaults(vaults, query);
        let i = choose|i: int| 0 <= i < found.len() && found[i] == vault;
        assert(keep(found[i]));
        vaults.lemma_filter_contains_rev(keep, vault);
    }
}

/// A search that asks for nothing finds every vault of the store, in its order.
pub proof fn law_open_search_finds_all(vaults: Seq<Vault>, query: SearchQuery)
    requires
        query.owner is None,
        query.beneficiary is None,
        query.status is None,
        query.created_after is None,
        query.created_before is None,
    ensures
        found_vaults(vaults, query) == vaults,
    decreases vaults.len(),
{
    reveal(Seq::filter);
    if vaults.len() > 0 {
        law_open_search_finds_all(vaults.drop_last(), query);
        assert(vaults =~= vaults.drop_last().push(vaults.last()));
    } else {
        assert(found_vaults(vaults, query) =~= vaults);
    }
}

/// The pages of a search follow on one another: the first `page` pages are the first `page - 1`
/// pages and then page `page`. So no vault is shown twice and none is left out.
pub proof fn law_pages_follow<T>(items: Seq<T>, page: nat, limit: nat)
    requires
        page >= 1,
    ensures
        page_of(items, 0, (page * limit) as int) == page_of(items, 0, (page - 1) * limit) + page_of(
            items,
            (page - 1) * limit,
            limit as int,
        ),
        page * limit >= items.len() ==> page_of(items, 0, (page * limit) as int) == items,
{
    let before = (page - 1) * limit;
    assert(page * limit == before + limit && before >= 0) by (nonlinear_arith)
        requires
            page >= 1,
            before == (page - 1) * limit,
    ;
    assert(page_of(items, 0, before + limit) =~= page_of(items, 0, before) + page_of(
        items,
        before,
        limit as int,
    ));
    if page * limit >= items.len() {
        assert(page_of(items, 0, (page * limit) as int) =~= items);
    }
}

/// A share is seen among those of its vault, after the earlier ones, and among those of no other.
pub proof fn law_share_is_seen(shares: Seq<VaultShare>, share: VaultShare, vault_id: Seq<char>)
    ensures
        shares_of(shares.push(share), vault_id) == if share.vault_id@ == vault_id {
            shares_of(shares, vault_id).push(share)
        } else {
            shares_of(shares, vault_id)
        },
{
    let longer = shares.push(share);
    lemma_filter_step(longer, share_of(vault_id), shares.len() as int);
    assert(longer.take(shares.len() as int + 1) =~= longer);
    assert(longer.take(shares.len() as int) =~= shares);
}

/// An audit entry is seen in the log of the vault that its details name, after the earlier ones,
/// and in no other.
pub proof fn law_audit_entry_is_seen(
    before: Seq<AuditEntry>,
    after: Seq<AuditEntry>,
    vault_id: Seq<char>,
)
    requires
        after.len() == before.len() + 1,
        after.drop_last() == before,
    ensures
        entries_naming(after, vault_id) == if names(after.last().details, vault_id) {
            entries_naming(before, vault_id).push(after.last())
        } else {
            entries_naming(before, vault_id)
        },
{
    lemma_filter_step(after, entry_naming(vault_id), before.len() as int);
    assert(after.take(before.len() as int + 1) =~= after);
    assert(after.take(before.len() as int) =~= before);
}

} // verus!
