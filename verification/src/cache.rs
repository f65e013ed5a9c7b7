//! A cache in front of the vault store, and reads that go through it.

use crate::keyed::KeyedStore;
use crate::models::{Vault, VaultSummary};
use crate::vaults::{looked_up, VaultStore};
use vstd::prelude::*;

verus! {

/// What the cache remembers of vaults, by vault id. An entry stays until the vault is invalidated.
pub struct VaultCache {
    vaults: KeyedStore<Vault>,
    ttls: KeyedStore<Option<u64>>,
    summaries: KeyedStore<VaultSummary>,
}

/// The contents of a cache.
#[verifier::ext_equal]
pub struct CacheView {
    pub vaults: Map<Seq<char>, Vault>,
    pub ttls: Map<Seq<char>, Option<u64>>,
    pub summaries: Map<Seq<char>, VaultSummary>,
}

impl View for VaultCache {
    type V = CacheView;

    closed spec fn view(&self) -> CacheView {
        CacheView { vaults: self.vaults@, ttls: self.ttls@, summaries: self.summaries@ }
    }
}

impl CacheView {
    /// The cache with nothing in it.
    pub open spec fn empty() -> CacheView {
        CacheView { vaults: Map::empty(), ttls: Map::empty(), summaries: Map::empty() }
    }

    /// The cache without what it holds of one vault.
    pub open spec fn without(self, vault_id: Seq<char>) -> CacheView {
        CacheView {
            vaults: self.vaults.remove(vault_id),
            ttls: self.ttls.remove(vault_id),
            summaries: self.summaries.remove(vault_id),
        }
    }

    /// Whether all that the cache holds is what the store says.
    pub open spec fn agrees_with(self, store: Map<Seq<char>, Vault>) -> bool {
        &&& forall|id: Seq<char>| #[trigger]
            self.vaults.contains_key(id) ==> looked_up(store, id) == Some(self.vaults[id])
        &&& forall|id: Seq<char>| #[trigger]
            self.ttls.contains_key(id) ==> store.contains_key(id) && store[id].ttl_remaining
                == self.ttls[id]
        &&& forall|id: Seq<char>| #[trigger]
            self.summaries.contains_key(id) ==> store.contains_key(id) && VaultSummary::of(
                store[id],
            ) == self.summaries[id]
    }

    /// What a read of a vault through the cache returns.
    pub open spec fn vault_read(
        self,
        store: Map<Seq<char>, Vault>,
        vault_id: Seq<char>,
    ) -> Option<Vault> {
        if self.vaults.contains_key(vault_id) {
            Some(self.vaults[vault_id])
        } else {
            looked_up(store, vault_id)
        }
    }

    /// The cache after a read of a vault through it.
    pub open spec fn after_vault_read(
        self,
        store: Map<Seq<char>, Vault>,
        vault_id: Seq<char>,
    ) -> CacheView {
        if !self.vaults.contains_key(vault_id) && store.contains_key(vault_id) {
            CacheView { vaults: self.vaults.insert(vault_id, store[vault_id]), ..self }
        } else {
            self
        }
    }

    /// What a read of the remaining time through the cache returns.
    pub open spec fn ttl_read(self, store: Map<Seq<char>, Vault>, vault_id: Seq<char>) -> Option<
        Option<u64>,
    > {
        if self.ttls.contains_key(vault_id) {
            Some(self.ttls[vault_id])
        } else if store.contains_key(vault_id) {
            Some(store[vault_id].ttl_remaining)
        } else {
            None
        }
    }

    /// The cache after a read of the remaining time through it.
    pub open spec fn after_ttl_read(
        self,
        store: Map<Seq<char>, Vault>,
        vault_id: Seq<char>,
    ) -> CacheView {
        if !self.ttls.contains_key(vault_id) && store.contains_key(vault_id) {
            CacheView { ttls: self.ttls.insert(vault_id, store[vault_id].ttl_remaining), ..self }
        } else {
            self
        }
    }

    /// What a read of a summary through the cache returns.
    pub open spec fn summary_read(
        self,
        store: Map<Seq<char>, Vault>,
        vault_id: Seq<char>,
    ) -> Option<VaultSummary> {
        if self.summaries.contains_key(vault_id) {
            Some(self.summaries[vault_id])
        } else if store.contains_key(vault_id) {
            Some(VaultSummary::of(store[vault_id]))
        } else {
            None
        }
    }

    /// The cache after a read of a summary through it.
    pub open spec fn after_summary_read(
        self,
        store: Map<Seq<char>, Vault>,
        vault_id: Seq<char>,
    ) -> CacheView {
        if !self.summaries.contains_key(vault_id) && store.contains_key(vault_id) {
            CacheView {
                summaries: self.summaries.insert(vault_id, VaultSummary::of(store[vault_id])),
                ..self
            }
        } else {
            self
        }
    }
}

impl VaultCache {
    /// A cache with nothing in it.
    pub fn new() -> (cache: VaultCache)
        ensures
            cache@ == CacheView::empty(),
    {
        VaultCache {
            vaults: KeyedStore::new(),
            ttls: KeyedStore::new(),
            summaries: KeyedStore::new(),
        }
    }

    /// The vault that the cache holds.
    pub fn get_vault(&self, vault_id: &str) -> (vault: Option<Vault>)
        ensures
            vault == looked_up(self@.vaults, vault_id@),
    {
        match self.vaults.get(vault_id) {
            Some(vault) => Some(vault.clone()),
            None => None,
        }
    }

    /// Remembers a vault.
    pub fn set_vault(&mut self, vault_id: &str, vault: Vault)
        ensures
            final(self)@ == (CacheView {
                vaults: old(self)@.vaults.insert(vault_id@, vault),
                ..old(self)@
            }),
    {
        self.vaults.insert(vault_id.to_owned(), vault);
    }

    /// The remaining time that the cache holds: `Some(None)` where it knows that the vault has
    /// none, `None` where it knows nothing.
    pub fn get_ttl_remaining(&self, vault_id: &str) -> (ttl: Option<Option<u64>>)
        ensures
            ttl == looked_up(self@.ttls, vault_id@),
    {
        match self.ttls.get(vault_id) {
            Some(ttl) => Some(*ttl),
            None => None,
        }
    }

    /// Remembers a remaining time.
    pub fn set_ttl_remaining(&mut self, vault_id: &str, ttl: Option<u64>)
        ensures
            final(self)@ == (CacheView {
                ttls: old(self)@.ttls.insert(vault_id@, ttl),
                ..old(self)@
            }),
    {
        self.ttls.insert(vault_id.to_owned(), ttl);
    }

    /// The summary that the cache holds.
    pub fn get_vault_summary(&self, vault_id: &str) -> (summary: Option<VaultSummary>)
        ensures
            summary == looked_up(self@.summaries, vault_id@),
    {
        match self.summaries.get(vault_id) {
            Some(summary) => Some(summary.clone()),
            None => None,
        }
    }

    /// Remembers a summary.
    pub fn set_vault_summary(&mut self, vault_id: &str, summary: VaultSummary)
        ensures
            final(self)@ == (CacheView {
                summaries: old(self)@.summaries.insert(vault_id@, summary),
                ..old(self)@
            }),
    {
        self.summaries.insert(vault_id.to_owned(), summary);
    }

    /// Forgets all of one vault.
    pub fn invalidate(&mut self, vault_id: &str)
        ensures
            final(self)@ == old(self)@.without(vault_id@),
    {
        self.vaults.remove(vault_id);
        self.ttls.remove(vault_id);
        self.summaries.remove(vault_id);
    }
}

/// A vault, from the cache if it is there. Otherwise it is taken from the store and remembered.
/// `None` if neither has it.
pub fn get_vault_cached(
    store: &VaultStore,
    cache: &mut VaultCache,
    vault_id: &str,
) -> (vault: Option<Vault>)
    ensures
        vault == old(cache)@.vault_read(store@, vault_id@),
        final(cache)@ == old(cache)@.after_vault_read(store@, vault_id@),
{
    let hit: Option<Vault> = cache.get_vault(vault_id);
    if hit.is_some() {
        return hit;
    }
    match store.get(vault_id) {
        Some(vault) => {
            cache.set_vault(vault_id, vault.clone());
            Some(vault.clone())
        },
        None => None,
    }
}

/// The remaining time of a vault, from the cache if it is there. Otherwise it is taken from the
/// store and remembered. `None` if neither has the vault.
pub fn get_ttl_remaining_cached(
    store: &VaultStore,
    cache: &mut VaultCache,
    vault_id: &str,
) -> (ttl: Option<Option<u64>>)
    ensures
        ttl == old(cache)@.ttl_read(store@, vault_id@),
        final(cache)@ == old(cache)@.after_ttl_read(store@, vault_id@),
{
    let hit: Option<Option<u64>> = cache.get_ttl_remaining(vault_id);
    if hit.is_some() {
        return hit;
    }
    match store.get(vault_id) {
        Some(vault) => {
            let ttl: Option<u64> = vault.ttl_remaining;
            cache.set_ttl_remaining(vault_id, ttl);
            Some(ttl)
        },
        None => None,
    }
}

/// The summary of a vault, from the cache if it is there. Otherwise it is made from the store's
/// vault and remembered. `None` if neither has the vault.
pub fn get_vault_summary_cached(
    store: &VaultStore,
    cache: &mut VaultCache,
    vault_id: &str,
) -> (summary: Option<VaultSummary>)
    ensures
        summary == old(cache)@.summary_read(store@, vault_id@),
        final(cache)@ == old(cache)@.after_summary_read(store@, vault_id@),
{
    let hit: Option<VaultSummary> = cache.get_vault_summary(vault_id);
    if hit.is_some() {
        return hit;
    }
    match store.get(vault_id) {
        Some(vault) => {
            let summary: VaultSummary = VaultSummary::from(vault);
            cache.set_vault_summary(vault_id, summary.clone());
            Some(summary)
        },
        None => None,
    }
}

/// Forgets all that the cache holds of one vault. To be called whenever the vault changes.
pub fn invalidate_vault_cache(cache: &mut VaultCache, vault_id: &str)
    ensures
        final(cache)@ == old(cache)@.without(vault_id@),
{
    cache.invalidate(vault_id);
}

// ---- laws ----

/// Reads through a cache that agrees with the store return what the store says, and leave the
/// cache in agreement.
pub proof fn law_agreeing_cache_reads_the_store(
    cache: CacheView,
    store: Map<Seq<char>, Vault>,
    vault_id: Seq<char>,
)
    requires
        cache.agrees_with(store),
    ensures
        cache.vault_read(store, vault_id) == looked_up(store, vault_id),
        cache.after_vault_read(store, vault_id).agrees_with(store),
        cache.ttl_read(store, vault_id) == if store.contains_key(vault_id) {
            Some(store[vault_id].ttl_remaining)
        } else {
            None
        },
        cache.after_ttl_read(store, vault_id).agrees_with(store),
        cache.summary_read(store, vault_id) == if store.contains_key(vault_id) {
            Some(VaultSummary::of(store[vault_id]))
        } else {
            None
        },
        cache.after_summary_read(store, vault_id).agrees_with(store),
{
}

/// A cache that is invalidated for the vault that changes stays in agreement with the store.
pub proof fn law_invalidation_keeps_agreement(
    cache: CacheView,
    store: Map<Seq<char>, Vault>,
    vault_id: Seq<char>,
    vault: Vault,
)
    requires
        cache.agrees_with(store),
    ensures
        cache.without(vault_id).agrees_with(store),
        cache.without(vault_id).agrees_with(store.insert(vault_id, vault)),
        cache.without(vault_id).agrees_with(store.remove(vault_id)),
{
    let rest = cache.without(vault_id);
    assert forall|id: Seq<char>| #[trigger] rest.vaults.contains_key(id) implies id != vault_id
        && cache.vaults.contains_key(id) by {}
    assert forall|id: Seq<char>| #[trigger] rest.ttls.contains_key(id) implies id != vault_id
        && cache.ttls.contains_key(id) by {}
    assert forall|id: Seq<char>| #[trigger] rest.summaries.contains_key(id) implies id != vault_id
        && cache.summaries.contains_key(id) by {}
}

/// Whatever a cache held, once a vault is invalidated the next read of it comes from the store.
pub proof fn law_invalidated_vault_is_read_anew(
    cache: CacheView,
    store: Map<Seq<char>, Vault>,
    vault_id: Seq<char>,
)
    ensures
        cache.without(vault_id).vault_read(store, vault_id) == looked_up(store, vault_id),
        cache.without(vault_id).ttl_read(store, vault_id) == if store.contains_key(vault_id) {
            Some(store[vault_id].ttl_remaining)
        } else {
            None
        },
        cache.without(vault_id).summary_read(store, vault_id) == if store.contains_key(vault_id) {
            Some(VaultSummary::of(store[vault_id]))
        } else {
            None
        },
{
}

/// A second read through the cache returns what the first did, whatever became of the store in
/// between, as long as the vault was found and has not been invalidated.
pub proof fn law_second_read_is_the_same(
    cache: CacheView,
    store: Map<Seq<char>, Vault>,
    later: Map<Seq<char>, Vault>,
    vault_id: Seq<char>,
)
    ensures
        cache.vault_read(store, vault_id) is Some ==> cache.after_vault_read(
            store,
            vault_id,
        ).vault_read(later, vault_id) == cache.vault_read(store, vault_id),
        cache.ttl_read(store, vault_id) is Some ==> cache.after_ttl_read(store, vault_id).ttl_read(
            later,
            vault_id,
        ) == cache.ttl_read(store, vault_id),
        cache.summary_read(store, vault_id) is Some ==> cache.after_summary_read(
            store,
            vault_id,
        ).summary_read(later, vault_id) == cache.summary_read(store, vault_id),
{
}

} // verus!
