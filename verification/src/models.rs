//! The records that the stores hold.

use crate::json::copy_value;
use crate::timestamp::Timestamp;
use vstd::prelude::*;

verus! {

/// Where a vault stands in its life.
#[derive(Debug)]
pub enum VaultStatus {
    Active,
    Released,
    /// Any other status, by its name.
    Other(String),
}

impl VaultStatus {
    /// Whether two statuses are the same.
    pub open spec fn same_as(self, other: VaultStatus) -> bool {
        match (self, other) {
            (VaultStatus::Active, VaultStatus::Active) => true,
            (VaultStatus::Released, VaultStatus::Released) => true,
            (VaultStatus::Other(a), VaultStatus::Other(b)) => a@ == b@,
            _ => false,
        }
    }

    /// Whether two statuses are the same.
    pub fn is_same(&self, other: &VaultStatus) -> (same: bool)
        ensures
            same == self.same_as(*other),
    {
        match (self, other) {
            (VaultStatus::Active, VaultStatus::Active) => true,
            (VaultStatus::Released, VaultStatus::Released) => true,
            (VaultStatus::Other(a), VaultStatus::Other(b)) => *a == *b,
            _ => false,
        }
    }

    pub fn is_active(&self) -> (active: bool)
        ensures
            active == (*self is Active),
    {
        match self {
            VaultStatus::Active => true,
            _ => false,
        }
    }

    pub fn is_released(&self) -> (released: bool)
        ensures
            released == (*self is Released),
    {
        match self {
            VaultStatus::Released => true,
            _ => false,
        }
    }
}

impl Clone for VaultStatus {
    fn clone(&self) -> (copy: VaultStatus)
        ensures
            copy == *self,
    {
        match self {
            VaultStatus::Active => VaultStatus::Active,
            VaultStatus::Released => VaultStatus::Released,
            VaultStatus::Other(name) => VaultStatus::Other(name.clone()),
        }
    }
}

/// A vault: funds that pass from the owner to the beneficiary when the owner stops checking in.
#[derive(Debug)]
pub struct Vault {
    pub id: String,
    pub owner: String,
    pub beneficiary: String,
    pub balance: i128,
    /// The time between check-ins, in seconds.
    pub check_in_interval: u64,
    pub last_check_in: Timestamp,
    pub created_at: Timestamp,
    pub status: VaultStatus,
    /// The seconds that remain before release, where they are known.
    pub ttl_remaining: Option<u64>,
}

impl Clone for Vault {
    fn clone(&self) -> (copy: Vault)
        ensures
            copy == *self,
    {
        Vault {
            id: self.id.clone(),
            owner: self.owner.clone(),
            beneficiary: self.beneficiary.clone(),
            balance: self.balance,
            check_in_interval: self.check_in_interval,
            last_check_in: self.last_check_in,
            created_at: self.created_at,
            status: self.status.clone(),
            ttl_remaining: self.ttl_remaining,
        }
    }
}

/// The few facts of a vault that lists show.
#[derive(Debug)]
pub struct VaultSummary {
    pub id: String,
    pub owner: String,
    pub beneficiary: String,
    pub balance: i128,
    pub status: VaultStatus,
    pub ttl_remaining: Option<u64>,
}

impl VaultSummary {
    /// The summary of a vault.
    pub open spec fn of(vault: Vault) -> VaultSummary {
        VaultSummary {
            id: vault.id,
            owner: vault.owner,
            beneficiary: vault.beneficiary,
            balance: vault.balance,
            status: vault.status,
            ttl_remaining: vault.ttl_remaining,
        }
    }
}

impl<'a> From<&'a Vault> for VaultSummary {
    fn from(vault: &'a Vault) -> (summary: VaultSummary) {
        VaultSummary {
            id: vault.id.clone(),
            owner: vault.owner.clone(),
            beneficiary: vault.beneficiary.clone(),
            balance: vault.balance,
            status: vault.status.clone(),
            ttl_remaining: vault.ttl_remaining,
        }
    }
}

impl<'a> vstd::std_specs::convert::FromSpecImpl<&'a Vault> for VaultSummary {
    open spec fn obeys_from_spec() -> bool {
        true
    }

    open spec fn from_spec(vault: &'a Vault) -> VaultSummary {
        VaultSummary::of(*vault)
    }
}

impl Clone for VaultSummary {
    fn clone(&self) -> (copy: VaultSummary)
        ensures
            copy == *self,
    {
        VaultSummary {
            id: self.id.clone(),
            owner: self.owner.clone(),
            beneficiary: self.beneficiary.clone(),
            balance: self.balance,
            status: self.status.clone(),
            ttl_remaining: self.ttl_remaining,
        }
    }
}

/// What a search for vaults asks for; what is absent is not asked for.
pub struct SearchQuery {
    pub owner: Option<String>,
    pub beneficiary: Option<String>,
    pub status: Option<VaultStatus>,
    pub created_after: Option<Timestamp>,
    pub created_before: Option<Timestamp>,
    /// The page to show, counted from 1.
    pub page: Option<u32>,
    /// The vaults on a page.
    pub limit: Option<u32>,
}

/// One page of the vaults that a search found.
pub struct SearchResult {
    pub vaults: Vec<Vault>,
    /// How many vaults the search found on all pages.
    pub total: u32,
    pub page: u32,
    pub limit: u32,
}

/// Something that happened to a vault.
#[derive(Debug)]
pub struct VaultEvent {
    pub vault_id: String,
    /// The rest of the event as JSON text.
    pub body: String,
}

impl Clone for VaultEvent {
    fn clone(&self) -> (copy: VaultEvent)
        ensures
            copy == *self,
    {
        VaultEvent { vault_id: self.vault_id.clone(), body: self.body.clone() }
    }
}

/// What somebody did, and when.
pub struct AuditEntry {
    pub timestamp: Timestamp,
    pub action: String,
    pub actor: String,
    pub details: serde_json::Value,
}

impl Clone for AuditEntry {
    fn clone(&self) -> (copy: AuditEntry)
        ensures
            copy == *self,
    {
        AuditEntry {
            timestamp: self.timestamp,
            action: self.action.clone(),
            actor: self.actor.clone(),
            details: copy_value(&self.details),
        }
    }
}

/// A backup of a vault.
#[derive(Debug)]
pub struct VaultBackup {
    pub backup_id: String,
    /// The saved vault as JSON text.
    pub body: String,
}

impl Clone for VaultBackup {
    fn clone(&self) -> (copy: VaultBackup)
        ensures
            copy == *self,
    {
        VaultBackup { backup_id: self.backup_id.clone(), body: self.body.clone() }
    }
}

/// A vault shared with somebody.
#[derive(Debug)]
pub struct VaultShare {
    pub vault_id: String,
    /// With whom and how the vault is shared, as JSON text.
    pub body: String,
}

impl Clone for VaultShare {
    fn clone(&self) -> (copy: VaultShare)
        ensures
            copy == *self,
    {
        VaultShare { vault_id: self.vault_id.clone(), body: self.body.clone() }
    }
}

/// A token that opens a shared vault, until it is revoked.
#[derive(Debug)]
pub struct ShareToken {
    pub token: String,
    pub vault_id: String,
    pub revoked: bool,
    /// What the token allows, as JSON text.
    pub body: String,
}

impl ShareToken {
    /// The token once revoked.
    pub open spec fn revoked_form(self) -> ShareToken {
        ShareToken { revoked: true, ..self }
    }
}

impl Clone for ShareToken {
    fn clone(&self) -> (copy: ShareToken)
        ensures
            copy == *self,
    {
        ShareToken {
            token: self.token.clone(),
            vault_id: self.vault_id.clone(),
            revoked: self.revoked,
            body: self.body.clone(),
        }
    }
}

/// How an owner wants to be notified.
#[derive(Debug)]
pub struct VaultNotificationPreferences {
    pub owner: String,
    /// The preferences as JSON text.
    pub body: String,
}

impl Clone for VaultNotificationPreferences {
    fn clone(&self) -> (copy: VaultNotificationPreferences)
        ensures
            copy == *self,
    {
        VaultNotificationPreferences { owner: self.owner.clone(), body: self.body.clone() }
    }
}

} // verus!
