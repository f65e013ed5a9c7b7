//! The calls of the contract for soulbound tokens.

use crate::sbt::{
    addresses_view, history_view, refusal, transfer_views, Address, CompositionRecord,
    CompositionView, DataKey, DelegationAction, DelegationHistoryEntry, DelegationRecord,
    DelegationView, Env, EnvView, EventView, FaultView, HistoryView, SbtError, SbtEvent, SbtFault,
    StateView, TransferCondition, TransferInstruction, TransferView,
};
use crate::vaults::lemma_filter_step;
use vstd::prelude::*;

verus! {

broadcast use vstd::std_specs::hash::group_hash_axioms;

/// What a token must be composed with can tell: who owns its tokens.
pub trait NftInterface {
    fn owner_of(&self, token_id: u64) -> Address;
}

// ---- what calls need, and what they do ----

/// When a delegation made now ends: never later than the last second that can be told.
pub open spec fn expiry(now: u64, duration_seconds: u64) -> u64 {
    if now + duration_seconds > u64::MAX {
        u64::MAX
    } else {
        (now + duration_seconds) as u64
    }
}

/// Which addresses are this one.
pub open spec fn is_address(address: Seq<char>) -> spec_fn(Seq<char>) -> bool {
    |other: Seq<char>| other == address
}

/// How often an address stands in a list.
pub open spec fn times(addresses: Seq<Seq<char>>, address: Seq<char>) -> nat {
    addresses.filter(is_address(address)).len()
}

impl EnvView {
    /// Whether an address has authorized the call.
    pub open spec fn authorizes(self, address: Seq<char>) -> bool {
        self.authorized.contains(address)
    }

    /// What refuses a call that only the administrator may make.
    pub open spec fn admin_refusal(self) -> Option<FaultView> {
        match self.state.admin {
            None => Some(FaultView::Contract(SbtError::NotInitialized)),
            Some(admin) => if self.authorizes(admin) {
                None
            } else {
                Some(FaultView::Unauthorized(admin))
            },
        }
    }

    /// What refuses a call that only the owner of a token may make.
    pub open spec fn owner_refusal(self, sbt_id: u64) -> Option<FaultView> {
        if !self.state.owners.contains_key(sbt_id) {
            Some(FaultView::Contract(SbtError::TokenNotFound))
        } else if !self.authorizes(self.state.owners[sbt_id]) {
            Some(FaultView::Unauthorized(self.state.owners[sbt_id]))
        } else {
            None
        }
    }

    /// The state after a call, with the event it published.
    pub open spec fn after(self, state: StateView, event: EventView) -> EnvView {
        EnvView { state, events: self.events.push(event), ..self }
    }

    /// To whom a token is delegated now.
    pub open spec fn active_delegate(self, sbt_id: u64) -> Option<Seq<char>> {
        if self.state.delegations.contains_key(sbt_id)
            && self.state.delegations[sbt_id].expires_at > self.timestamp {
            Some(self.state.delegations[sbt_id].delegate)
        } else {
            None
        }
    }

    /// Whether the condition of a transfer is met now.
    pub open spec fn condition_met(self, sbt_id: u64, condition: TransferCondition) -> bool {
        match condition {
            TransferCondition::Always => true,
            TransferCondition::MinHoldSeconds(min_seconds) => min_seconds == 0 || self.timestamp
                - self.state.mint_time(sbt_id) >= min_seconds,
            TransferCondition::NoActiveDelegation => self.active_delegate(sbt_id) is None,
        }
    }

    /// What refuses to initialize the contract.
    pub open spec fn initialize_refusal(self, admin: Seq<char>) -> Option<FaultView> {
        if self.state.admin is Some {
            Some(FaultView::Contract(SbtError::AlreadyInitialized))
        } else if !self.authorizes(admin) {
            Some(FaultView::Unauthorized(admin))
        } else {
            None
        }
    }

    /// What initializing the contract does.
    pub open spec fn initialized(self, admin: Seq<char>) -> EnvView {
        EnvView {
            state: StateView { admin: Some(admin), next_token_id: Some(0), ..self.state },
            ..self
        }
    }

    /// What refuses to mint a token.
    pub open spec fn mint_refusal(self, metadata: Seq<char>) -> Option<FaultView> {
        if self.admin_refusal() is Some {
            self.admin_refusal()
        } else if metadata.len() == 0 {
            Some(FaultView::Contract(SbtError::EmptyMetadata))
        } else {
            None
        }
    }

    /// What minting a token does.
    pub open spec fn minted(self, to: Seq<char>, metadata: Seq<char>) -> EnvView {
        let sbt_id = self.state.next_id();
        self.after(
            StateView {
                next_token_id: Some((sbt_id + 1) as u64),
                owners: self.state.owners.insert(sbt_id, to),
                metadata: self.state.metadata.insert(sbt_id, metadata),
                minted_at: self.state.minted_at.insert(sbt_id, self.timestamp),
                ..self.state
            },
            EventView::Minted { sbt_id, to },
        )
    }

    /// What refuses to compose a token, whoever owns the other one.
    pub open spec fn compose_start_refusal(self, sbt_id: u64) -> Option<FaultView> {
        if self.owner_refusal(sbt_id) is Some {
            self.owner_refusal(sbt_id)
        } else if self.state.compositions.contains_key(sbt_id) {
            Some(FaultView::Contract(SbtError::AlreadyComposed))
        } else {
            None
        }
    }

    /// What refuses to compose a token, given the owner of the other one.
    pub open spec fn compose_refusal(self, sbt_id: u64, nft_owner: Seq<char>) -> Option<FaultView> {
        if self.compose_start_refusal(sbt_id) is Some {
            self.compose_start_refusal(sbt_id)
        } else if nft_owner != self.state.owners[sbt_id] {
            Some(FaultView::Contract(SbtError::NftOwnershipMismatch))
        } else {
            None
        }
    }

    /// What composing a token does.
    pub open spec fn composed(self, sbt_id: u64, nft_address: Seq<char>, nft_id: u64) -> EnvView {
        let record = CompositionView { nft_address, nft_id, composed_at: self.timestamp };
        self.after(
            StateView {
                compositions: self.state.compositions.insert(sbt_id, record),
                ..self.state
            },
            EventView::Composed { sbt_id, nft_address, nft_id },
        )
    }

    /// What refuses to undo the composition of a token.
    pub open spec fn decompose_refusal(self, sbt_id: u64) -> Option<FaultView> {
        if self.owner_refusal(sbt_id) is Some {
            self.owner_refusal(sbt_id)
        } else if !self.state.compositions.contains_key(sbt_id) {
            Some(FaultView::Contract(SbtError::NotComposed))
        } else {
            None
        }
    }

    /// What undoing the composition of a token does.
    pub open spec fn decomposed(self, sbt_id: u64) -> EnvView {
        self.after(
            StateView { compositions: self.state.compositions.remove(sbt_id), ..self.state },
            EventView::Decomposed { sbt_id },
        )
    }

    /// What setting the shared metadata of a token does.
    pub open spec fn shared_metadata_set(self, sbt_id: u64, metadata: Seq<char>) -> EnvView {
        self.after(
            StateView {
                shared_metadata: self.state.shared_metadata.insert(sbt_id, metadata),
                ..self.state
            },
            EventView::SharedMetadataSet { sbt_id },
        )
    }

    /// The owners who were asked to authorize the first transfers of a batch.
    pub open spec fn owners_asked(self, sbt_ids: Seq<u64>, count: int) -> Seq<Seq<char>> {
        Seq::new(count as nat, |i: int| self.state.owners[sbt_ids[i]])
    }

    /// What refuses one transfer of a batch, where none before it was refused. Each transfer takes
    /// an authorization of its own.
    pub open spec fn leg_refusal(
        self,
        sbt_ids: Seq<u64>,
        transfers: Seq<TransferView>,
        place: int,
    ) -> Option<FaultView> {
        let sbt_id = sbt_ids[place];
        let owner = self.state.owners[sbt_id];
        if !self.state.owners.contains_key(sbt_id) {
            Some(FaultView::Contract(SbtError::TokenNotFound))
        } else if times(self.authorized, owner) <= times(self.owners_asked(sbt_ids, place), owner) {
            Some(FaultView::Unauthorized(owner))
        } else if !self.condition_met(sbt_id, transfers[place].condition) {
            Some(FaultView::Contract(SbtError::TransferConditionNotMet))
        } else {
            None
        }
    }

    /// What refuses the first of the transfers from a place on that is refused.
    pub open spec fn legs_refusal(
        self,
        sbt_ids: Seq<u64>,
        transfers: Seq<TransferView>,
        from: int,
    ) -> Option<FaultView>
        decreases sbt_ids.len() - from,
    {
        if from < 0 || from >= sbt_ids.len() {
            None
        } else if self.leg_refusal(sbt_ids, transfers, from) is Some {
            self.leg_refusal(sbt_ids, transfers, from)
        } else {
            self.legs_refusal(sbt_ids, transfers, from + 1)
        }
    }

    /// What refuses a batch of transfers.
    pub open spec fn batch_refusal(
        self,
        sbt_ids: Seq<u64>,
        transfers: Seq<TransferView>,
    ) -> Option<FaultView> {
        if sbt_ids.len() != transfers.len() {
            Some(FaultView::Contract(SbtError::MismatchedBatchLengths))
        } else if sbt_ids.len() == 0 {
            Some(FaultView::Contract(SbtError::EmptyBatch))
        } else {
            self.legs_refusal(sbt_ids, transfers, 0)
        }
    }

    /// What one transfer does: a delegation by the old owner does not bind the new one.
    pub open spec fn transferred(self, sbt_id: u64, to: Seq<char>) -> EnvView {
        self.after(
            StateView {
                owners: self.state.owners.insert(sbt_id, to),
                delegations: self.state.delegations.remove(sbt_id),
                ..self.state
            },
            EventView::Transferred { sbt_id, to },
        )
    }

    /// What the first transfers of a batch do, one after the other.
    pub open spec fn batch_transferred(
        self,
        sbt_ids: Seq<u64>,
        transfers: Seq<TransferView>,
        count: int,
    ) -> EnvView
        decreases count,
    {
        if count <= 0 {
            self
        } else {
            self.batch_transferred(sbt_ids, transfers, count - 1).transferred(
                sbt_ids[count - 1],
                transfers[count - 1].to,
            )
        }
    }

    /// What refuses to delegate a token.
    pub open spec fn delegate_refusal(
        self,
        sbt_id: u64,
        delegate: Seq<char>,
        duration_seconds: u64,
    ) -> Option<FaultView> {
        if self.owner_refusal(sbt_id) is Some {
            self.owner_refusal(sbt_id)
        } else if duration_seconds == 0 {
            Some(FaultView::Contract(SbtError::InvalidDuration))
        } else if delegate == self.state.owners[sbt_id] {
            Some(FaultView::Contract(SbtError::SelfDelegation))
        } else {
            None
        }
    }

    /// What delegating a token does: a new delegation takes the place of an earlier one.
    pub open spec fn delegated(
        self,
        sbt_id: u64,
        delegate: Seq<char>,
        duration_seconds: u64,
    ) -> EnvView {
        let expires_at = expiry(self.timestamp, duration_seconds);
        let record = DelegationView { delegate, delegated_at: self.timestamp, expires_at };
        let entry = HistoryView {
            delegate,
            action: DelegationAction::Delegated,
            at: self.timestamp,
            expires_at,
        };
        self.after(
            StateView {
                delegations: self.state.delegations.insert(sbt_id, record),
                histories: self.state.histories.insert(
                    sbt_id,
                    self.state.history(sbt_id).push(entry),
                ),
                ..self.state
            },
            EventView::Delegated { sbt_id, delegate, expires_at },
        )
    }

    /// What refuses to revoke the delegation of a token.
    pub open spec fn revoke_refusal(self, sbt_id: u64) -> Option<FaultView> {
        if self.owner_refusal(sbt_id) is Some {
            self.owner_refusal(sbt_id)
        } else if self.active_delegate(sbt_id) is None {
            Some(FaultView::Contract(SbtError::NoActiveDelegation))
        } else {
            None
        }
    }

    /// What revoking the delegation of a token does.
    pub open spec fn revoked(self, sbt_id: u64) -> EnvView {
        let record = self.state.delegations[sbt_id];
        let entry = HistoryView {
            delegate: record.delegate,
            action: DelegationAction::Revoked,
            at: self.timestamp,
            expires_at: record.expires_at,
        };
        self.after(
            StateView {
                delegations: self.state.delegations.remove(sbt_id),
                histories: self.state.histories.insert(
                    sbt_id,
                    self.state.history(sbt_id).push(entry),
                ),
                ..self.state
            },
            EventView::DelegationRevoked { sbt_id, delegate: record.delegate },
        )
    }
}

// ---- the calls ----

/// How often an address stands in a list.
fn count_address(addresses: &Vec<Address>, address: &Address) -> (count: usize)
    ensures
        count == times(addresses_view(addresses@), address@),
{
    let ghost views = addresses_view(addresses@);
    let mut count: usize = 0;
    let mut i: usize = 0;
    assert(views.take(0).filter(is_address(address@)).len() == 0) by {
        reveal(Seq::filter);
    }
    while i < addresses.len()
        invariant
            i <= addresses@.len(),
            views == addresses_view(addresses@),
            count == times(views.take(i as int), address@),
            count <= i,
        decreases addresses@.len() - i,
    {
        proof {
            lemma_filter_step(views, is_address(address@), i as int);
        }
        if addresses[i].is_same(address) {
            count = count + 1;
        }
        i = i + 1;
    }
    assert(views.take(views.len() as int) =~= views);
    count
}

impl Env {
    /// Refuses the call unless an address has authorized it.
    pub fn require_auth(&self, address: &Address) -> (result: Result<(), SbtFault>)
        ensures
            refusal(result) == if self@.authorizes(address@) {
                None
            } else {
                Some(FaultView::Unauthorized(address@))
            },
    {
        let mut i: usize = 0;
        while i < self.authorized.len()
            invariant
                i <= self.authorized@.len(),
                forall|j: int| 0 <= j < i ==> self@.authorized[j] != address@,
            decreases self.authorized@.len() - i,
        {
            if self.authorized[i].is_same(address) {
                assert(self@.authorized[i as int] == address@);
                return Ok(());
            }
            i = i + 1;
        }
        Err(SbtFault::Unauthorized(address.clone()))
    }

    /// Refuses the call unless an address has authorized it more often than it was asked before.
    pub fn require_auth_again(&self, address: &Address, asked: &Vec<Address>) -> (result: Result<
        (),
        SbtFault,
    >)
        ensures
            refusal(result) == if times(self@.authorized, address@) > times(
                addresses_view(asked@),
                address@,
            ) {
                None
            } else {
                Some(FaultView::Unauthorized(address@))
            },
    {
        if count_address(&self.authorized, address) > count_address(asked, address) {
            Ok(())
        } else {
            Err(SbtFault::Unauthorized(address.clone()))
        }
    }

    /// Publishes an event.
    fn publish(&mut self, event: SbtEvent)
        ensures
            final(self)@ == (EnvView { events: old(self)@.events.push(event@), ..old(self)@ }),
    {
        self.events.push(event);
        assert(self@.events =~= old(self)@.events.push(event@));
    }
}

/// The contract.
pub struct SbtContract;

impl SbtContract {
    /// Sets the administrator, once.
    pub fn initialize(env: &mut Env, admin: Address) -> (result: Result<(), SbtFault>)
        ensures
            refusal(result) == old(env)@.initialize_refusal(admin@),
            final(env)@ == if result is Ok {
                old(env)@.initialized(admin@)
            } else {
                old(env)@
            },
    {
        if env.storage.has(&DataKey::Admin) {
            return Err(SbtFault::Contract(SbtError::AlreadyInitialized));
        }
        match env.require_auth(&admin) {
            Ok(()) => {},
            Err(fault) => return Err(fault),
        }
        env.storage.admin = Some(admin);
        env.storage.next_token_id = Some(0);
        assert(env@ =~= old(env)@.initialized(admin@));
        Ok(())
    }

    /// Mints a token to an address. Only the administrator may.
    pub fn mint(env: &mut Env, to: Address, metadata: String) -> (result: Result<u64, SbtFault>)
        requires
            old(env)@.mint_refusal(metadata@) is None ==> old(env)@.state.next_id() < u64::MAX,
        ensures
            refusal(result) == old(env)@.mint_refusal(metadata@),
            result matches Ok(sbt_id) ==> sbt_id == old(env)@.state.next_id(),
            final(env)@ == if result is Ok {
                old(env)@.minted(to@, metadata@)
            } else {
                old(env)@
            },
    {
        match Self::require_admin(env) {
            Ok(()) => {},
            Err(fault) => return Err(fault),
        }
        if metadata.as_str().unicode_len() == 0 {
            return Err(SbtFault::Contract(SbtError::EmptyMetadata));
        }
        let sbt_id: u64 = match env.storage.next_token_id {
            Some(id) => id,
            None => 0,
        };
        env.storage.next_token_id = Some(sbt_id + 1);
        env.storage.owners.insert(sbt_id, to.clone());
        env.storage.metadata.insert(sbt_id, metadata);
        env.storage.minted_at.insert(sbt_id, env.timestamp);
        env.publish(SbtEvent::Minted { sbt_id, to });
        assert(env@ =~= old(env)@.minted(to@, metadata@));
        Ok(sbt_id)
    }

    /// The owner of a token.
    pub fn owner_of(env: &Env, sbt_id: u64) -> (result: Result<Address, SbtError>)
        ensures
            match result {
                Ok(owner) => env@.state.owners.contains_pair(sbt_id, owner@),
                Err(e) => e == SbtError::TokenNotFound && !env@.state.owners.contains_key(sbt_id),
            },
    {
        Self::load_owner(env, sbt_id)
    }

    /// The metadata of a token.
    pub fn get_metadata(env: &Env, sbt_id: u64) -> (result: Result<String, SbtError>)
        ensures
            match result {
                Ok(metadata) => env@.state.metadata.contains_pair(sbt_id, metadata@),
                Err(e) => e == SbtError::TokenNotFound && !env@.state.metadata.contains_key(sbt_id),
            },
    {
        match env.storage.metadata.get(&sbt_id) {
            Some(metadata) => Ok(metadata.clone()),
            None => Err(SbtError::TokenNotFound),
        }
    }

    // ---- composition with other tokens ----

    /// Composes a token with one of another contract, given who owns that one. The owner of the
    /// token must own the other one too.
    pub fn compose_sbt_with_owned(
        env: &mut Env,
        sbt_id: u64,
        nft_address: Address,
        nft_id: u64,
        nft_owner: &Address,
    ) -> (result: Result<(), SbtFault>)
        ensures
            refusal(result) == old(env)@.compose_refusal(sbt_id, nft_owner@),
            final(env)@ == if result is Ok {
                old(env)@.composed(sbt_id, nft_address@, nft_id)
            } else {
                old(env)@
            },
    {
        let owner: Address = match Self::compose_start(env, sbt_id) {
            Ok(owner) => owner,
            Err(fault) => return Err(fault),
        };
        if !nft_owner.is_same(&owner) {
            return Err(SbtFault::Contract(SbtError::NftOwnershipMismatch));
        }
        let record: CompositionRecord = CompositionRecord {
            nft_address: nft_address.clone(),
            nft_id,
            composed_at: env.timestamp,
        };
        env.storage.compositions.insert(sbt_id, record);
        env.publish(SbtEvent::Composed { sbt_id, nft_address, nft_id });
        assert(env@ =~= old(env)@.composed(sbt_id, nft_address@, nft_id));
        Ok(())
    }

    /// Composes a token with one of another contract, which is asked who owns that one. It is
    /// asked only if nothing else refuses the call.
    pub fn compose_sbt_with_nft<N: NftInterface>(
        env: &mut Env,
        sbt_id: u64,
        nft_address: Address,
        nft: &N,
        nft_id: u64,
    ) -> (result: Result<(), SbtFault>)
        ensures
            old(env)@.compose_start_refusal(sbt_id) is Some ==> refusal(result) == old(
                env,
            )@.compose_start_refusal(sbt_id),
            old(env)@.compose_start_refusal(sbt_id) is None ==> exists|nft_owner: Address| #[trigger]
                call_ensures(N::owner_of, (nft, nft_id), nft_owner) && refusal(result) == old(
                    env,
                )@.compose_refusal(sbt_id, nft_owner@),
            final(env)@ == if result is Ok {
                old(env)@.composed(sbt_id, nft_address@, nft_id)
            } else {
                old(env)@
            },
    {
        match Self::compose_start(env, sbt_id) {
            Ok(_) => {},
            Err(fault) => return Err(fault),
        }
        let nft_owner: Address = nft.owner_of(nft_id);
        Self::compose_sbt_with_owned(env, sbt_id, nft_address, nft_id, &nft_owner)
    }

    /// Undoes the composition of a token. The other token is left alone.
    pub fn decompose_sbt(env: &mut Env, sbt_id: u64) -> (result: Result<(), SbtFault>)
        ensures
            refusal(result) == old(env)@.decompose_refusal(sbt_id),
            final(env)@ == if result is Ok {
                old(env)@.decomposed(sbt_id)
            } else {
                old(env)@
            },
    {
        match Self::require_owner(env, sbt_id) {
            Ok(_) => {},
            Err(fault) => return Err(fault),
        }
        if !env.storage.has(&DataKey::Composition(sbt_id)) {
            return Err(SbtFault::Contract(SbtError::NotComposed));
        }
        env.storage.compositions.remove(&sbt_id);
        env.publish(SbtEvent::Decomposed { sbt_id });
        assert(env@ =~= old(env)@.decomposed(sbt_id));
        Ok(())
    }

    /// What a token is composed with.
    pub fn get_composition(env: &Env, sbt_id: u64) -> (composition: Option<CompositionRecord>)
        ensures
            match composition {
                Some(record) => env@.state.compositions.contains_pair(sbt_id, record@),
                None => !env@.state.compositions.contains_key(sbt_id),
            },
    {
        match env.storage.compositions.get(&sbt_id) {
            Some(record) => Some(record.clone()),
            None => None,
        }
    }

    /// Sets the metadata that a token shares with what it is composed with. Only the owner may.
    pub fn set_shared_metadata(env: &mut Env, sbt_id: u64, metadata: String) -> (result: Result<
        (),
        SbtFault,
    >)
        ensures
            refusal(result) == old(env)@.owner_refusal(sbt_id),
            final(env)@ == if result is Ok {
                old(env)@.shared_metadata_set(sbt_id, metadata@)
            } else {
                old(env)@
            },
    {
        match Self::require_owner(env, sbt_id) {
            Ok(_) => {},
            Err(fault) => return Err(fault),
        }
        env.storage.shared_metadata.insert(sbt_id, metadata);
        env.publish(SbtEvent::SharedMetadataSet { sbt_id });
        assert(env@ =~= old(env)@.shared_metadata_set(sbt_id, metadata@));
        Ok(())
    }

    /// The metadata that a token shares with what it is composed with.
    pub fn get_shared_metadata(env: &Env, sbt_id: u64) -> (metadata: Option<String>)
        ensures
            match metadata {
                Some(text) => env@.state.shared_metadata.contains_pair(sbt_id, text@),
                None => !env@.state.shared_metadata.contains_key(sbt_id),
            },
    {
        match env.storage.shared_metadata.get(&sbt_id) {
            Some(text) => Some(text.clone()),
            None => None,
        }
    }

    // ---- transfer in batches ----

    /// Transfers tokens, each on its own condition and with an authorization of its own from its
    /// owner. All transfers are looked at before any is made, so that either all are made or none.
    pub fn batch_transfer_sbt_conditional(
        env: &mut Env,
        sbt_ids: &Vec<u64>,
        transfers: &Vec<TransferInstruction>,
    ) -> (result: Result<(), SbtFault>)
        ensures
            refusal(result) == old(env)@.batch_refusal(sbt_ids@, transfer_views(transfers@)),
            final(env)@ == if result is Ok {
                old(env)@.batch_transferred(
                    sbt_ids@,
                    transfer_views(transfers@),
                    sbt_ids@.len() as int,
                )
            } else {
                old(env)@
            },
    {
        let ghost before = env@;
        let ghost legs = transfer_views(transfers@);
        if sbt_ids.len() != transfers.len() {
            return Err(SbtFault::Contract(SbtError::MismatchedBatchLengths));
        }
        if sbt_ids.len() == 0 {
            return Err(SbtFault::Contract(SbtError::EmptyBatch));
        }
        let mut asked: Vec<Address> = Vec::new();
        let mut i: usize = 0;
        assert(addresses_view(asked@) =~= before.owners_asked(sbt_ids@, 0));
        while i < sbt_ids.len()
            invariant
                i <= sbt_ids@.len(),
                sbt_ids@.len() == transfers@.len(),
                legs == transfer_views(transfers@),
                env@ == before,
                addresses_view(asked@) == before.owners_asked(sbt_ids@, i as int),
                before.legs_refusal(sbt_ids@, legs, 0) == before.legs_refusal(
                    sbt_ids@,
                    legs,
                    i as int,
                ),
            decreases sbt_ids@.len() - i,
        {
            assert(legs[i as int] == transfers@[i as int]@);
            let owner: Address = match Self::load_owner(env, sbt_ids[i]) {
                Ok(owner) => owner,
                Err(e) => return Err(SbtFault::Contract(e)),
            };
            match env.require_auth_again(&owner, &asked) {
                Ok(()) => {},
                Err(fault) => return Err(fault),
            }
            if !Self::evaluate_condition(env, sbt_ids[i], &transfers[i].condition) {
                return Err(SbtFault::Contract(SbtError::TransferConditionNotMet));
            }
            let ghost asked_before = addresses_view(asked@);
            asked.push(owner);
            assert(addresses_view(asked@) =~= asked_before.push(owner@));
            assert(asked_before.push(owner@) =~= before.owners_asked(sbt_ids@, i + 1));
            i = i + 1;
        }
        let mut k: usize = 0;
        while k < sbt_ids.len()
            invariant
                k <= sbt_ids@.len(),
                sbt_ids@.len() == transfers@.len(),
                legs == transfer_views(transfers@),
                env@ == before.batch_transferred(sbt_ids@, legs, k as int),
            decreases sbt_ids@.len() - k,
        {
            let ghost so_far = env@;
            let sbt_id: u64 = sbt_ids[k];
            let to: Address = transfers[k].to.clone();
            assert(legs[k as int] == transfers@[k as int]@);
            env.storage.owners.insert(sbt_id, to.clone());
            env.storage.delegations.remove(&sbt_id);
            env.publish(SbtEvent::Transferred { sbt_id, to });
            assert(env@ =~= so_far.transferred(sbt_id, legs[k as int].to));
            k = k + 1;
        }
        Ok(())
    }

    // ---- delegation for a limited time ----

    /// Delegates a token for a number of seconds. The owner stays the same. Only they may.
    pub fn delegate_sbt_temporarily(
        env: &mut Env,
        sbt_id: u64,
        delegate: Address,
        duration_seconds: u64,
    ) -> (result: Result<(), SbtFault>)
        ensures
            refusal(result) == old(env)@.delegate_refusal(sbt_id, delegate@, duration_seconds),
            final(env)@ == if result is Ok {
                old(env)@.delegated(sbt_id, delegate@, duration_seconds)
            } else {
                old(env)@
            },
    {
        let owner: Address = match Self::require_owner(env, sbt_id) {
            Ok(owner) => owner,
            Err(fault) => return Err(fault),
        };
        if duration_seconds == 0 {
            return Err(SbtFault::Contract(SbtError::InvalidDuration));
        }
        if delegate.is_same(&owner) {
            return Err(SbtFault::Contract(SbtError::SelfDelegation));
        }
        let now: u64 = env.timestamp;
        let expires_at: u64 = now.saturating_add(duration_seconds);
        let record: DelegationRecord = DelegationRecord {
            delegate: delegate.clone(),
            delegated_at: now,
            expires_at,
        };
        env.storage.delegations.insert(sbt_id, record);
        Self::push_delegation_history(
            env,
            sbt_id,
            DelegationHistoryEntry {
                delegate: delegate.clone(),
                action: DelegationAction::Delegated,
                at: now,
                expires_at,
            },
        );
        env.publish(SbtEvent::Delegated { sbt_id, delegate, expires_at });
        assert(env@ =~= old(env)@.delegated(sbt_id, delegate@, duration_seconds));
        Ok(())
    }

    /// Revokes the delegation of a token before it expires. Only the owner may.
    pub fn revoke_sbt_delegation(env: &mut Env, sbt_id: u64) -> (result: Result<(), SbtFault>)
        ensures
            refusal(result) == old(env)@.revoke_refusal(sbt_id),
            final(env)@ == if result is Ok {
                old(env)@.revoked(sbt_id)
            } else {
                old(env)@
            },
    {
        match Self::require_owner(env, sbt_id) {
            Ok(_) => {},
            Err(fault) => return Err(fault),
        }
        if !Self::has_active_delegation(env, sbt_id) {
            return Err(SbtFault::Contract(SbtError::NoActiveDelegation));
        }
        let record: DelegationRecord = match env.storage.delegations.remove(&sbt_id) {
            Some(record) => record,
            None => return Err(SbtFault::Contract(SbtError::NoActiveDelegation)),
        };
        let now: u64 = env.timestamp;
        Self::push_delegation_history(
            env,
            sbt_id,
            DelegationHistoryEntry {
                delegate: record.delegate.clone(),
                action: DelegationAction::Revoked,
                at: now,
                expires_at: record.expires_at,
            },
        );
        env.publish(SbtEvent::DelegationRevoked { sbt_id, delegate: record.delegate });
        assert(env@ =~= old(env)@.revoked(sbt_id));
        Ok(())
    }

    /// To whom a token is delegated now. A delegation that has expired counts as none, though it
    /// may still be stored.
    pub fn get_active_delegate(env: &Env, sbt_id: u64) -> (delegate: Option<Address>)
        ensures
            match delegate {
                Some(address) => env@.active_delegate(sbt_id) == Some(address@),
                None => env@.active_delegate(sbt_id) is None,
            },
    {
        match env.storage.delegations.get(&sbt_id) {
            Some(record) => if record.expires_at > env.timestamp {
                Some(record.delegate.clone())
            } else {
                None
            },
            None => None,
        }
    }

    /// What happened to the delegations of a token, the latest last.
    pub fn get_delegation_history(env: &Env, sbt_id: u64) -> (history: Vec<DelegationHistoryEntry>)
        ensures
            history_view(history@) == env@.state.history(sbt_id),
    {
        Self::load_delegation_history(env, sbt_id)
    }

    // ---- helpers ----

    fn require_admin(env: &Env) -> (result: Result<(), SbtFault>)
        ensures
            refusal(result) == env@.admin_refusal(),
    {
        match &env.storage.admin {
            Some(admin) => env.require_auth(admin),
            None => Err(SbtFault::Contract(SbtError::NotInitialized)),
        }
    }

    fn load_owner(env: &Env, sbt_id: u64) -> (result: Result<Address, SbtError>)
        ensures
            match result {
                Ok(owner) => env@.state.owners.contains_pair(sbt_id, owner@),
                Err(e) => e == SbtError::TokenNotFound && !env@.state.owners.contains_key(sbt_id),
            },
    {
        match env.storage.owners.get(&sbt_id) {
            Some(owner) => Ok(owner.clone()),
            None => Err(SbtError::TokenNotFound),
        }
    }

    fn require_owner(env: &Env, sbt_id: u64) -> (result: Result<Address, SbtFault>)
        ensures
            refusal(result) == env@.owner_refusal(sbt_id),
            result matches Ok(owner) ==> owner@ == env@.state.owners[sbt_id],
    {
        let owner: Address = match Self::load_owner(env, sbt_id) {
            Ok(owner) => owner,
            Err(e) => return Err(SbtFault::Contract(e)),
        };
        match env.require_auth(&owner) {
            Ok(()) => Ok(owner),
            Err(fault) => Err(fault),
        }
    }

    /// What comes before the other contract is asked for the owner of its token.
    fn compose_start(env: &Env, sbt_id: u64) -> (result: Result<Address, SbtFault>)
        ensures
            refusal(result) == env@.compose_start_refusal(sbt_id),
            result matches Ok(owner) ==> owner@ == env@.state.owners[sbt_id],
    {
        let owner: Address = match Self::require_owner(env, sbt_id) {
            Ok(owner) => owner,
            Err(fault) => return Err(fault),
        };
        if env.storage.has(&DataKey::Composition(sbt_id)) {
            return Err(SbtFault::Contract(SbtError::AlreadyComposed));
        }
        Ok(owner)
    }

    fn has_active_delegation(env: &Env, sbt_id: u64) -> (active: bool)
        ensures
            active == (env@.active_delegate(sbt_id) is Some),
    {
        match env.storage.delegations.get(&sbt_id) {
            Some(record) => record.expires_at > env.timestamp,
            None => false,
        }
    }

    fn evaluate_condition(env: &Env, sbt_id: u64, condition: &TransferCondition) -> (met: bool)
        ensures
            met == env@.condition_met(sbt_id, *condition),
    {
        match condition {
            TransferCondition::Always => true,
            TransferCondition::MinHoldSeconds(min_seconds) => {
                let minted_at: u64 = match env.storage.minted_at.get(&sbt_id) {
                    Some(at) => *at,
                    None => 0,
                };
                env.timestamp.saturating_sub(minted_at) >= *min_seconds
            },
            TransferCondition::NoActiveDelegation => !Self::has_active_delegation(env, sbt_id),
        }
    }

    fn load_delegation_history(env: &Env, sbt_id: u64) -> (history: Vec<DelegationHistoryEntry>)
        ensures
            history_view(history@) == env@.state.history(sbt_id),
    {
        let mut copy: Vec<DelegationHistoryEntry> = Vec::new();
        if let Some(history) = env.storage.histories.get(&sbt_id) {
            let mut i: usize = 0;
            while i < history.len()
                invariant
                    i <= history@.len(),
                    copy@ == history@.take(i as int),
                decreases history@.len() - i,
            {
                copy.push(history[i].clone());
                assert(copy@ =~= history@.take(i + 1));
                i = i + 1;
            }
            assert(history@.take(history@.len() as int) =~= history@);
        }
        assert(history_view(copy@) =~= env@.state.history(sbt_id));
        copy
    }

    fn push_delegation_history(env: &mut Env, sbt_id: u64, entry: DelegationHistoryEntry)
        ensures
            final(env)@ == (EnvView {
                state: StateView {
                    histories: old(env)@.state.histories.insert(
                        sbt_id,
                        old(env)@.state.history(sbt_id).push(entry@),
                    ),
                    ..old(env)@.state
                },
                ..old(env)@
            }),
    {
        let mut history: Vec<DelegationHistoryEntry> = Self::load_delegation_history(env, sbt_id);
        history.push(entry);
        assert(history_view(history@) =~= old(env)@.state.history(sbt_id).push(entry@));
        env.storage.histories.insert(sbt_id, history);
        assert(env@.state.histories =~= old(env)@.state.histories.insert(
            sbt_id,
            old(env)@.state.history(sbt_id).push(entry@),
        ));
        assert(env@.state =~= (StateView {
            histories: old(env)@.state.histories.insert(
                sbt_id,
                old(env)@.state.history(sbt_id).push(entry@),
            ),
            ..old(env)@.state
        }));
    }
}

} // verus!
