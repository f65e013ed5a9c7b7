//! Soulbound tokens: minting, composition with other tokens, transfer in batches, and delegation
//! for a limited time.
//!
//! `Env` stands for what surrounds a call: the time of the ledger, who has authorized the call,
//! the stored state, and the events that were published. A call that is refused changes nothing.

use std::collections::HashMap;
use vstd::prelude::*;

verus! {

/// The address of an account or a contract.
#[derive(Debug)]
pub struct Address {
    pub id: String,
}

impl View for Address {
    type V = Seq<char>;

    open spec fn view(&self) -> Seq<char> {
        self.id@
    }
}

impl Clone for Address {
    fn clone(&self) -> (copy: Address)
        ensures
            copy == *self,
    {
        Address { id: self.id.clone() }
    }
}

impl Address {
    /// Whether two addresses are the same.
    pub fn is_same(&self, other: &Address) -> (same: bool)
        ensures
            same == (self@ == other@),
    {
        self.id == other.id
    }
}

/// Why a call is refused by the rules of the contract.
#[derive(Debug, Clone, Copy, PartialEq, Eq, Structural)]
pub enum SbtError {
    /// The contract has already been initialized.
    AlreadyInitialized,
    /// The contract has not been initialized.
    NotInitialized,
    /// No token exists with the given id.
    TokenNotFound,
    /// The metadata were empty.
    EmptyMetadata,
    /// The token is already composed with another.
    AlreadyComposed,
    /// The token is not composed with another.
    NotComposed,
    /// The owner of the token does not own the other one.
    NftOwnershipMismatch,
    /// A delegation must last longer than zero seconds.
    InvalidDuration,
    /// The token has no delegation that is still active.
    NoActiveDelegation,
    /// A batch must have as many transfers as tokens.
    MismatchedBatchLengths,
    /// The condition of a transfer is not met.
    TransferConditionNotMet,
    /// A batch must have an entry.
    EmptyBatch,
    /// A token cannot be delegated to its own owner.
    SelfDelegation,
}

impl SbtError {
    /// The number by which the error is reported.
    pub open spec fn number(self) -> u32 {
        match self {
            SbtError::AlreadyInitialized => 1,
            SbtError::NotInitialized => 2,
            SbtError::TokenNotFound => 3,
            SbtError::EmptyMetadata => 4,
            SbtError::AlreadyComposed => 5,
            SbtError::NotComposed => 6,
            SbtError::NftOwnershipMismatch => 7,
            SbtError::InvalidDuration => 8,
            SbtError::NoActiveDelegation => 9,
            SbtError::MismatchedBatchLengths => 10,
            SbtError::TransferConditionNotMet => 11,
            SbtError::EmptyBatch => 12,
            SbtError::SelfDelegation => 13,
        }
    }

    /// The number by which the error is reported.
    pub fn code(&self) -> (code: u32)
        ensures
            code == self.number(),
    {
        match self {
            SbtError::AlreadyInitialized => 1,
            SbtError::NotInitialized => 2,
            SbtError::TokenNotFound => 3,
            SbtError::EmptyMetadata => 4,
            SbtError::AlreadyComposed => 5,
            SbtError::NotComposed => 6,
            SbtError::NftOwnershipMismatch => 7,
            SbtError::InvalidDuration => 8,
            SbtError::NoActiveDelegation => 9,
            SbtError::MismatchedBatchLengths => 10,
            SbtError::TransferConditionNotMet => 11,
            SbtError::EmptyBatch => 12,
            SbtError::SelfDelegation => 13,
        }
    }
}

/// Why a call is refused.
#[derive(Debug)]
pub enum SbtFault {
    /// The rules of the contract refuse it.
    Contract(SbtError),
    /// This address has not authorized it.
    Unauthorized(Address),
}

/// Why a call is refused, with the address as characters.
pub enum FaultView {
    Contract(SbtError),
    Unauthorized(Seq<char>),
}

impl View for SbtFault {
    type V = FaultView;

    open spec fn view(&self) -> FaultView {
        match *self {
            SbtFault::Contract(e) => FaultView::Contract(e),
            SbtFault::Unauthorized(address) => FaultView::Unauthorized(address@),
        }
    }
}

/// Why a call was refused, if it was.
pub open spec fn refusal<T>(result: Result<T, SbtFault>) -> Option<FaultView> {
    match result {
        Ok(_) => None,
        Err(fault) => Some(fault@),
    }
}

/// What is kept in the state, all but the first two by token.
#[derive(Debug, Clone, Copy, PartialEq, Eq, Structural)]
pub enum DataKey {
    Admin,
    NextTokenId,
    Owner(u64),
    Metadata(u64),
    MintedAt(u64),
    Composition(u64),
    SharedMetadata(u64),
    Delegation(u64),
    DelegationHistory(u64),
}

/// The token on another contract that a token is composed with. Composing only records that the
/// two belong together; the other token is neither moved nor locked.
#[derive(Debug)]
pub struct CompositionRecord {
    pub nft_address: Address,
    pub nft_id: u64,
    pub composed_at: u64,
}

/// A composition with the address as characters.
pub struct CompositionView {
    pub nft_address: Seq<char>,
    pub nft_id: u64,
    pub composed_at: u64,
}

impl View for CompositionRecord {
    type V = CompositionView;

    open spec fn view(&self) -> CompositionView {
        CompositionView {
            nft_address: self.nft_address@,
            nft_id: self.nft_id,
            composed_at: self.composed_at,
        }
    }
}

impl Clone for CompositionRecord {
    fn clone(&self) -> (copy: CompositionRecord)
        ensures
            copy == *self,
    {
        CompositionRecord {
            nft_address: self.nft_address.clone(),
            nft_id: self.nft_id,
            composed_at: self.composed_at,
        }
    }
}

/// To whom a token is delegated, and until when.
#[derive(Debug)]
pub struct DelegationRecord {
    pub delegate: Address,
    pub delegated_at: u64,
    pub expires_at: u64,
}

/// A delegation with the address as characters.
pub struct DelegationView {
    pub delegate: Seq<char>,
    pub delegated_at: u64,
    pub expires_at: u64,
}

impl View for DelegationRecord {
    type V = DelegationView;

    open spec fn view(&self) -> DelegationView {
        DelegationView {
            delegate: self.delegate@,
            delegated_at: self.delegated_at,
            expires_at: self.expires_at,
        }
    }
}

impl Clone for DelegationRecord {
    fn clone(&self) -> (copy: DelegationRecord)
        ensures
            copy == *self,
    {
        DelegationRecord {
            delegate: self.delegate.clone(),
            delegated_at: self.delegated_at,
            expires_at: self.expires_at,
        }
    }
}

/// What happened to a delegation.
#[derive(Debug, Clone, Copy, PartialEq, Eq, Structural)]
pub enum DelegationAction {
    Delegated,
    Revoked,
}

/// What happened to a delegation, to whom it was, and when.
#[derive(Debug)]
pub struct DelegationHistoryEntry {
    pub delegate: Address,
    pub action: DelegationAction,
    pub at: u64,
    pub expires_at: u64,
}

/// An entry of a history with the address as characters.
pub struct HistoryView {
    pub delegate: Seq<char>,
    pub action: DelegationAction,
    pub at: u64,
    pub expires_at: u64,
}

impl View for DelegationHistoryEntry {
    type V = HistoryView;

    open spec fn view(&self) -> HistoryView {
        HistoryView {
            delegate: self.delegate@,
            action: self.action,
            at: self.at,
            expires_at: self.expires_at,
        }
    }
}

impl Clone for DelegationHistoryEntry {
    fn clone(&self) -> (copy: DelegationHistoryEntry)
        ensures
            copy == *self,
    {
        DelegationHistoryEntry {
            delegate: self.delegate.clone(),
            action: self.action,
            at: self.at,
            expires_at: self.expires_at,
        }
    }
}

/// A history with addresses as characters.
pub open spec fn history_view(history: Seq<DelegationHistoryEntry>) -> Seq<HistoryView> {
    history.map_values(|entry: DelegationHistoryEntry| entry@)
}

/// What must hold for a transfer to be made.
#[derive(Debug, Clone, Copy, PartialEq, Eq, Structural)]
pub enum TransferCondition {
    /// Nothing.
    Always,
    /// The token was minted at least this many seconds ago.
    MinHoldSeconds(u64),
    /// The token has no delegation that is still active.
    NoActiveDelegation,
}

/// To whom a token is transferred, and on what condition.
#[derive(Debug)]
pub struct TransferInstruction {
    pub to: Address,
    pub condition: TransferCondition,
}

/// A transfer with the address as characters.
pub struct TransferView {
    pub to: Seq<char>,
    pub condition: TransferCondition,
}

impl View for TransferInstruction {
    type V = TransferView;

    open spec fn view(&self) -> TransferView {
        TransferView { to: self.to@, condition: self.condition }
    }
}

/// The transfers of a batch with addresses as characters.
pub open spec fn transfer_views(transfers: Seq<TransferInstruction>) -> Seq<TransferView> {
    transfers.map_values(|transfer: TransferInstruction| transfer@)
}

/// What is published of a call that was carried out.
#[derive(Debug)]
pub enum SbtEvent {
    Minted { sbt_id: u64, to: Address },
    Composed { sbt_id: u64, nft_address: Address, nft_id: u64 },
    Decomposed { sbt_id: u64 },
    SharedMetadataSet { sbt_id: u64 },
    Transferred { sbt_id: u64, to: Address },
    Delegated { sbt_id: u64, delegate: Address, expires_at: u64 },
    DelegationRevoked { sbt_id: u64, delegate: Address },
}

/// An event with addresses as characters.
pub enum EventView {
    Minted { sbt_id: u64, to: Seq<char> },
    Composed { sbt_id: u64, nft_address: Seq<char>, nft_id: u64 },
    Decomposed { sbt_id: u64 },
    SharedMetadataSet { sbt_id: u64 },
    Transferred { sbt_id: u64, to: Seq<char> },
    Delegated { sbt_id: u64, delegate: Seq<char>, expires_at: u64 },
    DelegationRevoked { sbt_id: u64, delegate: Seq<char> },
}

impl View for SbtEvent {
    type V = EventView;

    open spec fn view(&self) -> EventView {
        match *self {
            SbtEvent::Minted { sbt_id, to } => EventView::Minted { sbt_id, to: to@ },
            SbtEvent::Composed { sbt_id, nft_address, nft_id } => EventView::Composed {
                sbt_id,
                nft_address: nft_address@,
                nft_id,
            },
            SbtEvent::Decomposed { sbt_id } => EventView::Decomposed { sbt_id },
            SbtEvent::SharedMetadataSet { sbt_id } => EventView::SharedMetadataSet { sbt_id },
            SbtEvent::Transferred { sbt_id, to } => EventView::Transferred { sbt_id, to: to@ },
            SbtEvent::Delegated { sbt_id, delegate, expires_at } => EventView::Delegated {
                sbt_id,
                delegate: delegate@,
                expires_at,
            },
            SbtEvent::DelegationRevoked { sbt_id, delegate } => EventView::DelegationRevoked {
                sbt_id,
                delegate: delegate@,
            },
        }
    }
}

impl SbtEvent {
    /// The topic under which the event is published.
    pub open spec fn topic_text(self) -> Seq<char> {
        match self {
            SbtEvent::Minted { .. } => "sbt_mint"@,
            SbtEvent::Composed { .. } => "sbt_cmpse"@,
            SbtEvent::Decomposed { .. } => "sbt_dcmp"@,
            SbtEvent::SharedMetadataSet { .. } => "sbt_smeta"@,
            SbtEvent::Transferred { .. } => "sbt_btxfr"@,
            SbtEvent::Delegated { .. } => "sbt_dlg"@,
            SbtEvent::DelegationRevoked { .. } => "sbt_rdlg"@,
        }
    }

    /// The topic under which the event is published.
    pub fn topic(&self) -> (topic: &'static str)
        ensures
            topic@ == self.topic_text(),
    {
        match self {
            SbtEvent::Minted { .. } => "sbt_mint",
            SbtEvent::Composed { .. } => "sbt_cmpse",
            SbtEvent::Decomposed { .. } => "sbt_dcmp",
            SbtEvent::SharedMetadataSet { .. } => "sbt_smeta",
            SbtEvent::Transferred { .. } => "sbt_btxfr",
            SbtEvent::Delegated { .. } => "sbt_dlg",
            SbtEvent::DelegationRevoked { .. } => "sbt_rdlg",
        }
    }
}

/// The stored state of the contract.
pub struct InstanceStorage {
    pub admin: Option<Address>,
    pub next_token_id: Option<u64>,
    pub owners: HashMap<u64, Address>,
    pub metadata: HashMap<u64, String>,
    pub minted_at: HashMap<u64, u64>,
    pub compositions: HashMap<u64, CompositionRecord>,
    pub shared_metadata: HashMap<u64, String>,
    pub delegations: HashMap<u64, DelegationRecord>,
    pub histories: HashMap<u64, Vec<DelegationHistoryEntry>>,
}

/// The state with addresses and texts as characters.
#[verifier::ext_equal]
pub struct StateView {
    pub admin: Option<Seq<char>>,
    pub next_token_id: Option<u64>,
    pub owners: Map<u64, Seq<char>>,
    pub metadata: Map<u64, Seq<char>>,
    pub minted_at: Map<u64, u64>,
    pub compositions: Map<u64, CompositionView>,
    pub shared_metadata: Map<u64, Seq<char>>,
    pub delegations: Map<u64, DelegationView>,
    pub histories: Map<u64, Seq<HistoryView>>,
}

/// Addresses by token, as characters.
pub open spec fn address_views(addresses: Map<u64, Address>) -> Map<u64, Seq<char>> {
    addresses.map_values(|address: Address| address@)
}

/// Texts by token, as characters.
pub open spec fn text_views(texts: Map<u64, String>) -> Map<u64, Seq<char>> {
    texts.map_values(|text: String| text@)
}

/// Compositions by token, with addresses as characters.
pub open spec fn composition_views(records: Map<u64, CompositionRecord>) -> Map<
    u64,
    CompositionView,
> {
    records.map_values(|record: CompositionRecord| record@)
}

/// Delegations by token, with addresses as characters.
pub open spec fn delegation_views(records: Map<u64, DelegationRecord>) -> Map<u64, DelegationView> {
    records.map_values(|record: DelegationRecord| record@)
}

/// Histories by token, with addresses as characters.
pub open spec fn history_views(histories: Map<u64, Vec<DelegationHistoryEntry>>) -> Map<
    u64,
    Seq<HistoryView>,
> {
    histories.map_values(|history: Vec<DelegationHistoryEntry>| history_view(history@))
}

impl View for InstanceStorage {
    type V = StateView;

    open spec fn view(&self) -> StateView {
        StateView {
            admin: match self.admin {
                Some(admin) => Some(admin@),
                None => None,
            },
            next_token_id: self.next_token_id,
            owners: address_views(self.owners@),
            metadata: text_views(self.metadata@),
            minted_at: self.minted_at@,
            compositions: composition_views(self.compositions@),
            shared_metadata: text_views(self.shared_metadata@),
            delegations: delegation_views(self.delegations@),
            histories: history_views(self.histories@),
        }
    }
}

impl StateView {
    /// Whether something is kept under a key.
    pub open spec fn has(self, key: DataKey) -> bool {
        match key {
            DataKey::Admin => self.admin is Some,
            DataKey::NextTokenId => self.next_token_id is Some,
            DataKey::Owner(id) => self.owners.contains_key(id),
            DataKey::Metadata(id) => self.metadata.contains_key(id),
            DataKey::MintedAt(id) => self.minted_at.contains_key(id),
            DataKey::Composition(id) => self.compositions.contains_key(id),
            DataKey::SharedMetadata(id) => self.shared_metadata.contains_key(id),
            DataKey::Delegation(id) => self.delegations.contains_key(id),
            DataKey::DelegationHistory(id) => self.histories.contains_key(id),
        }
    }

    /// The id that the next token gets.
    pub open spec fn next_id(self) -> u64 {
        match self.next_token_id {
            Some(id) => id,
            None => 0,
        }
    }

    /// When a token was minted.
    pub open spec fn mint_time(self, sbt_id: u64) -> u64 {
        if self.minted_at.contains_key(sbt_id) {
            self.minted_at[sbt_id]
        } else {
            0
        }
    }

    /// What happened to the delegations of a token.
    pub open spec fn history(self, sbt_id: u64) -> Seq<HistoryView> {
        if self.histories.contains_key(sbt_id) {
            self.histories[sbt_id]
        } else {
            Seq::empty()
        }
    }

    /// The state without anything kept in it.
    pub open spec fn empty() -> StateView {
        StateView {
            admin: None,
            next_token_id: None,
            owners: Map::empty(),
            metadata: Map::empty(),
            minted_at: Map::empty(),
            compositions: Map::empty(),
            shared_metadata: Map::empty(),
            delegations: Map::empty(),
            histories: Map::empty(),
        }
    }
}

impl InstanceStorage {
    /// The state without anything kept in it.
    pub fn new() -> (storage: InstanceStorage)
        ensures
            storage@ == StateView::empty(),
    {
        broadcast use vstd::std_specs::hash::group_hash_axioms;

        let storage: InstanceStorage = InstanceStorage {
            admin: None,
            next_token_id: None,
            owners: HashMap::new(),
            metadata: HashMap::new(),
            minted_at: HashMap::new(),
            compositions: HashMap::new(),
            shared_metadata: HashMap::new(),
            delegations: HashMap::new(),
            histories: HashMap::new(),
        };
        assert(storage@ =~= StateView::empty());
        storage
    }

    /// Whether something is kept under a key.
    pub fn has(&self, key: &DataKey) -> (has: bool)
        ensures
            has == self@.has(*key),
    {
        broadcast use vstd::std_specs::hash::group_hash_axioms;

        match key {
            DataKey::Admin => self.admin.is_some(),
            DataKey::NextTokenId => self.next_token_id.is_some(),
            DataKey::Owner(id) => self.owners.contains_key(id),
            DataKey::Metadata(id) => self.metadata.contains_key(id),
            DataKey::MintedAt(id) => self.minted_at.contains_key(id),
            DataKey::Composition(id) => self.compositions.contains_key(id),
            DataKey::SharedMetadata(id) => self.shared_metadata.contains_key(id),
            DataKey::Delegation(id) => self.delegations.contains_key(id),
            DataKey::DelegationHistory(id) => self.histories.contains_key(id),
        }
    }
}

/// What surrounds a call.
pub struct Env {
    /// The time of the ledger, in seconds.
    pub timestamp: u64,
    /// The authorizations that were given for the call, one entry for each. A call that asks an
    /// address more than once takes as many entries of it; an address that may be asked any number
    /// of times has as many as the call takes.
    pub authorized: Vec<Address>,
    /// The stored state.
    pub storage: InstanceStorage,
    /// The events that were published, the latest last.
    pub events: Vec<SbtEvent>,
}

/// What surrounds a call, with addresses and texts as characters.
#[verifier::ext_equal]
pub struct EnvView {
    pub timestamp: u64,
    pub authorized: Seq<Seq<char>>,
    pub state: StateView,
    pub events: Seq<EventView>,
}

/// Addresses as characters.
pub open spec fn addresses_view(addresses: Seq<Address>) -> Seq<Seq<char>> {
    addresses.map_values(|address: Address| address@)
}

/// Events with addresses as characters.
pub open spec fn event_views(events: Seq<SbtEvent>) -> Seq<EventView> {
    events.map_values(|event: SbtEvent| event@)
}

impl View for Env {
    type V = EnvView;

    open spec fn view(&self) -> EnvView {
        EnvView {
            timestamp: self.timestamp,
            authorized: addresses_view(self.authorized@),
            state: self.storage@,
            events: event_views(self.events@),
        }
    }
}

impl Env {
    /// The surroundings of a call at a time, with nothing stored, authorized or published yet.
    pub fn new(timestamp: u64) -> (env: Env)
        ensures
            env@ == (EnvView {
                timestamp,
                authorized: Seq::empty(),
                state: StateView::empty(),
                events: Seq::empty(),
            }),
    {
        let env: Env = Env {
            timestamp,
            authorized: Vec::new(),
            storage: InstanceStorage::new(),
            events: Vec::new(),
        };
        assert(env@.authorized =~= Seq::empty());
        assert(env@.events =~= Seq::empty());
        env
    }
}

} // verus!
