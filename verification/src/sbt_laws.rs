//! What holds of the contract for soulbound tokens whatever calls are made.

use crate::sbt::{
    CompositionView, DelegationAction, DelegationView, EnvView, EventView, FaultView, HistoryView,
    SbtError, StateView, TransferView,
};
use crate::sbt_contract::{expiry, is_address, times};
use vstd::prelude::*;

verus! {

/// A call that changes the state if it is not refused. Composing is told who owns the other token.
pub enum SbtCall {
    Initialize { admin: Seq<char> },
    Mint { to: Seq<char>, metadata: Seq<char> },
    Compose { sbt_id: u64, nft_address: Seq<char>, nft_id: u64, nft_owner: Seq<char> },
    Decompose { sbt_id: u64 },
    SetSharedMetadata { sbt_id: u64, metadata: Seq<char> },
    BatchTransfer { sbt_ids: Seq<u64>, transfers: Seq<TransferView> },
    Delegate { sbt_id: u64, delegate: Seq<char>, duration_seconds: u64 },
    Revoke { sbt_id: u64 },
}

impl EnvView {
    /// What refuses a call.
    pub open spec fn call_refusal(self, call: SbtCall) -> Option<FaultView> {
        match call {
            SbtCall::Initialize { admin } => self.initialize_refusal(admin),
            SbtCall::Mint { to, metadata } => self.mint_refusal(metadata),
            SbtCall::Compose { sbt_id, nft_address, nft_id, nft_owner } => self.compose_refusal(
                sbt_id,
                nft_owner,
            ),
            SbtCall::Decompose { sbt_id } => self.decompose_refusal(sbt_id),
            SbtCall::SetSharedMetadata { sbt_id, metadata } => self.owner_refusal(sbt_id),
            SbtCall::BatchTransfer { sbt_ids, transfers } => self.batch_refusal(sbt_ids, transfers),
            SbtCall::Delegate { sbt_id, delegate, duration_seconds } => self.delegate_refusal(
                sbt_id,
                delegate,
                duration_seconds,
            ),
            SbtCall::Revoke { sbt_id } => self.revoke_refusal(sbt_id),
        }
    }

    /// What a call does that is not refused.
    pub open spec fn after_call(self, call: SbtCall) -> EnvView {
        match call {
            SbtCall::Initialize { admin } => self.initialized(admin),
            SbtCall::Mint { to, metadata } => self.minted(to, metadata),
            SbtCall::Compose { sbt_id, nft_address, nft_id, nft_owner } => self.composed(
                sbt_id,
                nft_address,
                nft_id,
            ),
            SbtCall::Decompose { sbt_id } => self.decomposed(sbt_id),
            SbtCall::SetSharedMetadata { sbt_id, metadata } => self.shared_metadata_set(
                sbt_id,
                metadata,
            ),
            SbtCall::BatchTransfer { sbt_ids, transfers } => self.batch_transferred(
                sbt_ids,
                transfers,
                sbt_ids.len() as int,
            ),
            SbtCall::Delegate { sbt_id, delegate, duration_seconds } => self.delegated(
                sbt_id,
                delegate,
                duration_seconds,
            ),
            SbtCall::Revoke { sbt_id } => self.revoked(sbt_id),
        }
    }

    /// Whether a call can be made: it is not refused, and there is an id left for a token.
    pub open spec fn accepts(self, call: SbtCall) -> bool {
        &&& self.call_refusal(call) is None
        &&& call is Mint ==> self.state.next_id() < u64::MAX
    }
}

/// The entry that a delegation left in the history when it was made.
pub open spec fn entry_of(record: DelegationView) -> HistoryView {
    HistoryView {
        delegate: record.delegate,
        action: DelegationAction::Delegated,
        at: record.delegated_at,
        expires_at: record.expires_at,
    }
}

/// Whether an entry of a history is no revocation, or follows the delegation that it ended before
/// that one expired.
pub open spec fn follows_delegation(history: Seq<HistoryView>, k: int) -> bool {
    history[k].action == DelegationAction::Revoked ==> {
        &&& k > 0
        &&& history[k - 1].action == DelegationAction::Delegated
        &&& history[k - 1].delegate == history[k].delegate
        &&& history[k - 1].expires_at == history[k].expires_at
        &&& history[k].at < history[k].expires_at
    }
}

/// Whether each revocation in a history follows the delegation that it ended.
pub open spec fn revocations_follow(history: Seq<HistoryView>) -> bool {
    forall|k: int| 0 <= k < history.len() ==> #[trigger] follows_delegation(history, k)
}

impl StateView {
    /// Whether the parts of the state belong together.
    pub open spec fn valid(self) -> bool {
        &&& self.admin is Some == self.next_token_id is Some
        &&& forall|id: u64| #[trigger] self.owners.contains_key(id) == (id < self.next_id())
        &&& self.metadata.dom() == self.owners.dom()
        &&& self.minted_at.dom() == self.owners.dom()
        &&& forall|id: u64| #[trigger]
            self.metadata.contains_key(id) ==> self.metadata[id].len() > 0
        &&& self.compositions.dom().subset_of(self.owners.dom())
        &&& self.shared_metadata.dom().subset_of(self.owners.dom())
        &&& self.histories.dom().subset_of(self.owners.dom())
        &&& self.delegations.dom().subset_of(self.owners.dom())
        &&& forall|id: u64| #[trigger]
            self.delegations.contains_key(id) ==> self.delegation_fits(id)
        &&& forall|id: u64| #[trigger]
            self.histories.contains_key(id) ==> revocations_follow(self.histories[id])
    }

    /// Whether a delegation that is stored is not to the owner, does not end before it began, and
    /// is the last that the history tells of.
    pub open spec fn delegation_fits(self, id: u64) -> bool {
        let record = self.delegations[id];
        &&& record.delegate != self.owners[id]
        &&& record.delegated_at <= record.expires_at
        &&& self.history(id).len() > 0
        &&& self.history(id).last() == entry_of(record)
    }
}

/// The parts of the state belong together at first.
pub proof fn law_empty_state_is_valid()
    ensures
        StateView::empty().valid(),
{
    let empty = StateView::empty();
    assert(empty.metadata.dom() =~= empty.owners.dom());
    assert(empty.minted_at.dom() =~= empty.owners.dom());
}

proof fn lemma_legs_accepted(
    env: EnvView,
    sbt_ids: Seq<u64>,
    transfers: Seq<TransferView>,
    from: int,
)
    requires
        0 <= from <= sbt_ids.len(),
        env.legs_refusal(sbt_ids, transfers, from) is None,
    ensures
        forall|i: int|
            from <= i < sbt_ids.len() ==> (#[trigger] env.leg_refusal(sbt_ids, transfers, i)) is None,
    decreases sbt_ids.len() - from,
{
    if from < sbt_ids.len() {
        lemma_legs_accepted(env, sbt_ids, transfers, from + 1);
    }
}

/// A batch is refused for a transfer exactly if one of its transfers would be, and then for the
/// first of these.
pub proof fn law_batch_is_refused_for_its_first_fault(
    env: EnvView,
    sbt_ids: Seq<u64>,
    transfers: Seq<TransferView>,
    first: int,
)
    requires
        sbt_ids.len() == transfers.len(),
        0 <= first < sbt_ids.len(),
        env.leg_refusal(sbt_ids, transfers, first) is Some,
        forall|i: int|
            0 <= i < first ==> (#[trigger] env.leg_refusal(sbt_ids, transfers, i)) is None,
    ensures
        env.batch_refusal(sbt_ids, transfers) == env.leg_refusal(sbt_ids, transfers, first),
{
    lemma_first_leg(env, sbt_ids, transfers, 0, first);
}

proof fn lemma_first_leg(
    env: EnvView,
    sbt_ids: Seq<u64>,
    transfers: Seq<TransferView>,
    from: int,
    first: int,
)
    requires
        0 <= from <= first < sbt_ids.len(),
        env.leg_refusal(sbt_ids, transfers, first) is Some,
        forall|i: int|
            from <= i < first ==> (#[trigger] env.leg_refusal(sbt_ids, transfers, i)) is None,
    ensures
        env.legs_refusal(sbt_ids, transfers, from) == env.leg_refusal(sbt_ids, transfers, first),
    decreases first - from,
{
    if from < first {
        assert(env.leg_refusal(sbt_ids, transfers, from) is None);
        lemma_first_leg(env, sbt_ids, transfers, from + 1, first);
    }
}

/// A batch that is not refused is one that has transfers, and none that would be refused.
pub proof fn law_accepted_batch_has_no_fault(
    env: EnvView,
    sbt_ids: Seq<u64>,
    transfers: Seq<TransferView>,
)
    requires
        env.batch_refusal(sbt_ids, transfers) is None,
    ensures
        0 < sbt_ids.len() == transfers.len(),
        forall|i: int|
            0 <= i < sbt_ids.len() ==> (#[trigger] env.leg_refusal(sbt_ids, transfers, i)) is None,
{
    lemma_legs_accepted(env, sbt_ids, transfers, 0);
}

/// The events of the first transfers of a batch.
pub open spec fn transfer_events(
    sbt_ids: Seq<u64>,
    transfers: Seq<TransferView>,
    count: nat,
) -> Seq<EventView> {
    Seq::new(count, |i: int| EventView::Transferred { sbt_id: sbt_ids[i], to: transfers[i].to })
}

/// Whether no transfer after this one is of the same token.
pub open spec fn is_last_transfer(sbt_ids: Seq<u64>, i: int, count: int) -> bool {
    forall|j: int| i < j < count ==> #[trigger] sbt_ids[j] != sbt_ids[i]
}

/// A batch changes nothing but owners and delegations, and publishes an event for each transfer.
proof fn lemma_batch_rest(env: EnvView, sbt_ids: Seq<u64>, transfers: Seq<TransferView>, count: int)
    requires
        0 <= count,
    ensures
        ({
            let after = env.batch_transferred(sbt_ids, transfers, count);
            after == (EnvView {
                state: StateView {
                    owners: after.state.owners,
                    delegations: after.state.delegations,
                    ..env.state
                },
                events: env.events + transfer_events(sbt_ids, transfers, count as nat),
                ..env
            })
        }),
    decreases count,
{
    let after = env.batch_transferred(sbt_ids, transfers, count);
    if count == 0 {
        assert(after.events =~= env.events + transfer_events(sbt_ids, transfers, 0));
    } else {
        lemma_batch_rest(env, sbt_ids, transfers, count - 1);
        assert(after.events =~= env.events + transfer_events(sbt_ids, transfers, count as nat));
    }
}

/// A batch leaves a token alone that is not in it.
proof fn lemma_batch_others(
    env: EnvView,
    sbt_ids: Seq<u64>,
    transfers: Seq<TransferView>,
    count: int,
    id: u64,
)
    requires
        0 <= count <= sbt_ids.len(),
        !sbt_ids.contains(id),
    ensures
        ({
            let after = env.batch_transferred(sbt_ids, transfers, count).state;
            &&& after.owners.contains_key(id) == env.state.owners.contains_key(id)
            &&& after.owners[id] == env.state.owners[id]
            &&& after.delegations.contains_key(id) == env.state.delegations.contains_key(id)
            &&& after.delegations[id] == env.state.delegations[id]
        }),
    decreases count,
{
    if count > 0 {
        assert(sbt_ids[count - 1] != id);
        lemma_batch_others(env, sbt_ids, transfers, count - 1, id);
    }
}

/// A token in a batch has an owner after it and no delegation, and the last transfer of it names
/// the owner.
proof fn lemma_batch_moved(
    env: EnvView,
    sbt_ids: Seq<u64>,
    transfers: Seq<TransferView>,
    count: int,
    i: int,
)
    requires
        0 <= i < count <= sbt_ids.len(),
    ensures
        ({
            let after = env.batch_transferred(sbt_ids, transfers, count).state;
            &&& after.owners.contains_key(sbt_ids[i])
            &&& !after.delegations.contains_key(sbt_ids[i])
            &&& is_last_transfer(sbt_ids, i, count) ==> after.owners[sbt_ids[i]] == transfers[i].to
        }),
    decreases count,
{
    if i < count - 1 {
        lemma_batch_moved(env, sbt_ids, transfers, count - 1, i);
        if is_last_transfer(sbt_ids, i, count) {
            assert(sbt_ids[count - 1] != sbt_ids[i]);
        }
    }
}

/// A batch gives each of its tokens to the owner that the last transfer of the token names, ends
/// their delegations, publishes an event for each transfer in order, and changes nothing else.
pub proof fn law_batch_moves_its_tokens(
    env: EnvView,
    sbt_ids: Seq<u64>,
    transfers: Seq<TransferView>,
)
    requires
        sbt_ids.len() == transfers.len(),
    ensures
        ({
            let after = env.batch_transferred(sbt_ids, transfers, sbt_ids.len() as int);
            &&& forall|i: int| #[trigger]
                is_last_transfer(sbt_ids, i, sbt_ids.len() as int) && 0 <= i < sbt_ids.len()
                    ==> after.state.owners.contains_pair(sbt_ids[i], transfers[i].to)
            &&& forall|i: int|
                0 <= i < sbt_ids.len() ==> after.active_delegate(#[trigger] sbt_ids[i]) is None
            &&& forall|id: u64|
                !sbt_ids.contains(id) ==> {
                    &&& #[trigger] after.state.owners.contains_key(id)
                        == env.state.owners.contains_key(id)
                    &&& after.state.owners[id] == env.state.owners[id]
                    &&& after.active_delegate(id) == env.active_delegate(id)
                }
            &&& after == (EnvView {
                state: StateView {
                    owners: after.state.owners,
                    delegations: after.state.delegations,
                    ..env.state
                },
                events: env.events + transfer_events(sbt_ids, transfers, sbt_ids.len()),
                ..env
            })
        }),
{
    let count = sbt_ids.len() as int;
    let after = env.batch_transferred(sbt_ids, transfers, count);
    lemma_batch_rest(env, sbt_ids, transfers, count);
    assert forall|i: int| #[trigger]
        is_last_transfer(sbt_ids, i, count) && 0 <= i
            < count implies after.state.owners.contains_pair(sbt_ids[i], transfers[i].to) by {
        lemma_batch_moved(env, sbt_ids, transfers, count, i);
    }
    assert forall|i: int| 0 <= i < count implies after.active_delegate(
        #[trigger] sbt_ids[i],
    ) is None by {
        lemma_batch_moved(env, sbt_ids, transfers, count, i);
    }
    assert forall|id: u64| !sbt_ids.contains(id) implies {
        &&& #[trigger] after.state.owners.contains_key(id) == env.state.owners.contains_key(id)
        &&& after.state.owners[id] == env.state.owners[id]
        &&& after.active_delegate(id) == env.active_delegate(id)
    } by {
        lemma_batch_others(env, sbt_ids, transfers, count, id);
    }
}

proof fn lemma_mint_keeps_valid(env: EnvView, to: Seq<char>, metadata: Seq<char>)
    requires
        env.state.valid(),
        env.mint_refusal(metadata) is None,
        env.state.next_id() < u64::MAX,
    ensures
        env.minted(to, metadata).state.valid(),
{
    let before = env.state;
    let after = env.minted(to, metadata).state;
    assert(after.metadata.dom() =~= after.owners.dom());
    assert(after.minted_at.dom() =~= after.owners.dom());
    assert(!before.owners.contains_key(before.next_id()));
    assert forall|id: u64| #[trigger]
        after.delegations.contains_key(id) implies after.delegation_fits(id) by {
        assert(before.delegation_fits(id));
        assert(before.owners.dom().contains(id));
    }
}

proof fn lemma_batch_keeps_valid(env: EnvView, sbt_ids: Seq<u64>, transfers: Seq<TransferView>)
    requires
        env.state.valid(),
        env.batch_refusal(sbt_ids, transfers) is None,
    ensures
        env.batch_transferred(sbt_ids, transfers, sbt_ids.len() as int).state.valid(),
{
    let count = sbt_ids.len() as int;
    let before = env.state;
    let after = env.batch_transferred(sbt_ids, transfers, count).state;
    lemma_batch_rest(env, sbt_ids, transfers, count);
    lemma_legs_accepted(env, sbt_ids, transfers, 0);
    assert forall|id: u64| #[trigger]
        after.owners.contains_key(id) == before.owners.contains_key(id) by {
        if sbt_ids.contains(id) {
            let i = sbt_ids.index_of(id);
            lemma_batch_moved(env, sbt_ids, transfers, count, i);
            assert(env.leg_refusal(sbt_ids, transfers, i) is None);
        } else {
            lemma_batch_others(env, sbt_ids, transfers, count, id);
        }
    }
    assert(after.owners.dom() =~= before.owners.dom());
    assert forall|id: u64| #[trigger]
        after.delegations.contains_key(id) implies before.delegations.contains_key(id)
        && after.delegation_fits(id) by {
        if sbt_ids.contains(id) {
            let i = sbt_ids.index_of(id);
            lemma_batch_moved(env, sbt_ids, transfers, count, i);
        } else {
            lemma_batch_others(env, sbt_ids, transfers, count, id);
            assert(before.delegation_fits(id));
        }
    }
    assert(after.delegations.dom().subset_of(after.owners.dom())) by {
        assert forall|id: u64| after.delegations.dom().contains(
            id,
        ) implies after.owners.dom().contains(id) by {
            assert(after.delegations.contains_key(id));
            assert(before.delegations.dom().contains(id));
        }
    }
}

/// A history stays in order with an entry that is no revocation, or that revokes the last
/// delegation before it expires.
proof fn lemma_history_grows(history: Seq<HistoryView>, entry: HistoryView)
    requires
        revocations_follow(history),
        entry.action == DelegationAction::Revoked ==> history.len() > 0 && history.last().action
            == DelegationAction::Delegated && history.last().delegate == entry.delegate
            && history.last().expires_at == entry.expires_at && entry.at < entry.expires_at,
    ensures
        revocations_follow(history.push(entry)),
{
    let longer = history.push(entry);
    assert forall|k: int| 0 <= k < longer.len() implies #[trigger] follows_delegation(longer, k) by {
        if k < history.len() {
            assert(follows_delegation(history, k));
        }
    }
}

proof fn lemma_delegate_keeps_valid(
    env: EnvView,
    sbt_id: u64,
    delegate: Seq<char>,
    duration_seconds: u64,
)
    requires
        env.state.valid(),
        env.delegate_refusal(sbt_id, delegate, duration_seconds) is None,
    ensures
        env.delegated(sbt_id, delegate, duration_seconds).state.valid(),
{
    let before = env.state;
    let after = env.delegated(sbt_id, delegate, duration_seconds).state;
    lemma_history_grows(before.history(sbt_id), after.histories[sbt_id].last());
    assert(after.histories[sbt_id] =~= before.history(sbt_id).push(
        after.histories[sbt_id].last(),
    ));
    assert forall|id: u64| #[trigger]
        after.delegations.contains_key(id) implies after.delegation_fits(id) by {
        if id != sbt_id {
            assert(before.delegation_fits(id));
        }
    }
    assert forall|id: u64| #[trigger]
        after.histories.contains_key(id) implies revocations_follow(after.histories[id]) by {
        if id != sbt_id {
            assert(before.histories.contains_key(id));
        }
    }
}

proof fn lemma_revoke_keeps_valid(env: EnvView, sbt_id: u64)
    requires
        env.state.valid(),
        env.revoke_refusal(sbt_id) is None,
    ensures
        env.revoked(sbt_id).state.valid(),
{
    let before = env.state;
    let after = env.revoked(sbt_id).state;
    assert(before.delegations.contains_key(sbt_id));
    assert(before.delegation_fits(sbt_id));
    assert(before.histories.contains_key(sbt_id));
    lemma_history_grows(before.history(sbt_id), after.histories[sbt_id].last());
    assert(after.histories[sbt_id] =~= before.history(sbt_id).push(
        after.histories[sbt_id].last(),
    ));
    assert forall|id: u64| #[trigger]
        after.delegations.contains_key(id) implies after.delegation_fits(id) by {
        assert(before.delegations.contains_key(id));
        assert(before.delegation_fits(id));
    }
    assert forall|id: u64| #[trigger]
        after.histories.contains_key(id) implies revocations_follow(after.histories[id]) by {
        if id != sbt_id {
            assert(before.histories.contains_key(id));
        }
    }
}

proof fn lemma_other_calls_keep_valid(env: EnvView, call: SbtCall)
    requires
        env.state.valid(),
        env.accepts(call),
        call is Initialize || call is Compose || call is Decompose || call is SetSharedMetadata,
    ensures
        env.after_call(call).state.valid(),
{
    let before = env.state;
    let after = env.after_call(call).state;
    assert forall|id: u64| #[trigger]
        after.delegations.contains_key(id) implies after.delegation_fits(id) by {
        assert(before.delegation_fits(id));
    }
}

/// Calls keep the parts of the state together: a token has an owner, metadata and a time at which
/// it was minted exactly if its id was given out, only such tokens have anything else, no token
/// is delegated to its owner, and the history tells of each delegation and what ended it.
pub proof fn law_calls_keep_the_state_valid(env: EnvView, call: SbtCall)
    requires
        env.state.valid(),
        env.accepts(call),
    ensures
        env.after_call(call).state.valid(),
{
    match call {
        SbtCall::Mint { to, metadata } => lemma_mint_keeps_valid(env, to, metadata),
        SbtCall::BatchTransfer { sbt_ids, transfers } => lemma_batch_keeps_valid(
            env,
            sbt_ids,
            transfers,
        ),
        SbtCall::Delegate { sbt_id, delegate, duration_seconds } => lemma_delegate_keeps_valid(
            env,
            sbt_id,
            delegate,
            duration_seconds,
        ),
        SbtCall::Revoke { sbt_id } => lemma_revoke_keeps_valid(env, sbt_id),
        _ => lemma_other_calls_keep_valid(env, call),
    }
}

/// Whether a sequence goes on where another ends.
pub open spec fn goes_on<T>(longer: Seq<T>, shorter: Seq<T>) -> bool {
    shorter.len() <= longer.len() && longer.take(shorter.len() as int) == shorter
}

/// Calls only ever add to the history of a token and to the events, and leave the time and the
/// authorizations alone.
pub proof fn law_histories_only_grow(env: EnvView, call: SbtCall, sbt_id: u64)
    requires
        env.accepts(call),
    ensures
        goes_on(env.after_call(call).state.history(sbt_id), env.state.history(sbt_id)),
        goes_on(env.after_call(call).events, env.events),
        env.after_call(call).timestamp == env.timestamp,
        env.after_call(call).authorized == env.authorized,
{
    let after = env.after_call(call);
    if let SbtCall::BatchTransfer { sbt_ids, transfers } = call {
        lemma_batch_rest(env, sbt_ids, transfers, sbt_ids.len() as int);
    }
    assert(after.state.history(sbt_id).take(env.state.history(sbt_id).len() as int)
        =~= env.state.history(sbt_id));
    assert(after.events.take(env.events.len() as int) =~= env.events);
}

/// A token that was minted stays, with its metadata and the time at which it was minted.
pub proof fn law_tokens_stay(env: EnvView, call: SbtCall, sbt_id: u64)
    requires
        env.state.valid(),
        env.accepts(call),
        env.state.owners.contains_key(sbt_id),
    ensures
        env.after_call(call).state.owners.contains_key(sbt_id),
        env.after_call(call).state.metadata.contains_pair(sbt_id, env.state.metadata[sbt_id]),
        env.after_call(call).state.minted_at.contains_pair(sbt_id, env.state.minted_at[sbt_id]),
{
    assert(env.state.metadata.dom().contains(sbt_id));
    assert(env.state.minted_at.dom().contains(sbt_id));
    if let SbtCall::BatchTransfer { sbt_ids, transfers } = call {
        let count = sbt_ids.len() as int;
        lemma_batch_rest(env, sbt_ids, transfers, count);
        if sbt_ids.contains(sbt_id) {
            lemma_batch_moved(env, sbt_ids, transfers, count, sbt_ids.index_of(sbt_id));
        } else {
            lemma_batch_others(env, sbt_ids, transfers, count, sbt_id);
        }
    }
}

/// A token gets an id that no token had before, and is minted to the owner asked for.
pub proof fn law_minted_token_is_new(env: EnvView, to: Seq<char>, metadata: Seq<char>)
    requires
        env.state.valid(),
        env.state.next_id() < u64::MAX,
    ensures
        ({
            let sbt_id = env.state.next_id();
            let after = env.minted(to, metadata).state;
            &&& !env.state.owners.contains_key(sbt_id)
            &&& after.owners.contains_pair(sbt_id, to)
            &&& after.metadata.contains_pair(sbt_id, metadata)
            &&& after.minted_at.contains_pair(sbt_id, env.timestamp)
            &&& after.history(sbt_id) == Seq::<HistoryView>::empty()
            &&& after.next_id() == sbt_id + 1
        }),
{
    let sbt_id = env.state.next_id();
    assert(!env.state.owners.contains_key(sbt_id));
    assert(!env.state.histories.dom().contains(sbt_id));
}

/// An address that is counted in a list is in it.
proof fn lemma_counted_is_there(addresses: Seq<Seq<char>>, address: Seq<char>)
    requires
        times(addresses, address) > 0,
    ensures
        addresses.contains(address),
{
    broadcast use vstd::seq_lib::group_filter_ensures;

    let found = addresses.filter(is_address(address));
    assert(is_address(address)(found[0]));
    assert(found.contains(found[0]));
    addresses.lemma_filter_contains_rev(is_address(address), found[0]);
}

/// A batch is made only if each owner has authorized it as often as it moves tokens of theirs.
pub proof fn law_each_transfer_is_authorized(
    env: EnvView,
    sbt_ids: Seq<u64>,
    transfers: Seq<TransferView>,
    owner: Seq<char>,
)
    requires
        env.batch_refusal(sbt_ids, transfers) is None,
    ensures
        times(env.owners_asked(sbt_ids, sbt_ids.len() as int), owner) <= times(
            env.authorized,
            owner,
        ),
{
    lemma_legs_accepted(env, sbt_ids, transfers, 0);
    lemma_asked_is_given(env, sbt_ids, transfers, sbt_ids.len() as int, owner);
}

proof fn lemma_asked_is_given(
    env: EnvView,
    sbt_ids: Seq<u64>,
    transfers: Seq<TransferView>,
    count: int,
    owner: Seq<char>,
)
    requires
        0 <= count <= sbt_ids.len(),
        forall|i: int|
            0 <= i < sbt_ids.len() ==> (#[trigger] env.leg_refusal(sbt_ids, transfers, i)) is None,
    ensures
        times(env.owners_asked(sbt_ids, count), owner) <= times(env.authorized, owner),
    decreases count,
{
    reveal(Seq::filter);
    let asked = env.owners_asked(sbt_ids, count);
    if count > 0 {
        lemma_asked_is_given(env, sbt_ids, transfers, count - 1, owner);
        assert(asked.drop_last() =~= env.owners_asked(sbt_ids, count - 1));
        assert(env.leg_refusal(sbt_ids, transfers, count - 1) is None);
        assert(asked.last() == env.state.owners[sbt_ids[count - 1]]);
    }
}

/// The owner of a token changes only in a batch that the old owner has authorized.
pub proof fn law_only_the_owner_gives_a_token_away(env: EnvView, call: SbtCall, sbt_id: u64)
    requires
        env.state.valid(),
        env.accepts(call),
        env.state.owners.contains_key(sbt_id),
        env.after_call(call).state.owners[sbt_id] != env.state.owners[sbt_id],
    ensures
        call matches SbtCall::BatchTransfer { sbt_ids, transfers } && sbt_ids.contains(sbt_id),
        env.authorizes(env.state.owners[sbt_id]),
{
    match call {
        SbtCall::BatchTransfer { sbt_ids, transfers } => {
            lemma_legs_accepted(env, sbt_ids, transfers, 0);
            if !sbt_ids.contains(sbt_id) {
                lemma_batch_others(env, sbt_ids, transfers, sbt_ids.len() as int, sbt_id);
            }
            let i = sbt_ids.index_of(sbt_id);
            assert(env.leg_refusal(sbt_ids, transfers, i) is None);
            lemma_counted_is_there(env.authorized, env.state.owners[sbt_id]);
        },
        _ => {},
    }
}

/// Once there is an administrator, they stay, and initializing again is refused.
pub proof fn law_the_administrator_stays(env: EnvView, call: SbtCall, admin: Seq<char>)
    requires
        env.accepts(call),
        env.state.admin is Some,
    ensures
        env.after_call(call).state.admin == env.state.admin,
        env.after_call(call).initialize_refusal(admin) == Some(
            FaultView::Contract(SbtError::AlreadyInitialized),
        ),
{
    if let SbtCall::BatchTransfer { sbt_ids, transfers } = call {
        lemma_batch_rest(env, sbt_ids, transfers, sbt_ids.len() as int);
    }
}

/// Before there is an administrator no token can be minted.
pub proof fn law_nothing_is_minted_before_initialization(env: EnvView, metadata: Seq<char>)
    requires
        env.state.admin is None,
    ensures
        env.mint_refusal(metadata) == Some(FaultView::Contract(SbtError::NotInitialized)),
{
}

/// A delegation holds until it expires, and no longer. The owner stays the same.
pub proof fn law_delegation_holds_until_it_expires(
    env: EnvView,
    sbt_id: u64,
    delegate: Seq<char>,
    duration_seconds: u64,
    later: u64,
)
    ensures
        ({
            let after = EnvView {
                timestamp: later,
                ..env.delegated(sbt_id, delegate, duration_seconds)
            };
            &&& after.active_delegate(sbt_id) == if later < expiry(
                env.timestamp,
                duration_seconds,
            ) {
                Some(delegate)
            } else {
                None
            }
            &&& after.state.owners == env.state.owners
        }),
{
}

/// After a delegation was revoked there is none at any time, until a new one is made, and to
/// revoke it again is refused.
pub proof fn law_revoked_delegation_is_over(env: EnvView, sbt_id: u64, later: u64)
    requires
        env.revoke_refusal(sbt_id) is None,
    ensures
        (EnvView { timestamp: later, ..env.revoked(sbt_id) }).active_delegate(sbt_id) is None,
        env.revoked(sbt_id).revoke_refusal(sbt_id) == Some(
            FaultView::Contract(SbtError::NoActiveDelegation),
        ),
{
}

/// A delegation that has expired cannot be revoked.
pub proof fn law_expired_delegation_cannot_be_revoked(env: EnvView, sbt_id: u64)
    requires
        env.owner_refusal(sbt_id) is None,
        env.state.delegations.contains_key(sbt_id),
        env.state.delegations[sbt_id].expires_at <= env.timestamp,
    ensures
        env.active_delegate(sbt_id) is None,
        env.revoke_refusal(sbt_id) == Some(FaultView::Contract(SbtError::NoActiveDelegation)),
{
}

/// A token that was composed cannot be composed again, and undoing the composition leaves the
/// compositions as they were, so that it can.
pub proof fn law_decomposing_undoes_composing(
    env: EnvView,
    sbt_id: u64,
    nft_address: Seq<char>,
    nft_id: u64,
    nft_owner: Seq<char>,
)
    requires
        env.compose_refusal(sbt_id, nft_owner) is None,
    ensures
        ({
            let composed = env.composed(sbt_id, nft_address, nft_id);
            &&& composed.state.compositions.contains_pair(
                sbt_id,
                CompositionView { nft_address, nft_id, composed_at: env.timestamp },
            )
            &&& composed.compose_refusal(sbt_id, nft_owner) == Some(
                FaultView::Contract(SbtError::AlreadyComposed),
            )
            &&& composed.decompose_refusal(sbt_id) is None
            &&& composed.decomposed(sbt_id).state == env.state
            &&& composed.decomposed(sbt_id).compose_refusal(sbt_id, nft_owner) is None
        }),
{
    let composed = env.composed(sbt_id, nft_address, nft_id);
    assert(composed.decomposed(sbt_id).state =~= env.state);
}

} // verus!
