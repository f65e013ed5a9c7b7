//! What each call of the contract for soulbound tokens is refused for and what it leaves behind,
//! told by what is stored, authorized and published before and after it.

use crate::sbt::{
    addresses_view, history_view, transfer_views, Address, CompositionRecord, CompositionView,
    DataKey, DelegationAction, DelegationHistoryEntry, DelegationView, Env, EnvView, EventView,
    HistoryView, InstanceStorage, SbtError, SbtEvent, SbtFault, StateView, TransferCondition,
    TransferInstruction, TransferView,
};
use crate::sbt_contract::{times, NftInterface, SbtContract};
use crate::sbt_laws::{
    is_last_transfer, law_accepted_batch_has_no_fault, law_batch_moves_its_tokens,
    law_calls_keep_the_state_valid, law_each_transfer_is_authorized, law_tokens_stay,
    transfer_events, SbtCall,
};
use vstd::prelude::*;

verus! {

// ---- how old a token must be ----

/// Whether a call takes what one call finds to what the next finds. Between them the time may pass
/// and the authorizations may change.
pub open spec fn leads_on(envs: Seq<EnvView>, calls: Seq<SbtCall>, i: int) -> bool {
    envs[i].accepts(calls[i]) && envs[i + 1].state == envs[i].after_call(calls[i]).state
}

/// Whether calls are made one after the other, each of them accepted.
pub open spec fn is_sequence(envs: Seq<EnvView>, calls: Seq<SbtCall>) -> bool {
    &&& envs.len() == calls.len() + 1
    &&& envs[0].state.valid()
    &&& forall|i: int| 0 <= i < calls.len() ==> #[trigger] leads_on(envs, calls, i)
}

proof fn lemma_states_stay_valid(envs: Seq<EnvView>, calls: Seq<SbtCall>, n: int)
    requires
        is_sequence(envs, calls),
        0 <= n < envs.len(),
    ensures
        envs[n].state.valid(),
    decreases n,
{
    if n > 0 {
        lemma_states_stay_valid(envs, calls, n - 1);
        assert(leads_on(envs, calls, n - 1));
        law_calls_keep_the_state_valid(envs[n - 1], calls[n - 1]);
    }
}

proof fn lemma_mint_time_stays(envs: Seq<EnvView>, calls: Seq<SbtCall>, place: int, n: int)
    requires
        is_sequence(envs, calls),
        0 <= place < n < envs.len(),
        calls[place] is Mint,
    ensures
        envs[n].state.owners.contains_key(envs[place].state.next_id()),
        envs[n].state.minted_at.contains_pair(
            envs[place].state.next_id(),
            envs[place].timestamp,
        ),
    decreases n,
{
    assert(leads_on(envs, calls, n - 1));
    if place < n - 1 {
        lemma_mint_time_stays(envs, calls, place, n - 1);
        lemma_states_stay_valid(envs, calls, n - 1);
        law_tokens_stay(envs[n - 1], calls[n - 1], envs[place].state.next_id());
    }
}

/// A token is as old as the time since it was minted itself. Whatever else is called between,
/// and whatever other tokens are minted and when, it meets a minimum age of `min_seconds` exactly
/// from that many seconds after its own mint on.
pub proof fn law_age_counts_from_the_own_mint(
    envs: Seq<EnvView>,
    calls: Seq<SbtCall>,
    place: int,
    min_seconds: u64,
)
    requires
        is_sequence(envs, calls),
        0 <= place < calls.len(),
        calls[place] is Mint,
        min_seconds > 0,
    ensures
        envs.last().condition_met(
            envs[place].state.next_id(),
            TransferCondition::MinHoldSeconds(min_seconds),
        ) <==> envs.last().timestamp >= envs[place].timestamp + min_seconds,
{
    lemma_mint_time_stays(envs, calls, place, calls.len() as int);
}

/// The conditions of a transfer, told by what is stored of the token: the first is always met,
/// the second from a number of seconds after the token was minted on, or after time zero where
/// that is not known, and the third unless a delegation of the token ends later than now.
pub proof fn law_conditions_look_at_the_token(env: EnvView, sbt_id: u64, min_seconds: u64, at: u64)
    requires
        env.state.minted_at.contains_key(sbt_id) ==> at == env.state.minted_at[sbt_id],
        !env.state.minted_at.contains_key(sbt_id) ==> at == 0,
    ensures
        env.condition_met(sbt_id, TransferCondition::Always),
        env.condition_met(sbt_id, TransferCondition::MinHoldSeconds(0)),
        min_seconds > 0 ==> (env.condition_met(
            sbt_id,
            TransferCondition::MinHoldSeconds(min_seconds),
        ) <==> env.timestamp >= at + min_seconds),
        env.condition_met(sbt_id, TransferCondition::NoActiveDelegation) <==> !(
        env.state.delegations.contains_key(sbt_id) && env.timestamp
            < env.state.delegations[sbt_id].expires_at),
{
}

/// A batch that is made has waited for each token with a minimum age: at least so many seconds
/// have passed since that token was minted.
pub proof fn law_batch_waits_for_each_token(
    env: &mut Env,
    sbt_ids: Vec<u64>,
    transfers: Vec<TransferInstruction>,
    result: Result<(), SbtFault>,
    place: int,
    min_seconds: u64,
    at: u64,
)
    requires
        call_ensures(
            SbtContract::batch_transfer_sbt_conditional,
            (env, &sbt_ids, &transfers),
            result,
        ),
        result is Ok,
        0 <= place < transfers@.len(),
        transfers@[place].condition == TransferCondition::MinHoldSeconds(min_seconds),
        min_seconds > 0,
        env@.state.minted_at.contains_pair(sbt_ids@[place], at),
    ensures
        old(env)@.timestamp >= at + min_seconds,
{
    let legs = transfer_views(transfers@);
    law_accepted_batch_has_no_fault(env@, sbt_ids@, legs);
    assert(env@.leg_refusal(sbt_ids@, legs, place) is None);
    assert(legs[place].condition == transfers@[place].condition);
}

// ---- the administrator, and minting ----

/// Initializing is refused where there is an administrator, and else unless the new one has
/// authorized it. It sets the administrator, lets tokens be counted from zero, and changes nothing
/// else; refused, it changes nothing at all.
pub proof fn law_initialize(env: &mut Env, admin: Address, result: Result<(), SbtFault>)
    requires
        call_ensures(SbtContract::initialize, (env, admin), result),
    ensures
        old(env)@.state.admin is Some ==> result == Err::<(), SbtFault>(
            SbtFault::Contract(SbtError::AlreadyInitialized),
        ),
        old(env)@.state.admin is None && !old(env)@.authorized.contains(admin@) ==> (
        result matches Err(SbtFault::Unauthorized(address)) && address@ == admin@),
        old(env)@.state.admin is None && old(env)@.authorized.contains(admin@) ==> result is Ok,
        result is Ok ==> final(env)@ == (EnvView {
            state: StateView {
                admin: Some(admin@),
                next_token_id: Some(0u64),
                ..old(env)@.state
            },
            ..old(env)@
        }),
        result is Err ==> final(env)@ == old(env)@,
{
}

/// Minting is refused before there is an administrator, then unless they have authorized it, and
/// then for empty metadata.
pub proof fn law_mint_is_refused(
    env: &mut Env,
    to: Address,
    metadata: String,
    result: Result<u64, SbtFault>,
)
    requires
        call_ensures(SbtContract::mint, (env, to, metadata), result),
    ensures
        old(env)@.state.admin is None ==> result == Err::<u64, SbtFault>(
            SbtFault::Contract(SbtError::NotInitialized),
        ),
        old(env)@.state.admin matches Some(admin) ==> {
            &&& !old(env)@.authorized.contains(admin) ==> (result matches Err(
                SbtFault::Unauthorized(address),
            ) && address@ == admin)
            &&& old(env)@.authorized.contains(admin) && metadata@.len() == 0 ==> result == Err::<
                u64,
                SbtFault,
            >(SbtFault::Contract(SbtError::EmptyMetadata))
            &&& old(env)@.authorized.contains(admin) && metadata@.len() > 0 ==> result is Ok
        },
        result is Err ==> final(env)@ == old(env)@,
{
}

/// A token that is minted gets the next number. Its owner, its metadata and the time are noted
/// under that number, the number after it is the next, the mint is published, and nothing else
/// changes.
pub proof fn law_mint_adds_one_token(
    env: &mut Env,
    to: Address,
    metadata: String,
    result: Result<u64, SbtFault>,
)
    requires
        call_ensures(SbtContract::mint, (env, to, metadata), result),
        result is Ok,
        env@.state.next_token_id matches Some(next) ==> next < u64::MAX,
    ensures
        old(env)@.state.next_token_id matches Some(next) ==> result->Ok_0 == next,
        old(env)@.state.next_token_id is None ==> result->Ok_0 == 0,
        final(env)@ == (EnvView {
            state: StateView {
                next_token_id: Some((result->Ok_0 + 1) as u64),
                owners: old(env)@.state.owners.insert(result->Ok_0, to@),
                metadata: old(env)@.state.metadata.insert(result->Ok_0, metadata@),
                minted_at: old(env)@.state.minted_at.insert(result->Ok_0, old(env)@.timestamp),
                ..old(env)@.state
            },
            events: old(env)@.events.push(
                EventView::Minted { sbt_id: result->Ok_0, to: to@ },
            ),
            ..old(env)@
        }),
{
}

/// What is asked of a token is what is stored under its number: the owner and the metadata, or
/// that there is no such token.
pub proof fn law_token_is_read_as_stored(
    env: Env,
    sbt_id: u64,
    owner: Result<Address, SbtError>,
    metadata: Result<String, SbtError>,
)
    requires
        call_ensures(SbtContract::owner_of, (&env, sbt_id), owner),
        call_ensures(SbtContract::get_metadata, (&env, sbt_id), metadata),
    ensures
        env@.state.owners.contains_key(sbt_id) ==> owner is Ok && owner->Ok_0@
            == env@.state.owners[sbt_id],
        !env@.state.owners.contains_key(sbt_id) ==> owner == Err::<Address, SbtError>(
            SbtError::TokenNotFound,
        ),
        env@.state.metadata.contains_key(sbt_id) ==> metadata is Ok && metadata->Ok_0@
            == env@.state.metadata[sbt_id],
        !env@.state.metadata.contains_key(sbt_id) ==> metadata == Err::<String, SbtError>(
            SbtError::TokenNotFound,
        ),
{
}

// ---- composition ----

/// Composing is refused for a token that is not there, then unless its owner has authorized it,
/// then if the token is composed already, and then unless its owner owns the other token.
pub proof fn law_compose_is_refused(
    env: &mut Env,
    sbt_id: u64,
    nft_address: Address,
    nft_id: u64,
    nft_owner: Address,
    result: Result<(), SbtFault>,
)
    requires
        call_ensures(
            SbtContract::compose_sbt_with_owned,
            (env, sbt_id, nft_address, nft_id, &nft_owner),
            result,
        ),
    ensures
        ({
            let state = old(env)@.state;
            let owner = state.owners[sbt_id];
            let refused = |e: SbtError| Err::<(), SbtFault>(SbtFault::Contract(e));
            if !state.owners.contains_key(sbt_id) {
                result == refused(SbtError::TokenNotFound)
            } else if !old(env)@.authorized.contains(owner) {
                result matches Err(SbtFault::Unauthorized(address)) && address@ == owner
            } else if state.compositions.contains_key(sbt_id) {
                result == refused(SbtError::AlreadyComposed)
            } else if nft_owner@ != owner {
                result == refused(SbtError::NftOwnershipMismatch)
            } else {
                result is Ok
            }
        }),
        result is Err ==> final(env)@ == old(env)@,
{
}

/// Composing notes the other token and the time under the number of the token, publishes it, and
/// changes nothing else.
pub proof fn law_compose_notes_the_other_token(
    env: &mut Env,
    sbt_id: u64,
    nft_address: Address,
    nft_id: u64,
    nft_owner: Address,
    result: Result<(), SbtFault>,
)
    requires
        call_ensures(
            SbtContract::compose_sbt_with_owned,
            (env, sbt_id, nft_address, nft_id, &nft_owner),
            result,
        ),
        result is Ok,
    ensures
        final(env)@ == (EnvView {
            state: StateView {
                compositions: old(env)@.state.compositions.insert(
                    sbt_id,
                    CompositionView {
                        nft_address: nft_address@,
                        nft_id,
                        composed_at: old(env)@.timestamp,
                    },
                ),
                ..old(env)@.state
            },
            events: old(env)@.events.push(
                EventView::Composed { sbt_id, nft_address: nft_address@, nft_id },
            ),
            ..old(env)@
        }),
{
}

/// Undoing a composition is refused for a token that is not there, then unless its owner has
/// authorized it, and then if the token is not composed. It forgets the composition of that token,
/// publishes it, and changes nothing else.
pub proof fn law_decompose(env: &mut Env, sbt_id: u64, result: Result<(), SbtFault>)
    requires
        call_ensures(SbtContract::decompose_sbt, (env, sbt_id), result),
    ensures
        ({
            let state = old(env)@.state;
            let owner = state.owners[sbt_id];
            if !state.owners.contains_key(sbt_id) {
                result == Err::<(), SbtFault>(SbtFault::Contract(SbtError::TokenNotFound))
            } else if !old(env)@.authorized.contains(owner) {
                result matches Err(SbtFault::Unauthorized(address)) && address@ == owner
            } else if !state.compositions.contains_key(sbt_id) {
                result == Err::<(), SbtFault>(SbtFault::Contract(SbtError::NotComposed))
            } else {
                result is Ok
            }
        }),
        result is Ok ==> final(env)@ == (EnvView {
            state: StateView {
                compositions: old(env)@.state.compositions.remove(sbt_id),
                ..old(env)@.state
            },
            events: old(env)@.events.push(EventView::Decomposed { sbt_id }),
            ..old(env)@
        }),
        result is Err ==> final(env)@ == old(env)@,
{
}

/// Setting the shared metadata is refused for a token that is not there and unless its owner has
/// authorized it. It notes them under the number of that token, publishes it, and changes nothing
/// else.
pub proof fn law_set_shared_metadata(
    env: &mut Env,
    sbt_id: u64,
    metadata: String,
    result: Result<(), SbtFault>,
)
    requires
        call_ensures(SbtContract::set_shared_metadata, (env, sbt_id, metadata), result),
    ensures
        ({
            let state = old(env)@.state;
            let owner = state.owners[sbt_id];
            if !state.owners.contains_key(sbt_id) {
                result == Err::<(), SbtFault>(SbtFault::Contract(SbtError::TokenNotFound))
            } else if !old(env)@.authorized.contains(owner) {
                result matches Err(SbtFault::Unauthorized(address)) && address@ == owner
            } else {
                result is Ok
            }
        }),
        result is Ok ==> final(env)@ == (EnvView {
            state: StateView {
                shared_metadata: old(env)@.state.shared_metadata.insert(sbt_id, metadata@),
                ..old(env)@.state
            },
            events: old(env)@.events.push(EventView::SharedMetadataSet { sbt_id }),
            ..old(env)@
        }),
        result is Err ==> final(env)@ == old(env)@,
{
}

/// What is asked of the composition of a token, and of the metadata it shares, is what is stored
/// under its number.
pub proof fn law_composition_is_read_as_stored(
    env: Env,
    sbt_id: u64,
    composition: Option<CompositionRecord>,
    metadata: Option<String>,
)
    requires
        call_ensures(SbtContract::get_composition, (&env, sbt_id), composition),
        call_ensures(SbtContract::get_shared_metadata, (&env, sbt_id), metadata),
    ensures
        composition is Some <==> env@.state.compositions.contains_key(sbt_id),
        composition matches Some(record) ==> record.nft_address@
            == env@.state.compositions[sbt_id].nft_address && record.nft_id
            == env@.state.compositions[sbt_id].nft_id && record.composed_at
            == env@.state.compositions[sbt_id].composed_at,
        metadata is Some <==> env@.state.shared_metadata.contains_key(sbt_id),
        metadata matches Some(text) ==> text@ == env@.state.shared_metadata[sbt_id],
{
}

// ---- delegation ----

/// Delegating is refused for a token that is not there, then unless its owner has authorized it,
/// then for no time at all, and then to the owner themselves.
pub proof fn law_delegate_is_refused(
    env: &mut Env,
    sbt_id: u64,
    delegate: Address,
    duration_seconds: u64,
    result: Result<(), SbtFault>,
)
    requires
        call_ensures(
            SbtContract::delegate_sbt_temporarily,
            (env, sbt_id, delegate, duration_seconds),
            result,
        ),
    ensures
        ({
            let state = old(env)@.state;
            let owner = state.owners[sbt_id];
            if !state.owners.contains_key(sbt_id) {
                result == Err::<(), SbtFault>(SbtFault::Contract(SbtError::TokenNotFound))
            } else if !old(env)@.authorized.contains(owner) {
                result matches Err(SbtFault::Unauthorized(address)) && address@ == owner
            } else if duration_seconds == 0 {
                result == Err::<(), SbtFault>(SbtFault::Contract(SbtError::InvalidDuration))
            } else if delegate@ == owner {
                result == Err::<(), SbtFault>(SbtFault::Contract(SbtError::SelfDelegation))
            } else {
                result is Ok
            }
        }),
        result is Err ==> final(env)@ == old(env)@,
{
}

/// A delegation lasts from now for as many seconds as were asked for, or to the last second that
/// can be told. It takes the place of an earlier one, is the next entry in the history of the
/// token, and is published; nothing else changes.
pub proof fn law_delegate_notes_the_delegation(
    env: &mut Env,
    sbt_id: u64,
    delegate: Address,
    duration_seconds: u64,
    result: Result<(), SbtFault>,
)
    requires
        call_ensures(
            SbtContract::delegate_sbt_temporarily,
            (env, sbt_id, delegate, duration_seconds),
            result,
        ),
        result is Ok,
    ensures
        ({
            let now = old(env)@.timestamp;
            let ends = final(env)@.state.delegations[sbt_id].expires_at;
            let earlier = if old(env)@.state.histories.contains_key(sbt_id) {
                old(env)@.state.histories[sbt_id]
            } else {
                Seq::<HistoryView>::empty()
            };
            &&& now + duration_seconds <= u64::MAX ==> ends == now + duration_seconds
            &&& now + duration_seconds > u64::MAX ==> ends == u64::MAX
            &&& final(env)@ == (EnvView {
                state: StateView {
                    delegations: old(env)@.state.delegations.insert(
                        sbt_id,
                        DelegationView { delegate: delegate@, delegated_at: now, expires_at: ends },
                    ),
                    histories: old(env)@.state.histories.insert(
                        sbt_id,
                        earlier.push(
                            HistoryView {
                                delegate: delegate@,
                                action: DelegationAction::Delegated,
                                at: now,
                                expires_at: ends,
                            },
                        ),
                    ),
                    ..old(env)@.state
                },
                events: old(env)@.events.push(
                    EventView::Delegated { sbt_id, delegate: delegate@, expires_at: ends },
                ),
                ..old(env)@
            })
        }),
{
}

/// Revoking is refused for a token that is not there, then unless its owner has authorized it, and
/// then where no delegation of the token ends later than now. It forgets the delegation, adds to
/// the history of the token to whom it was and until when, and is published; nothing else changes.
pub proof fn law_revoke(env: &mut Env, sbt_id: u64, result: Result<(), SbtFault>)
    requires
        call_ensures(SbtContract::revoke_sbt_delegation, (env, sbt_id), result),
    ensures
        ({
            let state = old(env)@.state;
            let owner = state.owners[sbt_id];
            if !state.owners.contains_key(sbt_id) {
                result == Err::<(), SbtFault>(SbtFault::Contract(SbtError::TokenNotFound))
            } else if !old(env)@.authorized.contains(owner) {
                result matches Err(SbtFault::Unauthorized(address)) && address@ == owner
            } else if !(state.delegations.contains_key(sbt_id) && old(env)@.timestamp
                < state.delegations[sbt_id].expires_at) {
                result == Err::<(), SbtFault>(SbtFault::Contract(SbtError::NoActiveDelegation))
            } else {
                result is Ok
            }
        }),
        result is Err ==> final(env)@ == old(env)@,
        result is Ok ==> {
            let record = old(env)@.state.delegations[sbt_id];
            let earlier = if old(env)@.state.histories.contains_key(sbt_id) {
                old(env)@.state.histories[sbt_id]
            } else {
                Seq::<HistoryView>::empty()
            };
            final(env)@ == (EnvView {
                state: StateView {
                    delegations: old(env)@.state.delegations.remove(sbt_id),
                    histories: old(env)@.state.histories.insert(
                        sbt_id,
                        earlier.push(
                            HistoryView {
                                delegate: record.delegate,
                                action: DelegationAction::Revoked,
                                at: old(env)@.timestamp,
                                expires_at: record.expires_at,
                            },
                        ),
                    ),
                    ..old(env)@.state
                },
                events: old(env)@.events.push(
                    EventView::DelegationRevoked { sbt_id, delegate: record.delegate },
                ),
                ..old(env)@
            })
        },
{
}

/// What is asked of the delegation of a token is what is stored under its number: to whom it is
/// delegated, if that ends later than now, and the whole history, entry by entry.
pub proof fn law_delegation_is_read_as_stored(
    env: Env,
    sbt_id: u64,
    delegate: Option<Address>,
    history: Vec<DelegationHistoryEntry>,
)
    requires
        call_ensures(SbtContract::get_active_delegate, (&env, sbt_id), delegate),
        call_ensures(SbtContract::get_delegation_history, (&env, sbt_id), history),
    ensures
        delegate is Some <==> env@.state.delegations.contains_key(sbt_id) && env@.timestamp
            < env@.state.delegations[sbt_id].expires_at,
        delegate matches Some(address) ==> address@ == env@.state.delegations[sbt_id].delegate,
        !env@.state.histories.contains_key(sbt_id) ==> history@.len() == 0,
        env@.state.histories.contains_key(sbt_id) ==> history@.len()
            == env@.state.histories[sbt_id].len() && forall|i: int|
            0 <= i < history@.len() ==> (#[trigger] history@[i])@ == env@.state.histories[sbt_id][i],
{
    let views = history_view(history@);
    assert(views.len() == history@.len());
    assert forall|i: int| 0 <= i < history@.len() implies (#[trigger] history@[i])@ == views[i] by {}
}

// ---- transfer in batches ----

/// The owners of the tokens that a batch moves, one for each transfer.
pub open spec fn owners_of_legs(env: EnvView, sbt_ids: Seq<u64>) -> Seq<Seq<char>> {
    sbt_ids.map_values(|sbt_id: u64| env.state.owners[sbt_id])
}

proof fn lemma_times_is_count(addresses: Seq<Seq<char>>, address: Seq<char>)
    ensures
        times(addresses, address) == addresses.to_multiset().count(address),
    decreases addresses.len(),
{
    broadcast use vstd::seq_lib::group_to_multiset_ensures;

    reveal(Seq::filter);
    if addresses.len() > 0 {
        let rest = addresses.drop_last();
        lemma_times_is_count(rest, address);
        assert(addresses =~= rest.push(addresses.last()));
        assert(addresses.to_multiset() =~= rest.to_multiset().insert(addresses.last()));
    }
}

proof fn lemma_asked_is_part(env: EnvView, sbt_ids: Seq<u64>, count: int, owner: Seq<char>)
    requires
        0 <= count <= sbt_ids.len(),
    ensures
        times(env.owners_asked(sbt_ids, count), owner) <= times(
            owners_of_legs(env, sbt_ids),
            owner,
        ),
        env.owners_asked(sbt_ids, count) == owners_of_legs(env, sbt_ids).take(count),
        count < sbt_ids.len() && env.state.owners[sbt_ids[count]] == owner ==> times(
            env.owners_asked(sbt_ids, count),
            owner,
        ) < times(owners_of_legs(env, sbt_ids), owner),
    decreases sbt_ids.len() - count,
{
    reveal(Seq::filter);
    let asked = env.owners_asked(sbt_ids, count);
    assert(asked =~= owners_of_legs(env, sbt_ids).take(count));
    if count < sbt_ids.len() {
        lemma_asked_is_part(env, sbt_ids, count + 1, owner);
        let more = env.owners_asked(sbt_ids, count + 1);
        assert(more.drop_last() =~= asked);
        assert(more.last() == env.state.owners[sbt_ids[count]]);
    } else {
        assert(asked =~= owners_of_legs(env, sbt_ids));
    }
}

/// A batch is made exactly if it has as many transfers as tokens and at least one, all its tokens
/// are there, the condition of each transfer is met, and each owner has authorized the batch at
/// least as often as it moves a token of theirs. Otherwise nothing changes.
pub proof fn law_batch_is_made(
    env: &mut Env,
    sbt_ids: Vec<u64>,
    transfers: Vec<TransferInstruction>,
    result: Result<(), SbtFault>,
)
    requires
        call_ensures(
            SbtContract::batch_transfer_sbt_conditional,
            (env, &sbt_ids, &transfers),
            result,
        ),
    ensures
        result is Ok <==> {
            &&& 0 < sbt_ids@.len() == transfers@.len()
            &&& forall|i: int|
                0 <= i < sbt_ids@.len() ==> old(env)@.state.owners.contains_key(
                    #[trigger] sbt_ids@[i],
                )
            &&& forall|i: int|
                0 <= i < sbt_ids@.len() ==> old(env)@.condition_met(
                    #[trigger] sbt_ids@[i],
                    transfers@[i].condition,
                )
            &&& forall|owner: Seq<char>| #[trigger]
                owners_of_legs(old(env)@, sbt_ids@).to_multiset().count(owner) <= old(
                    env,
                )@.authorized.to_multiset().count(owner)
        },
        sbt_ids@.len() != transfers@.len() ==> result == Err::<(), SbtFault>(
            SbtFault::Contract(SbtError::MismatchedBatchLengths),
        ),
        sbt_ids@.len() == transfers@.len() && sbt_ids@.len() == 0 ==> result == Err::<(), SbtFault>(
            SbtFault::Contract(SbtError::EmptyBatch),
        ),
        result is Err ==> final(env)@ == old(env)@,
{
    let before = env@;
    let ids = sbt_ids@;
    let legs = transfer_views(transfers@);
    let owners = owners_of_legs(before, ids);
    assert(legs.len() == transfers@.len());
    assert forall|i: int| 0 <= i < legs.len() implies legs[i].condition
        == (#[trigger] transfers@[i]).condition by {}
    if result is Ok {
        law_accepted_batch_has_no_fault(before, ids, legs);
        assert forall|i: int| 0 <= i < ids.len() implies before.state.owners.contains_key(
            #[trigger] ids[i],
        ) && before.condition_met(ids[i], transfers@[i].condition) by {
            assert(before.leg_refusal(ids, legs, i) is None);
        }
        assert forall|owner: Seq<char>| #[trigger]
            owners.to_multiset().count(owner) <= before.authorized.to_multiset().count(owner) by {
            law_each_transfer_is_authorized(before, ids, legs, owner);
            lemma_asked_is_part(before, ids, ids.len() as int, owner);
            assert(owners.take(ids.len() as int) =~= owners);
            lemma_times_is_count(owners, owner);
            lemma_times_is_count(before.authorized, owner);
        }
    }
    if {
        &&& 0 < ids.len() == transfers@.len()
        &&& forall|i: int|
            0 <= i < ids.len() ==> before.state.owners.contains_key(#[trigger] ids[i])
        &&& forall|i: int|
            0 <= i < ids.len() ==> before.condition_met(
                #[trigger] ids[i],
                transfers@[i].condition,
            )
        &&& forall|owner: Seq<char>| #[trigger]
            owners.to_multiset().count(owner) <= before.authorized.to_multiset().count(owner)
    } {
        assert forall|i: int| 0 <= i < ids.len() implies (#[trigger] before.leg_refusal(
            ids,
            legs,
            i,
        )) is None by {
            let owner = before.state.owners[ids[i]];
            lemma_asked_is_part(before, ids, i, owner);
            lemma_times_is_count(owners, owner);
            lemma_times_is_count(before.authorized, owner);
            assert(owners.to_multiset().count(owner) <= before.authorized.to_multiset().count(
                owner,
            ));
            assert(before.condition_met(ids[i], transfers@[i].condition));
        }
        lemma_no_leg_refused(before, ids, legs, 0);
    }
}

proof fn lemma_no_leg_refused(
    env: EnvView,
    sbt_ids: Seq<u64>,
    transfers: Seq<TransferView>,
    from: int,
)
    requires
        0 <= from <= sbt_ids.len(),
        forall|i: int|
            from <= i < sbt_ids.len() ==> (#[trigger] env.leg_refusal(sbt_ids, transfers, i)) is None,
    ensures
        env.legs_refusal(sbt_ids, transfers, from) is None,
    decreases sbt_ids.len() - from,
{
    if from < sbt_ids.len() {
        assert(env.leg_refusal(sbt_ids, transfers, from) is None);
        lemma_no_leg_refused(env, sbt_ids, transfers, from + 1);
    }
}

/// What is wrong with a transfer of a batch, where nothing is wrong with those before it: that its
/// token is not there, or else that its owner has authorized the batch no more often than the
/// transfers before it took, or else that its condition is not met.
pub open spec fn transfer_fails(
    env: EnvView,
    sbt_ids: Seq<u64>,
    transfers: Seq<TransferInstruction>,
    i: int,
    fault: SbtFault,
) -> bool {
    let owner = env.state.owners[sbt_ids[i]];
    if !env.state.owners.contains_key(sbt_ids[i]) {
        fault == SbtFault::Contract(SbtError::TokenNotFound)
    } else if env.authorized.to_multiset().count(owner) <= owners_of_legs(env, sbt_ids).take(
        i,
    ).to_multiset().count(owner) {
        fault matches SbtFault::Unauthorized(address) && address@ == owner
    } else {
        &&& !env.condition_met(sbt_ids[i], transfers[i].condition)
        &&& fault == SbtFault::Contract(SbtError::TransferConditionNotMet)
    }
}

/// A batch with as many transfers as tokens that is refused is refused for its first transfer with
/// which something is wrong.
pub proof fn law_batch_names_its_first_fault(
    env: &mut Env,
    sbt_ids: Vec<u64>,
    transfers: Vec<TransferInstruction>,
    fault: SbtFault,
)
    requires
        call_ensures(
            SbtContract::batch_transfer_sbt_conditional,
            (env, &sbt_ids, &transfers),
            Err::<(), SbtFault>(fault),
        ),
        0 < sbt_ids@.len() == transfers@.len(),
    ensures
        exists|i: int|
            0 <= i < sbt_ids@.len() && #[trigger] transfer_fails(
                old(env)@,
                sbt_ids@,
                transfers@,
                i,
                fault,
            ) && forall|k: int, other: SbtFault|
                0 <= k < i ==> !#[trigger] transfer_fails(
                    old(env)@,
                    sbt_ids@,
                    transfers@,
                    k,
                    other,
                ),
{
    let before = env@;
    let ids = sbt_ids@;
    let legs = transfer_views(transfers@);
    assert forall|i: int| 0 <= i < legs.len() implies legs[i].condition
        == (#[trigger] transfers@[i]).condition by {}
    let i = lemma_first_refused(before, ids, legs, 0);
    lemma_refusal_is_fault(before, ids, transfers@, i);
    assert(transfer_fails(before, ids, transfers@, i, fault));
    assert forall|k: int, other: SbtFault| 0 <= k < i implies !#[trigger] transfer_fails(
        before,
        ids,
        transfers@,
        k,
        other,
    ) by {
        assert(before.leg_refusal(ids, legs, k) is None);
        lemma_refusal_is_fault(before, ids, transfers@, k);
    }
}

proof fn lemma_refusal_is_fault(
    env: EnvView,
    sbt_ids: Seq<u64>,
    transfers: Seq<TransferInstruction>,
    i: int,
)
    requires
        0 <= i < sbt_ids.len() == transfers.len(),
    ensures
        forall|fault: SbtFault| #[trigger]
            transfer_fails(env, sbt_ids, transfers, i, fault) <==> env.leg_refusal(
                sbt_ids,
                transfer_views(transfers),
                i,
            ) == Some(fault@),
{
    let owner = env.state.owners[sbt_ids[i]];
    lemma_asked_is_part(env, sbt_ids, i, owner);
    lemma_times_is_count(env.authorized, owner);
    lemma_times_is_count(env.owners_asked(sbt_ids, i), owner);
    assert(transfer_views(transfers)[i].condition == transfers[i].condition);
}

proof fn lemma_first_refused(
    env: EnvView,
    sbt_ids: Seq<u64>,
    transfers: Seq<TransferView>,
    from: int,
) -> (i: int)
    requires
        0 <= from <= sbt_ids.len(),
        env.legs_refusal(sbt_ids, transfers, from) is Some,
    ensures
        from <= i < sbt_ids.len(),
        env.legs_refusal(sbt_ids, transfers, from) == env.leg_refusal(sbt_ids, transfers, i),
        forall|k: int|
            from <= k < i ==> (#[trigger] env.leg_refusal(sbt_ids, transfers, k)) is None,
    decreases sbt_ids.len() - from,
{
    if env.leg_refusal(sbt_ids, transfers, from) is Some {
        from
    } else {
        lemma_first_refused(env, sbt_ids, transfers, from + 1)
    }
}

/// After a batch each of its tokens belongs to whom the last transfer of the token names and has no
/// delegation, every other token is as it was, each transfer is published in order, and nothing
/// else has changed.
pub proof fn law_batch_moves_tokens(
    env: &mut Env,
    sbt_ids: Vec<u64>,
    transfers: Vec<TransferInstruction>,
    result: Result<(), SbtFault>,
)
    requires
        call_ensures(
            SbtContract::batch_transfer_sbt_conditional,
            (env, &sbt_ids, &transfers),
            result,
        ),
        result is Ok,
    ensures
        forall|i: int|
            0 <= i < sbt_ids@.len() && (forall|j: int|
                i < j < sbt_ids@.len() ==> sbt_ids@[j] != sbt_ids@[i])
                ==> final(env)@.state.owners.contains_pair(
                #[trigger] sbt_ids@[i],
                transfers@[i].to@,
            ),
        forall|i: int|
            0 <= i < sbt_ids@.len() ==> !final(env)@.state.delegations.contains_key(
                #[trigger] sbt_ids@[i],
            ),
        forall|id: u64|
            !sbt_ids@.contains(id) ==> #[trigger] final(env)@.state.owners.contains_key(id) == old(
                env,
            )@.state.owners.contains_key(id) && final(env)@.state.owners[id] == old(
                env,
            )@.state.owners[id],
        forall|id: u64|
            !sbt_ids@.contains(id) ==> #[trigger] final(env)@.state.delegations.contains_key(id)
                == old(env)@.state.delegations.contains_key(id)
                && final(env)@.state.delegations[id] == old(env)@.state.delegations[id],
        final(env)@.events.len() == old(env)@.events.len() + sbt_ids@.len(),
        final(env)@.events.take(old(env)@.events.len() as int) == old(env)@.events,
        forall|i: int|
            0 <= i < sbt_ids@.len() ==> #[trigger] final(env)@.events[old(env)@.events.len() + i]
                == (EventView::Transferred { sbt_id: sbt_ids@[i], to: transfers@[i].to@ }),
        final(env)@ == (EnvView {
            state: StateView {
                owners: final(env)@.state.owners,
                delegations: final(env)@.state.delegations,
                ..old(env)@.state
            },
            events: final(env)@.events,
            ..old(env)@
        }),
{
    let before = env@;
    let ids = sbt_ids@;
    let legs = transfer_views(transfers@);
    let after = final(env)@;
    law_accepted_batch_has_no_fault(before, ids, legs);
    law_batch_moves_its_tokens(before, ids, legs);
    assert forall|i: int|
        0 <= i < ids.len() && (forall|j: int|
            i < j < ids.len() ==> ids[j] != ids[i]) implies after.state.owners.contains_pair(
        #[trigger] ids[i],
        transfers@[i].to@,
    ) by {
        assert(is_last_transfer(ids, i, ids.len() as int));
        assert(legs[i].to == transfers@[i].to@);
    }
    assert forall|i: int| 0 <= i < ids.len() implies !after.state.delegations.contains_key(
        #[trigger] ids[i],
    ) by {
        lemma_batch_delegations(before, ids, legs, ids.len() as int, ids[i]);
    }
    assert forall|id: u64|
        !ids.contains(id) implies #[trigger] after.state.delegations.contains_key(id)
        == before.state.delegations.contains_key(id) && after.state.delegations[id]
        == before.state.delegations[id] by {
        lemma_batch_delegations(before, ids, legs, ids.len() as int, id);
    }
    let published = transfer_events(ids, legs, ids.len());
    assert(after.events == before.events + published);
    assert(after.events.take(before.events.len() as int) =~= before.events);
    assert forall|i: int| 0 <= i < ids.len() implies #[trigger] after.events[before.events.len()
        + i] == (EventView::Transferred { sbt_id: ids[i], to: transfers@[i].to@ }) by {
        assert(published[i] == after.events[before.events.len() + i]);
        assert(legs[i].to == transfers@[i].to@);
    }
}

proof fn lemma_batch_delegations(
    env: EnvView,
    sbt_ids: Seq<u64>,
    transfers: Seq<TransferView>,
    count: int,
    id: u64,
)
    requires
        0 <= count <= sbt_ids.len(),
    ensures
        ({
            let after = env.batch_transferred(sbt_ids, transfers, count).state;
            if sbt_ids.take(count).contains(id) {
                !after.delegations.contains_key(id)
            } else {
                after.delegations.contains_key(id) == env.state.delegations.contains_key(id)
                    && after.delegations[id] == env.state.delegations[id]
            }
        }),
        sbt_ids.take(sbt_ids.len() as int) == sbt_ids,
    decreases count,
{
    assert(sbt_ids.take(sbt_ids.len() as int) =~= sbt_ids);
    if count > 0 {
        lemma_batch_delegations(env, sbt_ids, transfers, count - 1, id);
        let fewer = sbt_ids.take(count - 1);
        assert(sbt_ids.take(count) =~= fewer.push(sbt_ids[count - 1]));
        if fewer.contains(id) {
            assert(sbt_ids.take(count)[fewer.index_of(id)] == id);
        }
        if sbt_ids.take(count).contains(id) && sbt_ids[count - 1] != id {
            assert(fewer[sbt_ids.take(count).index_of(id)] == id);
        }
        if sbt_ids[count - 1] == id {
            assert(sbt_ids.take(count)[count - 1] == id);
        }
    }
}

// ---- authorizations and stored values ----

/// A call that an address must have authorized is let through exactly if the address is among
/// those who did, and else names it.
pub proof fn law_authorization_is_asked(env: Env, address: Address, result: Result<(), SbtFault>)
    requires
        call_ensures(Env::require_auth, (&env, &address), result),
    ensures
        env@.authorized.contains(address@) ==> result is Ok,
        !env@.authorized.contains(address@) ==> result is Err && result->Err_0 is Unauthorized
            && result->Err_0->Unauthorized_0@ == address@,
{
}

/// A call that an address must have authorized once more is let through exactly if the address did
/// so more often than it was asked before, and else names it.
pub proof fn law_authorization_is_asked_again(
    env: Env,
    address: Address,
    asked: Vec<Address>,
    result: Result<(), SbtFault>,
)
    requires
        call_ensures(Env::require_auth_again, (&env, &address, &asked), result),
    ensures
        ({
            let given = env@.authorized.to_multiset().count(address@);
            let taken = addresses_view(asked@).to_multiset().count(address@);
            &&& given > taken ==> result is Ok
            &&& given <= taken ==> result is Err && result->Err_0 is Unauthorized
                && result->Err_0->Unauthorized_0@ == address@
        }),
{
    lemma_times_is_count(env@.authorized, address@);
    lemma_times_is_count(addresses_view(asked@), address@);
}

/// The storage has something under a key exactly if it holds the value that the key stands for.
pub proof fn law_storage_has_what_it_holds(storage: InstanceStorage, key: DataKey, found: bool)
    requires
        call_ensures(InstanceStorage::has, (&storage, &key), found),
    ensures
        found == match key {
            DataKey::Admin => storage.admin is Some,
            DataKey::NextTokenId => storage.next_token_id is Some,
            DataKey::Owner(id) => storage.owners@.contains_key(id),
            DataKey::Metadata(id) => storage.metadata@.contains_key(id),
            DataKey::MintedAt(id) => storage.minted_at@.contains_key(id),
            DataKey::Composition(id) => storage.compositions@.contains_key(id),
            DataKey::SharedMetadata(id) => storage.shared_metadata@.contains_key(id),
            DataKey::Delegation(id) => storage.delegations@.contains_key(id),
            DataKey::DelegationHistory(id) => storage.histories@.contains_key(id),
        },
{
}

/// Composing with a token of another contract asks that contract only if nothing else refuses it,
/// and is then made exactly if the contract names the owner of the token. Refused, it changes
/// nothing; made, it notes the other token and the time and is published.
pub proof fn law_compose_asks_the_other_contract<N: NftInterface>(
    env: &mut Env,
    sbt_id: u64,
    nft_address: Address,
    nft: N,
    nft_id: u64,
    result: Result<(), SbtFault>,
)
    requires
        call_ensures(
            SbtContract::compose_sbt_with_nft::<N>,
            (env, sbt_id, nft_address, &nft, nft_id),
            result,
        ),
    ensures
        ({
            let state = old(env)@.state;
            let owner = state.owners[sbt_id];
            if !state.owners.contains_key(sbt_id) {
                result == Err::<(), SbtFault>(SbtFault::Contract(SbtError::TokenNotFound))
            } else if !old(env)@.authorized.contains(owner) {
                result matches Err(SbtFault::Unauthorized(address)) && address@ == owner
            } else if state.compositions.contains_key(sbt_id) {
                result == Err::<(), SbtFault>(SbtFault::Contract(SbtError::AlreadyComposed))
            } else {
                exists|nft_owner: Address| #[trigger]
                    call_ensures(N::owner_of, (&nft, nft_id), nft_owner) && (if nft_owner@
                        == owner {
                        result is Ok
                    } else {
                        result == Err::<(), SbtFault>(
                            SbtFault::Contract(SbtError::NftOwnershipMismatch),
                        )
                    })
            }
        }),
        result is Err ==> final(env)@ == old(env)@,
        result is Ok ==> final(env)@.state.compositions == old(env)@.state.compositions.insert(
            sbt_id,
            CompositionView {
                nft_address: nft_address@,
                nft_id,
                composed_at: old(env)@.timestamp,
            },
        ) && final(env)@.state.owners == old(env)@.state.owners && final(env)@.events == old(
            env,
        )@.events.push(EventView::Composed { sbt_id, nft_address: nft_address@, nft_id }),
{
}

/// Each error is reported by its own number, from one to thirteen in this order, and each event is
/// published under its own topic.
pub proof fn law_errors_and_events_have_their_names(
    error: SbtError,
    code: u32,
    event: SbtEvent,
    topic: &'static str,
)
    requires
        call_ensures(SbtError::code, (&error,), code),
        call_ensures(SbtEvent::topic, (&event,), topic),
    ensures
        code == match error {
            SbtError::AlreadyInitialized => 1,
            SbtError::NotInitialized => 2,
            SbtError::TokenNotFound => 3,
            SbtError::EmptyMetadata => 4,
            SbtError::AlreadyComposed => 5,
            SbtError::NotComposed => 6,
            SbtError::NftOwnershipMismatch => 7,
            SbtError::InvalidDuration => 8,
            SbtError::NoActiveDelegation => 9,
            SbtError::MismatchedBatchLengths => 10,
            SbtError::TransferConditionNotMet => 11,
            SbtError::EmptyBatch => 12,
            SbtError::SelfDelegation => 13u32,
        },
        topic@ == match event {
            SbtEvent::Minted { .. } => "sbt_mint"@,
            SbtEvent::Composed { .. } => "sbt_cmpse"@,
            SbtEvent::Decomposed { .. } => "sbt_dcmp"@,
            SbtEvent::SharedMetadataSet { .. } => "sbt_smeta"@,
            SbtEvent::Transferred { .. } => "sbt_btxfr"@,
            SbtEvent::Delegated { .. } => "sbt_dlg"@,
            SbtEvent::DelegationRevoked { .. } => "sbt_rdlg"@,
        },
{
}

} // verus!
