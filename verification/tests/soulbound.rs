use ethos_vault::sbt::{
    Address, DataKey, DelegationAction, Env, InstanceStorage, SbtError, SbtEvent, SbtFault,
    TransferCondition, TransferInstruction,
};
use ethos_vault::sbt_contract::{NftInterface, SbtContract};

fn addr(id: &str) -> Address {
    Address { id: id.to_string() }
}

fn names(env: &mut Env, authorized: &[&str]) {
    env.authorized = authorized.iter().map(|id| addr(id)).collect();
}

/// An environment with an administrator and token 0 of alice, at time 1000.
fn minted() -> Env {
    let mut env = Env::new(1000);
    names(&mut env, &["admin"]);
    SbtContract::initialize(&mut env, addr("admin")).unwrap();
    assert_eq!(SbtContract::mint(&mut env, addr("alice"), "badge".to_string()).unwrap(), 0);
    names(&mut env, &["alice"]);
    env.events.clear();
    env
}

fn error<T>(result: Result<T, SbtFault>) -> Option<SbtError> {
    match result {
        Err(SbtFault::Contract(e)) => Some(e),
        _ => None,
    }
}

fn unauthorized<T>(result: Result<T, SbtFault>) -> Option<String> {
    match result {
        Err(SbtFault::Unauthorized(address)) => Some(address.id),
        _ => None,
    }
}

fn leg(to: &str, condition: TransferCondition) -> TransferInstruction {
    TransferInstruction { to: addr(to), condition }
}

struct Nft {
    owner: &'static str,
}

impl NftInterface for Nft {
    fn owner_of(&self, token_id: u64) -> Address {
        if token_id == 7 {
            addr(self.owner)
        } else {
            addr("nobody")
        }
    }
}

#[test]
fn the_contract_is_initialized_once() {
    let mut env = Env::new(1);
    assert!(!env.storage.has(&DataKey::Admin));
    assert_eq!(
        unauthorized(SbtContract::initialize(&mut env, addr("admin"))),
        Some("admin".to_string())
    );
    assert!(!env.storage.has(&DataKey::Admin));
    names(&mut env, &["admin"]);
    assert!(SbtContract::initialize(&mut env, addr("admin")).is_ok());
    assert!(env.storage.has(&DataKey::Admin));
    assert_eq!(env.storage.next_token_id, Some(0));
    assert_eq!(
        error(SbtContract::initialize(&mut env, addr("admin"))),
        Some(SbtError::AlreadyInitialized)
    );
}

#[test]
fn only_the_administrator_mints() {
    let mut env = Env::new(1);
    assert_eq!(
        error(SbtContract::mint(&mut env, addr("a"), "m".to_string())),
        Some(SbtError::NotInitialized)
    );
    names(&mut env, &["admin"]);
    SbtContract::initialize(&mut env, addr("admin")).unwrap();
    names(&mut env, &["alice"]);
    assert_eq!(
        unauthorized(SbtContract::mint(&mut env, addr("a"), "m".to_string())),
        Some("admin".to_string())
    );
    names(&mut env, &["alice", "admin"]);
    assert_eq!(
        error(SbtContract::mint(&mut env, addr("a"), String::new())),
        Some(SbtError::EmptyMetadata)
    );
    assert_eq!(SbtContract::mint(&mut env, addr("a"), "m".to_string()).unwrap(), 0);
    assert_eq!(SbtContract::mint(&mut env, addr("b"), "n".to_string()).unwrap(), 1);
    assert_eq!(SbtContract::owner_of(&env, 1).unwrap().id, "b");
    assert_eq!(SbtContract::get_metadata(&env, 0).unwrap(), "m");
    assert_eq!(SbtContract::owner_of(&env, 2).unwrap_err(), SbtError::TokenNotFound);
    assert_eq!(SbtContract::get_metadata(&env, 2).unwrap_err(), SbtError::TokenNotFound);
    assert_eq!(env.events.len(), 2);
    assert_eq!(env.events[1].topic(), "sbt_mint");
    assert!(matches!(
        &env.events[1],
        SbtEvent::Minted { sbt_id: 1, to } if to.id == "b"
    ));
}

#[test]
fn a_token_is_composed_and_decomposed() {
    let mut env = minted();
    let nft = Nft { owner: "alice" };
    assert_eq!(error(SbtContract::decompose_sbt(&mut env, 0)), Some(SbtError::NotComposed));
    assert!(SbtContract::compose_sbt_with_nft(&mut env, 0, addr("nft"), &nft, 7).is_ok());
    let record = SbtContract::get_composition(&env, 0).unwrap();
    assert_eq!(record.nft_address.id, "nft");
    assert_eq!(record.nft_id, 7);
    assert_eq!(record.composed_at, 1000);
    assert_eq!(
        error(SbtContract::compose_sbt_with_nft(&mut env, 0, addr("nft"), &nft, 7)),
        Some(SbtError::AlreadyComposed)
    );
    assert!(SbtContract::decompose_sbt(&mut env, 0).is_ok());
    assert!(SbtContract::get_composition(&env, 0).is_none());
    assert!(SbtContract::compose_sbt_with_nft(&mut env, 0, addr("nft"), &nft, 7).is_ok());
    let topics: Vec<&str> = env.events.iter().map(|e| e.topic()).collect();
    assert_eq!(topics, ["sbt_cmpse", "sbt_dcmp", "sbt_cmpse"]);
}

#[test]
fn composing_needs_the_owner_of_both_tokens() {
    let mut env = minted();
    let nft = Nft { owner: "bob" };
    assert_eq!(
        error(SbtContract::compose_sbt_with_nft(&mut env, 0, addr("nft"), &nft, 7)),
        Some(SbtError::NftOwnershipMismatch)
    );
    assert_eq!(
        error(SbtContract::compose_sbt_with_nft(&mut env, 9, addr("nft"), &nft, 7)),
        Some(SbtError::TokenNotFound)
    );
    assert_eq!(
        error(SbtContract::compose_sbt_with_owned(&mut env, 0, addr("n"), 7, &addr("bob"))),
        Some(SbtError::NftOwnershipMismatch)
    );
    names(&mut env, &["bob"]);
    assert_eq!(
        unauthorized(SbtContract::compose_sbt_with_nft(&mut env, 0, addr("nft"), &nft, 7)),
        Some("alice".to_string())
    );
    assert!(SbtContract::get_composition(&env, 0).is_none());
    assert!(env.events.is_empty());
}

#[test]
fn only_the_owner_sets_shared_metadata() {
    let mut env = minted();
    assert!(SbtContract::get_shared_metadata(&env, 0).is_none());
    assert!(SbtContract::set_shared_metadata(&mut env, 0, "x".to_string()).is_ok());
    assert!(SbtContract::set_shared_metadata(&mut env, 0, String::new()).is_ok());
    assert_eq!(SbtContract::get_shared_metadata(&env, 0).as_deref(), Some(""));
    assert_eq!(env.events[0].topic(), "sbt_smeta");
    names(&mut env, &["bob"]);
    assert_eq!(
        unauthorized(SbtContract::set_shared_metadata(&mut env, 0, "y".to_string())),
        Some("alice".to_string())
    );
    assert_eq!(
        error(SbtContract::set_shared_metadata(&mut env, 1, "y".to_string())),
        Some(SbtError::TokenNotFound)
    );
    assert_eq!(SbtContract::get_shared_metadata(&env, 0).as_deref(), Some(""));
}

/// Tokens 0, 1 and 2 of alice, bob and alice.
fn three() -> Env {
    let mut env = minted();
    names(&mut env, &["admin"]);
    SbtContract::mint(&mut env, addr("bob"), "b".to_string()).unwrap();
    SbtContract::mint(&mut env, addr("alice"), "c".to_string()).unwrap();
    names(&mut env, &["alice", "bob", "alice"]);
    env.events.clear();
    env
}

fn owners(env: &Env) -> Vec<String> {
    (0..3).map(|id| SbtContract::owner_of(env, id).unwrap().id).collect()
}

#[test]
fn a_batch_moves_all_its_tokens() {
    let mut env = three();
    let legs =
        vec![leg("carol", TransferCondition::Always), leg("dan", TransferCondition::Always)];
    assert!(SbtContract::batch_transfer_sbt_conditional(&mut env, &vec![0, 1], &legs).is_ok());
    assert_eq!(owners(&env), ["carol", "dan", "alice"]);
    assert_eq!(env.events.len(), 2);
    assert_eq!(env.events[0].topic(), "sbt_btxfr");
    assert!(matches!(
        &env.events[1],
        SbtEvent::Transferred { sbt_id: 1, to } if to.id == "dan"
    ));
    assert_eq!(SbtContract::get_metadata(&env, 0).unwrap(), "badge");
}

#[test]
fn the_last_transfer_of_a_token_counts() {
    let mut env = three();
    let legs =
        vec![leg("carol", TransferCondition::Always), leg("dan", TransferCondition::Always)];
    assert!(SbtContract::batch_transfer_sbt_conditional(&mut env, &vec![2, 2], &legs).is_ok());
    assert_eq!(owners(&env), ["alice", "bob", "dan"]);
    assert_eq!(env.events.len(), 2);
}

#[test]
fn a_batch_is_refused_as_a_whole() {
    let mut env = three();
    let always = || leg("carol", TransferCondition::Always);
    let mut batch = |ids: Vec<u64>, legs: Vec<TransferInstruction>| {
        let result = SbtContract::batch_transfer_sbt_conditional(&mut env, &ids, &legs);
        assert!(env.events.is_empty());
        assert_eq!(owners(&env), ["alice", "bob", "alice"]);
        error(result)
    };
    assert_eq!(batch(vec![0], vec![]), Some(SbtError::MismatchedBatchLengths));
    assert_eq!(batch(vec![], vec![]), Some(SbtError::EmptyBatch));
    assert_eq!(batch(vec![0, 5], vec![always(), always()]), Some(SbtError::TokenNotFound));
    assert_eq!(
        batch(vec![0, 1], vec![always(), leg("dan", TransferCondition::MinHoldSeconds(1))]),
        Some(SbtError::TransferConditionNotMet)
    );
    assert_eq!(
        batch(
            vec![0, 5],
            vec![leg("dan", TransferCondition::MinHoldSeconds(1)), always()]
        ),
        Some(SbtError::TransferConditionNotMet)
    );
    names(&mut env, &["alice"]);
    let legs = vec![leg("dan", TransferCondition::Always), leg("dan", TransferCondition::Always)];
    assert_eq!(
        unauthorized(SbtContract::batch_transfer_sbt_conditional(&mut env, &vec![0, 1], &legs)),
        Some("bob".to_string())
    );
    assert_eq!(owners(&env), ["alice", "bob", "alice"]);
}

#[test]
fn each_transfer_takes_an_authorization() {
    let mut env = three();
    let legs =
        || vec![leg("carol", TransferCondition::Always), leg("dan", TransferCondition::Always)];
    names(&mut env, &["bob", "alice"]);
    assert_eq!(
        unauthorized(SbtContract::batch_transfer_sbt_conditional(&mut env, &vec![0, 2], &legs())),
        Some("alice".to_string())
    );
    assert_eq!(
        unauthorized(SbtContract::batch_transfer_sbt_conditional(&mut env, &vec![0, 0], &legs())),
        Some("alice".to_string())
    );
    assert_eq!(owners(&env), ["alice", "bob", "alice"]);
    assert!(SbtContract::batch_transfer_sbt_conditional(&mut env, &vec![0, 1], &legs()).is_ok());
    names(&mut env, &["carol", "alice", "carol"]);
    assert!(SbtContract::batch_transfer_sbt_conditional(&mut env, &vec![2, 0], &legs()).is_ok());
    let mut env = three();
    names(&mut env, &["alice", "alice"]);
    assert!(SbtContract::batch_transfer_sbt_conditional(&mut env, &vec![0, 2], &legs()).is_ok());
    assert_eq!(owners(&env), ["carol", "bob", "dan"]);
}

#[test]
fn a_token_must_be_old_enough() {
    let mut env = minted();
    env.timestamp = 1049;
    let legs = vec![leg("bob", TransferCondition::MinHoldSeconds(50))];
    assert_eq!(
        error(SbtContract::batch_transfer_sbt_conditional(&mut env, &vec![0], &legs)),
        Some(SbtError::TransferConditionNotMet)
    );
    env.timestamp = 1050;
    assert!(SbtContract::batch_transfer_sbt_conditional(&mut env, &vec![0], &legs).is_ok());
    let mut env = minted();
    env.timestamp = 999;
    let legs = vec![leg("bob", TransferCondition::MinHoldSeconds(0))];
    assert!(SbtContract::batch_transfer_sbt_conditional(&mut env, &vec![0], &legs).is_ok());
}

#[test]
fn a_delegated_token_may_not_be_free_to_move() {
    let mut env = minted();
    SbtContract::delegate_sbt_temporarily(&mut env, 0, addr("bob"), 10).unwrap();
    let legs = vec![leg("carol", TransferCondition::NoActiveDelegation)];
    assert_eq!(
        error(SbtContract::batch_transfer_sbt_conditional(&mut env, &vec![0], &legs)),
        Some(SbtError::TransferConditionNotMet)
    );
    env.timestamp = 1010;
    assert!(SbtContract::batch_transfer_sbt_conditional(&mut env, &vec![0], &legs).is_ok());
}

#[test]
fn a_delegation_does_not_bind_the_new_owner() {
    let mut env = minted();
    SbtContract::delegate_sbt_temporarily(&mut env, 0, addr("bob"), 10).unwrap();
    let legs = vec![leg("bob", TransferCondition::Always)];
    assert!(SbtContract::batch_transfer_sbt_conditional(&mut env, &vec![0], &legs).is_ok());
    assert!(SbtContract::get_active_delegate(&env, 0).is_none());
    assert!(!env.storage.has(&DataKey::Delegation(0)));
    assert_eq!(SbtContract::get_delegation_history(&env, 0).len(), 1);
}

#[test]
fn a_delegation_lasts_until_it_expires() {
    let mut env = minted();
    assert!(SbtContract::get_active_delegate(&env, 0).is_none());
    SbtContract::delegate_sbt_temporarily(&mut env, 0, addr("bob"), 10).unwrap();
    env.timestamp = 1009;
    assert_eq!(SbtContract::get_active_delegate(&env, 0).unwrap().id, "bob");
    env.timestamp = 1010;
    assert!(SbtContract::get_active_delegate(&env, 0).is_none());
    assert_eq!(SbtContract::owner_of(&env, 0).unwrap().id, "alice");
    assert!(matches!(
        &env.events[0],
        SbtEvent::Delegated { sbt_id: 0, delegate, expires_at: 1010 } if delegate.id == "bob"
    ));
    assert_eq!(env.events[0].topic(), "sbt_dlg");
}

#[test]
fn a_delegation_ends_no_later_than_time_can_tell() {
    let mut env = minted();
    SbtContract::delegate_sbt_temporarily(&mut env, 0, addr("bob"), u64::MAX).unwrap();
    env.timestamp = u64::MAX - 1;
    assert_eq!(SbtContract::get_active_delegate(&env, 0).unwrap().id, "bob");
    env.timestamp = u64::MAX;
    assert!(SbtContract::get_active_delegate(&env, 0).is_none());
}

#[test]
fn delegations_that_are_refused() {
    let mut env = minted();
    assert_eq!(
        error(SbtContract::delegate_sbt_temporarily(&mut env, 0, addr("alice"), 0)),
        Some(SbtError::InvalidDuration)
    );
    assert_eq!(
        error(SbtContract::delegate_sbt_temporarily(&mut env, 0, addr("alice"), 5)),
        Some(SbtError::SelfDelegation)
    );
    assert_eq!(
        error(SbtContract::delegate_sbt_temporarily(&mut env, 1, addr("bob"), 5)),
        Some(SbtError::TokenNotFound)
    );
    names(&mut env, &["bob"]);
    assert_eq!(
        unauthorized(SbtContract::delegate_sbt_temporarily(&mut env, 0, addr("bob"), 5)),
        Some("alice".to_string())
    );
    assert!(SbtContract::get_delegation_history(&env, 0).is_empty());
    assert!(env.events.is_empty());
}

#[test]
fn a_revoked_delegation_is_over() {
    let mut env = minted();
    assert_eq!(
        error(SbtContract::revoke_sbt_delegation(&mut env, 0)),
        Some(SbtError::NoActiveDelegation)
    );
    SbtContract::delegate_sbt_temporarily(&mut env, 0, addr("bob"), 10).unwrap();
    env.timestamp = 1005;
    assert!(SbtContract::revoke_sbt_delegation(&mut env, 0).is_ok());
    assert!(SbtContract::get_active_delegate(&env, 0).is_none());
    assert_eq!(
        error(SbtContract::revoke_sbt_delegation(&mut env, 0)),
        Some(SbtError::NoActiveDelegation)
    );
    assert_eq!(env.events[1].topic(), "sbt_rdlg");
    assert!(matches!(
        &env.events[1],
        SbtEvent::DelegationRevoked { sbt_id: 0, delegate } if delegate.id == "bob"
    ));
    names(&mut env, &[]);
    assert_eq!(
        unauthorized(SbtContract::revoke_sbt_delegation(&mut env, 0)),
        Some("alice".to_string())
    );
}

#[test]
fn an_expired_delegation_cannot_be_revoked() {
    let mut env = minted();
    SbtContract::delegate_sbt_temporarily(&mut env, 0, addr("bob"), 10).unwrap();
    env.timestamp = 1010;
    assert_eq!(
        error(SbtContract::revoke_sbt_delegation(&mut env, 0)),
        Some(SbtError::NoActiveDelegation)
    );
    assert_eq!(SbtContract::get_delegation_history(&env, 0).len(), 1);
}

#[test]
fn the_history_tells_of_each_delegation() {
    let mut env = minted();
    SbtContract::delegate_sbt_temporarily(&mut env, 0, addr("bob"), 10).unwrap();
    env.timestamp = 1001;
    SbtContract::delegate_sbt_temporarily(&mut env, 0, addr("carol"), 20).unwrap();
    env.timestamp = 1002;
    SbtContract::revoke_sbt_delegation(&mut env, 0).unwrap();
    let history: Vec<(String, DelegationAction, u64, u64)> =
        SbtContract::get_delegation_history(&env, 0)
            .into_iter()
            .map(|e| (e.delegate.id, e.action, e.at, e.expires_at))
            .collect();
    assert_eq!(
        history,
        [
            ("bob".to_string(), DelegationAction::Delegated, 1000, 1010),
            ("carol".to_string(), DelegationAction::Delegated, 1001, 1021),
            ("carol".to_string(), DelegationAction::Revoked, 1002, 1021),
        ]
    );
    assert!(SbtContract::get_delegation_history(&env, 1).is_empty());
}

#[test]
fn the_storage_tells_what_it_has() {
    let mut env = minted();
    SbtContract::set_shared_metadata(&mut env, 0, "s".to_string()).unwrap();
    SbtContract::delegate_sbt_temporarily(&mut env, 0, addr("bob"), 10).unwrap();
    for key in [
        DataKey::Admin,
        DataKey::NextTokenId,
        DataKey::Owner(0),
        DataKey::Metadata(0),
        DataKey::MintedAt(0),
        DataKey::SharedMetadata(0),
        DataKey::Delegation(0),
        DataKey::DelegationHistory(0),
    ] {
        assert!(env.storage.has(&key), "{key:?}");
        assert!(!InstanceStorage::new().has(&key), "{key:?}");
    }
    assert!(!env.storage.has(&DataKey::Composition(0)));
    assert!(!env.storage.has(&DataKey::Owner(1)));
}

#[test]
fn errors_have_their_numbers() {
    let errors = [
        SbtError::AlreadyInitialized,
        SbtError::NotInitialized,
        SbtError::TokenNotFound,
        SbtError::EmptyMetadata,
        SbtError::AlreadyComposed,
        SbtError::NotComposed,
        SbtError::NftOwnershipMismatch,
        SbtError::InvalidDuration,
        SbtError::NoActiveDelegation,
        SbtError::MismatchedBatchLengths,
        SbtError::TransferConditionNotMet,
        SbtError::EmptyBatch,
        SbtError::SelfDelegation,
    ];
    for (error, number) in errors.iter().zip(1u32..) {
        assert_eq!(error.code(), number);
    }
}
