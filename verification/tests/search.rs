use ethos_vault::models::{SearchQuery, Vault, VaultStatus};
use ethos_vault::timestamp::Timestamp;
use ethos_vault::vaults::{create_vault_store, search_vaults};

fn vault(id: &str) -> Vault {
    Vault {
        id: id.to_string(),
        owner: "owner1".to_string(),
        beneficiary: "ben1".to_string(),
        balance: 1000,
        check_in_interval: 86400,
        last_check_in: Timestamp::now(),
        created_at: Timestamp::now(),
        status: VaultStatus::Active,
        ttl_remaining: Some(100_000),
    }
}

#[test]
fn test_search_vaults_by_owner() {
    let mut store = create_vault_store();
    store.insert("v1".to_string(), vault("v1"));

    let query = SearchQuery {
        owner: Some("owner1".to_string()),
        beneficiary: None,
        status: None,
        created_after: None,
        created_before: None,
        page: None,
        limit: None,
    };

    let result = search_vaults(&store, &query);
    assert_eq!(result.vaults.len(), 1);
    assert_eq!(result.total, 1);
}

#[test]
fn test_search_vaults_pagination() {
    let mut store = create_vault_store();
    for i in 0..25 {
        store.insert(format!("v{i}"), vault(&format!("v{i}")));
    }

    let query = SearchQuery {
        owner: Some("owner1".to_string()),
        beneficiary: None,
        status: None,
        created_after: None,
        created_before: None,
        page: Some(2),
        limit: Some(10),
    };

    let result = search_vaults(&store, &query);
    assert_eq!(result.vaults.len(), 10);
    assert_eq!(result.total, 25);
    assert_eq!(result.page, 2);
}
