use ethos_vault::analytics::compute_vault_analytics;
use ethos_vault::cache::{
    get_ttl_remaining_cached, get_vault_cached, get_vault_summary_cached, invalidate_vault_cache,
    VaultCache,
};
use ethos_vault::db::Db;
use ethos_vault::json::names_vault;
use ethos_vault::keyed::KeyedStore;
use ethos_vault::models::{
    SearchQuery, ShareToken, Vault, VaultBackup, VaultEvent, VaultNotificationPreferences,
    VaultShare, VaultStatus, VaultSummary,
};
use ethos_vault::pool::{parse_u32, PoolConfig};
use ethos_vault::text::comes_before;
use ethos_vault::timestamp::Timestamp;
use ethos_vault::vaults::{
    add_share_token, add_vault_share, append_audit_entry, append_audit_entry_at,
    create_audit_store, create_backup_store, create_event_store, create_notification_store,
    create_share_store, create_share_token_store, create_vault_store, get_backup,
    get_notification_preferences, get_share_token, get_vault_audit_log, get_vault_history,
    get_vault_share_tokens, get_vault_shares, revoke_share_token, search_vaults,
    set_notification_preferences, store_backup,
};

const DAY: i64 = 86_400;

fn vault_at(id: &str, owner: &str, status: VaultStatus, created: i64) -> Vault {
    Vault {
        id: id.to_string(),
        owner: owner.to_string(),
        beneficiary: format!("heir of {owner}"),
        balance: 1000,
        check_in_interval: 100,
        last_check_in: Timestamp::new(created, 0).unwrap(),
        created_at: Timestamp::new(created, 0).unwrap(),
        status,
        ttl_remaining: Some(7),
    }
}

fn open_query() -> SearchQuery {
    SearchQuery {
        owner: None,
        beneficiary: None,
        status: None,
        created_after: None,
        created_before: None,
        page: None,
        limit: None,
    }
}

fn three_vaults() -> KeyedStore<Vault> {
    let mut store = create_vault_store();
    store.insert("a".to_string(), vault_at("a", "ann", VaultStatus::Active, 0));
    store.insert("b".to_string(), vault_at("b", "bob", VaultStatus::Released, DAY));
    store.insert(
        "c".to_string(),
        vault_at("c", "ann", VaultStatus::Other("Paused".to_string()), 2 * DAY),
    );
    store
}

fn found(store: &KeyedStore<Vault>, query: &SearchQuery) -> Vec<String> {
    search_vaults(store, query).vaults.into_iter().map(|v| v.id).collect()
}

#[test]
fn an_open_search_finds_all() {
    let result = search_vaults(&three_vaults(), &open_query());
    assert_eq!(result.vaults.len(), 3);
    assert_eq!(result.total, 3);
    assert_eq!(result.page, 1);
    assert_eq!(result.limit, 10);
}

#[test]
fn a_search_keeps_to_each_restriction() {
    let store = three_vaults();
    let by_owner = SearchQuery { owner: Some("ann".to_string()), ..open_query() };
    assert_eq!(found(&store, &by_owner), ["a", "c"]);
    let by_heir = SearchQuery { beneficiary: Some("heir of bob".to_string()), ..open_query() };
    assert_eq!(found(&store, &by_heir), ["b"]);
    let by_status = SearchQuery { status: Some(VaultStatus::Released), ..open_query() };
    assert_eq!(found(&store, &by_status), ["b"]);
    let by_name =
        SearchQuery { status: Some(VaultStatus::Other("Paused".to_string())), ..open_query() };
    assert_eq!(found(&store, &by_name), ["c"]);
    let day = Timestamp::new(DAY, 0);
    let after = SearchQuery { created_after: day, ..open_query() };
    assert_eq!(found(&store, &after), ["b", "c"]);
    let before = SearchQuery { created_before: day, ..open_query() };
    assert_eq!(found(&store, &before), ["a", "b"]);
}

#[test]
fn pages_follow_each_other() {
    let store = three_vaults();
    let page = |n: u32, limit: u32| SearchQuery {
        page: Some(n),
        limit: Some(limit),
        ..open_query()
    };
    assert_eq!(found(&store, &page(1, 2)), ["a", "b"]);
    assert_eq!(found(&store, &page(2, 2)), ["c"]);
    assert!(found(&store, &page(3, 2)).is_empty());
    assert!(found(&store, &page(1, 0)).is_empty());
    assert_eq!(search_vaults(&store, &page(3, 2)).total, 3);
}

#[test]
fn a_keyed_store_replaces_and_removes() {
    let mut store: KeyedStore<u32> = KeyedStore::new();
    store.insert("x".to_string(), 1);
    store.insert("y".to_string(), 2);
    store.insert("x".to_string(), 3);
    assert_eq!(store.len(), 2);
    assert_eq!(store.get("x"), Some(&3));
    assert_eq!(*store.value_at(1), 2);
    store.remove("x");
    store.remove("z");
    assert_eq!(store.len(), 1);
    assert_eq!(store.get("x"), None);
    assert_eq!(store.get("y"), Some(&2));
}

#[test]
fn the_history_of_a_vault_is_its_events() {
    let mut events = create_event_store();
    for (vault_id, body) in [("a", "1"), ("b", "2"), ("a", "3")] {
        events.push(VaultEvent { vault_id: vault_id.to_string(), body: body.to_string() });
    }
    let bodies: Vec<String> = get_vault_history(&events, "a").into_iter().map(|e| e.body).collect();
    assert_eq!(bodies, ["1", "3"]);
    assert!(get_vault_history(&events, "c").is_empty());
}

#[test]
fn audit_entries_are_found_by_the_vault_in_their_details() {
    let mut audit = create_audit_store();
    let about = |json: &str| -> serde_json::Value { serde_json::from_str(json).unwrap() };
    append_audit_entry(&mut audit, "create", "ann", about("{\"vault_id\":\"v1\",\"n\":1}"));
    append_audit_entry(&mut audit, "other", "bob", about("{\"vault_id\":\"v2\"}"));
    append_audit_entry(&mut audit, "number", "bob", about("{\"vault_id\":1}"));
    append_audit_entry(&mut audit, "list", "bob", about("[\"vault_id\",\"v1\"]"));
    append_audit_entry(&mut audit, "broken", "bob", about("\"vault_id\""));
    append_audit_entry_at(
        &mut audit,
        Timestamp::new(5, 0).unwrap(),
        "close",
        "ann",
        about("{\"vault_id\":\"v\\u0031\"}"),
    );
    let log = get_vault_audit_log(&audit, "v1");
    assert_eq!(log.len(), 2);
    assert_eq!(log[0].action, "create");
    assert_eq!(log[0].actor, "ann");
    assert_eq!(log[0].details, about("{\"vault_id\":\"v1\",\"n\":1}"));
    assert_eq!(log[1].action, "close");
    assert_eq!(log[1].timestamp.parts(), (5, 0));
    assert!(log[0].timestamp.parts().0 > 1_577_836_800);
}

#[test]
fn deep_details_still_name_their_vault() {
    let mut deep = serde_json::Value::Null;
    for _ in 0..200 {
        deep = serde_json::Value::Array(vec![deep]);
    }
    let mut members = serde_json::Map::new();
    members.insert("nested".to_string(), deep);
    members.insert("vault_id".to_string(), serde_json::Value::String("v1".to_string()));
    let details = serde_json::Value::Object(members);
    assert!(names_vault(&details, "v1"));
    assert!(!names_vault(&details, "v2"));
    let mut audit = create_audit_store();
    append_audit_entry(&mut audit, "create", "ann", details);
    assert_eq!(get_vault_audit_log(&audit, "v1").len(), 1);
}

#[test]
fn backups_are_read_back_by_id() {
    let mut backups = create_backup_store();
    let backup = |id: &str, body: &str| VaultBackup {
        backup_id: id.to_string(),
        body: body.to_string(),
    };
    store_backup(&mut backups, backup("b1", "old"));
    store_backup(&mut backups, backup("b1", "new"));
    store_backup(&mut backups, backup("b2", "other"));
    assert_eq!(get_backup(&backups, "b1").unwrap().body, "new");
    assert_eq!(get_backup(&backups, "b2").unwrap().backup_id, "b2");
    assert!(get_backup(&backups, "b3").is_none());
}

#[test]
fn shares_are_listed_by_vault() {
    let mut shares = create_share_store();
    for (vault_id, body) in [("a", "1"), ("b", "2"), ("a", "3")] {
        add_vault_share(
            &mut shares,
            VaultShare { vault_id: vault_id.to_string(), body: body.to_string() },
        );
    }
    let bodies: Vec<String> = get_vault_shares(&shares, "a").into_iter().map(|s| s.body).collect();
    assert_eq!(bodies, ["1", "3"]);
    assert!(get_vault_shares(&shares, "c").is_empty());
}

#[test]
fn revoked_tokens_stay_revoked_and_known() {
    let mut tokens = create_share_token_store();
    for (token, vault_id) in [("t1", "a"), ("t2", "a"), ("t3", "b")] {
        add_share_token(
            &mut tokens,
            ShareToken {
                token: token.to_string(),
                vault_id: vault_id.to_string(),
                revoked: false,
                body: "{}".to_string(),
            },
        );
    }
    assert_eq!(get_vault_share_tokens(&tokens, "a").len(), 2);
    let revoked = revoke_share_token(&mut tokens, "t1").unwrap();
    assert!(revoked.revoked);
    assert_eq!(revoked.vault_id, "a");
    assert!(get_share_token(&tokens, "t1").unwrap().revoked);
    assert!(!get_share_token(&tokens, "t2").unwrap().revoked);
    assert!(revoke_share_token(&mut tokens, "t1").unwrap().revoked);
    assert!(revoke_share_token(&mut tokens, "t9").is_none());
    assert!(get_share_token(&tokens, "t9").is_none());
    assert_eq!(get_vault_share_tokens(&tokens, "a").len(), 2);
}

#[test]
fn notification_preferences_are_kept_by_owner() {
    let mut prefs = create_notification_store();
    let of = |owner: &str, body: &str| VaultNotificationPreferences {
        owner: owner.to_string(),
        body: body.to_string(),
    };
    set_notification_preferences(&mut prefs, of("ann", "mail"));
    set_notification_preferences(&mut prefs, of("ann", "phone"));
    assert_eq!(get_notification_preferences(&prefs, "ann").unwrap().body, "phone");
    assert!(get_notification_preferences(&prefs, "bob").is_none());
}

#[test]
fn analytics_count_vaults_and_days() {
    let mut store = three_vaults();
    store.insert("d".to_string(), vault_at("d", "dan", VaultStatus::Released, DAY + 5));
    let analytics = compute_vault_analytics(&store);
    assert_eq!(analytics.total_vaults, 4);
    assert_eq!(analytics.active_vaults, 1);
    assert_eq!(analytics.released_vaults, 2);
    assert_eq!(analytics.total_check_in_seconds, 400);
    let days: Vec<(String, u64, u64)> = analytics
        .time_series
        .into_iter()
        .map(|p| (p.date, p.vaults_created, p.vaults_released))
        .collect();
    assert_eq!(
        days,
        [
            ("1970-01-01".to_string(), 1, 0),
            ("1970-01-02".to_string(), 2, 2),
            ("1970-01-03".to_string(), 1, 0),
        ]
    );
}

#[test]
fn analytics_of_nothing() {
    let analytics = compute_vault_analytics(&create_vault_store());
    assert_eq!(analytics.total_vaults, 0);
    assert_eq!(analytics.total_check_in_seconds, 0);
    assert!(analytics.time_series.is_empty());
}

#[test]
fn days_are_in_order_whatever_the_order_of_vaults() {
    let mut store = create_vault_store();
    for (id, day) in [("x", 30), ("y", 3), ("z", 12), ("w", 3)] {
        store.insert(id.to_string(), vault_at(id, "ann", VaultStatus::Active, day * DAY));
    }
    let dates: Vec<String> =
        compute_vault_analytics(&store).time_series.into_iter().map(|p| p.date).collect();
    assert_eq!(dates, ["1970-01-04", "1970-01-13", "1970-01-31"]);
}

#[test]
fn the_cache_is_filled_on_a_miss_and_read_on_a_hit() {
    let mut store = three_vaults();
    let mut cache = VaultCache::new();
    assert!(get_vault_cached(&store, &mut cache, "z").is_none());
    assert_eq!(get_vault_cached(&store, &mut cache, "a").unwrap().owner, "ann");
    assert_eq!(get_ttl_remaining_cached(&store, &mut cache, "a"), Some(Some(7)));
    assert_eq!(get_vault_summary_cached(&store, &mut cache, "a").unwrap().owner, "ann");
    let mut changed = vault_at("a", "eve", VaultStatus::Active, 0);
    changed.ttl_remaining = None;
    store.insert("a".to_string(), changed);
    assert_eq!(get_vault_cached(&store, &mut cache, "a").unwrap().owner, "ann");
    assert_eq!(get_ttl_remaining_cached(&store, &mut cache, "a"), Some(Some(7)));
    assert_eq!(get_vault_summary_cached(&store, &mut cache, "a").unwrap().owner, "ann");
    invalidate_vault_cache(&mut cache, "a");
    assert_eq!(get_vault_cached(&store, &mut cache, "a").unwrap().owner, "eve");
    assert_eq!(get_ttl_remaining_cached(&store, &mut cache, "a"), Some(None));
    assert_eq!(get_vault_summary_cached(&store, &mut cache, "a").unwrap().owner, "eve");
    assert_eq!(get_ttl_remaining_cached(&store, &mut cache, "z"), None);
    assert!(get_vault_summary_cached(&store, &mut cache, "z").is_none());
}

#[test]
fn a_vault_that_is_gone_is_still_read_from_the_cache() {
    let mut store = three_vaults();
    let mut cache = VaultCache::new();
    assert!(get_vault_cached(&store, &mut cache, "b").is_some());
    store.remove("b");
    assert!(get_vault_cached(&store, &mut cache, "b").is_some());
    invalidate_vault_cache(&mut cache, "b");
    assert!(get_vault_cached(&store, &mut cache, "b").is_none());
}

#[test]
fn a_summary_holds_the_facts_of_its_vault() {
    let summary = VaultSummary::from(&vault_at("b", "bob", VaultStatus::Released, 0));
    assert_eq!(summary.id, "b");
    assert_eq!(summary.beneficiary, "heir of bob");
    assert_eq!(summary.balance, 1000);
    assert!(summary.status.is_released());
    assert_eq!(summary.ttl_remaining, Some(7));
}

#[test]
fn the_handle_keeps_vaults_and_settings() {
    let (mut db, connect) = Db::open("vaults.db");
    assert_eq!(connect.path, "vaults.db");
    assert_eq!(connect.busy_timeout_secs, 30);
    assert_eq!(db.pool_config, PoolConfig { min: 2, max: 10, timeout_secs: 30 });
    db.insert_vault(vault_at("a", "ann", VaultStatus::Active, 0));
    db.insert_vault(vault_at("a", "bob", VaultStatus::Active, 0));
    assert_eq!(db.get_vault("a").unwrap().owner, "bob");
    assert!(db.get_vault("b").is_none());
    assert_eq!(db.check_connectivity().sql, "SELECT 1");
    let config = PoolConfig { min: 1, max: 1, timeout_secs: 5 };
    assert_eq!(Db::open_with_pool_config("x", &config).1.busy_timeout_secs, 5);
}

#[test]
fn settings_come_from_variables_that_hold_numbers() {
    let text = |s: &str| Some(s.to_string());
    let config = PoolConfig::from_env(text("4"), text("many"), None);
    assert_eq!(config, PoolConfig { min: 4, max: 10, timeout_secs: 30 });
    let config = PoolConfig::from_env(text("-1"), text("+20"), text("4294967295"));
    assert_eq!(config, PoolConfig { min: 2, max: 20, timeout_secs: 4_294_967_295 });
}

#[test]
fn numbers_are_read_as_the_language_reads_them() {
    for text in [
        "0", "007", "42", "+7", "+", "", " 1", "1 ", "-0", "1_000", "4294967295", "4294967296",
        "99999999999999999999", "12a", "++1", "\u{0661}",
    ] {
        assert_eq!(parse_u32(text), text.parse::<u32>().ok(), "{text:?}");
    }
}

#[test]
fn text_is_ordered_by_its_bytes() {
    for (a, b) in
        [("", "a"), ("a", "b"), ("a", "ab"), ("2024-01-09", "2024-01-10"), ("z", "\u{e9}")]
    {
        assert!(comes_before(a, b));
        assert!(!comes_before(b, a));
        assert!(!comes_before(a, a));
    }
}
