use ethos_vault::timestamp::Timestamp;
use ethos_vault::webhook::{
    attempt_delivery, begin_delivery, create_webhook_store, delete_webhook, deliver_event,
    deliver_event_as, delivery_request, list_webhooks, register_webhook, register_webhook_as,
    sign_payload, to_hex, DeliveryStep, EventDelivery, RegisterWebhookRequest, WebhookEventType,
    WebhookPayload, WebhookRegistration, WebhookState, WebhookStore,
};

fn at(secs: i64) -> Timestamp {
    Timestamp::new(secs, 0).unwrap()
}

fn request(url: &str) -> RegisterWebhookRequest {
    RegisterWebhookRequest {
        url: url.to_string(),
        vault_id: None,
        event_types: Vec::new(),
        secret: None,
    }
}

fn registered(store: &mut WebhookStore, id: &str, body: RegisterWebhookRequest) {
    let reply = register_webhook_as(store, body, id.to_string(), at(5));
    assert_eq!(reply.unwrap().0, 201);
}

fn told(store: &WebhookStore, event: WebhookEventType, vault_id: &str) -> Vec<String> {
    let delivery: EventDelivery =
        deliver_event(store, event, vault_id.to_string(), "{}".to_string());
    delivery.registrations.into_iter().map(|r| r.id).collect()
}

#[test]
fn a_registered_webhook_is_stored_and_handed_back() {
    let mut store = create_webhook_store();
    let body = RegisterWebhookRequest {
        url: "https://example.org/hook".to_string(),
        vault_id: Some("v1".to_string()),
        event_types: vec![WebhookEventType::VaultCreated],
        secret: Some("s".to_string()),
    };
    let (status, webhook) =
        register_webhook_as(&mut store, body, "w1".to_string(), at(5)).unwrap();
    assert_eq!(status, 201);
    for webhook in [&webhook, store.get("w1").unwrap()] {
        assert_eq!(webhook.id, "w1");
        assert_eq!(webhook.url, "https://example.org/hook");
        assert_eq!(webhook.vault_id.as_deref(), Some("v1"));
        assert_eq!(webhook.event_types, [WebhookEventType::VaultCreated]);
        assert_eq!(webhook.secret.as_deref(), Some("s"));
        assert_eq!(webhook.created_at, at(5));
        assert!(webhook.active);
    }
}

#[test]
fn a_webhook_without_url_is_refused() {
    let mut store = create_webhook_store();
    let (status, message) = register_webhook(&mut store, request("")).unwrap_err();
    assert_eq!(status, 422);
    assert_eq!(message, "url must not be empty");
    assert_eq!(store.len(), 0);
}

#[test]
fn webhooks_get_fresh_identifiers() {
    let mut state = WebhookState::default();
    let first = register_webhook(&mut state.store, request("a")).unwrap().1;
    let second = register_webhook(&mut state.store, request("b")).unwrap().1;
    assert_ne!(first.id, second.id);
    assert_eq!(first.id.len(), 36);
    assert_eq!(state.store.get(&first.id).unwrap().url, "a");
    assert!(first.created_at.parts().0 > 1_577_836_800);
    let urls: Vec<String> = list_webhooks(&state.store).into_iter().map(|w| w.url).collect();
    assert_eq!(urls, ["a", "b"]);
    assert_eq!(WebhookState::new().store.len(), 0);
}

#[test]
fn a_deleted_webhook_is_deactivated_and_told_nothing() {
    let mut store = create_webhook_store();
    registered(&mut store, "w1", request("a"));
    registered(&mut store, "w2", request("b"));
    assert_eq!(told(&store, WebhookEventType::VaultPaused, "v"), ["w1", "w2"]);
    assert_eq!(delete_webhook(&mut store, "w1"), 204);
    assert_eq!(delete_webhook(&mut store, "w1"), 204);
    assert_eq!(delete_webhook(&mut store, "w9"), 404);
    assert_eq!(told(&store, WebhookEventType::VaultPaused, "v"), ["w2"]);
    let webhooks: Vec<WebhookRegistration> = list_webhooks(&store);
    assert_eq!(webhooks.len(), 2);
    assert!(!webhooks[0].active);
    assert_eq!(webhooks[0].url, "a");
    assert!(webhooks[1].active);
}

#[test]
fn webhooks_are_told_what_they_asked_for() {
    let mut store = create_webhook_store();
    registered(&mut store, "all", request("u"));
    registered(
        &mut store,
        "vault",
        RegisterWebhookRequest { vault_id: Some("v1".to_string()), ..request("u") },
    );
    registered(
        &mut store,
        "event",
        RegisterWebhookRequest {
            event_types: vec![WebhookEventType::VaultDeposit, WebhookEventType::VaultReleased],
            ..request("u")
        },
    );
    registered(
        &mut store,
        "both",
        RegisterWebhookRequest {
            vault_id: Some("v1".to_string()),
            event_types: vec![WebhookEventType::VaultReleased],
            ..request("u")
        },
    );
    assert_eq!(
        told(&store, WebhookEventType::VaultReleased, "v1"),
        ["all", "vault", "event", "both"]
    );
    assert_eq!(told(&store, WebhookEventType::VaultReleased, "v2"), ["all", "event"]);
    assert_eq!(told(&store, WebhookEventType::VaultCreated, "v1"), ["all", "vault"]);
    assert_eq!(told(&store, WebhookEventType::VaultResumed, "v2"), ["all"]);
}

#[test]
fn a_payload_tells_the_event() {
    let store = create_webhook_store();
    let delivery = deliver_event_as(
        &store,
        WebhookEventType::VaultCheckedIn,
        "v1".to_string(),
        "[1]".to_string(),
        "d1".to_string(),
        at(9),
    );
    assert_eq!(delivery.payload.id, "d1");
    assert_eq!(delivery.payload.event_type, WebhookEventType::VaultCheckedIn);
    assert_eq!(delivery.payload.vault_id, "v1");
    assert_eq!(delivery.payload.timestamp, at(9));
    assert_eq!(delivery.payload.data, "[1]");
    assert!(delivery.registrations.is_empty());
}

#[test]
fn event_names_are_those_of_the_variants() {
    for event in [
        WebhookEventType::VaultCreated,
        WebhookEventType::VaultCheckedIn,
        WebhookEventType::VaultReleased,
        WebhookEventType::VaultDeposit,
        WebhookEventType::VaultWithdrawal,
        WebhookEventType::BeneficiaryUpdated,
        WebhookEventType::VaultPaused,
        WebhookEventType::VaultResumed,
    ] {
        assert_eq!(event.as_str(), format!("{event:?}"));
    }
}

fn run(replies: &[Option<u16>]) -> (DeliveryStep, usize, Vec<u64>) {
    let mut delays = Vec::new();
    let mut sent = 0;
    let mut step = begin_delivery();
    while let DeliveryStep::Send { attempt, delay_ms } = step {
        delays.push(delay_ms);
        step = attempt_delivery(attempt, replies[sent]);
        sent += 1;
    }
    (step, sent, delays)
}

#[test]
fn a_delivery_is_dropped_after_five_requests() {
    let replies = [Some(500), None, Some(404), Some(199), Some(300)];
    assert_eq!(run(&replies), (DeliveryStep::Dropped, 5, vec![0, 250, 500, 1000, 2000]));
}

#[test]
fn a_delivery_ends_when_it_is_received() {
    assert_eq!(run(&[Some(200)]), (DeliveryStep::Delivered, 1, vec![0]));
    assert_eq!(run(&[None, Some(299)]), (DeliveryStep::Delivered, 2, vec![0, 250]));
    let replies = [None, None, None, None, Some(204)];
    assert_eq!(run(&replies), (DeliveryStep::Delivered, 5, vec![0, 250, 500, 1000, 2000]));
}

#[test]
fn no_attempt_follows_the_last() {
    assert_eq!(attempt_delivery(4, None), DeliveryStep::Dropped);
    assert_eq!(attempt_delivery(u32::MAX, Some(500)), DeliveryStep::Dropped);
    assert_eq!(attempt_delivery(u32::MAX, Some(200)), DeliveryStep::Delivered);
}

#[test]
fn signatures_are_hmac_sha256_in_hex() {
    assert_eq!(
        sign_payload("what do ya want for nothing?", "Jefe"),
        "5bdcc146bf60754e6a042426089575c75a003f089d2739839dec58b964ec3843"
    );
    assert_eq!(
        sign_payload("", ""),
        "b613679a0814d9ec772f95d778c35fc5ff1697c493715653c6c712144292c5ad"
    );
    assert_eq!(
        sign_payload("{\"a\":\"\u{fc}\"}", &"k".repeat(100)),
        "8ddea7bd2ed4d37e56bcec8ef06ae8eca11460f9e5f619a41b848aabb9b0a546"
    );
}

#[test]
fn bytes_are_written_with_two_digits_each() {
    assert_eq!(to_hex(&vec![0, 9, 10, 15, 16, 159, 160, 255]), "00090a0f109fa0ff");
    assert_eq!(to_hex(&Vec::new()), "");
}

fn payload() -> WebhookPayload {
    WebhookPayload {
        id: "d1".to_string(),
        event_type: WebhookEventType::VaultDeposit,
        vault_id: "v1".to_string(),
        timestamp: at(9),
        data: "{}".to_string(),
    }
}

fn webhook(secret: Option<&str>) -> WebhookRegistration {
    WebhookRegistration {
        id: "w1".to_string(),
        url: "https://example.org".to_string(),
        vault_id: None,
        event_types: Vec::new(),
        secret: secret.map(String::from),
        created_at: at(0),
        active: true,
    }
}

#[test]
fn a_request_carries_the_event() {
    let request = delivery_request(&webhook(None), &payload(), "body");
    assert_eq!(request.url, "https://example.org");
    assert_eq!(request.body, "body");
    let headers: Vec<(&str, &str)> =
        request.headers.iter().map(|(n, v)| (n.as_str(), v.as_str())).collect();
    assert_eq!(
        headers,
        [
            ("Content-Type", "application/json"),
            ("X-Ethos-Event", "VaultDeposit"),
            ("X-Ethos-Delivery", "d1"),
        ]
    );
}

#[test]
fn a_request_is_signed_with_the_secret() {
    let request =
        delivery_request(&webhook(Some("Jefe")), &payload(), "what do ya want for nothing?");
    assert_eq!(request.headers.len(), 4);
    assert_eq!(request.headers[3].0, "X-Ethos-Signature");
    assert_eq!(
        request.headers[3].1,
        "sha256=5bdcc146bf60754e6a042426089575c75a003f089d2739839dec58b964ec3843"
    );
}

#[test]
fn the_list_holds_what_was_registered() {
    let mut store = create_webhook_store();
    assert_eq!(delete_webhook(&mut store, "w2"), 404);
    registered(&mut store, "w1", request("a"));
    registered(&mut store, "w2", request("b"));
    assert!(register_webhook_as(&mut store, request(""), "w3".to_string(), at(6)).is_err());
    assert_eq!(delete_webhook(&mut store, "w1"), 204);
    registered(&mut store, "w4", request("d"));
    let list: Vec<(String, String, bool)> =
        list_webhooks(&store).into_iter().map(|w| (w.id, w.url, w.active)).collect();
    assert_eq!(
        list,
        [
            ("w1".to_string(), "a".to_string(), false),
            ("w2".to_string(), "b".to_string(), true),
            ("w4".to_string(), "d".to_string(), true),
        ]
    );
}
