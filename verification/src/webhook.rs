//! Webhooks: who is told of vault events, what is sent to them, and when a failed delivery is
//! tried again.

use crate::ids::{is_random_id, new_id, was_drawn};
use crate::keyed::KeyedStore;
use crate::text::{copy_opt_text, opt_text, same_opt_text};
use crate::timestamp::Timestamp;
use crate::vaults::lemma_filter_step;
use hmac::{Hmac, Mac};
use sha2::Sha256;
use vstd::arithmetic::power2::{lemma2_to64, pow2};
use vstd::prelude::*;
use vstd::utf8::encode_utf8;

verus! {

/// Events that can be delivered.
#[derive(Debug, Clone, Copy, PartialEq, Eq, Structural)]
pub enum WebhookEventType {
    VaultCreated,
    VaultCheckedIn,
    VaultReleased,
    VaultDeposit,
    VaultWithdrawal,
    BeneficiaryUpdated,
    VaultPaused,
    VaultResumed,
}

impl WebhookEventType {
    /// The name by which a request tells the event.
    pub open spec fn name(self) -> Seq<char> {
        match self {
            WebhookEventType::VaultCreated => "VaultCreated"@,
            WebhookEventType::VaultCheckedIn => "VaultCheckedIn"@,
            WebhookEventType::VaultReleased => "VaultReleased"@,
            WebhookEventType::VaultDeposit => "VaultDeposit"@,
            WebhookEventType::VaultWithdrawal => "VaultWithdrawal"@,
            WebhookEventType::BeneficiaryUpdated => "BeneficiaryUpdated"@,
            WebhookEventType::VaultPaused => "VaultPaused"@,
            WebhookEventType::VaultResumed => "VaultResumed"@,
        }
    }

    /// The name by which a request tells the event.
    pub fn as_str(&self) -> (text: &'static str)
        ensures
            text@ == self.name(),
    {
        match self {
            WebhookEventType::VaultCreated => "VaultCreated",
            WebhookEventType::VaultCheckedIn => "VaultCheckedIn",
            WebhookEventType::VaultReleased => "VaultReleased",
            WebhookEventType::VaultDeposit => "VaultDeposit",
            WebhookEventType::VaultWithdrawal => "VaultWithdrawal",
            WebhookEventType::BeneficiaryUpdated => "BeneficiaryUpdated",
            WebhookEventType::VaultPaused => "VaultPaused",
            WebhookEventType::VaultResumed => "VaultResumed",
        }
    }
}

/// A webhook subscription.
#[derive(Debug)]
pub struct WebhookRegistration {
    pub id: String,
    /// The URL to send events to.
    pub url: String,
    /// The vault whose events are sent; all vaults where there is none.
    pub vault_id: Option<String>,
    /// The events that are sent; all events where the list is empty.
    pub event_types: Vec<WebhookEventType>,
    /// The secret that requests are signed with.
    pub secret: Option<String>,
    pub created_at: Timestamp,
    pub active: bool,
}

/// A subscription with texts as characters.
#[verifier::ext_equal]
pub struct RegistrationView {
    pub id: Seq<char>,
    pub url: Seq<char>,
    pub vault_id: Option<Seq<char>>,
    pub event_types: Seq<WebhookEventType>,
    pub secret: Option<Seq<char>>,
    pub created_at: Timestamp,
    pub active: bool,
}

impl View for WebhookRegistration {
    type V = RegistrationView;

    open spec fn view(&self) -> RegistrationView {
        RegistrationView {
            id: self.id@,
            url: self.url@,
            vault_id: opt_text(self.vault_id),
            event_types: self.event_types@,
            secret: opt_text(self.secret),
            created_at: self.created_at,
            active: self.active,
        }
    }
}

/// A copy of a list of events.
fn copy_events(events: &Vec<WebhookEventType>) -> (copy: Vec<WebhookEventType>)
    ensures
        copy@ == events@,
{
    let mut copy: Vec<WebhookEventType> = Vec::new();
    let mut i: usize = 0;
    while i < events.len()
        invariant
            i <= events@.len(),
            copy@ == events@.take(i as int),
        decreases events@.len() - i,
    {
        copy.push(events[i]);
        assert(copy@ =~= events@.take(i + 1));
        i = i + 1;
    }
    assert(events@.take(events@.len() as int) =~= events@);
    copy
}

impl Clone for WebhookRegistration {
    fn clone(&self) -> (copy: WebhookRegistration)
        ensures
            copy@ == self@,
    {
        WebhookRegistration {
            id: self.id.clone(),
            url: self.url.clone(),
            vault_id: copy_opt_text(&self.vault_id),
            event_types: copy_events(&self.event_types),
            secret: copy_opt_text(&self.secret),
            created_at: self.created_at,
            active: self.active,
        }
    }
}

/// A request to register a webhook.
#[derive(Debug)]
pub struct RegisterWebhookRequest {
    pub url: String,
    pub vault_id: Option<String>,
    pub event_types: Vec<WebhookEventType>,
    pub secret: Option<String>,
}

impl RegisterWebhookRequest {
    /// The subscription that the request asks for, under an identifier and made at a time.
    pub open spec fn registration(self, id: Seq<char>, now: Timestamp) -> RegistrationView {
        RegistrationView {
            id,
            url: self.url@,
            vault_id: opt_text(self.vault_id),
            event_types: self.event_types@,
            secret: opt_text(self.secret),
            created_at: now,
            active: true,
        }
    }
}

/// What is sent of an event. The data are a JSON text.
#[derive(Debug)]
pub struct WebhookPayload {
    pub id: String,
    pub event_type: WebhookEventType,
    pub vault_id: String,
    pub timestamp: Timestamp,
    pub data: String,
}

impl Clone for WebhookPayload {
    fn clone(&self) -> (copy: WebhookPayload)
        ensures
            copy == *self,
    {
        WebhookPayload {
            id: self.id.clone(),
            event_type: self.event_type,
            vault_id: self.vault_id.clone(),
            timestamp: self.timestamp,
            data: self.data.clone(),
        }
    }
}

pub type WebhookStore = KeyedStore<WebhookRegistration>;

/// A store without webhooks.
pub fn create_webhook_store() -> (store: WebhookStore)
    ensures
        store@ == Map::<Seq<char>, WebhookRegistration>::empty(),
        store.values() == Seq::<WebhookRegistration>::empty(),
        store.well_formed(),
{
    KeyedStore::new()
}

/// What the webhook requests share.
pub struct WebhookState {
    pub store: WebhookStore,
}

impl WebhookState {
    /// The state without webhooks.
    pub fn new() -> (state: WebhookState)
        ensures
            state.store@ == Map::<Seq<char>, WebhookRegistration>::empty(),
            state.store.values() == Seq::<WebhookRegistration>::empty(),
            state.store.well_formed(),
    {
        WebhookState { store: create_webhook_store() }
    }
}

impl Default for WebhookState {
    fn default() -> (state: WebhookState)
        ensures
            state.store@ == Map::<Seq<char>, WebhookRegistration>::empty(),
            state.store.values() == Seq::<WebhookRegistration>::empty(),
            state.store.well_formed(),
    {
        WebhookState::new()
    }
}

pub const STATUS_CREATED: u16 = 201;

pub const STATUS_NO_CONTENT: u16 = 204;

pub const STATUS_NOT_FOUND: u16 = 404;

pub const STATUS_UNPROCESSABLE: u16 = 422;

pub const EMPTY_URL: &'static str = "url must not be empty";

/// What a request to register a webhook does and is answered, under an identifier and at a time:
/// without a URL it is refused and nothing changes, and otherwise the subscription is stored and
/// handed back.
pub open spec fn registers(
    before: WebhookStore,
    after: WebhookStore,
    body: RegisterWebhookRequest,
    id: Seq<char>,
    now: Timestamp,
    reply: Result<(u16, WebhookRegistration), (u16, String)>,
) -> bool {
    if body.url@.len() == 0 {
        &&& after == before
        &&& reply matches Err((status, message)) && status == STATUS_UNPROCESSABLE && message@
            == EMPTY_URL@
    } else {
        &&& reply matches Ok((status, registration)) && status == STATUS_CREATED && registration@
            == body.registration(id, now)
        &&& exists|stored: WebhookRegistration| #[trigger]
            after.extends(before, id, stored) && stored@ == body.registration(id, now)
    }
}

/// Registers a webhook under an identifier, at a time.
pub fn register_webhook_as(
    store: &mut WebhookStore,
    body: RegisterWebhookRequest,
    id: String,
    now: Timestamp,
) -> (reply: Result<(u16, WebhookRegistration), (u16, String)>)
    ensures
        registers(*old(store), *final(store), body, id@, now, reply),
{
    if body.url.as_str().unicode_len() == 0 {
        return Err((STATUS_UNPROCESSABLE, EMPTY_URL.to_owned()));
    }
    let registration: WebhookRegistration = WebhookRegistration {
        id,
        url: body.url,
        vault_id: body.vault_id,
        event_types: body.event_types,
        secret: body.secret,
        created_at: now,
        active: true,
    };
    let stored: WebhookRegistration = registration.clone();
    store.insert(registration.id.clone(), stored);
    Ok((STATUS_CREATED, registration))
}

/// Registers a webhook under a fresh identifier, at the time that the clock tells.
pub fn register_webhook(store: &mut WebhookStore, body: RegisterWebhookRequest) -> (reply: Result<
    (u16, WebhookRegistration),
    (u16, String),
>)
    ensures
        exists|id: Seq<char>, now: Timestamp| #[trigger]
            registers(*old(store), *final(store), body, id, now, reply) && was_drawn(id)
                && is_random_id(id) && now.told_by_clock(),
{
    let id: String = new_id();
    let now: Timestamp = Timestamp::now();
    register_webhook_as(store, body, id, now)
}

/// The subscriptions with texts as characters.
pub open spec fn registration_views(registrations: Seq<WebhookRegistration>) -> Seq<
    RegistrationView,
> {
    registrations.map_values(|registration: WebhookRegistration| registration@)
}

proof fn lemma_views_push(registrations: Seq<WebhookRegistration>, last: WebhookRegistration)
    ensures
        registration_views(registrations.push(last)) == registration_views(registrations).push(
            last@,
        ),
{
    assert(registration_views(registrations.push(last)) =~= registration_views(registrations).push(
        last@,
    ));
}

/// All subscriptions, those that are no longer active among them.
pub fn list_webhooks(store: &WebhookStore) -> (webhooks: Vec<WebhookRegistration>)
    ensures
        registration_views(webhooks@) == registration_views(store.values()),
{
    let mut webhooks: Vec<WebhookRegistration> = Vec::new();
    let mut i: usize = 0;
    while i < store.len()
        invariant
            i <= store.values().len(),
            registration_views(webhooks@) == registration_views(store.values().take(i as int)),
        decreases store.values().len() - i,
    {
        let webhook: WebhookRegistration = store.value_at(i).clone();
        proof {
            let values = store.values();
            lemma_views_push(webhooks@, webhook);
            lemma_views_push(values.take(i as int), values[i as int]);
            assert(values.take(i + 1) =~= values.take(i as int).push(values[i as int]));
        }
        webhooks.push(webhook);
        i = i + 1;
    }
    assert(store.values().take(store.values().len() as int) =~= store.values());
    webhooks
}

/// A subscription that is no longer active, and otherwise as before.
pub open spec fn deactivated(registration: RegistrationView) -> RegistrationView {
    RegistrationView { active: false, ..registration }
}

/// What a request to delete a webhook does and is answered: the webhook is deactivated, or, where
/// there is none with the identifier, nothing changes.
pub open spec fn deletes(
    before: WebhookStore,
    after: WebhookStore,
    id: Seq<char>,
    status: u16,
) -> bool {
    if before@.contains_key(id) {
        &&& status == STATUS_NO_CONTENT
        &&& exists|stored: WebhookRegistration| #[trigger]
            after.extends(before, id, stored) && stored@ == deactivated(before@[id]@)
    } else {
        &&& status == STATUS_NOT_FOUND
        &&& after == before
    }
}

/// Deactivates the webhook with an identifier. It stays in the store.
pub fn delete_webhook(store: &mut WebhookStore, id: &str) -> (status: u16)
    ensures
        deletes(*old(store), *final(store), id@, status),
{
    let found: Option<WebhookRegistration> = match store.get(id) {
        Some(registration) => Some(registration.clone()),
        None => None,
    };
    match found {
        Some(mut registration) => {
            registration.active = false;
            store.insert(id.to_owned(), registration);
            STATUS_NO_CONTENT
        },
        None => STATUS_NOT_FOUND,
    }
}

/// Whether a subscription wants to be told of an event of a vault: it is active, is for this
/// vault or for all, and is for this event or for all.
pub open spec fn wants(
    registration: RegistrationView,
    event_type: WebhookEventType,
    vault_id: Seq<char>,
) -> bool {
    &&& registration.active
    &&& registration.vault_id matches Some(vault) ==> vault == vault_id
    &&& registration.event_types.len() > 0 ==> registration.event_types.contains(event_type)
}

/// Which subscriptions want to be told of an event of a vault.
pub open spec fn wanted(event_type: WebhookEventType, vault_id: Seq<char>) -> spec_fn(
    WebhookRegistration,
) -> bool {
    |registration: WebhookRegistration| wants(registration@, event_type, vault_id)
}

/// Whether an event is in a list of events.
fn lists_event(events: &Vec<WebhookEventType>, event_type: WebhookEventType) -> (listed: bool)
    ensures
        listed == events@.contains(event_type),
{
    let mut i: usize = 0;
    while i < events.len()
        invariant
            i <= events@.len(),
            forall|j: int| 0 <= j < i ==> events@[j] != event_type,
        decreases events@.len() - i,
    {
        if events[i] == event_type {
            assert(events@[i as int] == event_type);
            return true;
        }
        i = i + 1;
    }
    false
}

/// Whether a subscription wants to be told of an event of a vault.
pub fn is_wanted(
    registration: &WebhookRegistration,
    event_type: WebhookEventType,
    vault_id: &str,
) -> (is: bool)
    ensures
        is == wants(registration@, event_type, vault_id@),
{
    if !registration.active {
        return false;
    }
    if registration.vault_id.is_some() && !same_opt_text(&registration.vault_id, vault_id) {
        return false;
    }
    if registration.event_types.len() > 0 && !lists_event(&registration.event_types, event_type) {
        return false;
    }
    true
}

/// What is sent of an event, and to whom.
#[derive(Debug)]
pub struct EventDelivery {
    pub payload: WebhookPayload,
    pub registrations: Vec<WebhookRegistration>,
}

/// Whether `delivery` tells those who want it of an event, under an identifier and at a time.
pub open spec fn delivers(
    delivery: EventDelivery,
    store: WebhookStore,
    event_type: WebhookEventType,
    vault_id: Seq<char>,
    data: Seq<char>,
    id: Seq<char>,
    now: Timestamp,
) -> bool {
    &&& delivery.payload.id@ == id
    &&& delivery.payload.event_type == event_type
    &&& delivery.payload.vault_id@ == vault_id
    &&& delivery.payload.timestamp == now
    &&& delivery.payload.data@ == data
    &&& registration_views(delivery.registrations@) == registration_views(
        store.values().filter(wanted(event_type, vault_id)),
    )
}

/// What to send of an event under an identifier and at a time, and to whom: each active webhook
/// that wants it, once.
pub fn deliver_event_as(
    store: &WebhookStore,
    event_type: WebhookEventType,
    vault_id: String,
    data: String,
    id: String,
    now: Timestamp,
) -> (delivery: EventDelivery)
    ensures
        delivers(delivery, *store, event_type, vault_id@, data@, id@, now),
{
    let ghost wanted = wanted(event_type, vault_id@);
    let mut registrations: Vec<WebhookRegistration> = Vec::new();
    let mut i: usize = 0;
    assert(store.values().take(0) =~= Seq::empty());
    assert(Seq::<WebhookRegistration>::empty().filter(wanted) =~= Seq::empty()) by {
        reveal(Seq::filter);
    }
    assert(registration_views(registrations@) =~= registration_views(
        store.values().take(0).filter(wanted),
    ));
    while i < store.len()
        invariant
            i <= store.values().len(),
            wanted == self::wanted(event_type, vault_id@),
            registration_views(registrations@) == registration_views(
                store.values().take(i as int).filter(wanted),
            ),
        decreases store.values().len() - i,
    {
        proof {
            lemma_filter_step(store.values(), wanted, i as int);
        }
        let registration: &WebhookRegistration = store.value_at(i);
        if is_wanted(registration, event_type, vault_id.as_str()) {
            let copy: WebhookRegistration = registration.clone();
            proof {
                lemma_views_push(registrations@, copy);
                lemma_views_push(store.values().take(i as int).filter(wanted), *registration);
            }
            registrations.push(copy);
        }
        i = i + 1;
    }
    assert(store.values().take(store.values().len() as int) =~= store.values());
    let payload: WebhookPayload = WebhookPayload { id, event_type, vault_id, timestamp: now, data };
    EventDelivery { payload, registrations }
}

/// What to send of an event under a fresh identifier and at the time that the clock tells,
/// and to whom.
pub fn deliver_event(
    store: &WebhookStore,
    event_type: WebhookEventType,
    vault_id: String,
    data: String,
) -> (delivery: EventDelivery)
    ensures
        exists|id: Seq<char>, now: Timestamp| #[trigger]
            delivers(delivery, *store, event_type, vault_id@, data@, id, now) && was_drawn(id)
                && is_random_id(id) && now.told_by_clock(),
{
    let id: String = new_id();
    let now: Timestamp = Timestamp::now();
    deliver_event_as(store, event_type, vault_id, data, id, now)
}

/// How often a failed delivery is tried again.
pub const MAX_RETRIES: u32 = 4;

/// How long to wait before the first retry, in milliseconds.
pub const BASE_DELAY_MS: u64 = 250;

/// How a delivery goes on.
#[derive(Debug, Clone, Copy, PartialEq, Eq, Structural)]
pub enum DeliveryStep {
    /// Wait, and then send the request for the time with this number, counted from zero.
    Send { attempt: u32, delay_ms: u64 },
    /// The request was received.
    Delivered,
    /// The request was not received, and is not sent again.
    Dropped,
}

/// How long to wait before an attempt: nothing before the first, and twice as long before each
/// retry as before the one that precedes it.
pub open spec fn delay_before(attempt: int) -> int {
    if attempt == 0 {
        0
    } else {
        BASE_DELAY_MS * pow2((attempt - 1) as nat)
    }
}

/// The step that sends the request for the time with this number.
pub open spec fn send_step(attempt: int) -> DeliveryStep {
    DeliveryStep::Send { attempt: attempt as u32, delay_ms: delay_before(attempt) as u64 }
}

/// Whether a reply says that the request was received: a status from 200 to 299.
pub open spec fn received(status: Option<u16>) -> bool {
    status matches Some(code) && 200 <= code <= 299
}

/// How a delivery goes on after an attempt, given the status of the reply if there was one.
pub open spec fn step_after(attempt: int, status: Option<u16>) -> DeliveryStep {
    if received(status) {
        DeliveryStep::Delivered
    } else if attempt < MAX_RETRIES {
        send_step(attempt + 1)
    } else {
        DeliveryStep::Dropped
    }
}

/// How long to wait before an attempt, in milliseconds.
fn delay_ms_before(attempt: u32) -> (delay_ms: u64)
    requires
        attempt <= MAX_RETRIES,
    ensures
        delay_ms == delay_before(attempt as int),
{
    if attempt == 0 {
        return 0;
    }
    proof {
        lemma2_to64();
        assert(1u64 << 0u32 == 1 && 1u64 << 1u32 == 2 && 1u64 << 2u32 == 4 && 1u64 << 3u32 == 8)
            by (bit_vector);
    }
    let shift: u32 = attempt - 1;
    assert(shift == 0 || shift == 1 || shift == 2 || shift == 3);
    BASE_DELAY_MS * (1u64 << shift)
}

/// The first step of a delivery.
pub fn begin_delivery() -> (step: DeliveryStep)
    ensures
        step == send_step(0),
{
    DeliveryStep::Send { attempt: 0, delay_ms: delay_ms_before(0) }
}

/// The step after an attempt, given the status of the reply if there was one.
pub fn attempt_delivery(attempt: u32, status: Option<u16>) -> (step: DeliveryStep)
    ensures
        step == step_after(attempt as int, status),
{
    if let Some(code) = status {
        if 200 <= code && code <= 299 {
            return DeliveryStep::Delivered;
        }
    }
    if attempt < MAX_RETRIES {
        DeliveryStep::Send { attempt: attempt + 1, delay_ms: delay_ms_before(attempt + 1) }
    } else {
        DeliveryStep::Dropped
    }
}

/// A request that carries an event.
#[derive(Debug)]
pub struct WebhookRequest {
    pub url: String,
    pub headers: Vec<(String, String)>,
    pub body: String,
}

/// The headers as characters.
pub open spec fn header_views(headers: Seq<(String, String)>) -> Seq<(Seq<char>, Seq<char>)> {
    headers.map_values(|header: (String, String)| (header.0@, header.1@))
}

pub const CONTENT_TYPE: &'static str = "Content-Type";

pub const JSON_CONTENT: &'static str = "application/json";

pub const EVENT_HEADER: &'static str = "X-Ethos-Event";

pub const DELIVERY_HEADER: &'static str = "X-Ethos-Delivery";

pub const SIGNATURE_HEADER: &'static str = "X-Ethos-Signature";

pub const SIGNATURE_PREFIX: &'static str = "sha256=";

/// The headers of a request: the kind of its body, the event and the delivery, and the signature
/// if there is a secret to sign with.
pub open spec fn request_headers(
    secret: Option<Seq<char>>,
    event_type: WebhookEventType,
    id: Seq<char>,
    body: Seq<char>,
) -> Seq<(Seq<char>, Seq<char>)> {
    let plain = seq![
        (CONTENT_TYPE@, JSON_CONTENT@),
        (EVENT_HEADER@, event_type.name()),
        (DELIVERY_HEADER@, id),
    ];
    match secret {
        Some(secret) => plain.push((SIGNATURE_HEADER@, SIGNATURE_PREFIX@ + signature(body, secret))),
        None => plain,
    }
}

/// The request that carries an event to a webhook. Its body is the payload as JSON text.
pub fn delivery_request(
    registration: &WebhookRegistration,
    payload: &WebhookPayload,
    body: &str,
) -> (request: WebhookRequest)
    ensures
        request.url@ == registration.url@,
        request.body@ == body@,
        header_views(request.headers@) == request_headers(
            opt_text(registration.secret),
            payload.event_type,
            payload.id@,
            body@,
        ),
{
    let mut headers: Vec<(String, String)> = Vec::new();
    headers.push((CONTENT_TYPE.to_owned(), JSON_CONTENT.to_owned()));
    headers.push((EVENT_HEADER.to_owned(), payload.event_type.as_str().to_owned()));
    headers.push((DELIVERY_HEADER.to_owned(), payload.id.clone()));
    match &registration.secret {
        Some(secret) => {
            let mut value: String = SIGNATURE_PREFIX.to_owned();
            let signed: String = sign_payload(body, secret.as_str());
            value.append(signed.as_str());
            headers.push((SIGNATURE_HEADER.to_owned(), value));
        },
        None => {},
    }
    assert(header_views(headers@) =~= request_headers(
        opt_text(registration.secret),
        payload.event_type,
        payload.id@,
        body@,
    ));
    WebhookRequest { url: registration.url.clone(), headers, body: body.to_owned() }
}

/// The tag that `Hmac<Sha256>` computes over a message with a key.
pub uninterp spec fn hmac_sha256(key: Seq<u8>, message: Seq<u8>) -> Seq<u8>;

/// `Hmac::<Sha256>::new_from_slice` takes the key, which may have any length, `update` the
/// message, and `finalize` and `into_bytes` hand out the tag of 32 bytes.
#[verifier::external_body]
fn hmac_tag(key: &[u8], message: &[u8]) -> (tag: Vec<u8>)
    ensures
        tag@ == hmac_sha256(key@, message@),
        tag@.len() == 32,
{
    let mut mac = Hmac::<Sha256>::new_from_slice(key).expect("HMAC accepts keys of any length");
    mac.update(message);
    mac.finalize().into_bytes().to_vec()
}

/// The hexadecimal digit of a number below sixteen, letters in lower case.
pub open spec fn hex_digit(n: int) -> char {
    if n < 10 {
        ('0' as int + n) as char
    } else {
        ('a' as int + n - 10) as char
    }
}

/// Bytes as hexadecimal text, two digits for each.
pub open spec fn hex_text(bytes: Seq<u8>) -> Seq<char> {
    Seq::new(
        2 * bytes.len(),
        |i: int|
            hex_digit(
                if i % 2 == 0 {
                    bytes[i / 2] as int / 16
                } else {
                    bytes[i / 2] as int % 16
                },
            ),
    )
}

/// The signature of a body with a secret: the HMAC-SHA256 of its bytes as hexadecimal text.
pub open spec fn signature(body: Seq<char>, secret: Seq<char>) -> Seq<char> {
    hex_text(hmac_sha256(encode_utf8(secret), encode_utf8(body)))
}

/// The hexadecimal digit of a number below sixteen.
fn digit(n: u8) -> (c: char)
    requires
        n < 16,
    ensures
        c == hex_digit(n as int),
{
    if n < 10 {
        (48 + n) as char
    } else {
        (87 + n) as char
    }
}

/// Writes bytes as hexadecimal text.
pub fn to_hex(bytes: &Vec<u8>) -> (text: String)
    ensures
        text@ == hex_text(bytes@),
{
    let mut text: String = String::new();
    let mut i: usize = 0;
    assert(text@ =~= hex_text(bytes@.take(0)));
    while i < bytes.len()
        invariant
            i <= bytes@.len(),
            text@ == hex_text(bytes@.take(i as int)),
        decreases bytes@.len() - i,
    {
        let byte: u8 = bytes[i];
        text.push(digit(byte / 16));
        text.push(digit(byte % 16));
        assert(text@ =~= hex_text(bytes@.take(i + 1)));
        i = i + 1;
    }
    assert(bytes@.take(bytes@.len() as int) =~= bytes@);
    text
}

/// Signs a body with a secret.
pub fn sign_payload(body: &str, secret: &str) -> (text: String)
    ensures
        text@ == signature(body@, secret@),
        text@ == hex_text(hmac_sha256(encode_utf8(secret@), encode_utf8(body@))),
        text@.len() == 64,
{
    let tag: Vec<u8> = hmac_tag(secret.as_bytes(), body.as_bytes());
    to_hex(&tag)
}

/// An event is delivered to exactly the webhooks that want it.
pub proof fn law_those_who_want_are_told(
    delivery: EventDelivery,
    store: WebhookStore,
    event_type: WebhookEventType,
    vault_id: Seq<char>,
    data: Seq<char>,
    id: Seq<char>,
    now: Timestamp,
)
    requires
        store.well_formed(),
        delivers(delivery, store, event_type, vault_id, data, id, now),
    ensures
        forall|key: Seq<char>| #[trigger]
            store@.contains_key(key) && wants(store@[key]@, event_type, vault_id)
                ==> registration_views(delivery.registrations@).contains(store@[key]@),
        forall|i: int|
            0 <= i < delivery.registrations@.len() ==> wants(
                (#[trigger] delivery.registrations@[i])@,
                event_type,
                vault_id,
            ) && exists|key: Seq<char>|
                store@.contains_key(key) && #[trigger] store@[key]@ == delivery.registrations@[i]@,
{
    broadcast use vstd::seq_lib::group_filter_ensures;

    let keep = wanted(event_type, vault_id);
    let told = store.values().filter(keep);
    store.lemma_places();
    assert(registration_views(told).len() == told.len());
    assert(registration_views(delivery.registrations@).len() == delivery.registrations@.len());
    assert forall|key: Seq<char>| #[trigger]
        store@.contains_key(key) && wants(
            store@[key]@,
            event_type,
            vault_id,
        ) implies registration_views(delivery.registrations@).contains(store@[key]@) by {
        let registration = store.values()[store.place(key)];
        assert(keep(registration));
        assert(told.contains(registration));
        let j = told.index_of(registration);
        assert(registration_views(told)[j] == registration@);
    }
    assert forall|i: int| 0 <= i < delivery.registrations@.len() implies wants(
        (#[trigger] delivery.registrations@[i])@,
        event_type,
        vault_id,
    ) && exists|key: Seq<char>|
        store@.contains_key(key) && #[trigger] store@[key]@ == delivery.registrations@[i]@ by {
        assert(registration_views(delivery.registrations@)[i] == delivery.registrations@[i]@);
        assert(registration_views(told)[i] == told[i]@);
        assert(keep(told[i]));
        assert(told.contains(told[i]));
        store.values().lemma_filter_contains_rev(keep, told[i]);
        let j = store.values().index_of(told[i]);
        assert(store.values()[j] == told[i]);
        let key = store.keys()[j];
        assert(store@.contains_pair(key, store.values()[j]));
        assert(store@[key]@ == delivery.registrations@[i]@);
    }
}

/// A webhook that was registered is stored as it was handed back, is told of the events its
/// request asks for, and leaves the webhooks under other identifiers as they were.
pub proof fn law_registered_webhook_is_told(
    before: WebhookStore,
    after: WebhookStore,
    body: RegisterWebhookRequest,
    id: Seq<char>,
    now: Timestamp,
    reply: Result<(u16, WebhookRegistration), (u16, String)>,
    event_type: WebhookEventType,
    vault_id: Seq<char>,
)
    requires
        registers(before, after, body, id, now, reply),
        reply is Ok,
    ensures
        after@.contains_key(id),
        after@[id]@ == reply->Ok_0.1@,
        wants(after@[id]@, event_type, vault_id) == {
            &&& opt_text(body.vault_id) is None || opt_text(body.vault_id) == Some(vault_id)
            &&& body.event_types@.len() == 0 || body.event_types@.contains(event_type)
        },
        after@.remove(id) == before@.remove(id),
{
    assert(after@.remove(id) =~= before@.remove(id));
}

/// A webhook that was deleted is told of no event any more, and the others are told of the same
/// events as before.
pub proof fn law_deleted_webhook_is_not_told(
    before: WebhookStore,
    after: WebhookStore,
    id: Seq<char>,
    stored: WebhookRegistration,
    event_type: WebhookEventType,
    vault_id: Seq<char>,
)
    requires
        before@.contains_key(id),
        after.extends(before, id, stored),
        stored@ == deactivated(before@[id]@),
    ensures
        !wants(after@[id]@, event_type, vault_id),
        after@.remove(id) == before@.remove(id),
{
    assert(after@.remove(id) =~= before@.remove(id));
}

/// A request about webhooks, with its answer.
pub enum WebhookCall {
    Register {
        body: RegisterWebhookRequest,
        id: Seq<char>,
        now: Timestamp,
        reply: Result<(u16, WebhookRegistration), (u16, String)>,
    },
    Delete { id: Seq<char>, status: u16 },
}

impl WebhookCall {
    /// Whether the request takes one store to another.
    pub open spec fn leads(self, before: WebhookStore, after: WebhookStore) -> bool {
        match self {
            WebhookCall::Register { body, id, now, reply } => registers(
                before,
                after,
                body,
                id,
                now,
                reply,
            ),
            WebhookCall::Delete { id, status } => deletes(before, after, id, status),
        }
    }

    /// Whether the request registered a webhook.
    pub open spec fn registered(self) -> bool {
        self matches WebhookCall::Register { reply, .. } && reply is Ok
    }

    /// The identifier that the request is about.
    pub open spec fn id(self) -> Seq<char> {
        match self {
            WebhookCall::Register { id, .. } => id,
            WebhookCall::Delete { id, .. } => id,
        }
    }

    /// The webhook that was registered, as it was handed back.
    pub open spec fn handed_back(self) -> RegistrationView {
        self->reply->Ok_0.1@
    }
}

/// Whether requests lead from an empty store through the given ones.
pub open spec fn is_run(calls: Seq<WebhookCall>, stores: Seq<WebhookStore>) -> bool {
    &&& stores.len() == calls.len() + 1
    &&& stores[0]@ == Map::<Seq<char>, WebhookRegistration>::empty()
    &&& stores[0].well_formed()
    &&& forall|i: int|
        0 <= i < calls.len() ==> (#[trigger] calls[i]).leads(stores[i], stores[i + 1])
}

/// Whether no two webhooks were registered under one identifier.
pub open spec fn ids_differ(calls: Seq<WebhookCall>) -> bool {
    forall|p: int, q: int|
        0 <= p < q < calls.len() && (#[trigger] calls[p]).registered() && (
        #[trigger] calls[q]).registered() ==> calls[p].id() != calls[q].id()
}

/// Whether a webhook that was registered at a place was deleted after that.
pub open spec fn deleted_since(calls: Seq<WebhookCall>, place: int) -> bool {
    exists|q: int|
        place < q < calls.len() && (#[trigger] calls[q]) is Delete && calls[q].id()
            == calls[place].id()
}

/// What is listed of a webhook that was registered at a place.
pub open spec fn listed_as(calls: Seq<WebhookCall>, place: int) -> RegistrationView {
    RegistrationView {
        active: !deleted_since(calls, place),
        ..calls[place].handed_back()
    }
}

/// After requests the store has each webhook that was registered, inactive if it was deleted, and
/// nothing else.
proof fn lemma_run_keeps_webhooks(calls: Seq<WebhookCall>, stores: Seq<WebhookStore>)
    requires
        is_run(calls, stores),
        ids_differ(calls),
    ensures
        stores.last().well_formed(),
        forall|p: int|
            0 <= p < calls.len() && (#[trigger] calls[p]).registered() ==> {
                &&& stores.last()@.contains_key(calls[p].id())
                &&& stores.last()@[calls[p].id()]@ == listed_as(calls, p)
                &&& calls[p].handed_back().id == calls[p].id()
            },
        forall|key: Seq<char>| #[trigger]
            stores.last()@.contains_key(key) ==> exists|p: int|
                0 <= p < calls.len() && (#[trigger] calls[p]).registered() && calls[p].id() == key,
    decreases calls.len(),
{
    if calls.len() > 0 {
        let n = calls.len() - 1;
        let earlier = calls.drop_last();
        let before = stores[n];
        let after = stores[n + 1];
        assert forall|i: int| 0 <= i < earlier.len() implies (#[trigger] earlier[i]).leads(
            stores.drop_last()[i],
            stores.drop_last()[i + 1],
        ) by {
            assert(calls[i].leads(stores[i], stores[i + 1]));
        }
        assert forall|p: int, q: int|
            0 <= p < q < earlier.len() && (#[trigger] earlier[p]).registered() && (
            #[trigger] earlier[q]).registered() implies earlier[p].id() != earlier[q].id() by {
            assert(calls[p].registered() && calls[q].registered());
        }
        lemma_run_keeps_webhooks(earlier, stores.drop_last());
        assert(stores.drop_last().last() == before);
        let call = calls[n];
        assert(call.leads(before, after));
        assert forall|p: int| 0 <= p < calls.len() && (#[trigger] calls[p]).registered() implies {
            &&& after@.contains_key(calls[p].id())
            &&& after@[calls[p].id()]@ == listed_as(calls, p)
            &&& calls[p].handed_back().id == calls[p].id()
        } by {
            if p < n {
                assert(earlier[p].registered());
                if call.registered() {
                    assert(calls[n].id() != calls[p].id());
                }
                let is_deleted = call is Delete && call.id() == calls[p].id();
                assert(deleted_since(calls, p) == (deleted_since(earlier, p) || is_deleted)) by {
                    if deleted_since(earlier, p) {
                        let q = choose|q: int|
                            p < q < earlier.len() && (#[trigger] earlier[q]) is Delete
                                && earlier[q].id() == earlier[p].id();
                        assert(calls[q] == earlier[q]);
                    }
                    if deleted_since(calls, p) {
                        let q = choose|q: int|
                            p < q < calls.len() && (#[trigger] calls[q]) is Delete
                                && calls[q].id() == calls[p].id();
                        if q < n {
                            assert(earlier[q] == calls[q]);
                        }
                    }
                    if is_deleted {
                        assert(calls[n] is Delete);
                    }
                }
            } else {
                assert(!deleted_since(calls, p));
            }
        }
        assert forall|key: Seq<char>| #[trigger] after@.contains_key(key) implies exists|p: int|
            0 <= p < calls.len() && (#[trigger] calls[p]).registered() && calls[p].id() == key by {
            if before@.contains_key(key) {
                let p = choose|p: int|
                    0 <= p < earlier.len() && (#[trigger] earlier[p]).registered()
                        && earlier[p].id() == key;
                assert(calls[p].registered());
            } else {
                assert(calls[n].registered());
            }
        }
    }
}

/// Whether a webhook is listed as one that was registered.
pub open spec fn was_registered(calls: Seq<WebhookCall>, webhook: RegistrationView) -> bool {
    exists|p: int|
        0 <= p < calls.len() && (#[trigger] calls[p]).registered() && webhook == listed_as(calls, p)
}

/// The webhook at a place of the list was registered under the key at that place of the store.
proof fn lemma_listed_webhook(
    calls: Seq<WebhookCall>,
    stores: Seq<WebhookStore>,
    webhooks: Vec<WebhookRegistration>,
    i: int,
)
    requires
        is_run(calls, stores),
        ids_differ(calls),
        registration_views(webhooks@) == registration_views(stores.last().values()),
        0 <= i < webhooks@.len(),
    ensures
        i < stores.last().keys().len(),
        webhooks@[i]@.id == stores.last().keys()[i],
        was_registered(calls, webhooks@[i]@),
{
    let store = stores.last();
    lemma_run_keeps_webhooks(calls, stores);
    store.lemma_places();
    assert(registration_views(webhooks@).len() == webhooks@.len());
    assert(registration_views(store.values()).len() == store.values().len());
    assert(registration_views(webhooks@)[i] == webhooks@[i]@);
    assert(registration_views(store.values())[i] == store.values()[i]@);
    let key = store.keys()[i];
    assert(store@.contains_pair(key, store.values()[i]));
    let p = choose|p: int|
        0 <= p < calls.len() && (#[trigger] calls[p]).registered() && calls[p].id() == key;
    assert(calls[p].registered());
    assert(webhooks@[i]@ == listed_as(calls, p));
}

/// A webhook that was registered is on the list.
proof fn lemma_registered_webhook(
    calls: Seq<WebhookCall>,
    stores: Seq<WebhookStore>,
    webhooks: Vec<WebhookRegistration>,
    p: int,
)
    requires
        is_run(calls, stores),
        ids_differ(calls),
        registration_views(webhooks@) == registration_views(stores.last().values()),
        0 <= p < calls.len(),
        calls[p].registered(),
    ensures
        registration_views(webhooks@).contains(listed_as(calls, p)),
{
    let store = stores.last();
    lemma_run_keeps_webhooks(calls, stores);
    store.lemma_places();
    assert(store@.contains_key(calls[p].id()));
    let i = store.place(calls[p].id());
    assert(registration_views(store.values())[i] == store.values()[i]@);
    assert(registration_views(webhooks@)[i] == listed_as(calls, p));
}

/// After any requests to register and delete webhooks, the list holds one webhook for each that
/// was registered, as it was handed back, but inactive exactly if it was deleted after that, and
/// no others. The identifiers of the registered webhooks must differ.
pub proof fn law_list_holds_what_was_registered(
    calls: Seq<WebhookCall>,
    stores: Seq<WebhookStore>,
    webhooks: Vec<WebhookRegistration>,
)
    requires
        is_run(calls, stores),
        ids_differ(calls),
        registration_views(webhooks@) == registration_views(stores.last().values()),
    ensures
        forall|p: int|
            0 <= p < calls.len() && (#[trigger] calls[p]).registered() ==> registration_views(
                webhooks@,
            ).contains(listed_as(calls, p)),
        forall|i: int|
            0 <= i < webhooks@.len() ==> was_registered(calls, (#[trigger] webhooks@[i])@),
        forall|i: int, j: int|
            0 <= i < j < webhooks@.len() ==> (#[trigger] webhooks@[i])@.id != (
            #[trigger] webhooks@[j])@.id,
{
    assert forall|p: int|
        0 <= p < calls.len() && (#[trigger] calls[p]).registered() implies registration_views(
        webhooks@,
    ).contains(listed_as(calls, p)) by {
        lemma_registered_webhook(calls, stores, webhooks, p);
    }
    assert forall|i: int| 0 <= i < webhooks@.len() implies was_registered(
        calls,
        (#[trigger] webhooks@[i])@,
    ) by {
        lemma_listed_webhook(calls, stores, webhooks, i);
    }
    assert forall|i: int, j: int| 0 <= i < j < webhooks@.len() implies (#[trigger] webhooks@[i])@.id
        != (#[trigger] webhooks@[j])@.id by {
        lemma_listed_webhook(calls, stores, webhooks, i);
        lemma_listed_webhook(calls, stores, webhooks, j);
        lemma_run_keeps_webhooks(calls, stores);
        stores.last().lemma_places();
    }
}

/// How a delivery ends that is at an attempt, if the replies to the attempts are these: its last
/// step, how many requests are sent, and how many milliseconds are waited between them.
pub open spec fn delivery_run(replies: spec_fn(int) -> Option<u16>, attempt: int) -> (
    DeliveryStep,
    int,
    int,
)
    decreases MAX_RETRIES - attempt,
{
    let next = step_after(attempt, replies(attempt));
    if next is Send && attempt < MAX_RETRIES {
        let rest = delivery_run(replies, attempt + 1);
        (rest.0, rest.1 + 1, rest.2 + next->delay_ms)
    } else {
        (next, 1, 0)
    }
}

/// A delivery ends with the first request that is received.
pub proof fn law_delivery_ends_when_received(replies: spec_fn(int) -> Option<u16>, first: int)
    requires
        0 <= first <= MAX_RETRIES,
        received(replies(first)),
        forall|k: int| 0 <= k < first ==> !received(#[trigger] replies(k)),
    ensures
        delivery_run(replies, 0) == (
            DeliveryStep::Delivered,
            first + 1,
            BASE_DELAY_MS * (pow2(first as nat) - 1),
        ),
{
    reveal_with_fuel(delivery_run, 6);
    lemma2_to64();
    assert(first == 0 || first == 1 || first == 2 || first == 3 || first == 4);
}

/// A delivery whose requests all fail is dropped after five of them and waits of 250, 500, 1000
/// and 2000 milliseconds.
pub proof fn law_delivery_is_dropped(replies: spec_fn(int) -> Option<u16>)
    requires
        forall|k: int| 0 <= k <= MAX_RETRIES ==> !received(#[trigger] replies(k)),
    ensures
        delivery_run(replies, 0) == (DeliveryStep::Dropped, 5int, 3750int),
        delay_before(1) == 250,
        delay_before(2) == 500,
        delay_before(3) == 1000,
        delay_before(4) == 2000,
{
    reveal_with_fuel(delivery_run, 6);
    lemma2_to64();
}

/// Bytes with the same hexadecimal text are the same, so that comparing signatures compares tags.
pub proof fn law_hex_text_tells_bytes_apart(a: Seq<u8>, b: Seq<u8>)
    requires
        hex_text(a) == hex_text(b),
    ensures
        a == b,
{
    assert(hex_text(a).len() == 2 * a.len() && hex_text(b).len() == 2 * b.len());
    assert forall|i: int| 0 <= i < a.len() implies a[i] == b[i] by {
        assert(hex_text(a)[2 * i] == hex_text(b)[2 * i]);
        assert(hex_text(a)[2 * i + 1] == hex_text(b)[2 * i + 1]);
        assert((2 * i) / 2 == i && (2 * i) % 2 == 0 && (2 * i + 1) / 2 == i && (2 * i + 1) % 2
            == 1);
        assert(hex_text(a)[2 * i] == hex_digit(a[i] as int / 16));
        assert(hex_text(b)[2 * i] == hex_digit(b[i] as int / 16));
        assert(hex_text(a)[2 * i + 1] == hex_digit(a[i] as int % 16));
        assert(hex_text(b)[2 * i + 1] == hex_digit(b[i] as int % 16));
    }
    assert(a =~= b);
}

} // verus!
