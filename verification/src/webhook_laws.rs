//! What the requests about webhooks do and are answered, who is told of an event, and what is sent
//! to them, told by the fields of the webhooks.

use crate::text::opt_text;
use crate::timestamp::Timestamp;
use crate::webhook::{
    attempt_delivery, begin_delivery, delete_webhook, deliver_event, deliver_event_as,
    delivery_request, header_views, hex_digit, hex_text, hmac_sha256, is_wanted,
    law_hex_text_tells_bytes_apart, list_webhooks, register_webhook, register_webhook_as,
    registration_views, sign_payload, to_hex, wanted, DeliveryStep, EventDelivery,
    RegisterWebhookRequest, RegistrationView, WebhookEventType, WebhookPayload, WebhookRegistration,
    WebhookRequest, WebhookStore,
};
use vstd::arithmetic::power2::lemma2_to64;
use vstd::prelude::*;
use vstd::utf8::encode_utf8;

verus! {

// ---- signatures ----

/// Whether a text writes bytes in hexadecimal: two digits for each byte, the higher one first.
pub open spec fn writes_in_hex(text: Seq<char>, bytes: Seq<u8>) -> bool {
    &&& text.len() == 2 * bytes.len()
    &&& forall|i: int|
        0 <= i < bytes.len() ==> {
            &&& text[2 * i] == "0123456789abcdef"@[(#[trigger] bytes[i]) as int / 16]
            &&& text[2 * i + 1] == "0123456789abcdef"@[bytes[i] as int % 16]
        }
}

proof fn lemma_hex_text_writes(bytes: Seq<u8>)
    ensures
        writes_in_hex(hex_text(bytes), bytes),
{
    reveal_strlit("0123456789abcdef");
    let text = hex_text(bytes);
    assert forall|i: int| 0 <= i < bytes.len() implies text[2 * i]
        == "0123456789abcdef"@[(#[trigger] bytes[i]) as int / 16] && text[2 * i + 1]
        == "0123456789abcdef"@[bytes[i] as int % 16] by {
        assert((2 * i) / 2 == i && (2 * i) % 2 == 0);
        assert((2 * i + 1) / 2 == i && (2 * i + 1) % 2 == 1);
        let high = bytes[i] as int / 16;
        let low = bytes[i] as int % 16;
        assert(0 <= high < 16 && 0 <= low < 16);
        lemma_hex_digit_in_list(high);
        lemma_hex_digit_in_list(low);
    }
}

proof fn lemma_hex_digit_in_list(n: int)
    requires
        0 <= n < 16,
    ensures
        hex_digit(n) == "0123456789abcdef"@[n],
{
    reveal_strlit("0123456789abcdef");
    assert(n == 0 || n == 1 || n == 2 || n == 3 || n == 4 || n == 5 || n == 6 || n == 7 || n == 8
        || n == 9 || n == 10 || n == 11 || n == 12 || n == 13 || n == 14 || n == 15);
}

/// Bytes are written digit by digit, and all of them.
pub proof fn law_hex_writes_every_byte(bytes: Vec<u8>, text: String)
    requires
        call_ensures(to_hex, (&bytes,), text),
    ensures
        writes_in_hex(text@, bytes@),
{
    lemma_hex_text_writes(bytes@);
}

/// A signature is the HMAC-SHA256 of all the bytes of the body, whatever their number, with all
/// the bytes of the secret as the key, in hexadecimal.
pub proof fn law_signature_covers_the_whole_body(body: &str, secret: &str, text: String)
    requires
        call_ensures(sign_payload, (body, secret), text),
    ensures
        text@ == hex_text(hmac_sha256(encode_utf8(secret@), encode_utf8(body@))),
        writes_in_hex(text@, hmac_sha256(encode_utf8(secret@), encode_utf8(body@))),
        text@.len() == 64,
{
    lemma_hex_text_writes(hmac_sha256(encode_utf8(secret@), encode_utf8(body@)));
}

/// Bodies are signed alike with secrets only if their tags are the same: a signature tells of
/// every byte that the tag tells of.
pub proof fn law_equal_signatures_have_equal_tags(
    body: &str,
    secret: &str,
    text: String,
    other_body: &str,
    other_secret: &str,
    other_text: String,
)
    requires
        call_ensures(sign_payload, (body, secret), text),
        call_ensures(sign_payload, (other_body, other_secret), other_text),
    ensures
        text@ == other_text@ <==> hmac_sha256(encode_utf8(secret@), encode_utf8(body@))
            == hmac_sha256(encode_utf8(other_secret@), encode_utf8(other_body@)),
{
    let tag = hmac_sha256(encode_utf8(secret@), encode_utf8(body@));
    let other_tag = hmac_sha256(encode_utf8(other_secret@), encode_utf8(other_body@));
    if text@ == other_text@ {
        law_hex_text_tells_bytes_apart(tag, other_tag);
    }
}

/// A request goes to the URL of the webhook with the body as it is. Its headers tell that the body
/// is JSON, the event and the delivery. With a secret there is one more, the signature of the
/// request's own body; without one there is none.
pub proof fn law_request_carries_and_signs_its_body(
    registration: WebhookRegistration,
    payload: WebhookPayload,
    body: &str,
    request: WebhookRequest,
    signed: String,
)
    requires
        call_ensures(delivery_request, (&registration, &payload, body), request),
        registration.secret matches Some(secret) ==> signed@ == hex_text(
            hmac_sha256(encode_utf8(secret@), encode_utf8(request.body@)),
        ),
    ensures
        request.url@ == registration.url@,
        request.body@ == body@,
        request.headers@.len() == if registration.secret is Some {
            4int
        } else {
            3
        },
        request.headers@[0].0@ == "Content-Type"@,
        request.headers@[0].1@ == "application/json"@,
        request.headers@[1].0@ == "X-Ethos-Event"@,
        forall|name: &str| #[trigger]
            call_ensures(WebhookEventType::as_str, (&payload.event_type,), name)
                ==> request.headers@[1].1@ == name@,
        request.headers@[2].0@ == "X-Ethos-Delivery"@,
        request.headers@[2].1@ == payload.id@,
        registration.secret is Some ==> {
            &&& request.headers@[3].0@ == "X-Ethos-Signature"@
            &&& request.headers@[3].1@ == "sha256="@ + signed@
        },
{
    let views = header_views(request.headers@);
    assert(views.len() == request.headers@.len());
    assert forall|i: int| 0 <= i < views.len() implies views[i] == (
        (#[trigger] request.headers@[i]).0@,
        request.headers@[i].1@,
    ) by {}
    assert(views[0] == (request.headers@[0].0@, request.headers@[0].1@));
    assert(views[1] == (request.headers@[1].0@, request.headers@[1].1@));
    assert(views[2] == (request.headers@[2].0@, request.headers@[2].1@));
    if registration.secret is Some {
        assert(views[3] == (request.headers@[3].0@, request.headers@[3].1@));
    }
}

/// Different events are told by different names.
pub proof fn law_events_have_different_names(
    event: WebhookEventType,
    name: &'static str,
    other: WebhookEventType,
    other_name: &'static str,
)
    requires
        call_ensures(WebhookEventType::as_str, (&event,), name),
        call_ensures(WebhookEventType::as_str, (&other,), other_name),
        event != other,
    ensures
        name@ != other_name@,
{
    reveal_strlit("VaultCreated");
    reveal_strlit("VaultCheckedIn");
    reveal_strlit("VaultReleased");
    reveal_strlit("VaultDeposit");
    reveal_strlit("VaultWithdrawal");
    reveal_strlit("BeneficiaryUpdated");
    reveal_strlit("VaultPaused");
    reveal_strlit("VaultResumed");
    if name@ == other_name@ {
        assert(name@.len() == other_name@.len());
        assert(name@[5] == other_name@[5]);
        assert(name@[6] == other_name@[6]);
        assert(name@[7] == other_name@[7]);
    }
}

// ---- who is told ----

/// A webhook is told of an event of a vault exactly if it is active, is for no vault in particular
/// or for this one, and is for no events in particular or for this one among others. Each of these
/// by itself keeps it from being told.
pub proof fn law_wanted_events(
    registration: WebhookRegistration,
    event_type: WebhookEventType,
    vault_id: &str,
    told: bool,
)
    requires
        call_ensures(is_wanted, (&registration, event_type, vault_id), told),
    ensures
        !registration.active ==> !told,
        registration.vault_id is Some && registration.vault_id->Some_0@ != vault_id@ ==> !told,
        registration.event_types@.len() > 0 && !registration.event_types@.contains(event_type)
            ==> !told,
        registration.active && (registration.vault_id is None || registration.vault_id->Some_0@
            == vault_id@) && (registration.event_types@.len() == 0
            || registration.event_types@.contains(event_type)) ==> told,
{
}

/// What is sent of an event tells the event, the vault, the data, the identifier and the time as
/// they are. It goes to the webhooks of the store that are active, are for no vault in particular
/// or for this one, and are for no events in particular or for this one, in the order of the
/// store, and to no others.
pub proof fn law_delivery_goes_to_those_who_ask(
    store: WebhookStore,
    event_type: WebhookEventType,
    vault_id: String,
    data: String,
    id: String,
    now: Timestamp,
    delivery: EventDelivery,
)
    requires
        call_ensures(deliver_event_as, (&store, event_type, vault_id, data, id, now), delivery),
    ensures
        delivery.payload.event_type == event_type,
        delivery.payload.vault_id@ == vault_id@,
        delivery.payload.data@ == data@,
        delivery.payload.id@ == id@,
        delivery.payload.timestamp == now,
        registration_views(delivery.registrations@) == registration_views(
            store.values().filter(
                |webhook: WebhookRegistration|
                    {
                        &&& webhook.active
                        &&& webhook.vault_id is None || webhook.vault_id->Some_0@ == vault_id@
                        &&& webhook.event_types@.len() == 0 || webhook.event_types@.contains(
                            event_type,
                        )
                    },
            ),
        ),
{
    let asks = |webhook: WebhookRegistration|
        {
            &&& webhook.active
            &&& webhook.vault_id is None || webhook.vault_id->Some_0@ == vault_id@
            &&& webhook.event_types@.len() == 0 || webhook.event_types@.contains(event_type)
        };
    assert(wanted(event_type, vault_id@) =~= asks);
}

// ---- registering, listing and deleting ----

/// A request without a URL is refused with 422 and changes nothing. Any other is answered with 201
/// and the webhook it asks for, active, under the identifier and made at the time; the same webhook
/// is then in the store under the identifier, and what was under other identifiers is as before.
pub proof fn law_register_webhook(
    store: &mut WebhookStore,
    body: RegisterWebhookRequest,
    id: String,
    now: Timestamp,
    reply: Result<(u16, WebhookRegistration), (u16, String)>,
)
    requires
        call_ensures(register_webhook_as, (store, body, id, now), reply),
    ensures
        body.url@.len() == 0 ==> {
            &&& reply is Err
            &&& reply->Err_0.0 == 422
            &&& reply->Err_0.1@ == "url must not be empty"@
            &&& *final(store) == *old(store)
        },
        body.url@.len() > 0 ==> {
            &&& reply is Ok
            &&& reply->Ok_0.0 == 201
            &&& reply->Ok_0.1@ == (RegistrationView {
                id: id@,
                url: body.url@,
                vault_id: opt_text(body.vault_id),
                event_types: body.event_types@,
                secret: opt_text(body.secret),
                created_at: now,
                active: true,
            })
            &&& final(store)@.contains_key(id@)
            &&& final(store)@[id@]@ == reply->Ok_0.1@
            &&& final(store)@.remove(id@) == old(store)@.remove(id@)
        },
{
    if body.url@.len() > 0 {
        assert(final(store)@.remove(id@) =~= old(store)@.remove(id@));
    }
}

/// A webhook that is deleted stays in the store with everything it had, but no longer active, and
/// the others are as before; the answer is 204. Where there is none with the identifier nothing
/// changes, and the answer is 404.
pub proof fn law_delete_webhook(store: &mut WebhookStore, id: &str, status: u16)
    requires
        call_ensures(delete_webhook, (store, id), status),
    ensures
        !old(store)@.contains_key(id@) ==> status == 404 && *final(store) == *old(store),
        old(store)@.contains_key(id@) ==> {
            let was = old(store)@[id@]@;
            let left = final(store)@[id@]@;
            &&& status == 204
            &&& final(store)@.contains_key(id@)
            &&& !left.active
            &&& left.id == was.id
            &&& left.url == was.url
            &&& left.vault_id == was.vault_id
            &&& left.event_types == was.event_types
            &&& left.secret == was.secret
            &&& left.created_at == was.created_at
            &&& final(store)@.remove(id@) == old(store)@.remove(id@)
        },
{
    if old(store)@.contains_key(id@) {
        assert(final(store)@.remove(id@) =~= old(store)@.remove(id@));
    }
}

/// The list has every webhook of the store, active or not, in the order of the store.
pub proof fn law_list_has_every_webhook(store: WebhookStore, webhooks: Vec<WebhookRegistration>)
    requires
        call_ensures(list_webhooks, (&store,), webhooks),
    ensures
        webhooks@.len() == store.values().len(),
        forall|i: int| 0 <= i < webhooks@.len() ==> (#[trigger] webhooks@[i])@ == store.values()[i]@,
{
    let listed = registration_views(webhooks@);
    let stored = registration_views(store.values());
    assert(listed.len() == webhooks@.len() && stored.len() == store.values().len());
    assert forall|i: int| 0 <= i < webhooks@.len() implies (#[trigger] webhooks@[i])@
        == store.values()[i]@ by {
        assert(listed[i] == webhooks@[i]@);
        assert(stored[i] == store.values()[i]@);
    }
}

// ---- trying again ----

/// A delivery begins with the first request, at once.
pub proof fn law_delivery_begins_at_once(step: DeliveryStep)
    requires
        call_ensures(begin_delivery, (), step),
    ensures
        step == (DeliveryStep::Send { attempt: 0, delay_ms: 0 }),
{
}

/// A reply with a status from 200 to 299 ends a delivery. Any other reply, and none, leads to the
/// next request, up to the fifth; after that the delivery is dropped.
pub proof fn law_reply_decides_how_to_go_on(attempt: u32, status: Option<u16>, step: DeliveryStep)
    requires
        call_ensures(attempt_delivery, (attempt, status), step),
    ensures
        status is Some && 200 <= status->Some_0 <= 299 ==> step is Delivered,
        !(status is Some && 200 <= status->Some_0 <= 299) && attempt >= 4 ==> step is Dropped,
        !(status is Some && 200 <= status->Some_0 <= 299) && attempt < 4 ==> step is Send
            && step->attempt == attempt + 1,
{
}

/// The wait before the first retry is 250 milliseconds, and before each further one twice as long
/// as before the last, whatever the replies were.
pub proof fn law_waits_double(
    attempt: u32,
    status: Option<u16>,
    step: DeliveryStep,
    next_status: Option<u16>,
    next: DeliveryStep,
)
    requires
        call_ensures(attempt_delivery, (attempt, status), step),
        step is Send,
        call_ensures(attempt_delivery, (step->attempt, next_status), next),
    ensures
        attempt == 0 ==> step->delay_ms == 250,
        next is Send ==> next->delay_ms == 2 * step->delay_ms,
{
    lemma2_to64();
    assert(attempt == 0 || attempt == 1 || attempt == 2 || attempt == 3);
}

// ---- under a fresh identifier, at the time of the clock ----

/// A webhook that is registered without a URL is refused with 422, and nothing changes. Otherwise
/// it is answered with 201 and what the request asks for, under an identifier of its own, and
/// stored under that identifier; what was under other identifiers is as before.
pub proof fn law_register_webhook_now(
    store: &mut WebhookStore,
    body: RegisterWebhookRequest,
    reply: Result<(u16, WebhookRegistration), (u16, String)>,
)
    requires
        call_ensures(register_webhook, (store, body), reply),
    ensures
        body.url@.len() == 0 ==> {
            &&& reply is Err
            &&& reply->Err_0.0 == 422
            &&& reply->Err_0.1@ == "url must not be empty"@
            &&& *final(store) == *old(store)
        },
        body.url@.len() > 0 ==> {
            let made = reply->Ok_0.1@;
            &&& reply is Ok
            &&& reply->Ok_0.0 == 201
            &&& made.id.len() == 36
            &&& made.url == body.url@
            &&& made.vault_id == opt_text(body.vault_id)
            &&& made.event_types == body.event_types@
            &&& made.secret == opt_text(body.secret)
            &&& made.created_at.secs() >= 0
            &&& made.active
            &&& final(store)@.contains_key(made.id)
            &&& final(store)@[made.id]@ == made
            &&& final(store)@.remove(made.id) == old(store)@.remove(made.id)
        },
{
    if body.url@.len() > 0 {
        let made = reply->Ok_0.1@;
        assert(final(store)@.remove(made.id) =~= old(store)@.remove(made.id));
    }
}

/// What is sent of an event now tells the event, the vault and the data as they are, under an
/// identifier of its own, and goes to the webhooks of the store that ask for it, in order.
pub proof fn law_delivery_now_goes_to_those_who_ask(
    store: WebhookStore,
    event_type: WebhookEventType,
    vault_id: String,
    data: String,
    delivery: EventDelivery,
)
    requires
        call_ensures(deliver_event, (&store, event_type, vault_id, data), delivery),
    ensures
        delivery.payload.event_type == event_type,
        delivery.payload.vault_id@ == vault_id@,
        delivery.payload.data@ == data@,
        delivery.payload.id@.len() == 36,
        delivery.payload.timestamp.secs() >= 0,
        registration_views(delivery.registrations@) == registration_views(
            store.values().filter(
                |webhook: WebhookRegistration|
                    {
                        &&& webhook.active
                        &&& webhook.vault_id is None || webhook.vault_id->Some_0@ == vault_id@
                        &&& webhook.event_types@.len() == 0 || webhook.event_types@.contains(
                            event_type,
                        )
                    },
            ),
        ),
{
    let asks = |webhook: WebhookRegistration|
        {
            &&& webhook.active
            &&& webhook.vault_id is None || webhook.vault_id->Some_0@ == vault_id@
            &&& webhook.event_types@.len() == 0 || webhook.event_types@.contains(event_type)
        };
    assert(wanted(event_type, vault_id@) =~= asks);
}

} // verus!
