//! What delivering an event comes to.

use crate::delivery;
use crate::delivery::{
    Delivery, DeliveryReply, HeaderView, SendReply, SendingView, Unsent, MAX_ACK_BYTES, MAX_ATTEMPTS,
};
use crate::event::EventView;
use crate::fault::{Action, Fault, Notice};
use crate::outbox::OutboxView;
use crate::outside;
use crate::outside::{JsonMemberView, SigningFailure};
use vstd::prelude::*;

verus! {

/// The answer `bytes` accepts exactly the event `id`.
pub open spec fn accepts(bytes: Seq<u8>, id: Seq<char>) -> bool {
    &&& bytes.len() <= MAX_ACK_BYTES
    &&& outside::parsed_json_member(bytes, "accepted"@) == Some(JsonMemberView::Flag(true))
    &&& outside::parsed_json_member(bytes, "event_id"@) == Some(JsonMemberView::Text(id))
}

/// A reply that announces success and an answer that is not too long.
pub open spec fn announces_success(reply: SendReply) -> bool {
    reply matches SendReply::Response { status, length, .. } && 200 <= status < 300 && (length
        matches Some(length) ==> length <= MAX_ACK_BYTES)
}

/// What holds of a stage that is reached.
pub open spec fn sending_is_sound(sending: SendingView, id: Seq<char>, replies: Seq<SendReply>) -> bool {
    match sending {
        SendingView::Request { .. } => true,
        SendingView::Chunk { bytes } => bytes.len() <= MAX_ACK_BYTES && exists|i: int|
            0 <= i < replies.len() && #[trigger] announces_success(replies[i]),
        SendingView::Done(Ok(())) => {
            &&& exists|bytes: Seq<u8>| #[trigger] accepts(bytes, id)
            &&& exists|i: int| 0 <= i < replies.len() && #[trigger] announces_success(replies[i])
        },
        SendingView::Done(Err(_)) => true,
    }
}

/// Whatever comes back, an event counts as accepted only where the relay announced success and
/// accepted exactly this event, in an answer that is no longer than is read.
pub proof fn law_only_exact_acceptance_counts(
    url: Seq<char>,
    headers: Seq<HeaderView>,
    body: Seq<u8>,
    id: Seq<char>,
    replies: Seq<SendReply>,
)
    ensures
        sending_is_sound(
            (SendingView::Request { url, headers, body }).after_all(id, replies),
            id,
            replies,
        ),
    decreases replies.len(),
{
    if replies.len() > 0 {
        let before = replies.drop_last();
        law_only_exact_acceptance_counts(url, headers, body, id, before);
        let sending = (SendingView::Request { url, headers, body }).after_all(id, before);
        let last = replies.len() - 1;
        assert(announces_success(replies.last()) == announces_success(replies[last]));
        if exists|i: int| 0 <= i < before.len() && #[trigger] announces_success(before[i]) {
            let i = choose|i: int| 0 <= i < before.len() && #[trigger] announces_success(before[i]);
            assert(announces_success(replies[i]));
        }
        if let SendingView::Chunk { bytes } = sending {
            assert(accepts(bytes, id) == (bytes.len() <= MAX_ACK_BYTES && delivery::answer_judged(
                bytes,
                id,
            ) is Ok));
        }
    }
}

/// An answer that comes in pieces is read as a whole, as long as it is not too long.
pub proof fn law_answer_is_read_whole(bytes: Seq<u8>, id: Seq<char>, a: Vec<u8>, b: Vec<u8>)
    requires
        bytes.len() + a@.len() + b@.len() <= MAX_ACK_BYTES,
    ensures
        (SendingView::Chunk { bytes }).after(id, SendReply::Chunk(a)).after(
            id,
            SendReply::Chunk(b),
        ).after(id, SendReply::End) == SendingView::Done(
            delivery::answer_judged(bytes + (a@ + b@), id),
        ),
{
    assert(bytes + a@ + b@ =~= bytes + (a@ + b@));
}

/// Which failures may be tried again: those of the network, those for want of time, too many
/// requests, and those of the server.
pub proof fn law_which_failures_are_retried(
    url: Seq<char>,
    headers: Seq<HeaderView>,
    body: Seq<u8>,
    id: Seq<char>,
    status: u16,
    text: String,
    length: Option<u64>,
)
    requires
        !(200 <= status < 300),
    ensures
        ({
            let request = SendingView::Request { url, headers, body };
            &&& request.after(id, SendReply::TimedOut) matches SendingView::Done(Err(unsent))
                && unsent.retryable
            &&& request.after(id, (SendReply::Failed { text })) matches SendingView::Done(Err(unsent))
                && unsent.retryable
            &&& request.after(id, (SendReply::Response { status, text, length }))
                matches SendingView::Done(Err(unsent)) && unsent.retryable == (status == 429 || 500
                <= status < 600)
        }),
{
}

/// The stage after an attempt and, where another one follows, the time before it.
pub open spec fn attempted(delivery: Delivery, outcome: Result<(), Unsent>) -> Delivery {
    let sent = delivery.after(DeliveryReply::Sent(outcome));
    if sent is Wait {
        sent.after(DeliveryReply::Waited)
    } else {
        sent
    }
}

/// The stage after several attempts.
pub open spec fn all_attempted(delivery: Delivery, outcomes: Seq<Result<(), Unsent>>) -> Delivery
    decreases outcomes.len(),
{
    if outcomes.len() == 0 {
        delivery
    } else {
        attempted(all_attempted(delivery, outcomes.drop_last()), outcomes.last())
    }
}

/// After attempts that may all be made again the same body is sent again, as long as attempts are
/// left; the last of them ends the delivery, with its own fault, and the event is retained.
pub proof fn law_delivery_is_retried(body: Vec<u8>, outcomes: Seq<Result<(), Unsent>>)
    requires
        0 < outcomes.len() <= MAX_ATTEMPTS,
        forall|i: int|
            0 <= i < outcomes.len() ==> (#[trigger] outcomes[i] matches Err(unsent)
                && unsent.retryable),
    ensures
        all_attempted((Delivery::Send { attempt: 0, body }), outcomes) == (if outcomes.len()
            < MAX_ATTEMPTS {
            Delivery::Send { attempt: outcomes.len() as usize, body }
        } else {
            Delivery::Done(
                Err(Fault::RetainedEvent { cause: Box::new(outcomes.last()->Err_0.fault) }),
            )
        }),
    decreases outcomes.len(),
{
    let before = outcomes.drop_last();
    assert(outcomes.last() == outcomes[outcomes.len() - 1]);
    assert(outcomes.last() matches Err(unsent) && unsent.retryable);
    if before.len() > 0 {
        assert forall|i: int| 0 <= i < before.len() implies (#[trigger] before[i] matches Err(unsent)
            && unsent.retryable) by {
            assert(before[i] == outcomes[i]);
        }
        law_delivery_is_retried(body, before);
    } else {
        assert(all_attempted((Delivery::Send { attempt: 0, body }), before) == (Delivery::Send {
            attempt: 0,
            body,
        }));
    }
}

/// An event that is accepted is delivered, at whichever attempt; a failure that may not be tried
/// again ends the delivery, and the event is retained.
pub proof fn law_delivery_ends(attempt: usize, body: Vec<u8>, unsent: Unsent)
    requires
        !unsent.retryable,
    ensures
        attempted((Delivery::Send { attempt, body }), Ok(())) == Delivery::Done(Ok(())),
        attempted((Delivery::Send { attempt, body }), Err(unsent)) == Delivery::Done(
            Err((Fault::RetainedEvent { cause: Box::new(unsent.fault) })),
        ),
{
}

/// Before the second attempt a quarter of a second is waited, before the third half a second.
pub proof fn law_waiting_doubles(body: Vec<u8>, unsent: Unsent)
    requires
        unsent.retryable,
    ensures
        (Delivery::Send { attempt: 0, body }).after(DeliveryReply::Sent(Err(unsent)))
            == (Delivery::Wait { attempt: 1, millis: 250, body }),
        (Delivery::Send { attempt: 1, body }).after(DeliveryReply::Sent(Err(unsent)))
            == (Delivery::Wait { attempt: 2, millis: 500, body }),
{
    vstd::arithmetic::power2::lemma2_to64();
}

/// How the status of an answer and its announced length decide: success that is not too long is read,
/// another status is a failure that may be tried again where the relay has too much to do or failed
/// itself, and an answer that is too long is refused for good.
pub proof fn law_response_decides(
    url: Seq<char>,
    headers: Seq<HeaderView>,
    body: Seq<u8>,
    id: Seq<char>,
    status: u16,
    text: String,
    length: Option<u64>,
)
    ensures
        ({
            let after = (SendingView::Request { url, headers, body }).after(
                id,
                (SendReply::Response { status, text, length }),
            );
            let is_success = 200 <= status <= 299;
            let is_short = length is None || length->0 <= 16384;
            &&& is_success && is_short <==> after == (SendingView::Chunk { bytes: Seq::empty() })
            &&& !is_success <==> after == SendingView::Done(
                Err(
                    Unsent {
                        fault: Fault::Status { text },
                        retryable: status == 429 || 500 <= status <= 599,
                    },
                ),
            )
            &&& is_success && !is_short <==> after == SendingView::Done(
                Err(Unsent { fault: Fault::Notice(Notice::AckTooLong), retryable: false }),
            )
        }),
{
}

/// A piece of an answer is kept behind what was read, up to the limit and not beyond.
pub proof fn law_pieces_are_kept_up_to_the_limit(bytes: Seq<u8>, id: Seq<char>, more: Vec<u8>)
    ensures
        bytes.len() + more@.len() <= 16384 ==> (SendingView::Chunk { bytes }).after(
            id,
            SendReply::Chunk(more),
        ) == (SendingView::Chunk { bytes: bytes + more@ }),
        bytes.len() + more@.len() > 16384 ==> (SendingView::Chunk { bytes }).after(
            id,
            SendReply::Chunk(more),
        ) == SendingView::Done(
            Err((Unsent { fault: Fault::Notice(Notice::AckTooLong), retryable: false })),
        ),
{
}

/// A complete answer accepts the event exactly where its member `accepted` is true and its member
/// `event_id` is the identifier of the event; what is no JSON, and what says anything else, is refused
/// for good.
pub proof fn law_complete_answer_decides(bytes: Seq<u8>, id: Seq<char>)
    ensures
        ({
            let accepted = outside::parsed_json_member(bytes, "accepted"@);
            let event_id = outside::parsed_json_member(bytes, "event_id"@);
            let after = (SendingView::Chunk { bytes }).after(id, SendReply::End);
            &&& accepted == Some(JsonMemberView::Flag(true)) && event_id == Some(
                JsonMemberView::Text(id),
            ) <==> after == SendingView::Done(Ok(()))
            &&& accepted is None || event_id is None <==> after == SendingView::Done(
                Err(Unsent { fault: Fault::Notice(Notice::AckNotJson), retryable: false }),
            )
            &&& accepted is Some && event_id is Some && !(accepted == Some(
                JsonMemberView::Flag(true),
            ) && event_id == Some(JsonMemberView::Text(id))) <==> after == SendingView::Done(
                Err(Unsent { fault: Fault::Notice(Notice::AckMismatch), retryable: false }),
            )
        }),
{
}

/// The pieces of an answer as one text.
pub open spec fn joined(pieces: Seq<Vec<u8>>) -> Seq<u8>
    decreases pieces.len(),
{
    if pieces.len() == 0 {
        Seq::empty()
    } else {
        joined(pieces.drop_last()) + pieces.last()@
    }
}

/// The stage after several pieces of an answer came in.
pub open spec fn pieces_read(sending: SendingView, id: Seq<char>, pieces: Seq<Vec<u8>>) -> SendingView
    decreases pieces.len(),
{
    if pieces.len() == 0 {
        sending
    } else {
        pieces_read(sending, id, pieces.drop_last()).after(id, SendReply::Chunk(pieces.last()))
    }
}

proof fn lemma_pieces_are_read(id: Seq<char>, pieces: Seq<Vec<u8>>)
    requires
        joined(pieces).len() <= 16384,
    ensures
        pieces_read((SendingView::Chunk { bytes: Seq::empty() }), id, pieces) == (
        SendingView::Chunk { bytes: joined(pieces) }),
    decreases pieces.len(),
{
    if pieces.len() > 0 {
        lemma_pieces_are_read(id, pieces.drop_last());
        law_pieces_are_kept_up_to_the_limit(joined(pieces.drop_last()), id, pieces.last());
    }
}

/// Success is owed: a relay that answers with a status of success, announces no length or one within
/// the limit, and accepts exactly this event in pieces that together stay within the limit, has
/// accepted the event.
pub proof fn law_accepted_event_counts(
    url: Seq<char>,
    headers: Seq<HeaderView>,
    body: Seq<u8>,
    id: Seq<char>,
    status: u16,
    text: String,
    length: Option<u64>,
    pieces: Seq<Vec<u8>>,
)
    requires
        200 <= status <= 299,
        length is None || length->0 <= 16384,
        joined(pieces).len() <= 16384,
    ensures
        outside::parsed_json_member(joined(pieces), "accepted"@) == Some(JsonMemberView::Flag(true))
            && outside::parsed_json_member(joined(pieces), "event_id"@) == Some(
            JsonMemberView::Text(id),
        ) ==> pieces_read(
            (SendingView::Request { url, headers, body }).after(
                id,
                (SendReply::Response { status, text, length }),
            ),
            id,
            pieces,
        ).after(id, SendReply::End) == SendingView::Done(Ok(())),
{
    law_response_decides(url, headers, body, id, status, text, length);
    lemma_pieces_are_read(id, pieces);
    law_complete_answer_decides(joined(pieces), id);
}

/// A failure of the network, or of time, may be tried again, and is said to be what it is. A request
/// that is over stays as it ended, and what does not belong to a stage changes nothing.
pub proof fn law_request_fails_and_ends(
    url: Seq<char>,
    headers: Seq<HeaderView>,
    body: Seq<u8>,
    bytes: Seq<u8>,
    id: Seq<char>,
    text: String,
    status: u16,
    length: Option<u64>,
    more: Vec<u8>,
    outcome: Result<(), Unsent>,
    reply: SendReply,
)
    ensures
        ({
            let request = SendingView::Request { url, headers, body };
            let reading = SendingView::Chunk { bytes };
            let late = SendingView::Done(
                Err(Unsent { fault: Fault::Notice(Notice::RequestTimedOut), retryable: true }),
            );
            &&& request.after(id, SendReply::TimedOut) == late
            &&& reading.after(id, SendReply::TimedOut) == late
            &&& request.after(id, (SendReply::Failed { text })) == SendingView::Done(
                Err(
                    Unsent { fault: Fault::Os { action: Action::Transport, text }, retryable: true },
                ),
            )
            &&& reading.after(id, (SendReply::Failed { text })) == SendingView::Done(
                Err(
                    Unsent {
                        fault: Fault::Os { action: Action::AckTransport, text },
                        retryable: true,
                    },
                ),
            )
            &&& request.after(id, SendReply::Chunk(more)) == request
            &&& request.after(id, SendReply::End) == request
            &&& reading.after(id, (SendReply::Response { status, text, length })) == reading
            &&& SendingView::Done(outcome).after(id, reply) == SendingView::Done(outcome)
        }),
{
}

/// Answers to another question leave a delivery as it is, and one that is over stays so.
pub proof fn law_delivery_waits_for_its_answer(
    attempt: usize,
    millis: u64,
    body: Vec<u8>,
    outcome: Result<(), Unsent>,
    ended: Result<(), Fault>,
    reply: DeliveryReply,
)
    ensures
        ({
            let send = Delivery::Send { attempt, body };
            let wait = Delivery::Wait { attempt, millis, body };
            &&& send.after(DeliveryReply::Waited) == send
            &&& wait.after(DeliveryReply::Sent(outcome)) == wait
            &&& wait.after(DeliveryReply::Waited) == send
            &&& Delivery::Done(ended).after(reply) == Delivery::Done(ended)
        }),
{
}

/// What is sent is the whole JSON text of the event, from the first attempt on; an event without one,
/// or with one that is longer than two mebibytes, is not sent.
pub proof fn law_delivery_sends_the_event(json: Option<Seq<u8>>, delivery: Delivery)
    requires
        delivery::starts_delivery(json, delivery),
    ensures
        delivery is Send <==> json is Some && json->0.len() <= 2097152,
        delivery matches Delivery::Send { attempt, body } ==> attempt == 0 && Some(body@) == json,
        json is None ==> delivery == Delivery::Done(Err(Fault::Notice(Notice::InvalidEvent))),
        json is Some && json->0.len() > 2097152 ==> delivery == Delivery::Done(
            Err(Fault::Notice(Notice::RecordTooLong)),
        ),
{
}

/// `event` authorizes one POST of `body` to `url` by the owner of the outbox: it is an HTTP
/// authorization without content, it verifies, and its four tags name the URL, the method, the digest
/// of the body and a fresh number.
pub open spec fn is_for_request(
    outbox: OutboxView,
    url: Seq<char>,
    body: Seq<u8>,
    event: EventView,
) -> bool {
    &&& outside::public_key_text(outbox.secret_key) == Some(event.pubkey)
    &&& event.kind == 27235
    &&& event.content.len() == 0
    &&& outside::event_verifies(event)
    &&& event.tags.len() == 4
    &&& forall|i: int| 0 <= i < 4 ==> (#[trigger] event.tags[i]).len() == 2
    &&& event.tags[0][0] == "u"@ && event.tags[0][1] == url
    &&& event.tags[1][0] == "method"@ && event.tags[1][1] == "POST"@
    &&& event.tags[2][0] == "payload"@ && event.tags[2][1] == outside::hex_text(
        outside::sha256_digest(body),
    )
    &&& event.tags[3][0] == "nonce"@ && outside::is_random_uuid(event.tags[3][1])
}

/// A request that is started posts exactly the body to the events of the relay. Its first header
/// carries, in Base64, the JSON text of an event that authorizes exactly this request; its second says
/// that the body is JSON; and a third carries the tag that goes with each request, where there is one.
/// A request is not started only where the event that authorizes it is longer than two mebibytes.
pub proof fn law_request_is_authorized(outbox: OutboxView, body: Seq<u8>, sending: SendingView) -> (event:
    EventView)
    requires
        delivery::starts_request(outbox, body, sending),
    ensures
        is_for_request(outbox, outbox.base_url + "/events"@, body, event),
        match sending {
            SendingView::Request { url, headers, body: posted } => {
                &&& url == outbox.base_url + "/events"@
                &&& posted == body
                &&& outside::event_json_bytes(event) is Some
                &&& outside::event_json_bytes(event)->0.len() <= 2097152
                &&& headers.len() == (if outbox.auth_tag is Some { 3int } else { 2 })
                &&& headers[0].name == "Authorization"@
                &&& headers[0].value == "Nostr "@ + outside::base64_text(
                    outside::event_json_bytes(event)->0,
                )
                &&& headers[1].name == "Content-Type"@ && headers[1].value == "application/json"@
                &&& outbox.auth_tag is Some ==> headers[2].name == "x-auth-tag"@ && Some(
                    headers[2].value,
                ) == outbox.auth_tag
            },
            SendingView::Done(Err(unsent)) => {
                &&& !unsent.retryable
                &&& unsent.fault == Fault::Notice(Notice::RecordTooLong)
                &&& outside::event_json_bytes(event) is Some
                &&& outside::event_json_bytes(event)->0.len() > 2097152
            },
            _ => false,
        },
{
    let target = outbox.base_url + "/events"@;
    if let SendingView::Request { url, headers, .. } = sending {
        let authorization = choose|authorization: Seq<char>|
            headers == delivery::headers_of(outbox, authorization)
                && #[trigger] delivery::is_authorization(outbox, url, body, authorization);
        let (nonce, event, json) = choose|nonce: Seq<char>, event: EventView, json: Seq<u8>|
            {
                &&& #[trigger] delivery::authorizes(outbox, url, body, nonce, event)
                &&& delivery::json_bounded(outside::event_json_bytes(event)) == Ok::<
                    Seq<u8>,
                    Notice,
                >(json)
                &&& authorization == #[trigger] delivery::header_of(json)
            };
        event
    } else {
        let (nonce, event) = choose|nonce: Seq<char>, event: EventView|
            {
                &&& #[trigger] delivery::authorizes(outbox, target, body, nonce, event)
                &&& delivery::json_bounded(outside::event_json_bytes(event)) == Err::<
                    Seq<u8>,
                    Notice,
                >(Notice::RecordTooLong)
            };
        event
    }
}

/// A failure to sign is called by what it was a failure of: the tags, or anything else.
pub proof fn law_signing_failures_are_told_apart(failure: SigningFailure)
    ensures
        delivery::signing_failed(failure) == Fault::Notice(Notice::AuthTag) <==> failure
            == SigningFailure::Tags,
        delivery::signing_failed(failure) == Fault::Notice(Notice::AuthSigning) <==> failure
            == SigningFailure::Key || failure == SigningFailure::Signature,
{
}

/// A failed attempt is followed by another one exactly where it may be tried again and fewer than
/// three were made: a quarter of a second later, or half a second later the second time, with the same
/// body. Otherwise the event is retained with the fault.
pub proof fn law_attempt_is_repeated(attempt: usize, body: Vec<u8>, unsent: Unsent)
    ensures
        ({
            let after = (Delivery::Send { attempt, body }).after(DeliveryReply::Sent(Err(unsent)));
            &&& unsent.retryable && attempt < 2 ==> after == (Delivery::Wait {
                attempt: (attempt + 1) as usize,
                millis: if attempt == 0 {
                    250
                } else {
                    500
                },
                body,
            })
            &&& !(unsent.retryable && attempt < 2) ==> after == Delivery::Done(
                Err(Fault::RetainedEvent { cause: Box::new(unsent.fault) }),
            )
            &&& (Delivery::Send { attempt, body }).after(DeliveryReply::Sent(Ok(())))
                == Delivery::Done(Ok(()))
        }),
{
    vstd::arithmetic::power2::lemma2_to64();
}

} // verus!
