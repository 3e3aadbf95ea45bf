//! Delivering a signed event to the relay.

use crate::event::{Event, EventView};
use crate::fault::{Action, Fault, Notice};
use crate::outbox::{Outbox, OutboxView};
use crate::outside;
use crate::outside::{
    base64_encode, event_json, hex_encode, json_member, random_uuid, sha256, sign_event, JsonMember,
    JsonMemberView, SigningFailure,
};
use crate::record::MAX_RECORD_BYTES;
use crate::text;
use vstd::prelude::*;

verus! {

/// The longest answer of a relay that is read, in bytes.
pub const MAX_ACK_BYTES: usize = 16 * 1024;

/// How often the relay is asked to accept an event.
pub const MAX_ATTEMPTS: usize = 3;

/// How long one request may take, in seconds.
pub const REQUEST_TIMEOUT_SECONDS: u64 = 5;

/// The kind of the events that authorize an HTTP request.
pub const HTTP_AUTH_KIND: u16 = 27235;

/// The JSON text that is sent or signed, given the JSON text of an event.
pub open spec fn json_bounded(json: Option<Seq<u8>>) -> Result<Seq<u8>, Notice> {
    match json {
        None => Err(Notice::InvalidEvent),
        Some(json) => if json.len() > MAX_RECORD_BYTES {
            Err(Notice::RecordTooLong)
        } else {
            Ok(json)
        },
    }
}

/// The JSON text that is sent or signed, given the JSON text of an event.
pub fn bounded(json: Option<Vec<u8>>) -> (bounded: Result<Vec<u8>, Fault>)
    ensures
        match bounded {
            Ok(bytes) => json == Some(bytes) && json_bounded(Some(bytes@)) == Ok::<Seq<u8>, Notice>(
                bytes@,
            ),
            Err(fault) => fault matches Fault::Notice(notice) && json_bounded(
                match json {
                    Some(json) => Some(json@),
                    None => None,
                },
            ) == Err::<Seq<u8>, Notice>(notice),
        },
{
    match json {
        None => Err(Fault::Notice(Notice::InvalidEvent)),
        Some(json) => if json.len() > MAX_RECORD_BYTES {
            Err(Fault::Notice(Notice::RecordTooLong))
        } else {
            Ok(json)
        },
    }
}

/// The JSON text of an event, where it is no longer than a record may be.
pub fn bounded_json(event: &Event) -> (bytes: Result<Vec<u8>, Fault>)
    ensures
        match bytes {
            Ok(bytes) => json_bounded(outside::event_json_bytes(event@)) == Ok::<Seq<u8>, Notice>(
                bytes@,
            ),
            Err(fault) => fault matches Fault::Notice(notice) && json_bounded(
                outside::event_json_bytes(event@),
            ) == Err::<Seq<u8>, Notice>(notice),
        },
{
    bounded(event_json(event))
}

/// The tags of the event that authorizes a request: its URL, its method, the digest of its body,
/// and a number that is used once.
pub open spec fn authorization_tags_of(
    url: Seq<char>,
    digest: Seq<u8>,
    nonce: Seq<char>,
) -> Seq<Seq<Seq<char>>> {
    seq![
        seq!["u"@, url],
        seq!["method"@, "POST"@],
        seq!["payload"@, outside::hex_text(digest)],
        seq!["nonce"@, nonce],
    ]
}

fn tag(name: &str, value: &str) -> (tag: Vec<String>)
    ensures
        tag@.len() == 2,
        tag@[0]@ == name@,
        tag@[1]@ == value@,
        tag.deep_view() == seq![name@, value@],
{
    let mut tag: Vec<String> = Vec::new();
    tag.push(name.to_owned());
    tag.push(value.to_owned());
    assert(tag.deep_view() =~= seq![name@, value@]);
    tag
}

/// The tags of the event that authorizes a request to `url` whose body has `digest`.
pub fn authorization_tags(url: &str, digest: &[u8], nonce: &str) -> (tags: Vec<Vec<String>>)
    requires
        digest@.len() == 32,
    ensures
        tags.deep_view() == authorization_tags_of(url@, digest@, nonce@),
        forall|i: int|
            0 <= i < tags@.len() ==> #[trigger] tags@[i]@.len() > 0 && tags@[i]@[0]@ != "p"@,
{
    let payload: String = hex_encode(digest);
    let mut tags: Vec<Vec<String>> = Vec::new();
    tags.push(tag("u", url));
    tags.push(tag("method", "POST"));
    tags.push(tag("payload", payload.as_str()));
    tags.push(tag("nonce", nonce));
    proof {
        reveal_strlit("u");
        reveal_strlit("method");
        reveal_strlit("payload");
        reveal_strlit("nonce");
        reveal_strlit("p");
        assert("u"@[0] != "p"@[0]);
        assert("method"@.len() != "p"@.len());
        assert("payload"@.len() != "p"@.len());
        assert("nonce"@.len() != "p"@.len());
        assert(tags@.len() == 4);
        assert(tags@[0]@[0]@ != "p"@);
        assert(tags@[1]@[0]@ != "p"@);
        assert(tags@[2]@[0]@ != "p"@);
        assert(tags@[3]@[0]@ != "p"@);
        assert(tags.deep_view() =~= authorization_tags_of(url@, digest@, nonce@));
    }
    tags
}

/// The header that authorizes a request, given the JSON text of the event that does so.
pub open spec fn header_of(json: Seq<u8>) -> Seq<char> {
    "Nostr "@ + outside::base64_text(json)
}

/// The header that authorizes a request, given the JSON text of the event that does so.
pub fn authorization_header(json: Vec<u8>) -> (header: String)
    requires
        json@.len() <= MAX_RECORD_BYTES,
    ensures
        header@ == header_of(json@),
{
    "Nostr ".to_owned().concat(base64_encode(json.as_slice()).as_str())
}

/// `event` was written and signed by the owner of the outbox to authorize a request to `url` with
/// `body`.
pub open spec fn authorizes(
    outbox: OutboxView,
    url: Seq<char>,
    body: Seq<u8>,
    nonce: Seq<char>,
    event: EventView,
) -> bool {
    &&& outside::is_random_uuid(nonce)
    &&& Some(event.pubkey) == outside::public_key_text(outbox.secret_key)
    &&& event.kind == HTTP_AUTH_KIND
    &&& event.content.len() == 0
    &&& event.tags == authorization_tags_of(url, outside::sha256_digest(body), nonce)
    &&& outside::event_verifies(event)
}

/// `header` authorizes a request to `url` with `body` in the name of the owner of the outbox.
pub open spec fn is_authorization(
    outbox: OutboxView,
    url: Seq<char>,
    body: Seq<u8>,
    header: Seq<char>,
) -> bool {
    exists|nonce: Seq<char>, event: EventView, json: Seq<u8>|
        {
            &&& #[trigger] authorizes(outbox, url, body, nonce, event)
            &&& json_bounded(outside::event_json_bytes(event)) == Ok::<Seq<u8>, Notice>(json)
            &&& header == #[trigger] header_of(json)
        }
}

/// The event that would authorize a request to `url` with `body` is too long to be sent.
pub open spec fn is_unauthorizable(outbox: OutboxView, url: Seq<char>, body: Seq<u8>) -> bool {
    exists|nonce: Seq<char>, event: EventView|
        {
            &&& #[trigger] authorizes(outbox, url, body, nonce, event)
            &&& json_bounded(outside::event_json_bytes(event)) == Err::<Seq<u8>, Notice>(
                Notice::RecordTooLong,
            )
        }
}

/// `sending` starts to post `body` to the events of the relay, with the headers that go with an
/// authorization for it. It has failed already only where there is no such authorization.
pub open spec fn starts_request(outbox: OutboxView, body: Seq<u8>, sending: SendingView) -> bool {
    match sending {
        SendingView::Request { url, headers, body: posted } => {
            &&& url == outbox.base_url + "/events"@
            &&& posted == body
            &&& exists|authorization: Seq<char>|
                headers == headers_of(outbox, authorization) && #[trigger] is_authorization(
                    outbox,
                    url,
                    body,
                    authorization,
                )
        },
        SendingView::Done(Err(unsent)) => {
            &&& !unsent.retryable
            &&& unsent.fault == Fault::Notice(Notice::RecordTooLong)
            &&& is_unauthorizable(outbox, outbox.base_url + "/events"@, body)
        },
        _ => false,
    }
}

/// `delivery` starts to send the JSON text of an event, given that text.
pub open spec fn starts_delivery(json: Option<Seq<u8>>, delivery: Delivery) -> bool {
    match json_bounded(json) {
        Ok(json) => delivery matches Delivery::Send { attempt, body } && attempt == 0 && body@ == json,
        Err(notice) => delivery == Delivery::Done(Err(Fault::Notice(notice))),
    }
}

/// The fault that a failure to sign an authorization is.
pub open spec fn signing_failed(failure: SigningFailure) -> Fault {
    Fault::Notice(
        if failure == SigningFailure::Tags {
            Notice::AuthTag
        } else {
            Notice::AuthSigning
        },
    )
}

/// The fault that a failure to sign an authorization is.
pub fn signing_fault(failure: SigningFailure) -> (fault: Fault)
    ensures
        fault == signing_failed(failure),
{
    match failure {
        SigningFailure::Tags => Fault::Notice(Notice::AuthTag),
        _ => Fault::Notice(Notice::AuthSigning),
    }
}

/// A header of a request.
#[derive(Debug, PartialEq, Eq)]
pub struct Header {
    pub name: &'static str,
    pub value: String,
}

/// A header of a request.
pub struct HeaderView {
    pub name: Seq<char>,
    pub value: Seq<char>,
}

impl DeepView for Header {
    type V = HeaderView;

    open spec fn deep_view(&self) -> HeaderView {
        HeaderView { name: self.name@, value: self.value@ }
    }
}

/// The headers of a request with `authorization`: what authorizes it, the form of its body, and what
/// is sent along with each request.
pub open spec fn headers_of(outbox: OutboxView, authorization: Seq<char>) -> Seq<HeaderView> {
    let plain = seq![
        HeaderView { name: "Authorization"@, value: authorization },
        HeaderView { name: "Content-Type"@, value: "application/json"@ },
    ];
    match outbox.auth_tag {
        Some(tag) => plain.push(HeaderView { name: "x-auth-tag"@, value: tag }),
        None => plain,
    }
}

/// A request that was not accepted, and whether it may be made again.
#[derive(Debug, PartialEq, Eq)]
pub struct Unsent {
    pub fault: Fault,
    pub retryable: bool,
}

/// How far a request has come. Each stage but the last names what is asked next.
#[derive(Debug, PartialEq, Eq)]
pub enum Sending {
    /// Post `body` to `url` with these headers.
    Request { url: String, headers: Vec<Header>, body: Vec<u8> },
    /// Give the next piece of the answer. This is what was read so far.
    Chunk { bytes: Vec<u8> },
    Done(Result<(), Unsent>),
}

/// How far a request has come.
pub enum SendingView {
    Request { url: Seq<char>, headers: Seq<HeaderView>, body: Seq<u8> },
    Chunk { bytes: Seq<u8> },
    Done(Result<(), Unsent>),
}

impl View for Sending {
    type V = SendingView;

    open spec fn view(&self) -> SendingView {
        match *self {
            Sending::Request { url, headers, body } => SendingView::Request {
                url: url@,
                headers: headers.deep_view(),
                body: body@,
            },
            Sending::Chunk { bytes } => SendingView::Chunk { bytes: bytes@ },
            Sending::Done(outcome) => SendingView::Done(outcome),
        }
    }
}

/// What comes back of a request.
#[derive(Debug, PartialEq, Eq)]
pub enum SendReply {
    /// The relay answered, with this status, its text, and the length of the answer if it is known.
    Response { status: u16, text: String, length: Option<u64> },
    /// A piece of the answer.
    Chunk(Vec<u8>),
    /// The answer is complete.
    End,
    /// The network failed.
    Failed { text: String },
    /// The request took too long.
    TimedOut,
}

/// Whether the relay accepted the event `id`, given two members of its answer: `accepted` and
/// `event_id`. Nothing counts but the acceptance of exactly this event.
pub open spec fn ack_judged(
    accepted: Option<JsonMemberView>,
    event_id: Option<JsonMemberView>,
    id: Seq<char>,
) -> Result<(), Unsent> {
    match (accepted, event_id) {
        (Some(accepted), Some(event_id)) => if accepted == JsonMemberView::Flag(true) && event_id
            == JsonMemberView::Text(id) {
            Ok(())
        } else {
            Err(Unsent { fault: Fault::Notice(Notice::AckMismatch), retryable: false })
        },
        _ => Err(Unsent { fault: Fault::Notice(Notice::AckNotJson), retryable: false }),
    }
}

/// Whether the answer `bytes` accepts the event `id`.
pub open spec fn answer_judged(bytes: Seq<u8>, id: Seq<char>) -> Result<(), Unsent> {
    ack_judged(
        outside::parsed_json_member(bytes, "accepted"@),
        outside::parsed_json_member(bytes, "event_id"@),
        id,
    )
}

impl SendingView {
    /// The stage after something came back. What does not belong to the stage changes nothing.
    pub open spec fn after(self, id: Seq<char>, reply: SendReply) -> SendingView {
        match (self, reply) {
            (SendingView::Done(_), _) => self,
            (_, SendReply::TimedOut) => SendingView::Done(
                Err(Unsent { fault: Fault::Notice(Notice::RequestTimedOut), retryable: true }),
            ),
            (SendingView::Request { .. }, SendReply::Failed { text }) => SendingView::Done(
                Err(
                    Unsent { fault: Fault::Os { action: Action::Transport, text }, retryable: true },
                ),
            ),
            (SendingView::Request { .. }, SendReply::Response { status, text, length }) =>
                if !(200 <= status < 300) {
                    SendingView::Done(
                        Err(
                            Unsent {
                                fault: Fault::Status { text },
                                retryable: status == 429 || 500 <= status < 600,
                            },
                        ),
                    )
                } else if length is Some && length->0 > MAX_ACK_BYTES {
                    SendingView::Done(
                        Err(Unsent { fault: Fault::Notice(Notice::AckTooLong), retryable: false }),
                    )
                } else {
                    SendingView::Chunk { bytes: Seq::empty() }
                },
            (SendingView::Chunk { bytes }, SendReply::Failed { text }) => SendingView::Done(
                Err(
                    Unsent {
                        fault: Fault::Os { action: Action::AckTransport, text },
                        retryable: true,
                    },
                ),
            ),
            (SendingView::Chunk { bytes }, SendReply::Chunk(more)) => if bytes.len() + more@.len()
                > MAX_ACK_BYTES {
                SendingView::Done(
                    Err(Unsent { fault: Fault::Notice(Notice::AckTooLong), retryable: false }),
                )
            } else {
                SendingView::Chunk { bytes: bytes + more@ }
            },
            (SendingView::Chunk { bytes }, SendReply::End) => SendingView::Done(
                answer_judged(bytes, id),
            ),
            _ => self,
        }
    }

    /// The stage after several things came back.
    pub open spec fn after_all(self, id: Seq<char>, replies: Seq<SendReply>) -> SendingView
        decreases replies.len(),
    {
        if replies.len() == 0 {
            self
        } else {
            self.after_all(id, replies.drop_last()).after(id, replies.last())
        }
    }
}

/// Whether the relay accepted the event `id`, given two members of its answer.
pub fn judge_ack(accepted: &JsonMember, event_id: &JsonMember, id: &str) -> (judged: Result<
    (),
    Unsent,
>)
    ensures
        judged == ack_judged(Some(accepted@), Some(event_id@), id@),
{
    let is_accepted: bool = match accepted {
        JsonMember::Flag(flag) => *flag,
        _ => false,
    };
    let is_same: bool = match event_id {
        JsonMember::Text(text) => text::same_text(text.as_str(), id),
        _ => false,
    };
    if is_accepted && is_same {
        Ok(())
    } else {
        Err(Unsent { fault: Fault::Notice(Notice::AckMismatch), retryable: false })
    }
}

/// Whether the answer `bytes` accepts the event `id`.
pub fn judge_answer(bytes: &[u8], id: &str) -> (judged: Result<(), Unsent>)
    ensures
        judged == answer_judged(bytes@, id@),
{
    match (json_member(bytes, "accepted"), json_member(bytes, "event_id")) {
        (Ok(accepted), Ok(event_id)) => judge_ack(&accepted, &event_id, id),
        _ => Err(Unsent { fault: Fault::Notice(Notice::AckNotJson), retryable: false }),
    }
}

impl Sending {
    /// Goes on with a request for the event `id` after something came back.
    pub fn answered(self, id: &str, reply: SendReply) -> (next: Sending)
        ensures
            next@ == self@.after(id@, reply),
    {
        match (self, reply) {
            (Sending::Done(outcome), _) => Sending::Done(outcome),
            (_, SendReply::TimedOut) => Sending::Done(
                Err(Unsent { fault: Fault::Notice(Notice::RequestTimedOut), retryable: true }),
            ),
            (Sending::Request { .. }, SendReply::Failed { text }) => Sending::Done(
                Err(
                    Unsent { fault: Fault::Os { action: Action::Transport, text }, retryable: true },
                ),
            ),
            (Sending::Request { .. }, SendReply::Response { status, text, length }) => {
                let too_long: bool = match length {
                    Some(length) => length > MAX_ACK_BYTES as u64,
                    None => false,
                };
                if !(200 <= status && status < 300) {
                    Sending::Done(
                        Err(
                            Unsent {
                                fault: Fault::Status { text },
                                retryable: status == 429 || 500 <= status && status < 600,
                            },
                        ),
                    )
                } else if too_long {
                    Sending::Done(
                        Err(Unsent { fault: Fault::Notice(Notice::AckTooLong), retryable: false }),
                    )
                } else {
                    Sending::Chunk { bytes: Vec::new() }
                }
            },
            (Sending::Chunk { .. }, SendReply::Failed { text }) => Sending::Done(
                Err(
                    Unsent {
                        fault: Fault::Os { action: Action::AckTransport, text },
                        retryable: true,
                    },
                ),
            ),
            (Sending::Chunk { bytes }, SendReply::Chunk(more)) => {
                let held: usize = bytes.len();
                if held > MAX_ACK_BYTES || more.len() > MAX_ACK_BYTES - held {
                    Sending::Done(
                        Err(Unsent { fault: Fault::Notice(Notice::AckTooLong), retryable: false }),
                    )
                } else {
                    let mut bytes: Vec<u8> = bytes;
                    let mut more: Vec<u8> = more;
                    bytes.append(&mut more);
                    Sending::Chunk { bytes }
                }
            },
            (Sending::Chunk { bytes }, SendReply::End) => Sending::Done(
                judge_answer(bytes.as_slice(), id),
            ),
            (sending, _) => sending,
        }
    }
}

/// How far an event has been delivered. Each stage but the last names what is asked next.
#[derive(Debug, PartialEq, Eq)]
pub enum Delivery {
    /// Make a request with this body.
    Send { attempt: usize, body: Vec<u8> },
    /// Wait for so many milliseconds.
    Wait { attempt: usize, millis: u64, body: Vec<u8> },
    Done(Result<(), Fault>),
}

/// What is answered while an event is delivered.
#[derive(Debug, PartialEq, Eq)]
pub enum DeliveryReply {
    /// The outcome of a request.
    Sent(Result<(), Unsent>),
    /// The time has passed.
    Waited,
}

/// How long is waited before an attempt, in milliseconds: a quarter of a second before the second
/// one, and twice as long before each further one.
pub open spec fn delay_before(attempt: int) -> u64 {
    (250 * vstd::arithmetic::power2::pow2((attempt - 1) as nat)) as u64
}

impl Delivery {
    /// The stage after an answer. An answer to another question changes nothing.
    pub open spec fn after(self, reply: DeliveryReply) -> Delivery {
        match (self, reply) {
            (Delivery::Send { .. }, DeliveryReply::Sent(Ok(()))) => Delivery::Done(Ok(())),
            (Delivery::Send { attempt, body }, DeliveryReply::Sent(Err(unsent))) =>
                if unsent.retryable && attempt + 1 < MAX_ATTEMPTS {
                    Delivery::Wait {
                        attempt: (attempt + 1) as usize,
                        millis: delay_before(attempt + 1),
                        body,
                    }
                } else {
                    Delivery::Done(Err(Fault::RetainedEvent { cause: Box::new(unsent.fault) }))
                },
            (Delivery::Wait { attempt, millis: _, body }, DeliveryReply::Waited) => Delivery::Send {
                attempt,
                body,
            },
            _ => self,
        }
    }

    /// Goes on with delivering an event after an answer.
    pub fn answered(self, reply: DeliveryReply) -> (next: Delivery)
        ensures
            next == self.after(reply),
    {
        match (self, reply) {
            (Delivery::Send { .. }, DeliveryReply::Sent(Ok(()))) => Delivery::Done(Ok(())),
            (Delivery::Send { attempt, body }, DeliveryReply::Sent(Err(unsent))) =>
                if unsent.retryable && attempt < MAX_ATTEMPTS - 1 {
                    let millis: u64 = if attempt == 0 {
                        250
                    } else {
                        500
                    };
                    proof {
                        vstd::arithmetic::power2::lemma2_to64();
                    }
                    Delivery::Wait { attempt: attempt + 1, millis, body }
                } else {
                    Delivery::Done(Err(Fault::RetainedEvent { cause: Box::new(unsent.fault) }))
                },
            (Delivery::Wait { attempt, millis: _, body }, DeliveryReply::Waited) => Delivery::Send {
                attempt,
                body,
            },
            (delivery, _) => delivery,
        }
    }
}

impl Outbox {
    /// The header that authorizes a request to `url` with `body`. It names a number that is used
    /// once and carries a signature and the time, so it is another one each time. There is one
    /// unless its event is too long to be sent.
    pub fn authorization(&self, url: &str, body: &[u8]) -> (header: Result<String, Fault>)
        ensures
            match header {
                Ok(header) => is_authorization(self@, url@, body@, header@),
                Err(fault) => fault == Fault::Notice(Notice::RecordTooLong) && is_unauthorizable(
                    self@,
                    url@,
                    body@,
                ),
            },
    {
        let nonce: String = random_uuid();
        let digest: Vec<u8> = sha256(body);
        let tags: Vec<Vec<String>> = authorization_tags(url, digest.as_slice(), nonce.as_str());
        match sign_event(self.secret_key(), HTTP_AUTH_KIND, "", &tags) {
            Err(failure) => Err(signing_fault(failure)),
            Ok(event) => {
                proof {
                    reveal_strlit("");
                    assert(authorizes(self@, url@, body@, nonce@, event@));
                }
                match bounded_json(&event) {
                    Err(fault) => Err(fault),
                    Ok(json) => Ok(authorization_header(json)),
                }
            },
        }
    }

    /// The headers of a request with `authorization`.
    pub fn headers(&self, authorization: &str) -> (headers: Vec<Header>)
        ensures
            headers.deep_view() == headers_of(self@, authorization@),
    {
        let mut headers: Vec<Header> = Vec::new();
        headers.push(Header { name: "Authorization", value: authorization.to_owned() });
        headers.push(Header { name: "Content-Type", value: "application/json".to_owned() });
        if let Some(tag) = self.auth_tag_json() {
            headers.push(Header { name: "x-auth-tag", value: tag.to_owned() });
        }
        assert(headers.deep_view() =~= headers_of(self@, authorization@));
        headers
    }

    /// Starts to send the event whose JSON text is `body` to the relay.
    pub fn send_once(&self, body: &[u8]) -> (sending: Sending)
        ensures
            starts_request(self@, body@, sending@),
    {
        let url: String = self.base_url().to_owned().concat("/events");
        match self.authorization(url.as_str(), body) {
            Ok(authorization) => {
                let headers: Vec<Header> = self.headers(authorization.as_str());
                let mut posted: Vec<u8> = Vec::new();
                posted.extend_from_slice(body);
                assert(posted@ =~= body@);
                assert(is_authorization(self@, url@, body@, authorization@));
                Sending::Request { url, headers, body: posted }
            },
            Err(fault) => Sending::Done(Err(Unsent { fault, retryable: false })),
        }
    }

    /// Starts to deliver `event`.
    pub fn deliver(event: &Event) -> (delivery: Delivery)
        ensures
            starts_delivery(outside::event_json_bytes(event@), delivery),
    {
        match bounded_json(event) {
            Ok(body) => Delivery::Send { attempt: 0, body },
            Err(fault) => Delivery::Done(Err(fault)),
        }
    }
}

} // verus!
