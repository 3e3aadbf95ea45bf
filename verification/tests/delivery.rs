use auto_publish::delivery::{
    authorization_header, authorization_tags, bounded, bounded_json, judge_ack, judge_answer,
    signing_fault, Delivery, DeliveryReply, SendReply, Sending, Unsent, HTTP_AUTH_KIND,
    MAX_ACK_BYTES,
};
use auto_publish::event::Event;
use auto_publish::fault::{Action, Fault, Notice};
use auto_publish::outbox::Outbox;
use auto_publish::outside::{JsonMember, SigningFailure};
use auto_publish::record::MAX_RECORD_BYTES;
use base64::Engine;
use nostr::JsonUtil;

const ONE: &str = "0000000000000000000000000000000000000000000000000000000000000001";

fn keys() -> nostr::Keys {
    nostr::Keys::new(nostr::SecretKey::from_hex(ONE).unwrap())
}

fn outbox(tag: Option<&str>) -> Outbox {
    Outbox::new("http://127.0.0.1:8080/", ONE.to_string(), tag.map(str::to_string), false).unwrap()
}

fn plain(event: &nostr::Event) -> Event {
    Event {
        id: event.id.to_hex(),
        pubkey: event.pubkey.to_hex(),
        created_at: event.created_at.as_secs(),
        kind: event.kind.as_u16(),
        tags: event.tags.iter().map(|tag| tag.as_slice().to_vec()).collect(),
        content: event.content.clone(),
        sig: event.sig.to_string(),
    }
}

fn signed(content: &str) -> nostr::Event {
    nostr::EventBuilder::new(nostr::Kind::from(9u16), content)
        .tags([nostr::Tag::parse(["h", "channel"]).unwrap()])
        .sign_with_keys(&keys())
        .unwrap()
}

fn unsent(fault: Fault, retryable: bool) -> Result<(), Unsent> {
    Err(Unsent { fault, retryable })
}

fn response(status: u16, text: &str, length: Option<u64>) -> SendReply {
    SendReply::Response { status, text: text.to_string(), length }
}

fn request() -> Sending {
    Sending::Request { url: "u".to_string(), headers: vec![], body: vec![1] }
}

#[test]
fn event_json_is_that_of_the_event() {
    let event = signed("hello \"world\" \u{1f41d}");
    assert_eq!(bounded_json(&plain(&event)), Ok(event.as_json().into_bytes()));
    let mut broken = plain(&event);
    broken.sig = "no signature".to_string();
    assert_eq!(bounded_json(&broken), Err(Fault::Notice(Notice::InvalidEvent)));
    let long = Event { content: "x".repeat(MAX_RECORD_BYTES), ..plain(&event) };
    assert_eq!(bounded_json(&long), Err(Fault::Notice(Notice::RecordTooLong)));
}

#[test]
fn json_text_has_a_limit() {
    assert_eq!(bounded(None), Err(Fault::Notice(Notice::InvalidEvent)));
    assert_eq!(bounded(Some(vec![1u8; MAX_RECORD_BYTES])), Ok(vec![1u8; MAX_RECORD_BYTES]));
    assert_eq!(
        bounded(Some(vec![1u8; MAX_RECORD_BYTES + 1])),
        Err(Fault::Notice(Notice::RecordTooLong))
    );
}

#[test]
fn authorization_header_is_padded_base64() {
    assert_eq!(authorization_header(vec![]), "Nostr ");
    assert_eq!(authorization_header(b"f".to_vec()), "Nostr Zg==");
    assert_eq!(authorization_header(b"fo".to_vec()), "Nostr Zm8=");
    assert_eq!(authorization_header(vec![0, 255, 254, 62, 63]), "Nostr AP/+Pj8=");
}

#[test]
fn authorization_tags_name_the_request() {
    let mut digest = vec![0u8; 32];
    digest[0] = 0xab;
    digest[31] = 0x0f;
    let tags = authorization_tags("http://relay/events", &digest, "once");
    let payload = format!("ab{}0f", "00".repeat(30));
    assert_eq!(
        tags,
        vec![
            vec!["u".to_string(), "http://relay/events".to_string()],
            vec!["method".to_string(), "POST".to_string()],
            vec!["payload".to_string(), payload],
            vec!["nonce".to_string(), "once".to_string()],
        ]
    );
}

#[test]
fn authorization_is_signed_for_one_request() {
    let outbox = outbox(None);
    let header = outbox.authorization("http://127.0.0.1:8080/events", b"body").unwrap();
    let encoded = header.strip_prefix("Nostr ").unwrap();
    let json = base64::engine::general_purpose::STANDARD.decode(encoded).unwrap();
    let event = nostr::Event::from_json(json).unwrap();
    assert!(event.verify().is_ok());
    assert_eq!(event.pubkey, keys().public_key());
    assert_eq!(event.kind.as_u16(), HTTP_AUTH_KIND);
    assert_eq!(event.content, "");
    let tags: Vec<Vec<String>> = event.tags.iter().map(|tag| tag.as_slice().to_vec()).collect();
    assert_eq!(tags.len(), 4);
    assert_eq!(tags[0], vec!["u", "http://127.0.0.1:8080/events"]);
    assert_eq!(tags[1], vec!["method", "POST"]);
    assert_eq!(
        tags[2],
        vec!["payload", "230d8358dc8e8890b4c58deeb62912ee2f20357ae92a5cc861b98e68fe31acb5"]
    );
    assert_eq!(tags[3][0], "nonce");
    let nonce = uuid::Uuid::parse_str(&tags[3][1]).unwrap();
    assert_eq!(nonce.get_version_num(), 4);
    assert_eq!(nonce.to_string(), tags[3][1]);
    assert_ne!(header, outbox.authorization("http://127.0.0.1:8080/events", b"body").unwrap());
}

#[test]
fn signing_failures_have_their_faults() {
    assert_eq!(signing_fault(SigningFailure::Tags), Fault::Notice(Notice::AuthTag));
    assert_eq!(signing_fault(SigningFailure::Signature), Fault::Notice(Notice::AuthSigning));
    assert_eq!(signing_fault(SigningFailure::Key), Fault::Notice(Notice::AuthSigning));
}

#[test]
fn request_goes_to_the_events_of_the_relay() {
    match outbox(None).send_once(b"body") {
        Sending::Request { url, headers, body } => {
            assert_eq!(url, "http://127.0.0.1:8080/events");
            assert_eq!(body, b"body".to_vec());
            assert_eq!(headers.len(), 2);
            assert_eq!(headers[0].name, "Authorization");
            assert!(headers[0].value.starts_with("Nostr "));
            assert_eq!(headers[1].value, "application/json");
        }
        other => panic!("{other:?}"),
    }
    let headers = outbox(None).headers("auth");
    let pairs: Vec<(&str, &str)> = headers.iter().map(|h| (h.name, h.value.as_str())).collect();
    assert_eq!(pairs, vec![("Authorization", "auth"), ("Content-Type", "application/json")]);
    let headers = outbox(Some("[\"auth\"]")).headers("auth");
    assert_eq!(headers.len(), 3);
    assert_eq!(headers[2].name, "x-auth-tag");
    assert_eq!(headers[2].value, "[\"auth\"]");
}

#[test]
fn only_the_exact_acknowledgement_counts() {
    let id = "ab".repeat(32);
    let ack = format!("{{\"accepted\":true,\"event_id\":\"{id}\",\"more\":[1]}}");
    assert_eq!(judge_answer(ack.as_bytes(), &id), Ok(()));
    let mismatch = || unsent(Fault::Notice(Notice::AckMismatch), false);
    for bytes in [
        format!("{{\"accepted\":false,\"event_id\":\"{id}\"}}"),
        format!("{{\"accepted\":1,\"event_id\":\"{id}\"}}"),
        format!("{{\"accepted\":[true],\"event_id\":\"{id}\"}}"),
        format!("{{\"accepted\":{{}},\"event_id\":\"{id}\"}}"),
        format!("{{\"accepted\":\"true\",\"event_id\":\"{id}\"}}"),
        format!("{{\"event_id\":\"{id}\"}}"),
        "{\"accepted\":true}".to_string(),
        "{\"accepted\":true,\"event_id\":null}".to_string(),
        format!("{{\"accepted\":true,\"event_id\":\"{}\"}}", id.to_uppercase()),
        "[true]".to_string(),
        "true".to_string(),
    ] {
        assert_eq!(judge_answer(bytes.as_bytes(), &id), mismatch(), "{bytes}");
    }
    for bytes in ["", "{", "accepted", "{} {}"] {
        assert_eq!(
            judge_answer(bytes.as_bytes(), &id),
            unsent(Fault::Notice(Notice::AckNotJson), false)
        );
    }
    assert_eq!(judge_ack(&JsonMember::Flag(true), &JsonMember::Text(id.clone()), &id), Ok(()));
    assert_eq!(judge_ack(&JsonMember::Flag(false), &JsonMember::Text(id.clone()), &id), mismatch());
    assert_eq!(judge_ack(&JsonMember::Absent, &JsonMember::Text(id.clone()), &id), mismatch());
    assert_eq!(judge_ack(&JsonMember::Flag(true), &JsonMember::Other, &id), mismatch());
}

#[test]
fn answer_is_read_in_pieces() {
    let sending = request().answered("id", response(201, "201 Created", None));
    assert_eq!(sending, Sending::Chunk { bytes: vec![] });
    let sending = sending.answered("id", SendReply::Chunk(b"{\"accepted\":true,".to_vec()));
    let sending = sending.answered("id", SendReply::Chunk(b"\"event_id\":\"id\"}".to_vec()));
    assert_eq!(sending.answered("id", SendReply::End), Sending::Done(Ok(())));
}

#[test]
fn answer_has_a_limit() {
    let too_long = || Sending::Done(unsent(Fault::Notice(Notice::AckTooLong), false));
    let limit = MAX_ACK_BYTES as u64;
    assert_eq!(
        request().answered("id", response(200, "200 OK", Some(limit))),
        Sending::Chunk { bytes: vec![] }
    );
    assert_eq!(request().answered("id", response(200, "200 OK", Some(limit + 1))), too_long());
    let full = Sending::Chunk { bytes: vec![b' '; MAX_ACK_BYTES - 1] };
    let full = full.answered("id", SendReply::Chunk(vec![b' ']));
    assert_eq!(full, Sending::Chunk { bytes: vec![b' '; MAX_ACK_BYTES] });
    assert_eq!(full.answered("id", SendReply::Chunk(vec![b' '])), too_long());
}

#[test]
fn failed_requests_may_be_retried_or_not() {
    for (status, retryable) in
        [(199, false), (300, false), (401, false), (429, true), (499, false), (500, true), (599, true), (600, false)]
    {
        assert_eq!(
            request().answered("id", response(status, "text", None)),
            Sending::Done(unsent(Fault::Status { text: "text".to_string() }, retryable))
        );
    }
    let timed_out = || Sending::Done(unsent(Fault::Notice(Notice::RequestTimedOut), true));
    assert_eq!(request().answered("id", SendReply::TimedOut), timed_out());
    let reading = || Sending::Chunk { bytes: vec![] };
    assert_eq!(reading().answered("id", SendReply::TimedOut), timed_out());
    let failed = || SendReply::Failed { text: "reset".to_string() };
    let fault = |action| Fault::Os { action, text: "reset".to_string() };
    assert_eq!(
        request().answered("id", failed()),
        Sending::Done(unsent(fault(Action::Transport), true))
    );
    assert_eq!(
        reading().answered("id", failed()),
        Sending::Done(unsent(fault(Action::AckTransport), true))
    );
    assert_eq!(request().answered("id", SendReply::End), request());
}

#[test]
fn delivery_is_tried_three_times() {
    let event = signed("hello");
    let body = event.as_json().into_bytes();
    let failure = |text: &str| {
        DeliveryReply::Sent(unsent(Fault::Status { text: text.to_string() }, true))
    };
    let delivery = Outbox::deliver(&plain(&event));
    assert_eq!(delivery, Delivery::Send { attempt: 0, body: body.clone() });
    let delivery = delivery.answered(failure("first"));
    assert_eq!(delivery, Delivery::Wait { attempt: 1, millis: 250, body: body.clone() });
    let delivery = delivery.answered(DeliveryReply::Waited);
    assert_eq!(delivery, Delivery::Send { attempt: 1, body: body.clone() });
    let delivery = delivery.answered(failure("second"));
    assert_eq!(delivery, Delivery::Wait { attempt: 2, millis: 500, body: body.clone() });
    let delivery = delivery.answered(DeliveryReply::Waited).answered(failure("third"));
    match delivery {
        Delivery::Done(Err(fault)) => assert_eq!(
            fault.text(),
            "outbox HTTP third; signed event retained for a later flush"
        ),
        other => panic!("{other:?}"),
    }
}

#[test]
fn delivery_ends_with_acceptance_or_a_final_failure() {
    let send = || Delivery::Send { attempt: 1, body: vec![7] };
    assert_eq!(send().answered(DeliveryReply::Sent(Ok(()))), Delivery::Done(Ok(())));
    assert_eq!(
        send().answered(DeliveryReply::Sent(unsent(Fault::Notice(Notice::AckMismatch), false))),
        Delivery::Done(Err(Fault::RetainedEvent {
            cause: Box::new(Fault::Notice(Notice::AckMismatch))
        }))
    );
    assert_eq!(send().answered(DeliveryReply::Waited), send());
    let mut broken = plain(&signed("x"));
    broken.pubkey = "zz".to_string();
    assert_eq!(
        Outbox::deliver(&broken),
        Delivery::Done(Err(Fault::Notice(Notice::InvalidEvent)))
    );
}
