use auto_publish::event::Event;
use auto_publish::fault::{Fault, Notice, Reason};
use auto_publish::publish::{
    decide, deliver, draft, Batch, MessageDraft, Publication, PublicationReply, Thread, ThreadTags,
    Turn,
};
use auto_publish::turn::{OutputMode, Refusal, TurnOutput};

fn output(text: &str) -> TurnOutput {
    let mut output = TurnOutput::begin(OutputMode::ConversationalFinal, "t");
    output.push_text(text);
    output
}

fn batch(authors: &[&str]) -> Option<Batch> {
    Some(Batch {
        channel_id: "channel".to_string(),
        authors: authors.iter().map(|author| author.to_string()).collect(),
    })
}

fn tags(root: Option<&str>, parent: Option<&str>) -> ThreadTags {
    ThreadTags {
        root_event_id: root.map(str::to_string),
        parent_event_id: parent.map(str::to_string),
    }
}

fn turn(text: &str, ended: bool) -> Turn {
    let turn_id = "turn-7".to_string();
    Turn { turn_id, output: output(text), batch: batch(&["asker"]), thread_tags: tags(None, None), ended }
}

fn event() -> Event {
    Event {
        id: "e1".to_string(),
        pubkey: "me".to_string(),
        created_at: 1,
        kind: 9,
        tags: vec![],
        content: "hi".to_string(),
        sig: "s".to_string(),
    }
}

fn defer(text: &str, reason: Reason) -> Publication {
    Publication::Defer { turn_id: "turn-7".to_string(), text: text.to_string(), reason }
}

fn enqueue(event: Event) -> Publication {
    Publication::Enqueue { turn_id: "turn-7".to_string(), event }
}

const REPLY: &str = "[[BUZZ_FINAL:t]] hi [[/BUZZ_FINAL:t]]";

fn done_text(publication: Publication) -> String {
    match publication {
        Publication::Done(Err(fault)) => fault.text(),
        other => panic!("{other:?}"),
    }
}

#[test]
fn reply_is_built_stored_and_sent() {
    let turn = turn(REPLY, true);
    let publication = deliver(&turn);
    assert_eq!(publication, Publication::Open);
    let publication = publication.answered(&turn, PublicationReply::Opened(Ok("me".to_string())));
    assert_eq!(
        publication,
        Publication::Build {
            draft: MessageDraft {
                channel_id: "channel".to_string(),
                content: "hi".to_string(),
                thread: None,
                mention: Some("asker".to_string()),
            }
        }
    );
    let publication = publication.answered(&turn, PublicationReply::Built(Ok(event())));
    assert_eq!(publication, enqueue(event()));
    let publication = publication.answered(&turn, PublicationReply::Enqueued(Ok(())));
    assert_eq!(publication, Publication::Flush { event_id: "e1".to_string() });
    assert_eq!(
        publication.answered(&turn, PublicationReply::Flushed(Ok(()))),
        Publication::Done(Ok(()))
    );
}

#[test]
fn uncaptured_turn_is_done_at_once() {
    let turn = Turn {
        turn_id: "turn-7".to_string(),
        output: TurnOutput::begin(OutputMode::ToolOnly, "t"),
        batch: None,
        thread_tags: tags(None, None),
        ended: false,
    };
    assert_eq!(deliver(&turn), Publication::Done(Ok(())));
}

#[test]
fn unfinished_turn_is_kept_as_a_draft() {
    let turn = turn(REPLY, false);
    let publication =
        deliver(&turn).answered(&turn, PublicationReply::Opened(Ok("me".to_string())));
    assert_eq!(publication, defer(REPLY, Reason::Unfinished));
    let publication =
        publication.answered(&turn, PublicationReply::Stored(Ok("/o/slot-0000/d.json".to_string())));
    assert_eq!(
        done_text(publication),
        "automatic publication deferred: turn did not finish normally; draft retained at /o/slot-0000/d.json"
    );
}

#[test]
fn refused_reply_is_kept_as_a_draft() {
    let turn = turn("no envelope", true);
    let publication =
        deliver(&turn).answered(&turn, PublicationReply::Opened(Ok("me".to_string())));
    assert_eq!(publication, defer("no envelope", Reason::Turn(Refusal::NoEnvelope)));
    assert_eq!(
        done_text(publication.answered(
            &turn,
            PublicationReply::Stored(Err(Fault::Notice(Notice::OutboxFull)))
        )),
        "outbox full: 64 slots, at most 134217728 bytes; existing records retained"
    );
}

#[test]
fn message_that_cannot_be_built_is_kept_as_a_draft() {
    let turn = turn(REPLY, true);
    let build = deliver(&turn).answered(&turn, PublicationReply::Opened(Ok("me".to_string())));
    let publication = build.answered(&turn, PublicationReply::Built(Err("too many".to_string())));
    assert_eq!(
        publication,
        defer(REPLY, Reason::Reported { text: "too many".to_string() })
    );
    assert_eq!(
        done_text(publication.answered(&turn, PublicationReply::Stored(Ok("/p".to_string())))),
        "too many; draft retained at /p"
    );
}

#[test]
fn faults_end_a_publication() {
    let turn = turn(REPLY, true);
    let fault = || Fault::Notice(Notice::AlreadyFlushing);
    for publication in [
        deliver(&turn).answered(&turn, PublicationReply::Opened(Err(fault()))),
        enqueue(event())
            .answered(&turn, PublicationReply::Enqueued(Err(fault()))),
        Publication::Flush { event_id: "e1".to_string() }
            .answered(&turn, PublicationReply::Flushed(Err(fault()))),
    ] {
        assert_eq!(done_text(publication), "outbox flush already in progress");
    }
    assert_eq!(
        Publication::Open.answered(&turn, PublicationReply::Flushed(Ok(()))),
        Publication::Open
    );
}

#[test]
fn draft_needs_a_batch_and_a_whole_destination() {
    let root = "0a".repeat(32);
    let parent = "0B".repeat(32);
    let none = tags(None, None);
    let text = |result: Result<MessageDraft, Reason>| result.unwrap_err().text();
    assert_eq!(
        text(draft("x".to_string(), &None, &none, "me")),
        "automatic publication has no triggering batch"
    );
    assert_eq!(
        text(draft("x".to_string(), &batch(&[]), &none, "me")),
        "automatic publication has no triggering event"
    );
    for half in [tags(Some(&root), None), tags(None, Some(&parent))] {
        assert_eq!(
            text(draft("x".to_string(), &batch(&["asker"]), &half, "me")),
            "automatic publication has incomplete reply destination"
        );
    }
    let expected = nostr::EventId::from_hex("0g").unwrap_err().to_string();
    for bad in [tags(Some("0g"), Some(&parent)), tags(Some(&root), Some("0g"))] {
        assert_eq!(text(draft("x".to_string(), &batch(&["asker"]), &bad, "me")), expected);
    }
    assert_eq!(
        draft(
            "x".to_string(),
            &batch(&["asker", "me"]),
            &tags(Some(&root), Some(&parent)),
            "me"
        ),
        Ok(MessageDraft {
            channel_id: "channel".to_string(),
            content: "x".to_string(),
            thread: Some(Thread { root_event_id: root, parent_event_id: parent }),
            mention: None,
        })
    );
}

#[test]
fn decision_follows_the_reply() {
    let without_batch = |text: &str, ended: bool| Turn { batch: None, ..turn(text, ended) };
    let long = format!("progress {REPLY} footer");
    assert_eq!(decide(&without_batch(&long, true), "me"), defer(&long, Reason::NoBatch));
    assert_eq!(decide(&without_batch(&long, false), "me"), defer(&long, Reason::Unfinished));
    let markup = "[[BUZZ_FINAL:t]]<think>[[/BUZZ_FINAL:t]]";
    assert_eq!(
        decide(&without_batch(markup, true), "me"),
        defer(markup, Reason::Turn(Refusal::Markup))
    );
    let half = Turn { thread_tags: tags(Some("0a"), None), ..turn(&long, true) };
    assert_eq!(decide(&half, "me"), defer(&long, Reason::IncompleteDestination));
    let uncaptured =
        Turn { output: TurnOutput::begin(OutputMode::ToolOnly, "t"), ..turn("", true) };
    assert_eq!(decide(&uncaptured, "me"), Publication::Done(Ok(())));
}
