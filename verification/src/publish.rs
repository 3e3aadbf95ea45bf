//! Publishing the reply of a finished turn, or keeping it as a draft.

use crate::event;
use crate::event::Event;
use crate::fault::{Fault, Reason};
use crate::outside;
use crate::outside::event_id_error;
use crate::record::{MAX_REASON_BYTES, MAX_TEXT_BYTES};
use crate::text;
use crate::turn::{Refusal, TurnOutput, TurnState};
use crate::turn_laws;
use vstd::prelude::*;
use vstd::utf8::*;

verus! {

/// The events that triggered a turn.
#[derive(Debug, PartialEq, Eq)]
pub struct Batch {
    pub channel_id: String,
    /// The authors of the events, in the order of the events.
    pub authors: Vec<String>,
}

/// The thread in which a turn was triggered.
#[derive(Debug, PartialEq, Eq)]
pub struct ThreadTags {
    pub root_event_id: Option<String>,
    pub parent_event_id: Option<String>,
}

/// A turn that is over.
pub struct Turn {
    pub turn_id: String,
    pub output: TurnOutput,
    pub batch: Option<Batch>,
    pub thread_tags: ThreadTags,
    /// The turn came to its end.
    pub ended: bool,
}

/// The place of a message in a thread.
#[derive(Debug, PartialEq, Eq)]
pub struct Thread {
    pub root_event_id: String,
    pub parent_event_id: String,
}

/// A message to be built and signed.
#[derive(Debug, PartialEq, Eq)]
pub struct MessageDraft {
    pub channel_id: String,
    pub content: String,
    pub thread: Option<Thread>,
    /// Whom the message mentions.
    pub mention: Option<String>,
}

/// A message to be built and signed.
pub struct MessageDraftView {
    pub channel_id: Seq<char>,
    pub content: Seq<char>,
    /// The root and the parent of the message in its thread.
    pub thread: Option<(Seq<char>, Seq<char>)>,
    pub mention: Option<Seq<char>>,
}

impl View for MessageDraft {
    type V = MessageDraftView;

    open spec fn view(&self) -> MessageDraftView {
        MessageDraftView {
            channel_id: self.channel_id@,
            content: self.content@,
            thread: match self.thread {
                Some(thread) => Some((thread.root_event_id@, thread.parent_event_id@)),
                None => None,
            },
            mention: outside::optional(self.mention),
        }
    }
}

/// How far a turn has been published. Each stage but the last names what is asked next.
#[derive(Debug, PartialEq, Eq)]
pub enum Publication {
    /// Open the outbox.
    Open,
    /// Store `text`, all that was captured of the turn, as a draft of the turn.
    Defer { turn_id: String, text: String, reason: Reason },
    /// Build the message and sign it.
    Build { draft: MessageDraft },
    /// Store the event, which the turn publishes, until it is delivered.
    Enqueue { turn_id: String, event: Event },
    /// Deliver the event.
    Flush { event_id: String },
    Done(Result<(), Fault>),
}

/// How far a turn has been published. A reason and a fault are what is said of them.
pub enum PublicationView {
    Open,
    Defer { turn_id: Seq<char>, text: Seq<char>, reason: Seq<char> },
    Build { draft: MessageDraftView },
    Enqueue { turn_id: Seq<char>, event: Event },
    Flush { event_id: Seq<char> },
    Done(Result<(), Seq<char>>),
}

impl View for Publication {
    type V = PublicationView;

    open spec fn view(&self) -> PublicationView {
        match *self {
            Publication::Open => PublicationView::Open,
            Publication::Defer { turn_id, text, reason } => PublicationView::Defer {
                turn_id: turn_id@,
                text: text@,
                reason: reason.message(),
            },
            Publication::Build { draft } => PublicationView::Build { draft: draft@ },
            Publication::Enqueue { turn_id, event } => PublicationView::Enqueue {
                turn_id: turn_id@,
                event,
            },
            Publication::Flush { event_id } => PublicationView::Flush { event_id: event_id@ },
            Publication::Done(Ok(())) => PublicationView::Done(Ok(())),
            Publication::Done(Err(fault)) => PublicationView::Done(Err(fault.message())),
        }
    }
}

/// What is answered while a turn is published.
#[derive(Debug, PartialEq, Eq)]
pub enum PublicationReply {
    /// The outbox is open; the key by which its owner is known.
    Opened(Result<String, Fault>),
    /// The draft is stored; where it is, as it is shown.
    Stored(Result<String, Fault>),
    /// The signed message, or what was reported instead.
    Built(Result<Event, String>),
    /// The event is stored.
    Enqueued(Result<(), Fault>),
    /// The event is delivered.
    Flushed(Result<(), Fault>),
}

/// The place in the thread, or what is said where there is none. A message stands in a thread with
/// both its root and its parent, or in none.
pub open spec fn thread_of(tags: ThreadTags) -> Result<Option<(Seq<char>, Seq<char>)>, Seq<char>> {
    match (tags.root_event_id, tags.parent_event_id) {
        (Some(root), Some(parent)) => if !event::is_event_id(root@) {
            Err(outside::event_id_error_text(root@))
        } else if !event::is_event_id(parent@) {
            Err(outside::event_id_error_text(parent@))
        } else {
            Ok(Some((root@, parent@)))
        },
        (None, None) => Ok(None),
        _ => Err(Reason::IncompleteDestination.message()),
    }
}

/// The message that publishes `content`, or what is said where none can be built. It goes to the
/// channel and the thread of the batch that triggered the turn, and mentions the author of the last
/// event of the batch, unless that is the publisher.
pub open spec fn drafted(
    content: Seq<char>,
    batch: Option<Batch>,
    tags: ThreadTags,
    public_key: Seq<char>,
) -> Result<MessageDraftView, Seq<char>> {
    match batch {
        None => Err(Reason::NoBatch.message()),
        Some(batch) => if batch.authors@.len() == 0 {
            Err(Reason::NoTrigger.message())
        } else {
            match thread_of(tags) {
                Err(said) => Err(said),
                Ok(thread) => Ok(
                    MessageDraftView {
                        channel_id: batch.channel_id@,
                        content,
                        thread,
                        mention: if batch.authors@.last()@ == public_key {
                            None
                        } else {
                            Some(batch.authors@.last()@)
                        },
                    },
                ),
            }
        },
    }
}

/// The turn is kept as a draft: all that was captured of it, under its own identifier, and why.
pub open spec fn withheld(turn: Turn, reason: Seq<char>) -> PublicationView {
    PublicationView::Defer { turn_id: turn.turn_id@, text: turn.output@.text, reason }
}

/// What becomes of a turn once the outbox is open.
pub open spec fn decided(turn: Turn, public_key: Seq<char>) -> PublicationView {
    if !turn.ended {
        withheld(turn, Reason::Unfinished.message())
    } else {
        match turn.output@.reply() {
            Ok(None) => PublicationView::Done(Ok(())),
            Err(refusal) => withheld(turn, refusal.message()),
            Ok(Some(content)) => match drafted(content, turn.batch, turn.thread_tags, public_key) {
                Ok(draft) => PublicationView::Build { draft },
                Err(reason) => withheld(turn, reason),
            },
        }
    }
}

impl PublicationView {
    /// The stage in which a turn is taken up.
    pub open spec fn of(turn: Turn) -> PublicationView {
        if turn.output@.turn_id is Some {
            PublicationView::Open
        } else {
            PublicationView::Done(Ok(()))
        }
    }

    /// The stage after an answer. An answer to another question changes nothing.
    pub open spec fn after(self, turn: Turn, reply: PublicationReply) -> PublicationView {
        match (self, reply) {
            (PublicationView::Open, PublicationReply::Opened(Err(fault))) => PublicationView::Done(
                Err(fault.message()),
            ),
            (PublicationView::Open, PublicationReply::Opened(Ok(public_key))) => decided(
                turn,
                public_key@,
            ),
            (PublicationView::Defer { reason, .. }, PublicationReply::Stored(Ok(shown))) =>
                PublicationView::Done(Err(reason + "; draft retained at "@ + shown@)),
            (PublicationView::Defer { .. }, PublicationReply::Stored(Err(fault))) =>
                PublicationView::Done(Err(fault.message())),
            (PublicationView::Build { .. }, PublicationReply::Built(Ok(event))) =>
                PublicationView::Enqueue { turn_id: turn.turn_id@, event },
            (PublicationView::Build { .. }, PublicationReply::Built(Err(text))) => withheld(
                turn,
                text@,
            ),
            (PublicationView::Enqueue { event, .. }, PublicationReply::Enqueued(Ok(()))) =>
                PublicationView::Flush { event_id: event.id@ },
            (PublicationView::Enqueue { .. }, PublicationReply::Enqueued(Err(fault))) =>
                PublicationView::Done(Err(fault.message())),
            (PublicationView::Flush { .. }, PublicationReply::Flushed(Ok(()))) =>
                PublicationView::Done(Ok(())),
            (PublicationView::Flush { .. }, PublicationReply::Flushed(Err(fault))) =>
                PublicationView::Done(Err(fault.message())),
            _ => self,
        }
    }

    /// The stage after several answers.
    pub open spec fn after_all(self, turn: Turn, replies: Seq<PublicationReply>) -> PublicationView
        decreases replies.len(),
    {
        if replies.len() == 0 {
            self
        } else {
            self.after_all(turn, replies.drop_last()).after(turn, replies.last())
        }
    }
}

/// The place in the thread, or why there is none.
fn find_thread(tags: &ThreadTags) -> (thread: Result<Option<Thread>, Reason>)
    ensures
        match thread {
            Ok(Some(thread)) => thread_of(*tags) == Ok::<
                Option<(Seq<char>, Seq<char>)>,
                Seq<char>,
            >(Some((thread.root_event_id@, thread.parent_event_id@))),
            Ok(None) => thread_of(*tags) == Ok::<Option<(Seq<char>, Seq<char>)>, Seq<char>>(None),
            Err(reason) => thread_of(*tags) == Err::<Option<(Seq<char>, Seq<char>)>, Seq<char>>(
                reason.message(),
            ),
        },
{
    match (&tags.root_event_id, &tags.parent_event_id) {
        (Some(root), Some(parent)) => {
            if let Some(text) = event_id_error(root.as_str()) {
                return Err(Reason::Reported { text });
            }
            if let Some(text) = event_id_error(parent.as_str()) {
                return Err(Reason::Reported { text });
            }
            Ok(Some(Thread { root_event_id: root.clone(), parent_event_id: parent.clone() }))
        },
        (None, None) => Ok(None),
        _ => Err(Reason::IncompleteDestination),
    }
}

/// The message that publishes `content`, or why none can be built.
pub fn draft(
    content: String,
    batch: &Option<Batch>,
    tags: &ThreadTags,
    public_key: &str,
) -> (draft: Result<MessageDraft, Reason>)
    ensures
        match draft {
            Ok(draft) => drafted(content@, *batch, *tags, public_key@) == Ok::<
                MessageDraftView,
                Seq<char>,
            >(draft@),
            Err(reason) => drafted(content@, *batch, *tags, public_key@) == Err::<
                MessageDraftView,
                Seq<char>,
            >(reason.message()),
        },
{
    let batch: &Batch = match batch {
        Some(batch) => batch,
        None => {
            return Err(Reason::NoBatch);
        },
    };
    let events: usize = batch.authors.len();
    if events == 0 {
        return Err(Reason::NoTrigger);
    }
    let thread: Option<Thread> = match find_thread(tags) {
        Ok(thread) => thread,
        Err(reason) => {
            return Err(reason);
        },
    };
    let author: &String = &batch.authors[events - 1];
    let mention: Option<String> = if text::same_text(author.as_str(), public_key) {
        None
    } else {
        Some(author.clone())
    };
    Ok(MessageDraft { channel_id: batch.channel_id.clone(), content, thread, mention })
}

/// The turn is kept as a draft, for this reason.
fn withhold(turn: &Turn, reason: Reason) -> (next: Publication)
    ensures
        next@ == withheld(*turn, reason.message()),
{
    Publication::Defer {
        turn_id: turn.turn_id.clone(),
        text: turn.output.captured_text().to_owned(),
        reason,
    }
}

/// What becomes of a turn once the outbox is open.
pub fn decide(turn: &Turn, public_key: &str) -> (next: Publication)
    ensures
        next@ == decided(*turn, public_key@),
{
    if !turn.ended {
        return withhold(turn, Reason::Unfinished);
    }
    match turn.output.reply() {
        Ok(None) => Publication::Done(Ok(())),
        Err(refusal) => withhold(turn, Reason::Turn(refusal)),
        Ok(Some(content)) => match draft(content, &turn.batch, &turn.thread_tags, public_key) {
            Ok(draft) => Publication::Build { draft },
            Err(reason) => withhold(turn, reason),
        },
    }
}

/// Takes up a turn that is over, to publish its reply.
pub fn deliver(turn: &Turn) -> (publication: Publication)
    ensures
        publication@ == PublicationView::of(*turn),
{
    if turn.output.is_captured() {
        Publication::Open
    } else {
        Publication::Done(Ok(()))
    }
}

impl Publication {
    /// Goes on with publishing a turn after an answer.
    pub fn answered(self, turn: &Turn, reply: PublicationReply) -> (next: Publication)
        ensures
            next@ == self@.after(*turn, reply),
    {
        match (self, reply) {
            (Publication::Open, PublicationReply::Opened(Err(fault))) => Publication::Done(
                Err(fault),
            ),
            (Publication::Open, PublicationReply::Opened(Ok(public_key))) => decide(
                turn,
                public_key.as_str(),
            ),
            (Publication::Defer { reason, .. }, PublicationReply::Stored(Ok(shown))) =>
                Publication::Done(Err(Fault::Draft { reason, shown })),
            (Publication::Defer { .. }, PublicationReply::Stored(Err(fault))) => Publication::Done(
                Err(fault),
            ),
            (Publication::Build { .. }, PublicationReply::Built(Ok(event))) =>
                Publication::Enqueue { turn_id: turn.turn_id.clone(), event },
            (Publication::Build { .. }, PublicationReply::Built(Err(text))) => withhold(
                turn,
                Reason::Reported { text },
            ),
            (Publication::Enqueue { event, .. }, PublicationReply::Enqueued(Ok(()))) =>
                Publication::Flush { event_id: event.id },
            (Publication::Enqueue { .. }, PublicationReply::Enqueued(Err(fault))) =>
                Publication::Done(Err(fault)),
            (Publication::Flush { .. }, PublicationReply::Flushed(Ok(()))) => Publication::Done(
                Ok(()),
            ),
            (Publication::Flush { .. }, PublicationReply::Flushed(Err(fault))) =>
                Publication::Done(Err(fault)),
            (publication, _) => publication,
        }
    }
}

/// A turn that was not captured is left alone: nothing is asked for it.
pub proof fn law_uncaptured_turn_is_left_alone(turn: Turn, replies: Seq<PublicationReply>)
    requires
        turn.output@.turn_id is None,
    ensures
        PublicationView::of(turn).after_all(turn, replies) == PublicationView::Done(Ok(())),
    decreases replies.len(),
{
    if replies.len() > 0 {
        law_uncaptured_turn_is_left_alone(turn, replies.drop_last());
    }
}

/// A message is built that publishes the reply of the turn.
pub open spec fn publishes_reply(turn: Turn, draft: MessageDraftView) -> bool {
    &&& turn.ended
    &&& turn.output@.reply() == Ok::<Option<Seq<char>>, Refusal>(Some(draft.content))
}

/// Whatever is answered, no message is built but one that publishes exactly the reply of a turn that
/// came to its end; a turn without a reply that may be published is only ever kept as a draft.
pub proof fn law_only_the_reply_is_published(turn: Turn, replies: Seq<PublicationReply>)
    ensures
        match PublicationView::of(turn).after_all(turn, replies) {
            PublicationView::Build { draft } => publishes_reply(turn, draft),
            PublicationView::Enqueue { .. } | PublicationView::Flush { .. } => turn.ended
                && turn.output@.reply() matches Ok(Some(_)),
            _ => true,
        },
    decreases replies.len(),
{
    if replies.len() > 0 {
        law_only_the_reply_is_published(turn, replies.drop_last());
    }
}

/// A turn that did not come to its end, or that holds no reply that may be published, is kept as a
/// draft: all that was captured of it, under its own identifier, with the reason. Its publisher is
/// told why and where, or why it could not be kept.
pub proof fn law_withheld_reply_is_kept(
    turn: Turn,
    public_key: String,
    shown: String,
    fault: Fault,
    refusal: Refusal,
)
    requires
        turn.output@.turn_id is Some,
        !turn.ended || turn.output@.reply() == Err::<Option<Seq<char>>, Refusal>(refusal),
    ensures
        ({
            let reason = if turn.ended {
                refusal.message()
            } else {
                Reason::Unfinished.message()
            };
            let opened = PublicationView::of(turn).after(
                turn,
                PublicationReply::Opened(Ok(public_key)),
            );
            &&& opened == (PublicationView::Defer {
                turn_id: turn.turn_id@,
                text: turn.output@.text,
                reason,
            })
            &&& opened.after(turn, PublicationReply::Stored(Ok(shown))) == PublicationView::Done(
                Err(reason + "; draft retained at "@ + shown@),
            )
            &&& opened.after(turn, PublicationReply::Stored(Err(fault))) == PublicationView::Done(
                Err(fault.message()),
            )
        }),
{
}

/// A reply for which no message can be built, because of what triggered the turn or of what is
/// reported while it is built and signed, is kept as a draft as well: not the reply alone, but all
/// that was captured of the turn, under its own identifier.
pub proof fn law_reply_without_message_is_kept(
    turn: Turn,
    public_key: String,
    content: Seq<char>,
    draft: MessageDraftView,
    text: String,
)
    requires
        turn.output@.turn_id is Some,
        turn.ended,
        turn.output@.reply() == Ok::<Option<Seq<char>>, Refusal>(Some(content)),
    ensures
        drafted(content, turn.batch, turn.thread_tags, public_key@) matches Err(reason)
            ==> PublicationView::of(turn).after(turn, PublicationReply::Opened(Ok(public_key)))
            == (PublicationView::Defer {
            turn_id: turn.turn_id@,
            text: turn.output@.text,
            reason,
        }),
        (PublicationView::Build { draft }).after(turn, PublicationReply::Built(Err(text)))
            == (PublicationView::Defer {
            turn_id: turn.turn_id@,
            text: turn.output@.text,
            reason: text@,
        }),
{
}

/// Whatever is answered, a draft is all that was captured of the turn, under its own identifier, and
/// an event is stored under the identifier of the turn that publishes it.
pub proof fn law_turn_is_stored_as_itself(turn: Turn, replies: Seq<PublicationReply>)
    ensures
        match PublicationView::of(turn).after_all(turn, replies) {
            PublicationView::Defer { turn_id, text, .. } => turn_id == turn.turn_id@ && text
                == turn.output@.text,
            PublicationView::Enqueue { turn_id, .. } => turn_id == turn.turn_id@,
            _ => true,
        },
    decreases replies.len(),
{
    if replies.len() > 0 {
        law_turn_is_stored_as_itself(turn, replies.drop_last());
    }
}

/// The answer at `at` was given to the question of `stage`, while `turn` was published.
pub open spec fn asked_at(
    turn: Turn,
    replies: Seq<PublicationReply>,
    at: int,
    stage: PublicationView,
) -> bool {
    0 <= at < replies.len() && PublicationView::of(turn).after_all(turn, replies.take(at)) == stage
}

/// The message that publishes the reply of the turn was built and signed: `event` came back.
pub open spec fn was_built(turn: Turn, replies: Seq<PublicationReply>, event: Event, at: int) -> bool {
    exists|draft: MessageDraftView|
        #[trigger] publishes_reply(turn, draft) && asked_at(
            turn,
            replies,
            at,
            (PublicationView::Build { draft }),
        ) && replies[at] == PublicationReply::Built(Ok(event))
}

/// `event` was stored under the identifier of the turn.
pub open spec fn was_stored(turn: Turn, replies: Seq<PublicationReply>, event: Event, at: int) -> bool {
    asked_at(turn, replies, at, (PublicationView::Enqueue { turn_id: turn.turn_id@, event }))
        && (replies[at] matches PublicationReply::Enqueued(Ok(_)))
}

/// `event` was sent and accepted.
pub open spec fn was_sent(turn: Turn, replies: Seq<PublicationReply>, event: Event, at: int) -> bool {
    asked_at(turn, replies, at, (PublicationView::Flush { event_id: event.id@ })) && (
    replies[at] matches PublicationReply::Flushed(Ok(_)))
}

proof fn lemma_asked_before(
    turn: Turn,
    replies: Seq<PublicationReply>,
    reply: PublicationReply,
    at: int,
    stage: PublicationView,
)
    requires
        asked_at(turn, replies, at, stage),
    ensures
        asked_at(turn, replies.push(reply), at, stage),
        replies.push(reply)[at] == replies[at],
{
    assert(replies.push(reply).take(at) =~= replies.take(at));
}

proof fn lemma_built_before(
    turn: Turn,
    replies: Seq<PublicationReply>,
    reply: PublicationReply,
    event: Event,
    at: int,
)
    requires
        was_built(turn, replies, event, at),
    ensures
        was_built(turn, replies.push(reply), event, at),
        at < replies.len(),
{
    let draft = choose|draft: MessageDraftView|
        #[trigger] publishes_reply(turn, draft) && asked_at(
            turn,
            replies,
            at,
            (PublicationView::Build { draft }),
        ) && replies[at] == PublicationReply::Built(Ok(event));
    lemma_asked_before(turn, replies, reply, at, PublicationView::Build { draft });
}

/// What stands behind a stage that is reached: which event was built, and where it was stored.
proof fn lemma_publication_history(turn: Turn, replies: Seq<PublicationReply>) -> (history: (
    Event,
    int,
    int,
    int,
))
    requires
        turn.output@.turn_id is Some,
    ensures
        ({
            let (event, built, stored, sent) = history;
            match PublicationView::of(turn).after_all(turn, replies) {
                PublicationView::Enqueue { turn_id, event: held } => held == event && turn_id
                    == turn.turn_id@ && was_built(turn, replies, event, built),
                PublicationView::Flush { event_id } => event_id == event.id@ && built < stored
                    && was_built(turn, replies, event, built) && was_stored(
                    turn,
                    replies,
                    event,
                    stored,
                ),
                PublicationView::Done(Ok(())) => built < stored < sent && was_built(
                    turn,
                    replies,
                    event,
                    built,
                ) && was_stored(turn, replies, event, stored) && was_sent(
                    turn,
                    replies,
                    event,
                    sent,
                ),
                _ => true,
            }
        }),
    decreases replies.len(),
{
    if replies.len() == 0 {
        (arbitrary(), 0, 0, 0)
    } else {
        let before = replies.drop_last();
        let reply = replies.last();
        let last = before.len() as int;
        let (event, built, stored, sent) = lemma_publication_history(turn, before);
        let stage = PublicationView::of(turn).after_all(turn, before);
        assert(replies =~= before.push(reply));
        assert(replies.take(last) =~= before);
        assert(asked_at(turn, replies, last, stage));
        law_only_the_reply_is_published(turn, before);
        if was_built(turn, before, event, built) {
            lemma_built_before(turn, before, reply, event, built);
        }
        if was_stored(turn, before, event, stored) {
            lemma_asked_before(
                turn,
                before,
                reply,
                stored,
                PublicationView::Enqueue { turn_id: turn.turn_id@, event },
            );
        }
        if was_sent(turn, before, event, sent) {
            lemma_asked_before(
                turn,
                before,
                reply,
                sent,
                PublicationView::Flush { event_id: event.id@ },
            );
        }
        match (stage, reply) {
            (PublicationView::Build { draft }, PublicationReply::Built(Ok(made))) => {
                assert(publishes_reply(turn, draft));
                assert(was_built(turn, replies, made, last));
                (made, last, last, last)
            },
            (PublicationView::Enqueue { .. }, PublicationReply::Enqueued(Ok(()))) => (
                event,
                built,
                last,
                last,
            ),
            (PublicationView::Flush { .. }, PublicationReply::Flushed(Ok(()))) => (
                event,
                built,
                stored,
                last,
            ),
            _ => (event, built, stored, sent),
        }
    }
}

/// A captured turn is published only where it came to its end with a reply, one event was built that
/// publishes exactly this reply, that event was stored under the identifier of the turn, and only
/// after that it was sent and accepted.
pub proof fn law_published_turn_was_stored_and_sent(turn: Turn, replies: Seq<PublicationReply>)
    requires
        turn.output@.turn_id is Some,
        PublicationView::of(turn).after_all(turn, replies) == PublicationView::Done(Ok(())),
    ensures
        turn.ended,
        turn.output@.reply() matches Ok(Some(_)),
        exists|event: Event, built: int, stored: int, sent: int|
            built < stored < sent && #[trigger] was_built(turn, replies, event, built)
                && #[trigger] was_stored(turn, replies, event, stored) && #[trigger] was_sent(
                turn,
                replies,
                event,
                sent,
            ),
{
    let (event, built, stored, sent) = lemma_publication_history(turn, replies);
    assert(was_built(turn, replies, event, built));
}

/// A message that is signed is stored before it is sent, under the identifier of the turn, and the
/// event that was signed is the one that is stored and sent.
pub proof fn law_signed_event_is_stored_and_sent(turn: Turn, draft: MessageDraftView, event: Event)
    ensures
        (PublicationView::Build { draft }).after(turn, PublicationReply::Built(Ok(event)))
            == (PublicationView::Enqueue { turn_id: turn.turn_id@, event }),
        (PublicationView::Enqueue { turn_id: turn.turn_id@, event }).after(
            turn,
            PublicationReply::Enqueued(Ok(())),
        ) == (PublicationView::Flush { event_id: event.id@ }),
{
}

proof fn lemma_reason_is_short(reason: Seq<char>)
    requires
        is_ascii_chars(reason),
        reason.len() <= 200,
    ensures
        encode_utf8(reason).len() <= MAX_REASON_BYTES,
{
    is_ascii_chars_encode_utf8(reason);
}

/// A draft can always be kept: whatever was captured of a turn fits in a draft, and so does every
/// reason that this library gives.
pub proof fn law_draft_fits(state: TurnState, reason: Reason)
    requires
        turn_laws::well_formed(state),
        !(reason is Reported),
    ensures
        encode_utf8(state.text).len() <= MAX_TEXT_BYTES,
        encode_utf8(reason.message()).len() <= MAX_REASON_BYTES,
{
    reveal_strlit(
        "automatic publication deferred: this conversational turn used tools; publication ownership cannot be proven",
    );
    reveal_strlit(
        "automatic publication deferred: captured output exceeded 256 KiB; the retained draft is incomplete",
    );
    reveal_strlit("automatic publication deferred: missing or repeated final response envelope");
    reveal_strlit("automatic publication deferred: reversed final envelope");
    reveal_strlit("automatic publication deferred: final response must contain 1..65536 UTF-8 bytes");
    reveal_strlit(
        "automatic publication deferred: final response contains thought markup or nested envelopes",
    );
    reveal_strlit("automatic publication deferred: turn did not finish normally");
    reveal_strlit("automatic publication has no triggering batch");
    reveal_strlit("automatic publication has no triggering event");
    reveal_strlit("automatic publication has incomplete reply destination");
    lemma_reason_is_short(reason.message());
}

} // verus!
