//! Where a reply is published, whom it mentions, and when it is kept instead, in terms of what
//! triggered the turn.

use crate::event::Event;
use crate::fault::Fault;
use crate::outside;
use crate::publish;
use crate::publish::{
    Batch, MessageDraftView, PublicationReply, PublicationView, ThreadTags, Turn,
};
use crate::turn::Refusal;
use vstd::prelude::*;

verus! {

/// 64 hexadecimal digits, each in either case.
pub open spec fn is_identifier(text: Seq<char>) -> bool {
    &&& text.len() == 64
    &&& forall|i: int|
        0 <= i < 64 ==> ('0' <= #[trigger] text[i] <= '9' || 'a' <= text[i] <= 'f' || 'A' <= text[i]
            <= 'F')
}

/// The thread is that of the trigger: its root and its parent, both identifiers, or neither.
pub open spec fn is_thread_of(tags: ThreadTags, thread: Option<(Seq<char>, Seq<char>)>) -> bool {
    match thread {
        None => tags.root_event_id is None && tags.parent_event_id is None,
        Some((root, parent)) => {
            &&& tags.root_event_id is Some && tags.root_event_id->0@ == root
            &&& tags.parent_event_id is Some && tags.parent_event_id->0@ == parent
            &&& is_identifier(root)
            &&& is_identifier(parent)
        },
    }
}

/// The message answers the batch: it goes to the channel of the batch and the thread of the trigger,
/// and mentions the author of the last event, unless this is the publisher.
pub open spec fn answers(
    batch: Batch,
    tags: ThreadTags,
    public_key: Seq<char>,
    draft: MessageDraftView,
) -> bool {
    let last = batch.authors@[batch.authors@.len() - 1]@;
    &&& batch.authors@.len() > 0
    &&& draft.channel_id == batch.channel_id@
    &&& is_thread_of(tags, draft.thread)
    &&& last == public_key ==> draft.mention is None
    &&& last != public_key ==> draft.mention == Some(last)
}

/// Once the outbox is open, a message is built exactly where the turn came to its end with a reply and
/// was triggered by a batch that the message answers; and the message publishes this reply.
pub proof fn law_message_answers_the_batch(turn: Turn, public_key: String, draft: MessageDraftView)
    ensures
        PublicationView::Open.after(turn, PublicationReply::Opened(Ok(public_key))) == (
        PublicationView::Build { draft }) <==> {
            &&& turn.ended
            &&& turn.output@.reply() == Ok::<Option<Seq<char>>, Refusal>(Some(draft.content))
            &&& turn.batch is Some
            &&& answers(turn.batch->0, turn.thread_tags, public_key@, draft)
        },
{
}

/// The outbox was opened at `at`, and its owner is known by `public_key`.
pub open spec fn opened_at(
    turn: Turn,
    replies: Seq<PublicationReply>,
    at: int,
    public_key: String,
) -> bool {
    &&& publish::asked_at(turn, replies, at, PublicationView::Open)
    &&& replies[at] == PublicationReply::Opened(Ok(public_key))
}

/// Whatever is answered, a message that is to be built answers the batch that triggered the turn, as
/// the identity whose outbox was opened.
pub proof fn law_every_message_answers_the_batch(turn: Turn, replies: Seq<PublicationReply>) -> (opened:
    (int, String))
    ensures
        PublicationView::of(turn).after_all(turn, replies) matches PublicationView::Build { draft }
            ==> {
            &&& opened_at(turn, replies, opened.0, opened.1)
            &&& turn.batch is Some
            &&& answers(turn.batch->0, turn.thread_tags, opened.1@, draft)
        },
    decreases replies.len(),
{
    if replies.len() == 0 {
        (0, arbitrary())
    } else {
        let before = replies.drop_last();
        let last = before.len() as int;
        let stage = PublicationView::of(turn).after_all(turn, before);
        let (at, public_key) = law_every_message_answers_the_batch(turn, before);
        assert(replies.take(last) =~= before);
        if let (PublicationView::Open, PublicationReply::Opened(Ok(key))) = (stage, replies.last()) {
            (last, key)
        } else {
            if opened_at(turn, before, at, public_key) {
                assert(replies.take(at) =~= before.take(at));
            }
            (at, public_key)
        }
    }
}

/// Why a turn is kept as a draft once the outbox is open. What comes first decides: that it did not
/// finish, that its reply is refused, that nothing triggered it, and that the place of the trigger is
/// not whole or not an identifier, the root before the parent.
pub open spec fn is_withheld_for(turn: Turn, reason: Seq<char>) -> bool {
    let root = turn.thread_tags.root_event_id;
    let parent = turn.thread_tags.parent_event_id;
    if !turn.ended {
        reason == "automatic publication deferred: turn did not finish normally"@
    } else if turn.output@.reply() is Err {
        reason == turn.output@.reply()->Err_0.message()
    } else if turn.output@.turn_id is None {
        false
    } else if turn.batch is None {
        reason == "automatic publication has no triggering batch"@
    } else if turn.batch->0.authors@.len() == 0 {
        reason == "automatic publication has no triggering event"@
    } else if (root is Some) != (parent is Some) {
        reason == "automatic publication has incomplete reply destination"@
    } else if root is Some && !is_identifier(root->0@) {
        reason == outside::event_id_error_text(root->0@)
    } else {
        &&& parent is Some
        &&& !is_identifier(parent->0@)
        &&& reason == outside::event_id_error_text(parent->0@)
    }
}

/// Once the outbox is open, a turn is kept as a draft exactly where a reason applies, all of its text
/// under its own identifier and with that reason. A turn that came to its end without being captured
/// is done with. For every other one a message is built.
pub proof fn law_turn_is_withheld_for_a_reason(
    turn: Turn,
    public_key: String,
    turn_id: Seq<char>,
    text: Seq<char>,
    reason: Seq<char>,
)
    ensures
        ({
            let decided = PublicationView::Open.after(
                turn,
                PublicationReply::Opened(Ok(public_key)),
            );
            let is_left_alone = turn.ended && turn.output@.turn_id is None;
            &&& decided == (PublicationView::Defer { turn_id, text, reason }) <==> turn_id
                == turn.turn_id@ && text == turn.output@.text && is_withheld_for(turn, reason)
            &&& is_left_alone <==> decided == PublicationView::Done(Ok(()))
            &&& !is_left_alone ==> decided is Defer || decided is Build
        }),
{
    crate::reply_laws::law_state_decides_before_the_text(turn.output@);
}

/// What a refusal of the text says.
pub proof fn law_refusals_say_why(refusal: Refusal)
    ensures
        refusal == Refusal::UsedTools ==> refusal.message()
            == "automatic publication deferred: this conversational turn used tools; publication ownership cannot be proven"@,
        refusal == Refusal::Overflowed ==> refusal.message()
            == "automatic publication deferred: captured output exceeded 256 KiB; the retained draft is incomplete"@,
        refusal == Refusal::NoEnvelope ==> refusal.message()
            == "automatic publication deferred: missing or repeated final response envelope"@,
        refusal == Refusal::Reversed ==> refusal.message()
            == "automatic publication deferred: reversed final envelope"@,
        refusal == Refusal::Length ==> refusal.message()
            == "automatic publication deferred: final response must contain 1..65536 UTF-8 bytes"@,
        refusal == Refusal::Markup ==> refusal.message()
            == "automatic publication deferred: final response contains thought markup or nested envelopes"@,
{
}

/// A publication asks the outbox first, exactly for a turn that is captured. It ends with the fault
/// that it meets, with success once the event is delivered, and never goes on from its end.
pub proof fn law_publication_ends(
    turn: Turn,
    fault: Fault,
    turn_id: Seq<char>,
    event: Event,
    event_id: Seq<char>,
    outcome: Result<(), Seq<char>>,
    reply: PublicationReply,
)
    ensures
        turn.output@.turn_id is Some <==> PublicationView::of(turn) == PublicationView::Open,
        turn.output@.turn_id is None <==> PublicationView::of(turn) == PublicationView::Done(Ok(())),
        PublicationView::Open.after(turn, PublicationReply::Opened(Err(fault)))
            == PublicationView::Done(Err(fault.message())),
        (PublicationView::Enqueue { turn_id, event }).after(
            turn,
            PublicationReply::Enqueued(Err(fault)),
        ) == PublicationView::Done(Err(fault.message())),
        (PublicationView::Flush { event_id }).after(turn, PublicationReply::Flushed(Err(fault)))
            == PublicationView::Done(Err(fault.message())),
        (PublicationView::Flush { event_id }).after(turn, PublicationReply::Flushed(Ok(())))
            == PublicationView::Done(Ok(())),
        PublicationView::Done(outcome).after(turn, reply) == PublicationView::Done(outcome),
{
}

/// A stage leaves only with an answer to its own question.
pub proof fn law_publication_waits_for_its_answer(
    stage: PublicationView,
    turn: Turn,
    reply: PublicationReply,
)
    requires
        stage is Open ==> !(reply is Opened),
        stage is Defer ==> !(reply is Stored),
        stage is Build ==> !(reply is Built),
        stage is Enqueue ==> !(reply is Enqueued),
        stage is Flush ==> !(reply is Flushed),
    ensures
        stage.after(turn, reply) == stage,
{
}

} // verus!
