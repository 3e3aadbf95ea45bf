//! Which events and records may stand in an outbox, and which are taken up for storing.

use crate::event::Event;
use crate::fault::{Fault, Notice};
use crate::outbox;
use crate::outbox::OutboxView;
use crate::outside;
use crate::persist;
use crate::persist::PersistView;
use crate::record::{Payload, Record};
use crate::turn::{Refusal, TurnState};
use vstd::prelude::*;
use vstd::utf8::*;

verus! {

/// 64 hexadecimal digits in lower case.
pub open spec fn is_written_out(text: Seq<char>) -> bool {
    &&& text.len() == 64
    &&& forall|i: int|
        0 <= i < 64 ==> ('0' <= #[trigger] text[i] <= '9' || 'a' <= text[i] <= 'f')
}

/// The event is one of this author, of bounded length, and with its identifier written out.
pub open spec fn is_storable(public_key: Seq<char>, event: Event) -> bool {
    &&& event.pubkey@ == public_key
    &&& encode_utf8(event.content@).len() <= 262144
    &&& is_written_out(event.id@)
}

/// An event may stand in an outbox exactly where its author is the owner, its content has no more
/// than 256 KiB in UTF-8, its identifier is written out, and it verifies. The author is looked at
/// first, then the length, then the rest.
pub proof fn law_which_events_are_storable(public_key: Seq<char>, event: Event, verified: bool)
    ensures
        ({
            let judged = outbox::event_judged(public_key, event, verified);
            &&& judged is Ok <==> is_storable(public_key, event) && verified
            &&& judged == Err::<(), Fault>(Fault::Notice(Notice::ForeignAuthor)) <==> event.pubkey@
                != public_key
            &&& judged == Err::<(), Fault>(Fault::Notice(Notice::ContentTooLong))
                <==> event.pubkey@ == public_key && encode_utf8(event.content@).len() > 262144
            &&& judged == Err::<(), Fault>(Fault::Notice(Notice::InvalidEvent)) <==> event.pubkey@
                == public_key && encode_utf8(event.content@).len() <= 262144 && !(verified
                && is_written_out(event.id@))
        }),
{
}

/// An outbox takes an event exactly where it is storable by its owner and verifies.
pub proof fn law_outbox_takes_its_events(outbox: OutboxView, event: Event)
    ensures
        outbox.event_checked(event) is Ok <==> is_storable(outbox.public_key, event)
            && outside::event_verifies(event@),
        outbox.event_checked(event) is Err ==> outbox.event_checked(event) == Err::<(), Fault>(
            Fault::Notice(
                if event.pubkey@ != outbox.public_key {
                    Notice::ForeignAuthor
                } else if encode_utf8(event.content@).len() > 262144 {
                    Notice::ContentTooLong
                } else {
                    Notice::InvalidEvent
                },
            ),
        ),
{
}

/// A record that belongs to the outbox and names a turn: version 1, the outbox's own namespace, and
/// a turn identifier of 1 to 1024 bytes.
pub open spec fn is_addressed(namespace: Seq<char>, record: Record) -> bool {
    &&& record.version == 1
    &&& record.namespace@ == namespace
    &&& record.turn_id@.len() > 0
    &&& encode_utf8(record.turn_id@).len() <= 1024
}

/// A record may stand in an outbox exactly where it is addressed and holds a storable event that
/// verifies, or a draft of at most 256 KiB with a reason of at most 4 KiB.
pub proof fn law_which_records_are_storable(
    namespace: Seq<char>,
    public_key: Seq<char>,
    record: Record,
    verified: bool,
)
    ensures
        ({
            let judged = outbox::record_judged(namespace, public_key, record, verified);
            let is_ours = record.version == 1 && record.namespace@ == namespace;
            &&& judged is Ok <==> is_addressed(namespace, record) && match record.payload {
                Payload::Pending { event } => is_storable(public_key, event) && verified,
                Payload::Deferred { text, reason } => encode_utf8(text@).len() <= 262144
                    && encode_utf8(reason@).len() <= 4096,
            }
            &&& judged == Err::<(), Fault>(Fault::Notice(Notice::ForeignNamespace)) <==> !is_ours
            &&& judged == Err::<(), Fault>(Fault::Notice(Notice::TurnIdLength)) <==> is_ours && !(
            record.turn_id@.len() > 0 && encode_utf8(record.turn_id@).len() <= 1024)
            &&& judged == Err::<(), Fault>(Fault::Notice(Notice::OversizedDraft)) <==> is_addressed(
                namespace,
                record,
            ) && (record.payload matches Payload::Deferred { text, reason } && (encode_utf8(
                text@,
            ).len() > 262144 || encode_utf8(reason@).len() > 4096))
            &&& is_addressed(namespace, record) && record.payload is Pending ==> judged
                == outbox::event_judged(public_key, record.payload->Pending_event, verified)
        }),
{
}

/// An outbox takes a record for storing exactly where the record is addressed to it and holds a
/// storable event that verifies, or a draft within its limits; the very record is stored.
pub proof fn law_outbox_takes_its_records(outbox: OutboxView, record: Record, held: Record)
    ensures
        outbox.record_checked(record) is Ok <==> is_addressed(outbox.namespace, record)
            && match record.payload {
            Payload::Pending { event } => is_storable(outbox.public_key, event)
                && outside::event_verifies(event@),
            Payload::Deferred { text, reason } => encode_utf8(text@).len() <= 262144
                && encode_utf8(reason@).len() <= 4096,
        },
        PersistView::of(outbox, record) == (PersistView::Encode { record: held }) <==> held == record
            && outbox.record_checked(record) is Ok,
        outbox.record_checked(record) matches Err(fault) ==> PersistView::of(outbox, record)
            == PersistView::Done(Err(fault)),
{
}

/// The record carries this turn identifier and is addressed to the outbox.
pub open spec fn is_for_turn(outbox: OutboxView, turn_id: Seq<char>, record: Record) -> bool {
    is_addressed(outbox.namespace, record) && record.turn_id@ == turn_id
}

/// An event is taken up for storing exactly where it is storable, verifies, and is published by a turn
/// whose identifier has 1 to 1024 bytes. What is stored is the whole event, for that turn. Otherwise
/// the event is judged before the turn.
pub proof fn law_storable_events_are_taken_up(
    outbox: OutboxView,
    turn_id: Seq<char>,
    event: Event,
    persist: PersistView,
)
    requires
        persist::starts_enqueuing(outbox, turn_id, event, persist),
    ensures
        ({
            let is_taken = is_storable(outbox.public_key, event) && outside::event_verifies(event@);
            let is_named = turn_id.len() > 0 && encode_utf8(turn_id).len() <= 1024;
            &&& persist is Encode <==> is_taken && is_named
            &&& persist matches PersistView::Encode { record } ==> {
                &&& is_for_turn(outbox, turn_id, record)
                &&& record.payload is Pending
                &&& record.payload->Pending_event@ == event@
                &&& PersistView::of(outbox, record) == persist
            }
            &&& is_taken && !is_named ==> persist == PersistView::Done(
                Err(Fault::Notice(Notice::TurnIdLength)),
            )
            &&& event.pubkey@ != outbox.public_key ==> persist == PersistView::Done(
                Err(Fault::Notice(Notice::ForeignAuthor)),
            )
            &&& event.pubkey@ == outbox.public_key && encode_utf8(event.content@).len() > 262144
                ==> persist == PersistView::Done(Err(Fault::Notice(Notice::ContentTooLong)))
            &&& event.pubkey@ == outbox.public_key && encode_utf8(event.content@).len() <= 262144
                && !is_taken ==> persist == PersistView::Done(
                Err(Fault::Notice(Notice::InvalidEvent)),
            )
        }),
{
}

/// Every reply that a turn publishes can be stored: an event of the owner that holds it, verifies and
/// has its identifier written out is taken up, for every turn identifier that a record can carry.
pub proof fn law_every_reply_can_be_stored(
    outbox: OutboxView,
    state: TurnState,
    reply: Seq<char>,
    turn_id: Seq<char>,
    event: Event,
    persist: PersistView,
)
    requires
        state.reply() == Ok::<Option<Seq<char>>, Refusal>(Some(reply)),
        event.content@ == reply,
        event.pubkey@ == outbox.public_key,
        is_written_out(event.id@),
        turn_id.len() > 0,
        encode_utf8(turn_id).len() <= 1024,
        persist::starts_enqueuing(outbox, turn_id, event, persist),
    ensures
        outside::event_verifies(event@) ==> persist is Encode,
{
    crate::reply_laws::law_published_reply_is_plain(state, reply, 0);
    law_storable_events_are_taken_up(outbox, turn_id, event, persist);
}

/// A draft is taken up for storing exactly where its text has at most 256 KiB, its reason at most
/// 4 KiB, and its turn identifier 1 to 1024 bytes. What is stored is the whole text with the reason,
/// for that turn. Otherwise the draft is judged before the turn.
pub proof fn law_drafts_within_limits_are_taken_up(
    outbox: OutboxView,
    turn_id: Seq<char>,
    text: Seq<char>,
    reason: Seq<char>,
    persist: PersistView,
)
    requires
        persist::starts_deferring(outbox, turn_id, text, reason, persist),
    ensures
        ({
            let is_taken = encode_utf8(text).len() <= 262144 && encode_utf8(reason).len() <= 4096;
            let is_named = turn_id.len() > 0 && encode_utf8(turn_id).len() <= 1024;
            &&& persist is Encode <==> is_taken && is_named
            &&& persist matches PersistView::Encode { record } ==> {
                &&& is_for_turn(outbox, turn_id, record)
                &&& record.payload is Deferred
                &&& record.payload->text@ == text
                &&& record.payload->reason@ == reason
                &&& PersistView::of(outbox, record) == persist
            }
            &&& !is_taken ==> persist == PersistView::Done(
                Err(Fault::Notice(Notice::DraftTooLong)),
            )
            &&& is_taken && !is_named ==> persist == PersistView::Done(
                Err(Fault::Notice(Notice::TurnIdLength)),
            )
        }),
{
}

} // verus!
