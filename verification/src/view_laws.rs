//! What is said of a value is what its fields hold.

use crate::delivery::{Header, Sending, SendingView, Unsent};
use crate::event::Event;
use crate::fault::{Fault, Reason};
use crate::flush::{FlushFault, FlushStage, FlushStageView};
use crate::inventory::{Found, Inventory, InventoryView};
use crate::outside::UrlParts;
use crate::persist::{FillStep, Persist, PersistView, Placed};
use crate::publish::{MessageDraft, Publication, PublicationView};
use crate::record::Record;
use crate::removal::{Removal, RemovalView};
use crate::turn::TurnSummary;
use vstd::prelude::*;

verus! {

/// A message goes where its fields say.
pub proof fn law_draft_says_its_fields(draft: MessageDraft)
    ensures
        draft@.channel_id == draft.channel_id@,
        draft@.content == draft.content@,
        draft@.thread is Some <==> draft.thread is Some,
        draft.thread matches Some(thread) ==> draft@.thread == Some(
            (thread.root_event_id@, thread.parent_event_id@),
        ),
        draft@.mention is Some <==> draft.mention is Some,
        draft.mention matches Some(mention) ==> draft@.mention->0 == mention@,
{
}

/// A publication asks what its fields say.
pub proof fn law_publication_says_its_fields(
    draft: MessageDraft,
    turn_id: String,
    text: String,
    reason: Reason,
    event: Event,
    fault: Fault,
)
    ensures
        Publication::Open@ == PublicationView::Open,
        (Publication::Build { draft })@ == (PublicationView::Build { draft: draft@ }),
        (Publication::Defer { turn_id, text, reason })@ == (PublicationView::Defer {
            turn_id: turn_id@,
            text: text@,
            reason: reason.message(),
        }),
        (Publication::Enqueue { turn_id, event })@ == (PublicationView::Enqueue {
            turn_id: turn_id@,
            event,
        }),
        (Publication::Flush { event_id: turn_id })@ == (PublicationView::Flush {
            event_id: turn_id@,
        }),
        Publication::Done(Ok(()))@ == PublicationView::Done(Ok(())),
        Publication::Done(Err(fault))@ == PublicationView::Done(Err(fault.message())),
{
}

/// An event says its fields.
pub proof fn law_event_says_its_fields(event: Event)
    ensures
        event@.id == event.id@,
        event@.pubkey == event.pubkey@,
        event@.created_at == event.created_at,
        event@.kind == event.kind,
        event@.content == event.content@,
        event@.sig == event.sig@,
        event@.tags.len() == event.tags@.len(),
        forall|i: int, j: int|
            0 <= i < event.tags@.len() && 0 <= j < event.tags@[i]@.len() ==> (
            #[trigger] event@.tags[i][j]) == event.tags@[i]@[j]@,
        forall|i: int|
            0 <= i < event.tags@.len() ==> (#[trigger] event@.tags[i]).len() == event.tags@[i]@.len(),
{
}

/// A request posts what its fields say.
pub proof fn law_request_says_its_fields(
    url: String,
    headers: Vec<Header>,
    body: Vec<u8>,
    outcome: Result<(), Unsent>,
)
    ensures
        ({
            let request = (Sending::Request { url, headers, body })@;
            &&& request is Request
            &&& request->url == url@
            &&& request->body == body@
            &&& request->headers.len() == headers@.len()
            &&& forall|i: int|
                0 <= i < headers@.len() ==> (#[trigger] request->headers[i]).name
                    == headers@[i].name@ && request->headers[i].value == headers@[i].value@
        }),
        (Sending::Chunk { bytes: body })@ == (SendingView::Chunk { bytes: body@ }),
        Sending::Done(outcome)@ == SendingView::Done(outcome),
{
}

/// A flush asks for the record that it names, and hands over what ended it.
pub proof fn law_flush_says_its_stage(at: usize, accepted: usize, fault: Fault, faults: Vec<Fault>)
    ensures
        FlushStage::Lock@ == FlushStageView::Lock,
        FlushStage::Inventory@ == FlushStageView::Inventory,
        (FlushStage::Clock { at })@ == (FlushStageView::Clock { at: at as int }),
        (FlushStage::SyncSlot { at })@ == (FlushStageView::SyncSlot { at: at as int }),
        (FlushStage::Deliver { at })@ == (FlushStageView::Deliver { at: at as int }),
        (FlushStage::Remove { at })@ == (FlushStageView::Remove { at: at as int }),
        FlushStage::Recheck@ == FlushStageView::Recheck,
        FlushStage::Done(Ok(accepted))@ == FlushStageView::Done(Ok(accepted)),
        !(fault is Incomplete) ==> FlushStage::Done(Err(fault))@ == FlushStageView::Done(
            Err(FlushFault::Single(fault)),
        ),
        FlushStage::Done(Err((Fault::Incomplete { accepted, faults })))@ == FlushStageView::Done(
            Err((FlushFault::Incomplete { accepted, faults: faults@ })),
        ),
{
}

/// Taking stock asks what its fields say.
pub proof fn law_inventory_says_its_fields(
    count: usize,
    slot: usize,
    shown: String,
    found: Found,
    fault: Fault,
)
    ensures
        found@.records == found.records@,
        found@.faults == found.faults@,
        Inventory::Require@ == InventoryView::Require,
        Inventory::Open@ == InventoryView::Open,
        (Inventory::Next { count, found })@ == (InventoryView::Next { count, found: found@ }),
        (Inventory::Load { count, slot, shown, found })@ == (InventoryView::Load {
            count,
            slot,
            shown,
            found: found@,
        }),
        Inventory::Done(Ok(found))@ == InventoryView::Done(Ok(found@)),
        Inventory::Done(Err(fault))@ == InventoryView::Done(Err(fault)),
{
}

/// Storing a record asks what its fields say.
pub proof fn law_persist_says_its_fields(
    record: Record,
    slot: usize,
    step: FillStep,
    shown: String,
    stage: Vec<u8>,
    bytes: Vec<u8>,
    name: String,
    fault: Fault,
)
    ensures
        (Persist::Encode { record })@ == (PersistView::Encode { record }),
        (Persist::Inventory { bytes, name })@ == (PersistView::Inventory { bytes, name: name@ }),
        (Persist::SyncExisting { slot, name })@ == (PersistView::SyncExisting { slot, name: name@ }),
        (Persist::Reserve { slot, bytes, name })@ == (PersistView::Reserve {
            slot,
            bytes,
            name: name@,
        }),
        (Persist::Fill { step, slot, shown, stage, bytes, name })@ == (PersistView::Fill {
            step,
            slot,
            shown,
            stage: stage@,
            bytes,
            name: name@,
        }),
        ({
            let placed = Persist::Done(Ok(Placed { slot, name }))@;
            placed matches PersistView::Done(Ok(at)) && at.slot == slot && at.name == name@
        }),
        Persist::Done(Err(fault))@ == PersistView::Done(Err(fault)),
{
}

/// Removing a record asks what its fields say.
pub proof fn law_removal_says_its_fields(
    slot: usize,
    stage: Vec<u8>,
    name: Vec<u8>,
    outcome: Result<(), Fault>,
)
    ensures
        (Removal::RemoveStage { slot, stage, name })@ == (RemovalView::RemoveStage {
            slot,
            stage: stage@,
            name: name@,
        }),
        (Removal::RemoveRecord { slot, name })@ == (RemovalView::RemoveRecord { slot, name: name@ }),
        (Removal::ProbeSlot { slot })@ == (RemovalView::ProbeSlot { slot }),
        (Removal::SyncSlot { slot })@ == (RemovalView::SyncSlot { slot }),
        (Removal::RemoveSlot { slot })@ == (RemovalView::RemoveSlot { slot }),
        Removal::SyncOutbox@ == RemovalView::SyncOutbox,
        Removal::Done(outcome)@ == RemovalView::Done(outcome),
{
}

/// A summary shows its fields, and the parts of a URL are what they are called.
pub proof fn law_summary_and_url_say_their_fields(summary: TurnSummary<'_>, parts: UrlParts)
    ensures
        summary@.turn_id is Some <==> summary.turn_id is Some,
        summary.turn_id matches Some(turn_id) ==> summary@.turn_id == Some(turn_id@),
        summary@.bytes == summary.bytes,
        summary@.saw_tool == summary.saw_tool,
        summary@.overflowed == summary.overflowed,
        parts@.scheme == parts.scheme@,
        parts@.username == parts.username@,
        parts@.text == parts.text@,
        parts@.host is Some <==> parts.host is Some,
        parts@.password is Some <==> parts.password is Some,
        parts@.query is Some <==> parts.query is Some,
        parts@.fragment is Some <==> parts.fragment is Some,
{
}

} // verus!
