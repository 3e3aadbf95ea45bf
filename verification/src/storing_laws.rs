//! What each answer comes to while a record is stored or removed.

use crate::fault::{Action, Fault, Notice, OsFailure, OsKind};
use crate::files::Reply;
use crate::inventory::Found;
use crate::names;
use crate::outbox;
use crate::persist::{FillStep, PersistReply, PersistView, PlacedView};
use crate::persist;
use crate::record::{Record, Stored};
use crate::removal::{RemovalReply, RemovalView};
use vstd::prelude::*;
use vstd::utf8::*;

verus! {

/// The JSON text of a record is stored, under the name that belongs to it, where it has at most two
/// mebibytes; a longer one is refused, and so is a record without one.
pub proof fn law_encoded_record_is_bounded(record: Record, bytes: Vec<u8>, fault: Fault)
    ensures
        ({
            let encoded = (PersistView::Encode { record }).after(PersistReply::Encoded(Ok(bytes)));
            &&& bytes@.len() <= 2097152 <==> encoded == (PersistView::Inventory {
                bytes,
                name: outbox::record_name_of(record, bytes@),
            })
            &&& bytes@.len() > 2097152 <==> encoded == PersistView::Done(
                Err(Fault::Notice(Notice::RecordTooLong)),
            )
            &&& (PersistView::Encode { record }).after(PersistReply::Encoded(Err(fault)))
                == PersistView::Done(Err(fault))
        }),
{
}

/// The first record under this name stands at `at`.
pub open spec fn stands_first_at(records: Seq<Stored>, name: Seq<u8>, at: int) -> bool {
    &&& 0 <= at < records.len()
    &&& records[at].name@ == name
    &&& forall|i: int| 0 <= i < at ==> (#[trigger] records[i]).name@ != name
}

proof fn lemma_standing(records: Seq<Stored>, name: Seq<u8>, from: int)
    requires
        0 <= from,
        forall|i: int| 0 <= i < from && i < records.len() ==> (#[trigger] records[i]).name@ != name,
    ensures
        match persist::standing(records, name, from) {
            Some(at) => stands_first_at(records, name, at),
            None => forall|i: int| 0 <= i < records.len() ==> (#[trigger] records[i]).name@ != name,
        },
    decreases records.len() - from,
{
    if from < records.len() && records[from].name@ != name {
        lemma_standing(records, name, from + 1);
    }
}

/// What the stock decides: a record that stands under the name already is made durable where the
/// first one stands; where none does, faults keep the outbox closed; and otherwise the first slot is
/// tried. The text and the name are kept.
pub proof fn law_stock_decides(bytes: Vec<u8>, name: Seq<char>, found: Found, at: int, fault: Fault)
    ensures
        ({
            let after = (PersistView::Inventory { bytes, name }).after(
                PersistReply::Stock(Ok(found)),
            );
            let is_new = forall|i: int|
                0 <= i < found.records@.len() ==> (#[trigger] found.records@[i]).name@
                    != encode_utf8(name);
            &&& stands_first_at(found.records@, encode_utf8(name), at) ==> after == (
            PersistView::SyncExisting { slot: found.records@[at].slot, name })
            &&& is_new && found.faults@.len() == 0 ==> after == (PersistView::Reserve {
                slot: 0,
                bytes,
                name,
            })
            &&& is_new && found.faults@.len() > 0 ==> after == PersistView::Done(
                Err(Fault::NeedsRecovery { faults: found.faults }),
            )
            &&& (PersistView::Inventory { bytes, name }).after(PersistReply::Stock(Err(fault)))
                == PersistView::Done(Err(fault))
        }),
{
    let records = found.records@;
    let bytes_name = encode_utf8(name);
    lemma_standing(records, bytes_name, 0);
    if stands_first_at(records, bytes_name, at) {
        let first = persist::standing(records, bytes_name, 0);
        assert(records[at].name@ == bytes_name);
        assert(first is Some);
        if first->0 < at {
            assert(records[first->0].name@ != bytes_name);
        } else if at < first->0 {
            assert(records[at].name@ != bytes_name);
        }
    }
}

/// A record that stands already is where it stands, once its slot is durable.
pub proof fn law_existing_record_is_made_durable(slot: usize, name: Seq<char>, failure: OsFailure)
    ensures
        (PersistView::SyncExisting { slot, name }).after(PersistReply::Files(Reply::Done))
            == PersistView::Done(Ok((PlacedView { slot, name }))),
        (PersistView::SyncExisting { slot, name }).after(PersistReply::Files(Reply::Failed(failure)))
            == PersistView::Done(
            Err((Fault::Os { action: Action::SyncDirectory, text: failure.text })),
        ),
{
}

/// A slot that is free is filled by way of its stage file. One that is taken is passed over for the
/// next one, of which there are 64; any other failure ends the search.
pub proof fn law_slot_is_reserved(
    slot: usize,
    bytes: Vec<u8>,
    name: Seq<char>,
    shown: String,
    failure: OsFailure,
)
    ensures
        ({
            let reserve = PersistView::Reserve { slot, bytes, name };
            let failed = reserve.after(PersistReply::Files(Reply::Failed(failure)));
            &&& reserve.after((PersistReply::Reserved { shown })) == (PersistView::Fill {
                step: FillStep::SyncOutbox,
                slot,
                shown,
                stage: names::stage_name_of(encode_utf8(name)),
                bytes,
                name,
            })
            &&& failure.kind == OsKind::AlreadyExists && slot < 63 ==> failed == (
            PersistView::Reserve { slot: (slot + 1) as usize, bytes, name })
            &&& failure.kind == OsKind::AlreadyExists && slot >= 63 ==> failed == PersistView::Done(
                Err(Fault::Notice(Notice::OutboxFull)),
            )
            &&& failure.kind != OsKind::AlreadyExists ==> failed == PersistView::Done(
                Err(Fault::Os { action: Action::ReserveSlot, text: failure.text }),
            )
        }),
{
}

/// The steps of filling a slot by their number.
pub open spec fn step_at(number: int) -> FillStep {
    if number <= 0 {
        FillStep::SyncOutbox
    } else if number == 1 {
        FillStep::CreateStage
    } else if number == 2 {
        FillStep::WriteStage
    } else if number == 3 {
        FillStep::Link
    } else if number == 4 {
        FillStep::SyncSlot
    } else if number == 5 {
        FillStep::RemoveStage
    } else {
        FillStep::SyncSlotAgain
    }
}

/// What the failure of a step is called: of creating the stage file, of making the record durable, of
/// publishing it, of removing a file, and of making a directory durable.
pub open spec fn called(number: int) -> Action {
    if number == 1 {
        Action::CreateStage
    } else if number == 2 {
        Action::SyncRecord
    } else if number == 3 {
        Action::PublishRecord
    } else if number == 5 {
        Action::RemoveFile
    } else {
        Action::SyncDirectory
    }
}

/// A step that is done is followed by the next of the seven steps, with nothing else changed, and the
/// last one places the record. A step that fails leaves the slot as it is, which is said together with
/// the failure; a stage file that is gone counts as removed.
pub proof fn law_slot_is_filled_step_by_step(
    number: int,
    slot: usize,
    shown: String,
    stage: Seq<u8>,
    bytes: Vec<u8>,
    name: Seq<char>,
    failure: OsFailure,
)
    requires
        0 <= number < 7,
    ensures
        ({
            let fill = PersistView::Fill { step: step_at(number), slot, shown, stage, bytes, name };
            let done = fill.after(PersistReply::Files(Reply::Done));
            let failed = fill.after(PersistReply::Files(Reply::Failed(failure)));
            &&& number < 6 ==> done == (PersistView::Fill {
                step: step_at(number + 1),
                slot,
                shown,
                stage,
                bytes,
                name,
            })
            &&& number == 6 ==> done == PersistView::Done(Ok(PlacedView { slot, name }))
            &&& number == 5 && failure.kind == OsKind::NotFound ==> failed == done
            &&& !(number == 5 && failure.kind == OsKind::NotFound) ==> failed == PersistView::Done(
                Err(
                    Fault::RetainedSlot {
                        shown,
                        cause: Box::new(Fault::Os { action: called(number), text: failure.text }),
                    },
                ),
            )
        }),
{
}

/// Storing a record waits for the answer to its question, and stays over once it is.
pub proof fn law_storing_waits_for_its_answer(persist: PersistView, reply: PersistReply)
    ensures
        ({
            let is_done_or_failed = reply matches PersistReply::Files(files) && (files is Done
                || files is Failed);
            let is_failed = reply matches PersistReply::Files(files) && files is Failed;
            let is_awaited = match persist {
                PersistView::Encode { .. } => reply is Encoded,
                PersistView::Inventory { .. } => reply is Stock,
                PersistView::SyncExisting { .. } | PersistView::Fill { .. } => is_done_or_failed,
                PersistView::Reserve { .. } => reply is Reserved || is_failed,
                PersistView::Done(_) => false,
            };
            !is_awaited ==> persist.after(reply) == persist
        }),
{
}

/// A record is removed by way of its own stage file, its own file and its own slot. What is gone
/// counts as removed; a slot that is not there is passed over; and the outbox is made durable last.
pub proof fn law_record_is_removed_step_by_step(
    stored: Stored,
    slot: usize,
    stage: Seq<u8>,
    name: Seq<u8>,
    there: bool,
)
    ensures
        RemovalView::of(stored) == (RemovalView::RemoveStage {
            slot: stored.slot,
            stage: names::stage_name_of(stored.name@),
            name: stored.name@,
        }),
        (RemovalView::RemoveStage { slot, stage, name }).after(RemovalReply::Files(Reply::Done)) == (
        RemovalView::RemoveRecord { slot, name }),
        (RemovalView::RemoveRecord { slot, name }).after(RemovalReply::Files(Reply::Done)) == (
        RemovalView::ProbeSlot { slot }),
        (RemovalView::ProbeSlot { slot }).after(RemovalReply::Exists(Ok(there))) == (if there {
            RemovalView::SyncSlot { slot }
        } else {
            RemovalView::SyncOutbox
        }),
        (RemovalView::SyncSlot { slot }).after(RemovalReply::Files(Reply::Done)) == (
        RemovalView::RemoveSlot { slot }),
        (RemovalView::RemoveSlot { slot }).after(RemovalReply::Files(Reply::Done))
            == RemovalView::SyncOutbox,
        RemovalView::SyncOutbox.after(RemovalReply::Files(Reply::Done)) == RemovalView::Done(
            Ok(()),
        ),
{
}

/// The end of a removal with a failure of this action.
pub open spec fn removal_failed(action: Action, failure: OsFailure) -> RemovalView {
    RemovalView::Done(Err(Fault::Os { action, text: failure.text }))
}

/// A failure ends a removal and is called by what it was a failure of, unless what was to be removed
/// is gone.
pub proof fn law_removal_fails_step_by_step(
    slot: usize,
    stage: Seq<u8>,
    name: Seq<u8>,
    failure: OsFailure,
)
    ensures
        ({
            let failed = RemovalReply::Files(Reply::Failed(failure));
            let is_gone = failure.kind == OsKind::NotFound;
            let remove_stage = RemovalView::RemoveStage { slot, stage, name };
            let remove_record = RemovalView::RemoveRecord { slot, name };
            let remove_slot = RemovalView::RemoveSlot { slot };
            &&& is_gone ==> remove_stage.after(failed) == remove_record
            &&& !is_gone ==> remove_stage.after(failed) == removal_failed(
                Action::RemoveFile,
                failure,
            )
            &&& is_gone ==> remove_record.after(failed) == (RemovalView::ProbeSlot { slot })
            &&& !is_gone ==> remove_record.after(failed) == removal_failed(
                Action::RemoveFile,
                failure,
            )
            &&& (RemovalView::ProbeSlot { slot }).after(RemovalReply::Exists(Err(failure)))
                == removal_failed(Action::Plain, failure)
            &&& (RemovalView::SyncSlot { slot }).after(failed) == removal_failed(
                Action::SyncDirectory,
                failure,
            )
            &&& is_gone ==> remove_slot.after(failed) == RemovalView::SyncOutbox
            &&& !is_gone ==> remove_slot.after(failed) == removal_failed(
                Action::RemoveSlot,
                failure,
            )
            &&& RemovalView::SyncOutbox.after(failed) == removal_failed(
                Action::SyncDirectory,
                failure,
            )
        }),
{
}

/// A removal waits for the answer to its question, and stays over once it is.
pub proof fn law_removal_waits_for_its_answer(removal: RemovalView, reply: RemovalReply)
    ensures
        ({
            let is_awaited = match removal {
                RemovalView::ProbeSlot { .. } => reply is Exists,
                RemovalView::Done(_) => false,
                _ => reply matches RemovalReply::Files(files) && (files is Done || files is Failed),
            };
            !is_awaited ==> removal.after(reply) == removal
        }),
{
}

} // verus!
