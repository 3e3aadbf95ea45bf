//! What storing a record comes to.

use crate::fault::{Fault, Notice, OsFailure, OsKind};
use crate::files::{Meta, Reply};
use crate::inventory;
use crate::inventory::Found;
use crate::inventory_laws;
use crate::names;
use crate::outbox;
use crate::outbox::OutboxView;
use crate::persist;
use crate::persist::{FillStep, PersistReply, PersistView, PlacedView};
use crate::record::{Record, Stored, MAX_RECORDS, MAX_RECORD_BYTES};
use crate::slot_laws;
use crate::slot_laws::SlotFile;
use crate::slot::SlotLoad;
use vstd::prelude::*;
use vstd::utf8::*;

verus! {

/// A stored text fits in a record and stands under the name that belongs to it.
pub open spec fn names_record(record: Record, bytes: Seq<u8>, name: Seq<char>) -> bool {
    &&& bytes.len() <= MAX_RECORD_BYTES
    &&& name == outbox::record_name_of(record, bytes)
}

/// A name that belongs to some text of the record.
pub open spec fn is_name_of(record: Record, name: Seq<char>) -> bool {
    exists|bytes: Seq<u8>| #[trigger] names_record(record, bytes, name)
}

/// What holds of a stage that is reached while `record` is stored.
pub open spec fn persist_is_sound(outbox: OutboxView, record: Record, persist: PersistView) -> bool {
    match persist {
        PersistView::Encode { record: held } => held == record && outbox.record_checked(record)
            is Ok,
        PersistView::Inventory { bytes, name } => outbox.record_checked(record) is Ok
            && names_record(record, bytes@, name),
        PersistView::SyncExisting { slot, name } => is_name_of(record, name),
        PersistView::Reserve { slot, bytes, name } => outbox.record_checked(record) is Ok && slot
            < MAX_RECORDS && names_record(record, bytes@, name),
        PersistView::Fill { slot, bytes, name, .. } => outbox.record_checked(record) is Ok && slot
            < MAX_RECORDS && names_record(record, bytes@, name),
        PersistView::Done(Ok(placed)) => is_name_of(record, placed.name),
        PersistView::Done(Err(_)) => true,
    }
}

/// Whatever is answered, nothing is written but a text that fits in a record, for a record of this
/// outbox, under the name that belongs to it, in one of the slots that an outbox has.
pub proof fn law_persist_is_sound(outbox: OutboxView, record: Record, replies: Seq<PersistReply>)
    ensures
        persist_is_sound(outbox, record, PersistView::of(outbox, record).after_all(replies)),
    decreases replies.len(),
{
    if replies.len() > 0 {
        law_persist_is_sound(outbox, record, replies.drop_last());
        let persist = PersistView::of(outbox, record).after_all(replies.drop_last());
        match persist {
            PersistView::Inventory { bytes, name } => {
                assert(names_record(record, bytes@, name));
            },
            PersistView::Fill { bytes, name, .. } => {
                assert(names_record(record, bytes@, name));
            },
            _ => {},
        }
    }
}

proof fn lemma_standing(records: Seq<Stored>, name: Seq<u8>, from: int)
    requires
        0 <= from,
    ensures
        match persist::standing(records, name, from) {
            Some(at) => from <= at < records.len() && records[at].name@ == name,
            None => forall|i: int| from <= i < records.len() ==> (#[trigger] records[i]).name@ != name,
        },
    decreases records.len() - from,
{
    if from < records.len() && records[from].name@ != name {
        lemma_standing(records, name, from + 1);
    }
}

/// A record that stands in the outbox already is not stored again: the slot in which it stands is
/// made durable, and that is where it is, whatever faults there are beside it.
pub proof fn law_standing_record_is_not_stored_again(
    bytes: Vec<u8>,
    name: Seq<char>,
    found: Found,
    at: int,
) -> (slot: usize)
    requires
        0 <= at < found.records@.len(),
        found.records@[at].name@ == encode_utf8(name),
    ensures
        exists|i: int|
            0 <= i < found.records@.len() && (#[trigger] found.records@[i]).name@ == encode_utf8(name)
                && found.records@[i].slot == slot,
        (PersistView::Inventory { bytes, name }).after(PersistReply::Stock(Ok(found)))
            == (PersistView::SyncExisting { slot, name }),
        (PersistView::SyncExisting { slot, name }).after(PersistReply::Files(Reply::Done))
            == PersistView::Done(Ok((PlacedView { slot, name }))),
{
    lemma_standing(found.records@, encode_utf8(name), 0);
    let i = persist::standing(found.records@, encode_utf8(name), 0)->0;
    found.records@[i].slot
}

/// A record that is stored twice is where it was: whether it stood in the outbox before or was put
/// into a slot the first time, the second time it is found there and nothing is stored, as long as
/// nothing else changed in between.
pub proof fn law_record_stored_again_is_where_it_was(
    bytes: Vec<u8>,
    name: Seq<char>,
    before: Found,
    between: Found,
    stored: Stored,
)
    requires
        stored.name@ == encode_utf8(name),
        match persist::standing(before.records@, encode_utf8(name), 0) {
            Some(at) => between.records@ == before.records@ && stored.slot
                == before.records@[at].slot,
            None => between.records@ == inventory::inserted(before.records@, stored),
        },
    ensures
        (PersistView::Inventory { bytes, name }).after(PersistReply::Stock(Ok(between)))
            == (PersistView::SyncExisting { slot: stored.slot, name }),
        (PersistView::SyncExisting { slot: stored.slot, name }).after(
            PersistReply::Files(Reply::Done),
        ) == PersistView::Done(Ok((PlacedView { slot: stored.slot, name }))),
{
    lemma_standing(before.records@, encode_utf8(name), 0);
    lemma_standing(between.records@, encode_utf8(name), 0);
    if persist::standing(before.records@, encode_utf8(name), 0) is None {
        let place = inventory::place(before.records@, stored, 0);
        inventory_laws::lemma_place(before.records@, stored, 0);
        assert(between.records@[place] == stored);
        let at = persist::standing(between.records@, encode_utf8(name), 0)->0;
        if at < place {
            assert(between.records@[at] == before.records@[at]);
        } else if at > place {
            assert(between.records@[at] == before.records@[at - 1]);
        }
    }
}

/// An event that stands in the outbox already is not stored again, under whichever turn it comes and
/// whatever faults there are, as long as its new record is no longer than a record may be.
pub proof fn law_event_is_stored_once_for_all_turns(
    first: Record,
    again: Record,
    first_bytes: Seq<u8>,
    bytes: Vec<u8>,
    found: Found,
    at: int,
) -> (slot: usize)
    requires
        first.pending_id() is Some,
        again.pending_id() == first.pending_id(),
        bytes@.len() <= MAX_RECORD_BYTES,
        0 <= at < found.records@.len(),
        found.records@[at].name@ == encode_utf8(outbox::record_name_of(first, first_bytes)),
    ensures
        exists|i: int|
            0 <= i < found.records@.len() && (#[trigger] found.records@[i]).name@
                == found.records@[at].name@ && found.records@[i].slot == slot,
        (PersistView::Encode { record: again }).after(PersistReply::Encoded(Ok(bytes))).after(
            PersistReply::Stock(Ok(found)),
        ).after(PersistReply::Files(Reply::Done)) == PersistView::Done(
            Ok((PlacedView { slot, name: outbox::record_name_of(first, first_bytes) })),
        ),
{
    let name = outbox::record_name_of(again, bytes@);
    assert(name == outbox::record_name_of(first, first_bytes));
    law_standing_record_is_not_stored_again(bytes, name, found, at)
}

/// Nothing new is stored in an outbox that has a fault.
pub proof fn law_faulty_outbox_takes_nothing(bytes: Vec<u8>, name: Seq<char>, found: Found)
    requires
        found.faults@.len() > 0,
        forall|i: int|
            0 <= i < found.records@.len() ==> (#[trigger] found.records@[i]).name@ != encode_utf8(name),
    ensures
        (PersistView::Inventory { bytes, name }).after(PersistReply::Stock(Ok(found)))
            == PersistView::Done(Err((Fault::NeedsRecovery { faults: found.faults }))),
{
    lemma_standing(found.records@, encode_utf8(name), 0);
}

/// Looking for a free slot while so many are taken.
pub open spec fn reserved_behind(persist: PersistView, failure: OsFailure, taken: nat) -> PersistView
    decreases taken,
{
    if taken == 0 {
        persist
    } else {
        reserved_behind(persist, failure, (taken - 1) as nat).after(
            PersistReply::Files(Reply::Failed(failure)),
        )
    }
}

/// A slot that is taken is never touched: the first free slot is used, in the order of the slots,
/// and where all are taken the outbox is full.
pub proof fn law_first_free_slot_is_used(
    bytes: Vec<u8>,
    name: Seq<char>,
    failure: OsFailure,
    taken: nat,
)
    requires
        failure.kind == OsKind::AlreadyExists,
        taken <= MAX_RECORDS,
    ensures
        reserved_behind((PersistView::Reserve { slot: 0, bytes, name }), failure, taken) == (if taken
            < MAX_RECORDS {
            PersistView::Reserve { slot: taken as usize, bytes, name }
        } else {
            PersistView::Done(Err(Fault::Notice(Notice::OutboxFull)))
        }),
    decreases taken,
{
    if taken > 0 {
        law_first_free_slot_is_used(bytes, name, failure, (taken - 1) as nat);
    }
}

/// Filling a slot where everything succeeds, from a step on.
pub open spec fn filled(persist: PersistView, steps: nat) -> PersistView
    decreases steps,
{
    if steps == 0 {
        persist
    } else {
        filled(persist.after(PersistReply::Files(Reply::Done)), (steps - 1) as nat)
    }
}

/// A slot that was reserved is filled in this order: the reservation is made durable, the text is
/// written to the stage file and made durable, it is linked under its name and the slot is made
/// durable, and only after that the stage file goes.
pub proof fn law_slot_is_filled_in_order(
    slot: usize,
    shown: String,
    bytes: Vec<u8>,
    name: Seq<char>,
)
    ensures
        ({
            let stage = names::stage_name_of(encode_utf8(name));
            let before = |step: FillStep|
                PersistView::Fill { step, slot, shown, stage, bytes, name };
            &&& (PersistView::Reserve { slot, bytes, name }).after(
                (PersistReply::Reserved { shown }),
            ) == before(FillStep::SyncOutbox)
            &&& filled(before(FillStep::SyncOutbox), 3) == before(FillStep::Link)
            &&& filled(before(FillStep::Link), 2) == before(FillStep::RemoveStage)
            &&& filled(before(FillStep::RemoveStage), 2) == PersistView::Done(
                Ok((PlacedView { slot, name })),
            )
        }),
{
    reveal_with_fuel(filled, 4);
}

/// The slots of an outbox directory, and the files in each with their texts.
pub type Slots = Map<usize, Map<Seq<u8>, Seq<u8>>>;

/// What a file system answers, and what it does. A slot or a file that must not be there is created
/// only where it is not.
pub open spec fn honest_answer(
    persist: PersistView,
    slots: Slots,
    shown: String,
    taken: OsFailure,
    missing: OsFailure,
) -> (PersistReply, Slots) {
    let done = PersistReply::Files(Reply::Done);
    match persist {
        PersistView::Reserve { slot, .. } => if slots.dom().contains(slot) {
            (PersistReply::Files(Reply::Failed(taken)), slots)
        } else {
            (PersistReply::Reserved { shown }, slots.insert(slot, Map::empty()))
        },
        PersistView::Fill { step, slot, stage, bytes, name, .. } => {
            let files = slots[slot];
            match step {
                FillStep::CreateStage => if files.dom().contains(stage) {
                    (PersistReply::Files(Reply::Failed(taken)), slots)
                } else {
                    (done, slots.insert(slot, files.insert(stage, Seq::empty())))
                },
                FillStep::WriteStage => (done, slots.insert(slot, files.insert(stage, bytes@))),
                FillStep::Link => if files.dom().contains(encode_utf8(name)) {
                    (PersistReply::Files(Reply::Failed(taken)), slots)
                } else {
                    (done, slots.insert(slot, files.insert(encode_utf8(name), files[stage])))
                },
                FillStep::RemoveStage => if files.dom().contains(stage) {
                    (done, slots.insert(slot, files.remove(stage)))
                } else {
                    (PersistReply::Files(Reply::Failed(missing)), slots)
                },
                _ => (done, slots),
            }
        },
        _ => (done, slots),
    }
}

/// Storing a record on a file system, for so many questions.
pub open spec fn honest_persist(
    persist: PersistView,
    slots: Slots,
    shown: String,
    taken: OsFailure,
    missing: OsFailure,
    questions: nat,
) -> (PersistView, Slots)
    decreases questions,
{
    if questions == 0 {
        (persist, slots)
    } else {
        let (reply, after) = honest_answer(persist, slots, shown, taken, missing);
        honest_persist(
            persist.after(reply),
            after,
            shown,
            taken,
            missing,
            (questions - 1) as nat,
        )
    }
}

proof fn lemma_free_slot_is_filled(
    slot: usize,
    bytes: Vec<u8>,
    name: Seq<char>,
    slots: Slots,
    shown: String,
    taken: OsFailure,
    missing: OsFailure,
)
    requires
        !slots.dom().contains(slot),
        names::stage_name_of(encode_utf8(name)) != encode_utf8(name),
    ensures
        honest_persist(
            (PersistView::Reserve { slot, bytes, name }),
            slots,
            shown,
            taken,
            missing,
            8,
        ) == (
            PersistView::Done(Ok((PlacedView { slot, name }))),
            slots.insert(slot, Map::empty().insert(encode_utf8(name), bytes@)),
        ),
{
    reveal_with_fuel(honest_persist, 9);
    let file = encode_utf8(name);
    let stage = names::stage_name_of(file);
    let text = bytes@;
    let none = Map::<Seq<u8>, Seq<u8>>::empty();
    let reserved = slots.insert(slot, none);
    let created = reserved.insert(slot, reserved[slot].insert(stage, Seq::empty()));
    let written = created.insert(slot, created[slot].insert(stage, text));
    let linked = written.insert(slot, written[slot].insert(file, written[slot][stage]));
    let finished = linked.insert(slot, linked[slot].remove(stage));
    assert(!reserved[slot].dom().contains(stage));
    assert(!written[slot].dom().contains(file));
    assert(linked[slot].dom().contains(stage));
    assert(linked[slot].remove(stage) =~= none.insert(file, text));
    assert(finished =~= slots.insert(slot, none.insert(file, text)));
}

/// Storing a record that does not stand in the outbox yet puts its text under its name into the first
/// free slot, and nothing else there; every other slot stays as it is. Where no slot is free, nothing
/// changes.
pub proof fn law_record_goes_to_the_first_free_slot(
    outbox: OutboxView,
    record: Record,
    from: usize,
    free: usize,
    bytes: Vec<u8>,
    slots: Slots,
    shown: String,
    taken: OsFailure,
    missing: OsFailure,
)
    requires
        outbox.record_checked(record) is Ok,
        taken.kind == OsKind::AlreadyExists,
        from <= free <= MAX_RECORDS,
        from < MAX_RECORDS,
        forall|slot: usize| from <= slot < free ==> #[trigger] slots.dom().contains(slot),
        free < MAX_RECORDS ==> !slots.dom().contains(free),
    ensures
        ({
            let name = outbox::record_name_of(record, bytes@);
            honest_persist(
                (PersistView::Reserve { slot: from, bytes, name }),
                slots,
                shown,
                taken,
                missing,
                (free - from + 8) as nat,
            ) == (if free < MAX_RECORDS {
                (
                    PersistView::Done(Ok((PlacedView { slot: free, name }))),
                    slots.insert(free, Map::empty().insert(encode_utf8(name), bytes@)),
                )
            } else {
                (PersistView::Done(Err(Fault::Notice(Notice::OutboxFull))), slots)
            })
        }),
    decreases free - from,
{
    let name = outbox::record_name_of(record, bytes@);
    slot_laws::lemma_record_name_is_json(outbox, record, bytes@);
    if from == free {
        lemma_free_slot_is_filled(free, bytes, name, slots, shown, taken, missing);
    } else {
        assert(slots.dom().contains(from));
        let next = (from + 1) as usize;
        if next < MAX_RECORDS {
            law_record_goes_to_the_first_free_slot(
                outbox,
                record,
                next,
                free,
                bytes,
                slots,
                shown,
                taken,
                missing,
            );
        } else {
            lemma_done_stays(
                Err(Fault::Notice(Notice::OutboxFull)),
                slots,
                shown,
                taken,
                missing,
                (free - from + 7) as nat,
            );
        }
    }
}

proof fn lemma_done_stays(
    outcome: Result<PlacedView, Fault>,
    slots: Slots,
    shown: String,
    taken: OsFailure,
    missing: OsFailure,
    questions: nat,
)
    ensures
        honest_persist(
            PersistView::Done(outcome),
            slots,
            shown,
            taken,
            missing,
            questions,
        ) == (PersistView::Done(outcome), slots),
    decreases questions,
{
    if questions > 0 {
        lemma_done_stays(outcome, slots, shown, taken, missing, (questions - 1) as nat);
    }
}

/// What is stored is read back. Once the text of a record stands under its name, the slot loads that
/// record, whether the stage file is gone or still there, and wherever the slot lists it. A slot
/// with the stage file alone loads nothing.
pub proof fn law_stored_record_is_read_back(
    outbox: OutboxView,
    record: Record,
    file: SlotFile,
    stage: SlotFile,
    slot: usize,
    meta: Meta,
    parse: spec_fn(Vec<u8>) -> Option<Record>,
)
    requires
        meta.is_dir,
        !meta.is_symlink,
        outbox.record_checked(record) is Ok,
        parse(file.bytes) == Some(record),
        file.name@ == encode_utf8(outbox::record_name_of(record, file.bytes@)),
        stage.name@ == names::stage_name_of(file.name@),
        stage.bytes@ == file.bytes@,
    ensures
        ({
            let read = SlotLoad::Done(Ok(Some(Stored { slot, name: file.name, record })));
            let start = SlotLoad::Inspect;
            &&& slot_laws::honest_load(start, outbox, slot, meta, seq![file], parse, 8) == read
            &&& slot_laws::honest_load(start, outbox, slot, meta, seq![file, stage], parse, 8)
                == read
            &&& slot_laws::honest_load(start, outbox, slot, meta, seq![stage, file], parse, 8)
                == read
            &&& slot_laws::honest_load(start, outbox, slot, meta, seq![stage], parse, 8)
                == SlotLoad::Done(Err(Fault::Notice(Notice::IncompleteSlot)))
        }),
{
    slot_laws::lemma_record_name_is_json(outbox, record, file.bytes@);
    slot_laws::law_slot_loads_what_it_holds(outbox, slot, meta, seq![file], parse, 0, record);
    slot_laws::law_slot_loads_what_it_holds(outbox, slot, meta, seq![file, stage], parse, 0, record);
    slot_laws::law_slot_loads_what_it_holds(outbox, slot, meta, seq![stage, file], parse, 1, record);
    slot_laws::law_uncommitted_slot_is_kept(outbox, slot, meta, stage, parse);
}

/// The files of a slot before a step of filling it, where every step before succeeded. What stands
/// in the stage file before it was written and made durable is open: it is `torn`.
pub open spec fn files_before(
    step: FillStep,
    file: SlotFile,
    stage: SlotFile,
    torn: SlotFile,
) -> Seq<SlotFile> {
    match step {
        FillStep::SyncOutbox | FillStep::CreateStage => Seq::empty(),
        FillStep::WriteStage => seq![torn],
        FillStep::Link => seq![stage],
        FillStep::SyncSlot | FillStep::RemoveStage => seq![file, stage],
        FillStep::SyncSlotAgain => seq![file],
    }
}

/// Wherever storing a record is interrupted, the slot holds the whole record or is visibly
/// unfinished: up to the link it loads nothing and is reported, from the link on it loads the record.
pub proof fn law_interrupted_record_is_whole_or_reported(
    outbox: OutboxView,
    record: Record,
    step: FillStep,
    file: SlotFile,
    stage: SlotFile,
    torn: SlotFile,
    slot: usize,
    meta: Meta,
    parse: spec_fn(Vec<u8>) -> Option<Record>,
)
    requires
        meta.is_dir,
        !meta.is_symlink,
        outbox.record_checked(record) is Ok,
        parse(file.bytes) == Some(record),
        file.name@ == encode_utf8(outbox::record_name_of(record, file.bytes@)),
        stage.name@ == names::stage_name_of(file.name@),
        stage.bytes@ == file.bytes@,
        torn.name@ == stage.name@,
    ensures
        slot_laws::honest_load(
            SlotLoad::Inspect,
            outbox,
            slot,
            meta,
            files_before(step, file, stage, torn),
            parse,
            8,
        ) == (match step {
            FillStep::SyncSlot | FillStep::RemoveStage | FillStep::SyncSlotAgain => SlotLoad::Done(
                Ok(Some(Stored { slot, name: file.name, record })),
            ),
            _ => SlotLoad::Done(Err(Fault::Notice(Notice::IncompleteSlot))),
        }),
{
    law_stored_record_is_read_back(outbox, record, file, stage, slot, meta, parse);
    slot_laws::lemma_record_name_is_json(outbox, record, file.bytes@);
    slot_laws::law_uncommitted_slot_is_kept(outbox, slot, meta, torn, parse);
}

} // verus!
