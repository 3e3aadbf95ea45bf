//! What removing a record comes to.

use crate::fault::{OsFailure, OsKind};
use crate::files::Reply;
use crate::names;
use crate::record::Stored;
use crate::removal::{RemovalReply, RemovalView};
use vstd::prelude::*;

verus! {

/// An answer that a removal takes for done: it was done, or there was nothing to remove.
pub open spec fn is_gone(reply: RemovalReply) -> bool {
    match reply {
        RemovalReply::Files(Reply::Done) => true,
        RemovalReply::Files(Reply::Failed(failure)) => failure.kind == OsKind::NotFound,
        _ => false,
    }
}

/// Nothing is removed behind a failure: the first failure of a removal ends it.
pub proof fn law_failed_removal_ends(removal: RemovalView, failure: OsFailure)
    requires
        failure.kind != OsKind::NotFound,
        !(removal is Done),
        !(removal is ProbeSlot),
    ensures
        removal.after(RemovalReply::Files(Reply::Failed(failure))) matches RemovalView::Done(Err(_)),
{
}

/// The answer at `at` was given to the question of `stage`, while `stored` was removed.
pub open spec fn asked_at(
    stored: Stored,
    replies: Seq<RemovalReply>,
    at: int,
    stage: RemovalView,
) -> bool {
    0 <= at < replies.len() && RemovalView::of(stored).after_all(replies.take(at)) == stage
}

/// At some time what `stage` removes was answered as gone.
pub open spec fn was_gone(stored: Stored, replies: Seq<RemovalReply>, stage: RemovalView) -> bool {
    exists|at: int| #[trigger] asked_at(stored, replies, at, stage) && is_gone(replies[at])
}

/// At some time the slot of the record was answered as absent.
pub open spec fn was_absent(stored: Stored, replies: Seq<RemovalReply>) -> bool {
    exists|at: int|
        #[trigger] asked_at(
            stored,
            replies,
            at,
            (RemovalView::ProbeSlot { slot: stored.slot }),
        ) && replies[at] == RemovalReply::Exists(Ok(false))
}

/// The question for the record itself.
pub open spec fn record_question(stored: Stored) -> RemovalView {
    RemovalView::RemoveRecord { slot: stored.slot, name: stored.name@ }
}

/// The question for the slot of the record.
pub open spec fn slot_question(stored: Stored) -> RemovalView {
    RemovalView::RemoveSlot { slot: stored.slot }
}

proof fn lemma_asked_before(
    stored: Stored,
    replies: Seq<RemovalReply>,
    reply: RemovalReply,
    at: int,
    stage: RemovalView,
)
    requires
        asked_at(stored, replies, at, stage),
    ensures
        asked_at(stored, replies.push(reply), at, stage),
        replies.push(reply)[at] == replies[at],
{
    assert(replies.push(reply).take(at) =~= replies.take(at));
}

proof fn lemma_was_gone_before(
    stored: Stored,
    replies: Seq<RemovalReply>,
    reply: RemovalReply,
    stage: RemovalView,
)
    ensures
        was_gone(stored, replies, stage) ==> was_gone(stored, replies.push(reply), stage),
        was_absent(stored, replies) ==> was_absent(stored, replies.push(reply)),
{
    if was_gone(stored, replies, stage) {
        let at = choose|at: int|
            #[trigger] asked_at(stored, replies, at, stage) && is_gone(replies[at]);
        lemma_asked_before(stored, replies, reply, at, stage);
    }
    if was_absent(stored, replies) {
        let probe = RemovalView::ProbeSlot { slot: stored.slot };
        let at = choose|at: int|
            #[trigger] asked_at(stored, replies, at, probe) && replies[at] == RemovalReply::Exists(
                Ok(false),
            );
        lemma_asked_before(stored, replies, reply, at, probe);
    }
}

/// What holds of a stage that is reached: it asks for the slot and the files of the record alone, and
/// everything before it was answered as gone.
pub open spec fn removal_is_sound(
    stored: Stored,
    replies: Seq<RemovalReply>,
    removal: RemovalView,
) -> bool {
    let stage_gone = was_gone(stored, replies, RemovalView::of(stored));
    let record_gone = was_gone(stored, replies, record_question(stored));
    let slot_gone = was_gone(stored, replies, slot_question(stored)) || was_absent(stored, replies);
    match removal {
        RemovalView::RemoveStage { .. } => removal == RemovalView::of(stored),
        RemovalView::RemoveRecord { .. } => removal == record_question(stored) && stage_gone,
        RemovalView::ProbeSlot { slot } | RemovalView::SyncSlot { slot } | RemovalView::RemoveSlot {
            slot,
        } => slot == stored.slot && stage_gone && record_gone,
        RemovalView::SyncOutbox | RemovalView::Done(Ok(())) => stage_gone && record_gone
            && slot_gone,
        RemovalView::Done(Err(_)) => true,
    }
}

/// Whatever is answered, removing a record asks for its own stage file, its own file and its own slot
/// alone, in this order; and it counts as removed only where the files were answered as gone, and the
/// slot as gone or absent.
pub proof fn law_removal_is_sound(stored: Stored, replies: Seq<RemovalReply>)
    ensures
        removal_is_sound(stored, replies, RemovalView::of(stored).after_all(replies)),
    decreases replies.len(),
{
    if replies.len() > 0 {
        let before = replies.drop_last();
        let reply = replies.last();
        let last = before.len() as int;
        law_removal_is_sound(stored, before);
        assert(replies =~= before.push(reply));
        assert(replies.take(last) =~= before);
        let removal = RemovalView::of(stored).after_all(before);
        assert(asked_at(stored, replies, last, removal));
        lemma_was_gone_before(stored, before, reply, RemovalView::of(stored));
        lemma_was_gone_before(stored, before, reply, record_question(stored));
        lemma_was_gone_before(stored, before, reply, slot_question(stored));
    }
}

/// The slots of an outbox directory, and the names of the files in each.
pub type Slots = Map<usize, Set<Seq<u8>>>;

/// What a file system answers, and what it does. What is not there cannot be removed, and a slot goes
/// only where it is empty.
pub open spec fn honest_answer(
    removal: RemovalView,
    slots: Slots,
    missing: OsFailure,
    refused: OsFailure,
) -> (RemovalReply, Slots) {
    match removal {
        RemovalView::RemoveStage { slot, stage: file, .. } | RemovalView::RemoveRecord {
            slot,
            name: file,
        } => if slots.dom().contains(slot) && slots[slot].contains(file) {
            (RemovalReply::Files(Reply::Done), slots.insert(slot, slots[slot].remove(file)))
        } else {
            (RemovalReply::Files(Reply::Failed(missing)), slots)
        },
        RemovalView::ProbeSlot { slot } => (
            RemovalReply::Exists(Ok(slots.dom().contains(slot))),
            slots,
        ),
        RemovalView::RemoveSlot { slot } => if !slots.dom().contains(slot) {
            (RemovalReply::Files(Reply::Failed(missing)), slots)
        } else if slots[slot] == Set::<Seq<u8>>::empty() {
            (RemovalReply::Files(Reply::Done), slots.remove(slot))
        } else {
            (RemovalReply::Files(Reply::Failed(refused)), slots)
        },
        _ => (RemovalReply::Files(Reply::Done), slots),
    }
}

/// Removing a record from a file system, for so many questions.
pub open spec fn honest_removal(
    removal: RemovalView,
    slots: Slots,
    missing: OsFailure,
    refused: OsFailure,
    questions: nat,
) -> (RemovalView, Slots)
    decreases questions,
{
    if questions == 0 {
        (removal, slots)
    } else {
        let (reply, after) = honest_answer(removal, slots, missing, refused);
        honest_removal(removal.after(reply), after, missing, refused, (questions - 1) as nat)
    }
}

/// The files of the record's slot that are not the record's.
pub open spec fn further_files(stored: Stored, slots: Slots) -> Set<Seq<u8>> {
    slots[stored.slot].remove(names::stage_name_of(stored.name@)).remove(stored.name@)
}

/// The record's slot is there and holds a further file.
pub open spec fn has_further_file(stored: Stored, slots: Slots) -> bool {
    slots.dom().contains(stored.slot) && further_files(stored, slots) != Set::<Seq<u8>>::empty()
}

/// The slots without those files, and without the slot where it held nothing else.
pub open spec fn without_record(stored: Stored, slots: Slots) -> Slots {
    if has_further_file(stored, slots) {
        slots.insert(stored.slot, further_files(stored, slots))
    } else {
        slots.remove(stored.slot)
    }
}

/// Removing a record takes its file, its stage file and its slot, as far as they are there, and
/// leaves every other slot as it is. A slot with a further file is a fault, and keeps that file.
pub proof fn law_removal_takes_its_own_files(
    stored: Stored,
    slots: Slots,
    missing: OsFailure,
    refused: OsFailure,
)
    requires
        missing.kind == OsKind::NotFound,
        refused.kind != OsKind::NotFound,
    ensures
        ({
            let (done, after) = honest_removal(
                RemovalView::of(stored),
                slots,
                missing,
                refused,
                6,
            );
            &&& after == without_record(stored, slots)
            &&& done == RemovalView::Done(Ok(())) <==> !has_further_file(stored, slots)
            &&& done is Done
            &&& done == RemovalView::Done(Ok(())) ==> !after.dom().contains(stored.slot)
            &&& forall|slot: usize|
                slot != stored.slot ==> after.dom().contains(slot) == slots.dom().contains(slot)
                    && #[trigger] after[slot] == slots[slot]
        }),
{
    reveal_with_fuel(honest_removal, 7);
    let slot = stored.slot;
    let name = stored.name@;
    let stage = names::stage_name_of(name);
    let first = honest_answer(RemovalView::of(stored), slots, missing, refused).1;
    let second = honest_answer(record_question(stored), first, missing, refused).1;
    if slots.dom().contains(slot) {
        assert(second.dom().contains(slot));
        assert(second[slot] =~= further_files(stored, slots));
        assert(second =~= slots.insert(slot, further_files(stored, slots)));
        assert(second.remove(slot) =~= slots.remove(slot));
    } else {
        assert(slots.remove(slot) =~= slots);
    }
}

/// Removing a record once more succeeds as well, and changes nothing.
pub proof fn law_removal_can_be_repeated(
    stored: Stored,
    slots: Slots,
    missing: OsFailure,
    refused: OsFailure,
)
    requires
        missing.kind == OsKind::NotFound,
        refused.kind != OsKind::NotFound,
        honest_removal(RemovalView::of(stored), slots, missing, refused, 6).0 == RemovalView::Done(
            Ok(()),
        ),
    ensures
        ({
            let after = honest_removal(RemovalView::of(stored), slots, missing, refused, 6).1;
            honest_removal(RemovalView::of(stored), after, missing, refused, 6) == (
                RemovalView::Done(Ok(())),
                after,
            )
        }),
{
    law_removal_takes_its_own_files(stored, slots, missing, refused);
    let after = honest_removal(RemovalView::of(stored), slots, missing, refused, 6).1;
    law_removal_takes_its_own_files(stored, after, missing, refused);
    assert(after.remove(stored.slot) =~= after);
}

} // verus!
