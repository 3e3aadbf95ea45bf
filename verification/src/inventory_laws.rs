//! What taking stock comes to.

use crate::fault::{Fault, Notice};
use crate::files::Reply;
use crate::inventory;
use crate::inventory::{FoundView, InventoryReply, InventoryView};
use crate::names;
use crate::outbox::OutboxView;
use crate::record::{Stored, MAX_RECORDS};
use crate::slot_laws;
use vstd::prelude::*;

verus! {

/// The records stand in the order of their slots and, within a slot, of their names.
pub open spec fn in_order(records: Seq<Stored>) -> bool {
    forall|i: int, j: int|
        0 <= i < j < records.len() ==> !inventory::stands_before(
            #[trigger] records[j],
            #[trigger] records[i],
        )
}

proof fn lemma_dictionary_order(a: Seq<u8>, b: Seq<u8>, c: Seq<u8>)
    ensures
        !(inventory::sorts_before(a, b) && inventory::sorts_before(b, a)),
        inventory::sorts_before(a, b) && inventory::sorts_before(b, c) ==> inventory::sorts_before(
            a,
            c,
        ),
    decreases a.len(),
{
    if a.len() > 0 && b.len() > 0 {
        let rest = if c.len() > 0 {
            c.skip(1)
        } else {
            c
        };
        lemma_dictionary_order(a.skip(1), b.skip(1), rest);
    }
}

/// A record stands before another one or not, never both ways, and before all that this one stands
/// before.
pub proof fn lemma_record_order(a: Stored, b: Stored, c: Stored)
    ensures
        !(inventory::stands_before(a, b) && inventory::stands_before(b, a)),
        inventory::stands_before(a, b) && inventory::stands_before(b, c)
            ==> inventory::stands_before(a, c),
{
    lemma_dictionary_order(a.name@, b.name@, c.name@);
}

/// Where a record goes: behind those that it does not stand before, and before the first one that it
/// stands before.
pub proof fn lemma_place(records: Seq<Stored>, stored: Stored, from: int)
    requires
        0 <= from <= records.len(),
    ensures
        from <= inventory::place(records, stored, from) <= records.len(),
        forall|i: int|
            from <= i < inventory::place(records, stored, from) ==> !inventory::stands_before(
                stored,
                #[trigger] records[i],
            ),
        inventory::place(records, stored, from) < records.len() ==> inventory::stands_before(
            stored,
            records[inventory::place(records, stored, from)],
        ),
    decreases records.len() - from,
{
    if from < records.len() && !inventory::stands_before(stored, records[from]) {
        lemma_place(records, stored, from + 1);
    }
}

/// Putting a record in its place keeps the order, adds that record and nothing else, and leaves the
/// others in the order in which they stood.
pub proof fn law_insertion_keeps_order(records: Seq<Stored>, stored: Stored)
    requires
        in_order(records),
    ensures
        in_order(inventory::inserted(records, stored)),
        inventory::inserted(records, stored).to_multiset() == records.to_multiset().insert(stored),
        inventory::inserted(records, stored).remove(inventory::place(records, stored, 0))
            == records,
{
    let at = inventory::place(records, stored, 0);
    let after = inventory::inserted(records, stored);
    lemma_place(records, stored, 0);
    assert(after.remove(at) =~= records);
    vstd::seq_lib::to_multiset_insert(records, at, stored);
    assert forall|i: int, j: int| 0 <= i < j < after.len() implies !inventory::stands_before(
        #[trigger] after[j],
        #[trigger] after[i],
    ) by {
        if i == at {
            let behind = records[j - 1];
            lemma_record_order(behind, stored, records[at]);
            lemma_record_order(stored, records[at], stored);
            if j - 1 > at {
                assert(!inventory::stands_before(records[j - 1], records[at]));
            }
        } else if j == at {
            assert(after[i] == records[i]);
        } else {
            let a = if i < at {
                i
            } else {
                i - 1
            };
            let b = if j < at {
                j
            } else {
                j - 1
            };
            assert(after[i] == records[a] && after[j] == records[b]);
        }
    }
}

/// An answer that hands over no record but one of this outbox.
pub open spec fn reply_belongs(outbox: OutboxView, reply: InventoryReply) -> bool {
    reply matches InventoryReply::Loaded(Ok(Some(stored))) ==> slot_laws::belongs(outbox, stored)
}

/// All records are of this outbox and in order, and there is at most one record or fault for each
/// entry that was seen.
pub open spec fn found_is_sound(outbox: OutboxView, found: FoundView, count: int) -> bool {
    &&& in_order(found.records)
    &&& forall|i: int|
        0 <= i < found.records.len() ==> slot_laws::belongs(outbox, #[trigger] found.records[i])
    &&& found.records.len() + found.faults.len() <= count <= MAX_RECORDS
}

/// What holds of a stage that is reached.
pub open spec fn inventory_is_sound(outbox: OutboxView, inventory: InventoryView) -> bool {
    match inventory {
        InventoryView::Next { count, found } => found_is_sound(outbox, found, count as int),
        InventoryView::Load { count, found, .. } => 0 < count <= MAX_RECORDS && found_is_sound(
            outbox,
            found,
            count - 1,
        ),
        InventoryView::Done(Ok(found)) => found_is_sound(outbox, found, MAX_RECORDS as int),
        _ => true,
    }
}

/// Where every slot that is loaded hands over a record of this outbox, stock is taken of records of
/// this outbox alone, in the order of their slots, and at most as many as there are slots.
pub proof fn law_inventory_is_sound(outbox: OutboxView, replies: Seq<InventoryReply>)
    requires
        forall|i: int| 0 <= i < replies.len() ==> reply_belongs(outbox, #[trigger] replies[i]),
    ensures
        inventory_is_sound(outbox, InventoryView::Require.after_all(replies)),
    decreases replies.len(),
{
    if replies.len() > 0 {
        let before = replies.drop_last();
        assert forall|i: int| 0 <= i < before.len() implies reply_belongs(
            outbox,
            #[trigger] before[i],
        ) by {
            assert(before[i] == replies[i]);
        }
        law_inventory_is_sound(outbox, before);
        assert(replies.last() == replies[replies.len() - 1]);
        lemma_inventory_stays_sound(
            outbox,
            InventoryView::Require.after_all(before),
            replies.last(),
        );
    }
}

proof fn lemma_inventory_stays_sound(
    outbox: OutboxView,
    inventory: InventoryView,
    reply: InventoryReply,
)
    requires
        inventory_is_sound(outbox, inventory),
        reply_belongs(outbox, reply),
    ensures
        inventory_is_sound(outbox, inventory.after(reply)),
{
    if let InventoryView::Load { found, .. } = inventory {
        if let InventoryReply::Loaded(Ok(Some(stored))) = reply {
            law_insertion_keeps_order(found.records, stored);
            lemma_place(found.records, stored, 0);
            let after = found.with_record(stored).records;
            let at = inventory::place(found.records, stored, 0);
            assert forall|i: int| 0 <= i < after.len() implies slot_laws::belongs(
                outbox,
                #[trigger] after[i],
            ) by {
                if i < at {
                    assert(after[i] == found.records[i]);
                } else if i > at {
                    assert(after[i] == found.records[i - 1]);
                }
            }
        }
    }
}

/// An entry of the outbox directory, and what loading it comes to where it is a slot.
pub struct DirectoryEntry {
    pub name: Vec<u8>,
    pub shown: String,
    pub loaded: Result<Option<Stored>, Fault>,
}

/// The stage after an entry was listed and, where it is a slot, loaded.
pub open spec fn entry_taken(inventory: InventoryView, entry: DirectoryEntry) -> InventoryView {
    let listed = inventory.after(
        InventoryReply::Files(Reply::Entry { name: entry.name, shown: entry.shown }),
    );
    if listed is Load {
        listed.after(InventoryReply::Loaded(entry.loaded))
    } else {
        listed
    }
}

/// The stage after several entries.
pub open spec fn entries_taken(
    inventory: InventoryView,
    entries: Seq<DirectoryEntry>,
) -> InventoryView
    decreases entries.len(),
{
    if entries.len() == 0 {
        inventory
    } else {
        entry_taken(entries_taken(inventory, entries.drop_last()), entries.last())
    }
}

/// What an outbox directory with these entries holds.
pub open spec fn collected(entries: Seq<DirectoryEntry>) -> FoundView
    decreases entries.len(),
{
    if entries.len() == 0 {
        FoundView::nothing()
    } else {
        let found = collected(entries.drop_last());
        let entry = entries.last();
        match (names::slot_named(entry.name@), entry.loaded) {
            (None, _) => found.with_fault(Fault::Notice(Notice::UnexpectedEntry)),
            (Some(_), Ok(Some(stored))) => found.with_record(stored),
            (Some(_), Ok(None)) => found,
            (Some(_), Err(fault)) => found.with_fault(
                Fault::AtSlot { shown: entry.shown, cause: Box::new(fault) },
            ),
        }
    }
}

/// Stock is taken of everything in the directory, entry by entry: of each slot the record or the
/// fault, and a fault for every other entry. A directory with more entries than an outbox has slots
/// is refused as a whole.
pub proof fn law_inventory_takes_everything(entries: Seq<DirectoryEntry>)
    ensures
        entries.len() <= MAX_RECORDS ==> entries_taken(
            (InventoryView::Next { count: 0, found: FoundView::nothing() }),
            entries,
        ) == (InventoryView::Next { count: entries.len() as usize, found: collected(entries) }),
        entries.len() > MAX_RECORDS ==> entries_taken(
            (InventoryView::Next { count: 0, found: FoundView::nothing() }),
            entries,
        ) == InventoryView::Done(Err(Fault::Notice(Notice::SlotQuota))),
    decreases entries.len(),
{
    if entries.len() > 0 {
        law_inventory_takes_everything(entries.drop_last());
    }
}

/// Whatever a slot loads is found when stock is taken.
pub proof fn law_every_loaded_record_is_found(entries: Seq<DirectoryEntry>, at: int, stored: Stored)
    requires
        0 <= at < entries.len(),
        names::slot_named(entries[at].name@) is Some,
        entries[at].loaded == Ok::<Option<Stored>, Fault>(Some(stored)),
    ensures
        collected(entries).records.contains(stored),
    decreases entries.len(),
{
    let before = entries.drop_last();
    let found = collected(before).records;
    let last = entries.last();
    if at < before.len() {
        law_every_loaded_record_is_found(before, at, stored);
        let i = choose|i: int| 0 <= i < found.len() && found[i] == stored;
        if let (Some(_), Ok(Some(other))) = (names::slot_named(last.name@), last.loaded) {
            let place = inventory::place(found, other, 0);
            lemma_place(found, other, 0);
            let after = inventory::inserted(found, other);
            if i < place {
                assert(after[i] == stored);
            } else {
                assert(after[i + 1] == stored);
            }
        } else {
            assert(collected(entries).records == found);
        }
    } else {
        let place = inventory::place(found, stored, 0);
        lemma_place(found, stored, 0);
        assert(inventory::inserted(found, stored)[place] == stored);
    }
}

} // verus!
