//! Taking stock of an outbox: every record in it, in the order of the slots, and every fault.

use crate::fault::{Action, Fault, Notice};
use crate::files;
use crate::files::Reply;
use crate::names;
use crate::outbox::Outbox;
use crate::record::{Stored, MAX_RECORDS};
use vstd::prelude::*;

verus! {

/// What was found in an outbox.
#[derive(Debug, PartialEq, Eq)]
pub struct Found {
    pub records: Vec<Stored>,
    pub faults: Vec<Fault>,
}

/// What was found in an outbox.
pub struct FoundView {
    pub records: Seq<Stored>,
    pub faults: Seq<Fault>,
}

impl View for Found {
    type V = FoundView;

    open spec fn view(&self) -> FoundView {
        FoundView { records: self.records@, faults: self.faults@ }
    }
}

/// How far stock has been taken. Each stage but the last names what is asked next.
#[derive(Debug, PartialEq, Eq)]
pub enum Inventory {
    /// Look at the outbox directory without following a link.
    Require,
    /// Start to list the outbox directory.
    Open,
    /// Give the next entry of the outbox directory.
    Next { count: usize, found: Found },
    /// Load the slot `slot`, whose path is shown.
    Load { count: usize, slot: usize, shown: String, found: Found },
    Done(Result<Found, Fault>),
}

/// How far stock has been taken.
pub enum InventoryView {
    Require,
    Open,
    Next { count: usize, found: FoundView },
    Load { count: usize, slot: usize, shown: String, found: FoundView },
    Done(Result<FoundView, Fault>),
}

impl View for Inventory {
    type V = InventoryView;

    open spec fn view(&self) -> InventoryView {
        match *self {
            Inventory::Require => InventoryView::Require,
            Inventory::Open => InventoryView::Open,
            Inventory::Next { count, found } => InventoryView::Next { count, found: found@ },
            Inventory::Load { count, slot, shown, found } => InventoryView::Load {
                count,
                slot,
                shown,
                found: found@,
            },
            Inventory::Done(Ok(found)) => InventoryView::Done(Ok(found@)),
            Inventory::Done(Err(fault)) => InventoryView::Done(Err(fault)),
        }
    }
}

/// What is answered while stock is taken.
#[derive(Debug, PartialEq, Eq)]
pub enum InventoryReply {
    /// An answer of the file system.
    Files(Reply),
    /// The outcome of loading a slot.
    Loaded(Result<Option<Stored>, Fault>),
}

/// `a` stands before `b` in the dictionary.
pub open spec fn sorts_before(a: Seq<u8>, b: Seq<u8>) -> bool
    decreases a.len(),
{
    if b.len() == 0 {
        false
    } else if a.len() == 0 {
        true
    } else if a[0] != b[0] {
        a[0] < b[0]
    } else {
        sorts_before(a.skip(1), b.skip(1))
    }
}

/// `a` stands before `b` in the outbox: in a lower slot, or in the same one under a lower name.
pub open spec fn stands_before(a: Stored, b: Stored) -> bool {
    a.slot < b.slot || a.slot == b.slot && sorts_before(a.name@, b.name@)
}

/// Where `stored` goes among `records`, from `from` on: before the first record that it stands
/// before.
pub open spec fn place(records: Seq<Stored>, stored: Stored, from: int) -> int
    decreases records.len() - from,
{
    if from >= records.len() || stands_before(stored, records[from]) {
        from
    } else {
        place(records, stored, from + 1)
    }
}

/// `records` with `stored` in its place.
pub open spec fn inserted(records: Seq<Stored>, stored: Stored) -> Seq<Stored> {
    records.insert(place(records, stored, 0), stored)
}

impl FoundView {
    /// Nothing was found.
    pub open spec fn nothing() -> FoundView {
        FoundView { records: Seq::empty(), faults: Seq::empty() }
    }

    /// One more record was found.
    pub open spec fn with_record(self, stored: Stored) -> FoundView {
        FoundView { records: inserted(self.records, stored), ..self }
    }

    /// One more fault was found.
    pub open spec fn with_fault(self, fault: Fault) -> FoundView {
        FoundView { faults: self.faults.push(fault), ..self }
    }
}

impl InventoryView {
    /// The stage after an answer. An answer to another question changes nothing.
    pub open spec fn after(self, reply: InventoryReply) -> InventoryView {
        match (self, reply) {
            (InventoryView::Require, InventoryReply::Files(Reply::Meta(meta))) =>
                match files::directory_required(Ok(meta)) {
                    Ok(()) => InventoryView::Open,
                    Err(fault) => InventoryView::Done(Err(fault)),
                },
            (InventoryView::Require, InventoryReply::Files(Reply::Failed(failure))) =>
                InventoryView::Done(Err(Fault::Os { action: Action::Plain, text: failure.text })),
            (InventoryView::Open, InventoryReply::Files(Reply::Done)) => InventoryView::Next {
                count: 0,
                found: FoundView::nothing(),
            },
            (InventoryView::Open, InventoryReply::Files(Reply::Failed(failure))) =>
                InventoryView::Done(
                    Err(Fault::Os { action: Action::ReadDirectory, text: failure.text }),
                ),
            (InventoryView::Next { count, found }, InventoryReply::Files(Reply::End)) =>
                InventoryView::Done(Ok(found)),
            (
                InventoryView::Next { count, found },
                InventoryReply::Files(Reply::Failed(failure)),
            ) => if count >= MAX_RECORDS {
                InventoryView::Done(Err(Fault::Notice(Notice::SlotQuota)))
            } else {
                InventoryView::Done(Err(Fault::Os { action: Action::ReadSlot, text: failure.text }))
            },
            (
                InventoryView::Next { count, found },
                InventoryReply::Files(Reply::Entry { name, shown }),
            ) => if count >= MAX_RECORDS {
                InventoryView::Done(Err(Fault::Notice(Notice::SlotQuota)))
            } else {
                let count = (count + 1) as usize;
                match names::slot_named(name@) {
                    None => InventoryView::Next {
                        count,
                        found: found.with_fault(Fault::Notice(Notice::UnexpectedEntry)),
                    },
                    Some(slot) => InventoryView::Load { count, slot: slot as usize, shown, found },
                }
            },
            (
                InventoryView::Load { count, slot, shown, found },
                InventoryReply::Loaded(loaded),
            ) => InventoryView::Next {
                count,
                found: match loaded {
                    Ok(Some(stored)) => found.with_record(stored),
                    Ok(None) => found,
                    Err(fault) => found.with_fault(Fault::AtSlot { shown, cause: Box::new(fault) }),
                },
            },
            _ => self,
        }
    }

    /// The stage after several answers.
    pub open spec fn after_all(self, replies: Seq<InventoryReply>) -> InventoryView
        decreases replies.len(),
    {
        if replies.len() == 0 {
            self
        } else {
            self.after_all(replies.drop_last()).after(replies.last())
        }
    }
}

/// Whether `a` stands before `b` in the dictionary.
fn is_sorted_before(a: &[u8], b: &[u8]) -> (before: bool)
    ensures
        before == sorts_before(a@, b@),
{
    let mut at: usize = 0;
    assert(a@.skip(0) =~= a@ && b@.skip(0) =~= b@);
    while at < a.len() && at < b.len() && a[at] == b[at]
        invariant
            at <= a@.len(),
            at <= b@.len(),
            sorts_before(a@, b@) == sorts_before(a@.skip(at as int), b@.skip(at as int)),
        decreases a@.len() - at,
    {
        assert(a@.skip(at as int).skip(1) =~= a@.skip(at + 1));
        assert(b@.skip(at as int).skip(1) =~= b@.skip(at + 1));
        at += 1;
    }
    if at >= b.len() {
        false
    } else if at >= a.len() {
        true
    } else {
        a[at] < b[at]
    }
}

/// Puts `stored` in its place among `records`.
fn insert_record(records: &mut Vec<Stored>, stored: Stored)
    ensures
        final(records)@ == inserted(old(records)@, stored),
{
    let mut at: usize = 0;
    let total: usize = records.len();
    while at < total && !(stored.slot < records[at].slot || stored.slot == records[at].slot
        && is_sorted_before(stored.name.as_slice(), records[at].name.as_slice()))
        invariant
            at <= total == records@.len(),
            records@ == old(records)@,
            place(records@, stored, 0) == place(records@, stored, at as int),
        decreases total - at,
    {
        at += 1;
    }
    records.insert(at, stored);
}

impl Outbox {
    /// Goes on with taking stock after an answer.
    pub fn inventory(inventory: Inventory, reply: InventoryReply) -> (next: Inventory)
        ensures
            next@ == inventory@.after(reply),
    {
        match (inventory, reply) {
            (Inventory::Require, InventoryReply::Files(Reply::Meta(meta))) =>
                match files::require_directory(Ok(meta)) {
                    Ok(()) => Inventory::Open,
                    Err(fault) => Inventory::Done(Err(fault)),
                },
            (Inventory::Require, InventoryReply::Files(Reply::Failed(failure))) => Inventory::Done(
                Err(Fault::Os { action: Action::Plain, text: failure.text }),
            ),
            (Inventory::Open, InventoryReply::Files(Reply::Done)) => Inventory::Next {
                count: 0,
                found: Found { records: Vec::new(), faults: Vec::new() },
            },
            (Inventory::Open, InventoryReply::Files(Reply::Failed(failure))) => Inventory::Done(
                Err(Fault::Os { action: Action::ReadDirectory, text: failure.text }),
            ),
            (Inventory::Next { count: _, found }, InventoryReply::Files(Reply::End)) =>
                Inventory::Done(Ok(found)),
            (
                Inventory::Next { count, found: _ },
                InventoryReply::Files(Reply::Failed(failure)),
            ) => if count >= MAX_RECORDS {
                Inventory::Done(Err(Fault::Notice(Notice::SlotQuota)))
            } else {
                Inventory::Done(Err(Fault::Os { action: Action::ReadSlot, text: failure.text }))
            },
            (
                Inventory::Next { count, found },
                InventoryReply::Files(Reply::Entry { name, shown }),
            ) => if count >= MAX_RECORDS {
                Inventory::Done(Err(Fault::Notice(Notice::SlotQuota)))
            } else {
                match names::parse_slot_name(name.as_slice()) {
                    None => {
                        let mut found: Found = found;
                        found.faults.push(Fault::Notice(Notice::UnexpectedEntry));
                        Inventory::Next { count: count + 1, found }
                    },
                    Some(slot) => Inventory::Load { count: count + 1, slot, shown, found },
                }
            },
            (
                Inventory::Load { count, slot: _, shown, found },
                InventoryReply::Loaded(loaded),
            ) => {
                let mut found: Found = found;
                match loaded {
                    Ok(Some(stored)) => {
                        insert_record(&mut found.records, stored);
                    },
                    Ok(None) => {},
                    Err(fault) => {
                        found.faults.push(Fault::AtSlot { shown, cause: Box::new(fault) });
                    },
                }
                Inventory::Next { count, found }
            },
            (inventory, _) => inventory,
        }
    }
}

} // verus!
