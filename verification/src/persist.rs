//! Storing a record: once, in the first free slot, and so that a crash leaves it whole or visibly
//! unfinished.

use crate::event::Event;
use crate::fault::{Action, Fault, Notice, OsKind};
use crate::files::Reply;
use crate::inventory::Found;
use crate::names;
use crate::outbox;
use crate::outbox::{Outbox, OutboxView};
use crate::record::{
    Payload, Record, Stored, MAX_REASON_BYTES, MAX_RECORDS, MAX_RECORD_BYTES, MAX_TEXT_BYTES,
    MAX_TURN_BYTES,
};
use crate::text;
use vstd::prelude::*;
use vstd::utf8::*;

verus! {

/// Where a record is stored.
#[derive(Debug, PartialEq, Eq)]
pub struct Placed {
    pub slot: usize,
    pub name: String,
}

/// Where a record is stored.
pub struct PlacedView {
    pub slot: usize,
    pub name: Seq<char>,
}

/// What is done next to fill a slot that was reserved.
#[derive(Clone, Copy, Debug, PartialEq, Eq, Structural)]
pub enum FillStep {
    /// Make the outbox directory durable.
    SyncOutbox,
    /// Create the stage file, which must not be there, for the owner alone.
    CreateStage,
    /// Write the JSON text to the stage file and make it durable.
    WriteStage,
    /// Link the stage file under the name of the record, which must not be there.
    Link,
    /// Make the slot durable.
    SyncSlot,
    /// Remove the stage file.
    RemoveStage,
    /// Make the slot durable once more.
    SyncSlotAgain,
}

/// How far a record has been stored. Each stage but the last names what is asked next.
#[derive(Debug, PartialEq, Eq)]
pub enum Persist {
    /// Write the record as JSON text.
    Encode { record: Record },
    /// Take stock of the outbox.
    Inventory { bytes: Vec<u8>, name: String },
    /// Make the slot durable in which the record stands already.
    SyncExisting { slot: usize, name: String },
    /// Create the directory of the slot, which must not be there, for the owner alone.
    Reserve { slot: usize, bytes: Vec<u8>, name: String },
    /// Fill the slot, whose path is shown: prepare the text in the file `stage`, for the file `name`.
    Fill {
        step: FillStep,
        slot: usize,
        shown: String,
        stage: Vec<u8>,
        bytes: Vec<u8>,
        name: String,
    },
    Done(Result<Placed, Fault>),
}

/// How far a record has been stored.
pub enum PersistView {
    Encode { record: Record },
    Inventory { bytes: Vec<u8>, name: Seq<char> },
    SyncExisting { slot: usize, name: Seq<char> },
    Reserve { slot: usize, bytes: Vec<u8>, name: Seq<char> },
    Fill {
        step: FillStep,
        slot: usize,
        shown: String,
        stage: Seq<u8>,
        bytes: Vec<u8>,
        name: Seq<char>,
    },
    Done(Result<PlacedView, Fault>),
}

impl View for Persist {
    type V = PersistView;

    open spec fn view(&self) -> PersistView {
        match *self {
            Persist::Encode { record } => PersistView::Encode { record },
            Persist::Inventory { bytes, name } => PersistView::Inventory { bytes, name: name@ },
            Persist::SyncExisting { slot, name } => PersistView::SyncExisting { slot, name: name@ },
            Persist::Reserve { slot, bytes, name } => PersistView::Reserve {
                slot,
                bytes,
                name: name@,
            },
            Persist::Fill { step, slot, shown, stage, bytes, name } => PersistView::Fill {
                step,
                slot,
                shown,
                stage: stage@,
                bytes,
                name: name@,
            },
            Persist::Done(Ok(placed)) => PersistView::Done(
                Ok(PlacedView { slot: placed.slot, name: placed.name@ }),
            ),
            Persist::Done(Err(fault)) => PersistView::Done(Err(fault)),
        }
    }
}

/// What is answered while a record is stored.
#[derive(Debug, PartialEq, Eq)]
pub enum PersistReply {
    /// An answer of the file system.
    Files(Reply),
    /// The JSON text of the record.
    Encoded(Result<Vec<u8>, Fault>),
    /// What is in the outbox.
    Stock(Result<Found, Fault>),
    /// The slot was created; its path as it is shown.
    Reserved { shown: String },
}

/// The first record at or after `from` that stands under `name`.
pub open spec fn standing(records: Seq<Stored>, name: Seq<u8>, from: int) -> Option<int>
    decreases records.len() - from,
{
    if from >= records.len() {
        None
    } else if records[from].name@ == name {
        Some(from)
    } else {
        standing(records, name, from + 1)
    }
}

/// What was in the outbox when a record of this name was to be stored.
pub open spec fn stock_taken(bytes: Vec<u8>, name: Seq<char>, found: Found) -> PersistView {
    match standing(found.records@, encode_utf8(name), 0) {
        Some(at) => PersistView::SyncExisting { slot: found.records@[at].slot, name },
        None => if found.faults@.len() > 0 {
            PersistView::Done(Err(Fault::NeedsRecovery { faults: found.faults }))
        } else {
            PersistView::Reserve { slot: 0, bytes, name }
        },
    }
}

impl FillStep {
    /// What is done after this step, if anything is.
    pub open spec fn next(self) -> Option<FillStep> {
        match self {
            FillStep::SyncOutbox => Some(FillStep::CreateStage),
            FillStep::CreateStage => Some(FillStep::WriteStage),
            FillStep::WriteStage => Some(FillStep::Link),
            FillStep::Link => Some(FillStep::SyncSlot),
            FillStep::SyncSlot => Some(FillStep::RemoveStage),
            FillStep::RemoveStage => Some(FillStep::SyncSlotAgain),
            FillStep::SyncSlotAgain => None,
        }
    }

    /// What the failure of this step is a failure of.
    pub open spec fn action(self) -> Action {
        match self {
            FillStep::CreateStage => Action::CreateStage,
            FillStep::WriteStage => Action::SyncRecord,
            FillStep::Link => Action::PublishRecord,
            FillStep::RemoveStage => Action::RemoveFile,
            _ => Action::SyncDirectory,
        }
    }

    /// What is done after this step, if anything is.
    fn following(self) -> (next: Option<FillStep>)
        ensures
            next == self.next(),
    {
        match self {
            FillStep::SyncOutbox => Some(FillStep::CreateStage),
            FillStep::CreateStage => Some(FillStep::WriteStage),
            FillStep::WriteStage => Some(FillStep::Link),
            FillStep::Link => Some(FillStep::SyncSlot),
            FillStep::SyncSlot => Some(FillStep::RemoveStage),
            FillStep::RemoveStage => Some(FillStep::SyncSlotAgain),
            FillStep::SyncSlotAgain => None,
        }
    }

    /// What the failure of this step is a failure of.
    fn failed_action(self) -> (action: Action)
        ensures
            action == self.action(),
    {
        match self {
            FillStep::CreateStage => Action::CreateStage,
            FillStep::WriteStage => Action::SyncRecord,
            FillStep::Link => Action::PublishRecord,
            FillStep::RemoveStage => Action::RemoveFile,
            _ => Action::SyncDirectory,
        }
    }
}

/// A step of filling a slot was done.
pub open spec fn step_done(
    step: FillStep,
    slot: usize,
    shown: String,
    stage: Seq<u8>,
    bytes: Vec<u8>,
    name: Seq<char>,
) -> PersistView {
    match step.next() {
        Some(step) => PersistView::Fill { step, slot, shown, stage, bytes, name },
        None => PersistView::Done(Ok(PlacedView { slot, name })),
    }
}

impl PersistView {
    /// The stage after an answer. An answer to another question changes nothing.
    pub open spec fn after(self, reply: PersistReply) -> PersistView {
        match (self, reply) {
            (PersistView::Encode { record }, PersistReply::Encoded(Ok(bytes))) => if bytes@.len()
                > MAX_RECORD_BYTES {
                PersistView::Done(Err(Fault::Notice(Notice::RecordTooLong)))
            } else {
                PersistView::Inventory { bytes, name: outbox::record_name_of(record, bytes@) }
            },
            (PersistView::Encode { .. }, PersistReply::Encoded(Err(fault))) => PersistView::Done(
                Err(fault),
            ),
            (PersistView::Inventory { bytes, name }, PersistReply::Stock(Ok(found))) => stock_taken(
                bytes,
                name,
                found,
            ),
            (PersistView::Inventory { .. }, PersistReply::Stock(Err(fault))) => PersistView::Done(
                Err(fault),
            ),
            (PersistView::SyncExisting { slot, name }, PersistReply::Files(Reply::Done)) =>
                PersistView::Done(Ok(PlacedView { slot, name })),
            (PersistView::SyncExisting { .. }, PersistReply::Files(Reply::Failed(failure))) =>
                PersistView::Done(
                    Err(Fault::Os { action: Action::SyncDirectory, text: failure.text }),
                ),
            (PersistView::Reserve { slot, bytes, name }, PersistReply::Reserved { shown }) =>
                PersistView::Fill {
                    step: FillStep::SyncOutbox,
                    slot,
                    shown,
                    stage: names::stage_name_of(encode_utf8(name)),
                    bytes,
                    name,
                },
            (
                PersistView::Reserve { slot, bytes, name },
                PersistReply::Files(Reply::Failed(failure)),
            ) => if failure.kind != OsKind::AlreadyExists {
                PersistView::Done(
                    Err(Fault::Os { action: Action::ReserveSlot, text: failure.text }),
                )
            } else if slot + 1 < MAX_RECORDS {
                PersistView::Reserve { slot: (slot + 1) as usize, bytes, name }
            } else {
                PersistView::Done(Err(Fault::Notice(Notice::OutboxFull)))
            },
            (
                PersistView::Fill { step, slot, shown, stage, bytes, name },
                PersistReply::Files(Reply::Done),
            ) => step_done(step, slot, shown, stage, bytes, name),
            (
                PersistView::Fill { step, slot, shown, stage, bytes, name },
                PersistReply::Files(Reply::Failed(failure)),
            ) => if step == FillStep::RemoveStage && failure.kind == OsKind::NotFound {
                step_done(step, slot, shown, stage, bytes, name)
            } else {
                PersistView::Done(
                    Err(
                        Fault::RetainedSlot {
                            shown,
                            cause: Box::new(Fault::Os { action: step.action(), text: failure.text }),
                        },
                    ),
                )
            },
            _ => self,
        }
    }

    /// The stage after several answers.
    pub open spec fn after_all(self, replies: Seq<PersistReply>) -> PersistView
        decreases replies.len(),
    {
        if replies.len() == 0 {
            self
        } else {
            self.after_all(replies.drop_last()).after(replies.last())
        }
    }

    /// The stage in which a record is taken up for storing.
    pub open spec fn of(outbox: OutboxView, record: Record) -> PersistView {
        match outbox.record_checked(record) {
            Ok(()) => PersistView::Encode { record },
            Err(fault) => PersistView::Done(Err(fault)),
        }
    }
}

/// A turn identifier that a record can carry.
pub open spec fn is_turn_id(turn_id: Seq<char>) -> bool {
    0 < turn_id.len() && encode_utf8(turn_id).len() <= MAX_TURN_BYTES
}

/// A record that this outbox makes for a turn.
pub open spec fn is_made_for(record: Record, outbox: OutboxView, turn_id: Seq<char>) -> bool {
    &&& record.version == 1
    &&& record.namespace@ == outbox.namespace
    &&& record.turn_id@ == turn_id
}

/// `persist` starts to store `event`, which the turn `turn_id` publishes, or says why it is not stored.
pub open spec fn starts_enqueuing(
    outbox: OutboxView,
    turn_id: Seq<char>,
    event: Event,
    persist: PersistView,
) -> bool {
    match outbox.event_checked(event) {
        Err(fault) => persist == PersistView::Done(Err(fault)),
        Ok(()) => if is_turn_id(turn_id) {
            persist matches PersistView::Encode { record } && is_made_for(record, outbox, turn_id)
                && (record.payload matches Payload::Pending { event: kept } && kept@ == event@)
        } else {
            persist == PersistView::Done(Err(Fault::Notice(Notice::TurnIdLength)))
        },
    }
}

/// `persist` starts to store `text`, which the turn `turn_id` does not publish for `reason`, or says
/// why it is not stored.
pub open spec fn starts_deferring(
    outbox: OutboxView,
    turn_id: Seq<char>,
    text: Seq<char>,
    reason: Seq<char>,
    persist: PersistView,
) -> bool {
    if encode_utf8(text).len() > MAX_TEXT_BYTES || encode_utf8(reason).len() > MAX_REASON_BYTES {
        persist == PersistView::Done(Err(Fault::Notice(Notice::DraftTooLong)))
    } else if !is_turn_id(turn_id) {
        persist == PersistView::Done(Err(Fault::Notice(Notice::TurnIdLength)))
    } else {
        persist matches PersistView::Encode { record } && is_made_for(record, outbox, turn_id) && (
        record.payload matches Payload::Deferred { text: kept, reason: why } && kept@ == text && why@
            == reason)
    }
}

/// The first record that stands under `name`.
fn find_standing(records: &Vec<Stored>, name: &[u8]) -> (found: Option<usize>)
    ensures
        match found {
            Some(at) => standing(records@, name@, 0) == Some(at as int) && at < records@.len(),
            None => standing(records@, name@, 0) is None,
        },
{
    let mut at: usize = 0;
    while at < records.len()
        invariant
            at <= records@.len(),
            standing(records@, name@, 0) == standing(records@, name@, at as int),
        decreases records@.len() - at,
    {
        if text::same_bytes(records[at].name.as_slice(), name) {
            return Some(at);
        }
        at += 1;
    }
    None
}

impl Persist {
    /// A step of filling a slot was done.
    fn finish_step(
        step: FillStep,
        slot: usize,
        shown: String,
        stage: Vec<u8>,
        bytes: Vec<u8>,
        name: String,
    ) -> (next: Persist)
        ensures
            next@ == step_done(step, slot, shown, stage@, bytes, name@),
    {
        match step.following() {
            Some(step) => Persist::Fill { step, slot, shown, stage, bytes, name },
            None => Persist::Done(Ok(Placed { slot, name })),
        }
    }

    /// What was in the outbox when a record of this name was to be stored.
    fn take_stock(bytes: Vec<u8>, name: String, found: Found) -> (next: Persist)
        ensures
            next@ == stock_taken(bytes, name@, found),
    {
        match find_standing(&found.records, name.as_str().as_bytes()) {
            Some(at) => Persist::SyncExisting { slot: found.records[at].slot, name },
            None => if found.faults.len() > 0 {
                Persist::Done(Err(Fault::NeedsRecovery { faults: found.faults }))
            } else {
                Persist::Reserve { slot: 0, bytes, name }
            },
        }
    }

    /// Goes on with storing a record after an answer.
    pub fn answered(self, reply: PersistReply) -> (next: Persist)
        ensures
            next@ == self@.after(reply),
    {
        match (self, reply) {
            (Persist::Encode { record }, PersistReply::Encoded(Ok(bytes))) => if bytes.len()
                > MAX_RECORD_BYTES {
                Persist::Done(Err(Fault::Notice(Notice::RecordTooLong)))
            } else {
                let name: String = Outbox::record_name(&record, bytes.as_slice());
                Persist::Inventory { bytes, name }
            },
            (Persist::Encode { .. }, PersistReply::Encoded(Err(fault))) => Persist::Done(Err(fault)),
            (Persist::Inventory { bytes, name }, PersistReply::Stock(Ok(found))) =>
                Persist::take_stock(bytes, name, found),
            (Persist::Inventory { .. }, PersistReply::Stock(Err(fault))) => Persist::Done(
                Err(fault),
            ),
            (Persist::SyncExisting { slot, name }, PersistReply::Files(Reply::Done)) =>
                Persist::Done(Ok(Placed { slot, name })),
            (Persist::SyncExisting { .. }, PersistReply::Files(Reply::Failed(failure))) =>
                Persist::Done(Err(Fault::Os { action: Action::SyncDirectory, text: failure.text })),
            (Persist::Reserve { slot, bytes, name }, PersistReply::Reserved { shown }) => {
                let stage: Vec<u8> = names::stage_name(name.as_str().as_bytes());
                Persist::Fill { step: FillStep::SyncOutbox, slot, shown, stage, bytes, name }
            },
            (
                Persist::Reserve { slot, bytes, name },
                PersistReply::Files(Reply::Failed(failure)),
            ) => if failure.kind != OsKind::AlreadyExists {
                Persist::Done(Err(Fault::Os { action: Action::ReserveSlot, text: failure.text }))
            } else if slot < MAX_RECORDS - 1 {
                Persist::Reserve { slot: slot + 1, bytes, name }
            } else {
                Persist::Done(Err(Fault::Notice(Notice::OutboxFull)))
            },
            (
                Persist::Fill { step, slot, shown, stage, bytes, name },
                PersistReply::Files(Reply::Done),
            ) => Persist::finish_step(step, slot, shown, stage, bytes, name),
            (
                Persist::Fill { step, slot, shown, stage, bytes, name },
                PersistReply::Files(Reply::Failed(failure)),
            ) => if step == FillStep::RemoveStage && failure.kind == OsKind::NotFound {
                Persist::finish_step(step, slot, shown, stage, bytes, name)
            } else {
                Persist::Done(
                    Err(
                        Fault::RetainedSlot {
                            shown,
                            cause: Box::new(
                                Fault::Os { action: step.failed_action(), text: failure.text },
                            ),
                        },
                    ),
                )
            },
            (persist, _) => persist,
        }
    }
}

impl Outbox {
    /// Starts to store `record`.
    pub fn persist(&self, record: Record) -> (persist: Persist)
        ensures
            persist@ == PersistView::of(self@, record),
    {
        match self.validate_record(&record) {
            Ok(()) => Persist::Encode { record },
            Err(fault) => Persist::Done(Err(fault)),
        }
    }

    /// Starts to store `event`, which the turn `turn_id` publishes, until the relay accepts it.
    pub fn enqueue(&self, turn_id: &str, event: &Event) -> (persist: Persist)
        ensures
            starts_enqueuing(self@, turn_id@, *event, persist@),
    {
        match self.validate_event(event) {
            Err(fault) => Persist::Done(Err(fault)),
            Ok(()) => self.persist(
                Record {
                    version: 1,
                    namespace: self.namespace().to_owned(),
                    turn_id: turn_id.to_owned(),
                    payload: Payload::Pending { event: event.clone() },
                },
            ),
        }
    }

    /// Starts to store `text`, which the turn `turn_id` does not publish for `reason`.
    pub fn store_deferred(&self, turn_id: &str, text: &str, reason: &str) -> (persist: Persist)
        ensures
            starts_deferring(self@, turn_id@, text@, reason@, persist@),
    {
        if text::byte_len(text) > MAX_TEXT_BYTES || text::byte_len(reason) > MAX_REASON_BYTES {
            return Persist::Done(Err(Fault::Notice(Notice::DraftTooLong)));
        }
        self.persist(
            Record {
                version: 1,
                namespace: self.namespace().to_owned(),
                turn_id: turn_id.to_owned(),
                payload: Payload::Deferred { text: text.to_owned(), reason: reason.to_owned() },
            },
        )
    }
}

} // verus!
