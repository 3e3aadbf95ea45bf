//! Delivering what waits in the outbox, and removing what the relay has accepted.

use crate::fault::{Action, Fault, Notice};
use crate::files::Reply;
use crate::inventory::Found;
use crate::outbox::Outbox;
use crate::outside::event_id_error;
use crate::record::{Payload, Stored};
use crate::text;
use vstd::prelude::*;

verus! {

/// How many events one flush delivers.
pub const MAX_BATCH: usize = 8;

/// How long a flush waits for its turn and may deliver, in seconds.
pub const BATCH_TIMEOUT_SECONDS: u64 = 20;

/// What a flush asks next.
#[derive(Debug, PartialEq, Eq)]
pub enum FlushStage {
    /// Keep other flushes out, if none is under way.
    Lock,
    /// Take stock of the outbox.
    Inventory,
    /// Say whether the time for delivering is up, before the record at `at` is delivered.
    Clock { at: usize },
    /// Make the slot of the record at `at` durable.
    SyncSlot { at: usize },
    /// Deliver the event of the record at `at`, while there is time.
    Deliver { at: usize },
    /// Remove the record at `at`.
    Remove { at: usize },
    /// Take stock of the outbox once more.
    Recheck,
    /// How many events were accepted, or what went wrong.
    Done(Result<usize, Fault>),
}

/// A flush under way.
pub struct Flush {
    records: Vec<Stored>,
    faults: Vec<Fault>,
    attempts: usize,
    accepted: Vec<usize>,
    stage: FlushStage,
}

/// What went wrong with a flush.
pub enum FlushFault {
    /// A fault that ended it.
    Single(Fault),
    /// It came to its end with these faults.
    Incomplete { accepted: usize, faults: Seq<Fault> },
}

/// What a flush asks next.
pub enum FlushStageView {
    Lock,
    Inventory,
    Clock { at: int },
    SyncSlot { at: int },
    Deliver { at: int },
    Remove { at: int },
    Recheck,
    Done(Result<usize, FlushFault>),
}

/// A flush under way.
pub struct FlushView {
    /// What was in the outbox at the start.
    pub records: Seq<Stored>,
    /// What went wrong so far.
    pub faults: Seq<Fault>,
    /// How many events were taken up for delivery.
    pub attempts: int,
    /// The records whose events the relay has accepted.
    pub accepted: Seq<int>,
    pub stage: FlushStageView,
}

/// What is answered while the outbox is flushed.
#[derive(Debug, PartialEq, Eq)]
pub enum FlushReply {
    /// Whether other flushes are kept out now.
    Locked(bool),
    /// What is in the outbox.
    Stock(Result<Found, Fault>),
    /// Whether the time for delivering is up.
    Late(bool),
    /// An answer of the file system.
    Files(Reply),
    /// The outcome of a delivery.
    Delivered(Result<(), Fault>),
    /// The delivery was given up for want of time.
    TimedOut,
    /// The outcome of a removal.
    Removed(Result<(), Fault>),
}

/// What ends a flush, as far as it is seen from outside.
pub open spec fn ended_by(fault: Fault) -> FlushFault {
    match fault {
        Fault::Incomplete { accepted, faults } => FlushFault::Incomplete { accepted, faults: faults@ },
        _ => FlushFault::Single(fault),
    }
}

impl View for FlushStage {
    type V = FlushStageView;

    open spec fn view(&self) -> FlushStageView {
        match *self {
            FlushStage::Lock => FlushStageView::Lock,
            FlushStage::Inventory => FlushStageView::Inventory,
            FlushStage::Clock { at } => FlushStageView::Clock { at: at as int },
            FlushStage::SyncSlot { at } => FlushStageView::SyncSlot { at: at as int },
            FlushStage::Deliver { at } => FlushStageView::Deliver { at: at as int },
            FlushStage::Remove { at } => FlushStageView::Remove { at: at as int },
            FlushStage::Recheck => FlushStageView::Recheck,
            FlushStage::Done(Ok(accepted)) => FlushStageView::Done(Ok(accepted)),
            FlushStage::Done(Err(fault)) => FlushStageView::Done(Err(ended_by(fault))),
        }
    }
}

impl View for Flush {
    type V = FlushView;

    closed spec fn view(&self) -> FlushView {
        FlushView {
            records: self.records@,
            faults: self.faults@,
            attempts: self.attempts as int,
            accepted: indices(self.accepted@),
            stage: self.stage@,
        }
    }
}

/// The identifier of the event that the record at `at` still has to deliver.
pub open spec fn pending_at(records: Seq<Stored>, at: int) -> Option<Seq<char>> {
    records[at].record.pending_id()
}

/// The record at `at` is the first one that has its event to deliver.
pub open spec fn is_first(records: Seq<Stored>, at: int) -> bool {
    &&& 0 <= at < records.len()
    &&& pending_at(records, at) is Some
    &&& forall|i: int| 0 <= i < at ==> #[trigger] pending_at(records, i) != pending_at(records, at)
}

/// The next record at or after `from` that is the first one that has its event to deliver.
pub open spec fn next_first(records: Seq<Stored>, from: int) -> Option<int>
    decreases records.len() - from,
{
    if from >= records.len() {
        None
    } else if is_first(records, from) {
        Some(from)
    } else {
        next_first(records, from + 1)
    }
}

/// The relay has accepted the event of the record at `at`.
pub open spec fn is_accepted(records: Seq<Stored>, accepted: Seq<int>, at: int) -> bool {
    &&& 0 <= at < records.len()
    &&& pending_at(records, at) is Some
    &&& exists|k: int|
        0 <= k < accepted.len() && pending_at(records, #[trigger] accepted[k]) == pending_at(
            records,
            at,
        )
}

/// The next record at or after `from` whose event the relay has accepted.
pub open spec fn next_accepted(records: Seq<Stored>, accepted: Seq<int>, from: int) -> Option<int>
    decreases records.len() - from,
{
    if from >= records.len() {
        None
    } else if is_accepted(records, accepted, from) {
        Some(from)
    } else {
        next_accepted(records, accepted, from + 1)
    }
}

/// Some record has an event to deliver.
pub open spec fn has_pending(records: Seq<Stored>) -> bool {
    exists|i: int| 0 <= i < records.len() && #[trigger] pending_at(records, i) is Some
}

impl FlushView {
    /// A flush that has not asked for anything yet.
    pub open spec fn start() -> FlushView {
        FlushView {
            records: Seq::empty(),
            faults: Seq::empty(),
            attempts: 0,
            accepted: Seq::empty(),
            stage: FlushStageView::Lock,
        }
    }

    /// The flush in another stage.
    pub open spec fn at_stage(self, stage: FlushStageView) -> FlushView {
        FlushView { stage, ..self }
    }

    /// The flush ended by a fault.
    pub open spec fn failed(self, fault: Fault) -> FlushView {
        self.at_stage(FlushStageView::Done(Err(ended_by(fault))))
    }

    /// The flush with one more fault.
    pub open spec fn with_fault(self, fault: Fault) -> FlushView {
        FlushView { faults: self.faults.push(fault), ..self }
    }

    /// Takes up the next event at or after `from`, each event once and no more than belong to one
    /// flush.
    pub open spec fn delivering(self, from: int) -> FlushView {
        match next_first(self.records, from) {
            None => self.removing(0),
            Some(at) => if self.attempts >= MAX_BATCH {
                self.with_fault(Fault::Notice(Notice::BatchLimit)).removing(0)
            } else {
                FlushView {
                    attempts: self.attempts + 1,
                    stage: FlushStageView::Clock { at },
                    ..self
                }
            },
        }
    }

    /// Takes up the next record at or after `from` whose event was accepted.
    pub open spec fn removing(self, from: int) -> FlushView {
        match next_accepted(self.records, self.accepted, from) {
            Some(at) => self.at_stage(FlushStageView::Remove { at }),
            None => self.at_stage(FlushStageView::Recheck),
        }
    }

    /// Comes to the end with what is left in the outbox, and hands over the faults.
    pub open spec fn concluded(self, left: Found) -> FlushView {
        let found = self.faults + left.faults@;
        let faults = if has_pending(left.records@) {
            found.push(Fault::Notice(Notice::StillPending))
        } else {
            found
        };
        let accepted = self.accepted.len() as usize;
        FlushView {
            faults: Seq::empty(),
            stage: FlushStageView::Done(
                if faults.len() == 0 {
                    Ok(accepted)
                } else {
                    Err(FlushFault::Incomplete { accepted, faults })
                },
            ),
            ..self
        }
    }

    /// What is said of a delivery that failed.
    pub open spec fn at_event(self, at: int, fault: Fault) -> Fault {
        match self.records[at].record.payload {
            Payload::Pending { event } => Fault::AtEvent { id: event.id, cause: Box::new(fault) },
            Payload::Deferred { .. } => fault,
        }
    }

    /// The flush after an answer. An answer to another question changes nothing.
    pub open spec fn after(self, reply: FlushReply) -> FlushView {
        match (self.stage, reply) {
            (FlushStageView::Lock, FlushReply::Locked(locked)) => if locked {
                self.at_stage(FlushStageView::Inventory)
            } else {
                self.failed(Fault::Notice(Notice::AlreadyFlushing))
            },
            (FlushStageView::Inventory, FlushReply::Stock(Err(fault))) => self.failed(fault),
            (FlushStageView::Inventory, FlushReply::Stock(Ok(found))) => (FlushView {
                records: found.records@,
                faults: found.faults@,
                ..FlushView::start()
            }).delivering(0),
            (FlushStageView::Clock { at }, FlushReply::Late(late)) => if late {
                self.with_fault(Fault::Notice(Notice::BatchLimit)).removing(0)
            } else {
                self.at_stage(FlushStageView::SyncSlot { at })
            },
            (FlushStageView::SyncSlot { at }, FlushReply::Files(Reply::Done)) => self.at_stage(
                FlushStageView::Deliver { at },
            ),
            (FlushStageView::SyncSlot { at }, FlushReply::Files(Reply::Failed(failure))) =>
                self.failed(Fault::Os { action: Action::SyncDirectory, text: failure.text }),
            (FlushStageView::Deliver { at }, FlushReply::Delivered(Ok(()))) => (FlushView {
                accepted: self.accepted.push(at),
                ..self
            }).delivering(at + 1),
            (FlushStageView::Deliver { at }, FlushReply::Delivered(Err(fault))) => self.with_fault(
                self.at_event(at, fault),
            ).delivering(at + 1),
            (FlushStageView::Deliver { at }, FlushReply::TimedOut) => self.with_fault(
                Fault::Notice(Notice::BatchTimedOut),
            ).removing(0),
            (FlushStageView::Remove { at }, FlushReply::Removed(Ok(()))) => self.removing(at + 1),
            (FlushStageView::Remove { at }, FlushReply::Removed(Err(fault))) => self.with_fault(
                fault,
            ).removing(at + 1),
            (FlushStageView::Recheck, FlushReply::Stock(Err(fault))) => self.failed(fault),
            (FlushStageView::Recheck, FlushReply::Stock(Ok(left))) => self.concluded(left),
            _ => self,
        }
    }

    /// The flush after several answers.
    pub open spec fn after_all(self, replies: Seq<FlushReply>) -> FlushView
        decreases replies.len(),
    {
        if replies.len() == 0 {
            self
        } else {
            self.after_all(replies.drop_last()).after(replies.last())
        }
    }
}

/// A flush with these parts, in its first stage.
spec fn assembled(
    records: Seq<Stored>,
    faults: Seq<Fault>,
    attempts: usize,
    accepted: Seq<usize>,
) -> FlushView {
    FlushView {
        records,
        faults,
        attempts: attempts as int,
        accepted: indices(accepted),
        stage: FlushStageView::Lock,
    }
}

/// The same indices without their bounds.
pub open spec fn indices(accepted: Seq<usize>) -> Seq<int> {
    accepted.map_values(|at: usize| at as int)
}

/// Whether the records at `a` and `b` have the same event to deliver.
fn same_pending(records: &Vec<Stored>, a: usize, b: usize) -> (same: bool)
    requires
        a < records@.len(),
        b < records@.len(),
    ensures
        same == (pending_at(records@, a as int) is Some && pending_at(records@, a as int)
            == pending_at(records@, b as int)),
{
    match (records[a].record.pending(), records[b].record.pending()) {
        (Some(one), Some(other)) => text::same_text(one.id.as_str(), other.id.as_str()),
        _ => false,
    }
}

/// The next record at or after `from` that is the first one that has its event to deliver.
fn find_first(records: &Vec<Stored>, from: usize) -> (found: Option<usize>)
    ensures
        match found {
            Some(at) => next_first(records@, from as int) == Some(at as int) && is_first(
                records@,
                at as int,
            ),
            None => next_first(records@, from as int) is None,
        },
{
    let mut at: usize = from;
    while at < records.len()
        invariant
            next_first(records@, from as int) == next_first(records@, at as int),
        decreases records@.len() - at,
    {
        if records[at].record.pending().is_some() {
            let mut before: usize = 0;
            while before < at && !same_pending(records, before, at)
                invariant
                    before <= at < records@.len(),
                    pending_at(records@, at as int) is Some,
                    forall|i: int|
                        0 <= i < before ==> #[trigger] pending_at(records@, i) != pending_at(
                            records@,
                            at as int,
                        ),
                decreases at - before,
            {
                before += 1;
            }
            if before == at {
                assert(is_first(records@, at as int));
                return Some(at);
            }
            assert(pending_at(records@, before as int) == pending_at(records@, at as int));
        }
        assert(!is_first(records@, at as int));
        at += 1;
    }
    None
}

/// The next record at or after `from` whose event the relay has accepted.
fn find_accepted(records: &Vec<Stored>, accepted: &Vec<usize>, from: usize) -> (found: Option<usize>)
    requires
        forall|k: int| 0 <= k < accepted@.len() ==> #[trigger] accepted@[k] < records@.len(),
    ensures
        ({
            let plain = indices(accepted@);
            match found {
                Some(at) => next_accepted(records@, plain, from as int) == Some(at as int)
                    && is_accepted(records@, plain, at as int),
                None => next_accepted(records@, plain, from as int) is None,
            }
        }),
{
    let ghost plain = indices(accepted@);
    let mut at: usize = from;
    while at < records.len()
        invariant
            forall|k: int| 0 <= k < accepted@.len() ==> #[trigger] accepted@[k] < records@.len(),
            plain == indices(accepted@),
            next_accepted(records@, plain, from as int) == next_accepted(
                records@,
                plain,
                at as int,
            ),
        decreases records@.len() - at,
    {
        let mut k: usize = 0;
        while k < accepted.len() && !same_pending(records, at, accepted[k])
            invariant
                k <= accepted@.len(),
                at < records@.len(),
                plain == indices(accepted@),
                forall|i: int| 0 <= i < accepted@.len() ==> #[trigger] accepted@[i] < records@.len(),
                forall|i: int|
                    0 <= i < k ==> !(pending_at(records@, at as int) is Some && pending_at(
                        records@,
                        #[trigger] plain[i],
                    ) == pending_at(records@, at as int)),
            decreases accepted@.len() - k,
        {
            assert(plain[k as int] == accepted@[k as int] as int);
            k += 1;
        }
        if k < accepted.len() {
            assert(plain[k as int] == accepted@[k as int] as int);
            assert(is_accepted(records@, plain, at as int));
            return Some(at);
        }
        assert(!is_accepted(records@, plain, at as int));
        at += 1;
    }
    None
}

/// Whether some record has an event to deliver.
fn any_pending(records: &Vec<Stored>) -> (pending: bool)
    ensures
        pending == has_pending(records@),
{
    let mut at: usize = 0;
    while at < records.len()
        invariant
            at <= records@.len(),
            forall|i: int| 0 <= i < at ==> #[trigger] pending_at(records@, i) is None,
        decreases records@.len() - at,
    {
        if records[at].record.pending().is_some() {
            assert(pending_at(records@, at as int) is Some);
            return true;
        }
        at += 1;
    }
    false
}

impl Flush {
    /// The records that are named are there, and those about to be delivered have an event.
    #[verifier::type_invariant]
    spec fn is_well_formed(self) -> bool {
        &&& forall|k: int|
            0 <= k < self.accepted@.len() ==> #[trigger] self.accepted@[k] < self.records@.len()
        &&& match self.stage {
            FlushStage::Clock { at } | FlushStage::SyncSlot { at } | FlushStage::Deliver { at } => at
                < self.records@.len() && pending_at(self.records@, at as int) is Some,
            FlushStage::Remove { at } => at < self.records@.len(),
            _ => true,
        }
    }

    /// A flush that has not asked for anything yet.
    pub fn start() -> (flush: Flush)
        ensures
            flush@ == FlushView::start(),
    {
        let flush = Flush {
            records: Vec::new(),
            faults: Vec::new(),
            attempts: 0,
            accepted: Vec::new(),
            stage: FlushStage::Lock,
        };
        assert(flush@.accepted =~= Seq::<int>::empty());
        flush
    }

    /// What the flush asks next.
    pub fn stage(&self) -> (stage: &FlushStage)
        ensures
            stage@ == self@.stage,
    {
        &self.stage
    }

    /// What the flush asks next, or its outcome, once nothing more is answered.
    pub fn into_stage(self) -> (stage: FlushStage)
        ensures
            stage@ == self@.stage,
    {
        self.stage
    }

    /// The record at `at`, where there is one.
    pub fn record(&self, at: usize) -> (record: Option<&Stored>)
        ensures
            match record {
                Some(record) => at < self@.records.len() && *record == self@.records[at as int],
                None => at >= self@.records.len(),
            },
    {
        if at < self.records.len() {
            Some(&self.records[at])
        } else {
            None
        }
    }

    /// Takes up the next event at or after `from`.
    fn deliver_next(
        records: Vec<Stored>,
        faults: Vec<Fault>,
        attempts: usize,
        accepted: Vec<usize>,
        from: usize,
    ) -> (flush: Flush)
        requires
            forall|k: int| 0 <= k < accepted@.len() ==> #[trigger] accepted@[k] < records@.len(),
        ensures
            flush@ == assembled(records@, faults@, attempts, accepted@).delivering(from as int),
    {
        match find_first(&records, from) {
            None => Flush::remove_next(records, faults, attempts, accepted, 0),
            Some(at) => if attempts >= MAX_BATCH {
                let mut faults: Vec<Fault> = faults;
                faults.push(Fault::Notice(Notice::BatchLimit));
                Flush::remove_next(records, faults, attempts, accepted, 0)
            } else {
                Flush {
                    records,
                    faults,
                    attempts: attempts + 1,
                    accepted,
                    stage: FlushStage::Clock { at },
                }
            },
        }
    }

    /// Takes up the next record at or after `from` whose event was accepted.
    fn remove_next(
        records: Vec<Stored>,
        faults: Vec<Fault>,
        attempts: usize,
        accepted: Vec<usize>,
        from: usize,
    ) -> (flush: Flush)
        requires
            forall|k: int| 0 <= k < accepted@.len() ==> #[trigger] accepted@[k] < records@.len(),
        ensures
            flush@ == assembled(records@, faults@, attempts, accepted@).removing(from as int),
    {
        let stage: FlushStage = match find_accepted(&records, &accepted, from) {
            Some(at) => FlushStage::Remove { at },
            None => FlushStage::Recheck,
        };
        Flush { records, faults, attempts, accepted, stage }
    }

    /// Comes to the end with what is left in the outbox.
    fn conclude(
        records: Vec<Stored>,
        faults: Vec<Fault>,
        attempts: usize,
        accepted: Vec<usize>,
        left: Found,
    ) -> (flush: Flush)
        requires
            forall|k: int| 0 <= k < accepted@.len() ==> #[trigger] accepted@[k] < records@.len(),
        ensures
            flush@ == assembled(records@, faults@, attempts, accepted@).concluded(left),
    {
        let count: usize = accepted.len();
        let pending: bool = any_pending(&left.records);
        let mut faults: Vec<Fault> = faults;
        let mut more: Vec<Fault> = left.faults;
        faults.append(&mut more);
        if pending {
            faults.push(Fault::Notice(Notice::StillPending));
        }
        let outcome: Result<usize, Fault> = if faults.len() == 0 {
            Ok(count)
        } else {
            Err(Fault::Incomplete { accepted: count, faults })
        };
        Flush {
            records,
            faults: Vec::new(),
            attempts,
            accepted,
            stage: FlushStage::Done(outcome),
        }
    }

    /// Goes on with the flush after an answer.
    pub fn answered(self, reply: FlushReply) -> (next: Flush)
        ensures
            next@ == self@.after(reply),
    {
        proof {
            use_type_invariant(&self);
        }
        let Flush { records, faults, attempts, accepted, stage } = self;
        let total: usize = records.len();
        assert(total == records@.len());
        match (stage, reply) {
            (FlushStage::Lock, FlushReply::Locked(locked)) => {
                let stage: FlushStage = if locked {
                    FlushStage::Inventory
                } else {
                    FlushStage::Done(Err(Fault::Notice(Notice::AlreadyFlushing)))
                };
                Flush { records, faults, attempts, accepted, stage }
            },
            (FlushStage::Inventory, FlushReply::Stock(Err(fault))) => Flush {
                records,
                faults,
                attempts,
                accepted,
                stage: FlushStage::Done(Err(fault)),
            },
            (FlushStage::Inventory, FlushReply::Stock(Ok(found))) => {
                let none: Vec<usize> = Vec::new();
                assert(indices(none@) =~= Seq::<int>::empty());
                Flush::deliver_next(found.records, found.faults, 0, none, 0)
            },
            (FlushStage::Clock { at }, FlushReply::Late(late)) => if late {
                let mut faults: Vec<Fault> = faults;
                faults.push(Fault::Notice(Notice::BatchLimit));
                Flush::remove_next(records, faults, attempts, accepted, 0)
            } else {
                Flush { records, faults, attempts, accepted, stage: FlushStage::SyncSlot { at } }
            },
            (FlushStage::SyncSlot { at }, FlushReply::Files(Reply::Done)) => Flush {
                records,
                faults,
                attempts,
                accepted,
                stage: FlushStage::Deliver { at },
            },
            (FlushStage::SyncSlot { at: _ }, FlushReply::Files(Reply::Failed(failure))) => Flush {
                records,
                faults,
                attempts,
                accepted,
                stage: FlushStage::Done(
                    Err(Fault::Os { action: Action::SyncDirectory, text: failure.text }),
                ),
            },
            (FlushStage::Deliver { at }, FlushReply::Delivered(Ok(()))) => {
                let ghost plain = indices(accepted@);
                let mut accepted: Vec<usize> = accepted;
                accepted.push(at);
                assert(indices(accepted@) =~= plain.push(at as int));
                Flush::deliver_next(records, faults, attempts, accepted, at + 1)
            },
            (FlushStage::Deliver { at }, FlushReply::Delivered(Err(fault))) => {
                let mut faults: Vec<Fault> = faults;
                match records[at].record.pending() {
                    Some(event) => {
                        faults.push(Fault::AtEvent { id: event.id.clone(), cause: Box::new(fault) });
                    },
                    None => {
                        faults.push(fault);
                    },
                }
                Flush::deliver_next(records, faults, attempts, accepted, at + 1)
            },
            (FlushStage::Deliver { at: _ }, FlushReply::TimedOut) => {
                let mut faults: Vec<Fault> = faults;
                faults.push(Fault::Notice(Notice::BatchTimedOut));
                Flush::remove_next(records, faults, attempts, accepted, 0)
            },
            (FlushStage::Remove { at }, FlushReply::Removed(Ok(()))) => Flush::remove_next(
                records,
                faults,
                attempts,
                accepted,
                at + 1,
            ),
            (FlushStage::Remove { at }, FlushReply::Removed(Err(fault))) => {
                let mut faults: Vec<Fault> = faults;
                faults.push(fault);
                Flush::remove_next(records, faults, attempts, accepted, at + 1)
            },
            (FlushStage::Recheck, FlushReply::Stock(Err(fault))) => Flush {
                records,
                faults,
                attempts,
                accepted,
                stage: FlushStage::Done(Err(fault)),
            },
            (FlushStage::Recheck, FlushReply::Stock(Ok(left))) => Flush::conclude(
                records,
                faults,
                attempts,
                accepted,
                left,
            ),
            (stage, _) => Flush { records, faults, attempts, accepted, stage },
        }
    }
}

/// What the flush of one event asks next.
#[derive(Debug, PartialEq, Eq)]
pub enum EventStage {
    /// Keep other flushes out, waiting for one that is under way.
    Lock,
    /// Take stock of the outbox.
    Inventory,
    /// Make the slot of the record at `at` durable.
    SyncSlot { at: usize },
    /// Deliver the event of the record at `at`, within the time of a batch.
    Deliver { at: usize },
    /// Remove the record at `at`.
    Remove { at: usize },
    Done(Result<(), Fault>),
}

/// The flush of one event under way.
pub struct EventFlush {
    event_id: String,
    records: Vec<Stored>,
    stage: EventStage,
}

/// The flush of one event under way.
pub struct EventFlushView {
    pub event_id: Seq<char>,
    /// What was in the outbox at the start.
    pub records: Seq<Stored>,
    pub stage: EventStage,
}

impl View for EventFlush {
    type V = EventFlushView;

    closed spec fn view(&self) -> EventFlushView {
        EventFlushView { event_id: self.event_id@, records: self.records@, stage: self.stage }
    }
}

/// The next record at or after `from` that has the event `id` to deliver.
pub open spec fn next_of(records: Seq<Stored>, id: Seq<char>, from: int) -> Option<int>
    decreases records.len() - from,
{
    if from >= records.len() {
        None
    } else if pending_at(records, from) == Some(id) {
        Some(from)
    } else {
        next_of(records, id, from + 1)
    }
}

impl EventFlushView {
    /// The flush of the event `id`, which has not asked for anything yet.
    pub open spec fn start(id: Seq<char>) -> EventFlushView {
        EventFlushView {
            event_id: id,
            records: Seq::empty(),
            stage: if crate::event::is_event_id(id) {
                EventStage::Lock
            } else {
                EventStage::Done(Err(Fault::Notice(Notice::InvalidEventId)))
            },
        }
    }

    /// The flush in another stage.
    pub open spec fn at_stage(self, stage: EventStage) -> EventFlushView {
        EventFlushView { stage, ..self }
    }

    /// Takes up the next record at or after `from` that holds the event, for removal.
    pub open spec fn removing(self, from: int) -> EventFlushView {
        match next_of(self.records, self.event_id, from) {
            Some(at) => self.at_stage(EventStage::Remove { at: at as usize }),
            None => self.at_stage(EventStage::Done(Ok(()))),
        }
    }

    /// The flush after an answer. An answer to another question changes nothing.
    pub open spec fn after(self, reply: FlushReply) -> EventFlushView {
        match (self.stage, reply) {
            (EventStage::Lock, FlushReply::Locked(locked)) => if locked {
                self.at_stage(EventStage::Inventory)
            } else {
                self.at_stage(EventStage::Done(Err(Fault::Notice(Notice::LockTimedOut))))
            },
            (EventStage::Inventory, FlushReply::Stock(Err(fault))) => self.at_stage(
                EventStage::Done(Err(fault)),
            ),
            (EventStage::Inventory, FlushReply::Stock(Ok(found))) => EventFlushView {
                event_id: self.event_id,
                records: found.records@,
                stage: match next_of(found.records@, self.event_id, 0) {
                    Some(at) => EventStage::SyncSlot { at: at as usize },
                    None => EventStage::Done(Err(Fault::Notice(Notice::NotPending))),
                },
            },
            (EventStage::SyncSlot { at }, FlushReply::Files(Reply::Done)) => self.at_stage(
                EventStage::Deliver { at },
            ),
            (EventStage::SyncSlot { at }, FlushReply::Files(Reply::Failed(failure))) =>
                self.at_stage(
                    EventStage::Done(
                        Err(Fault::Os { action: Action::SyncDirectory, text: failure.text }),
                    ),
                ),
            (EventStage::Deliver { at }, FlushReply::Delivered(Ok(()))) => self.removing(0),
            (EventStage::Deliver { at }, FlushReply::Delivered(Err(fault))) => self.at_stage(
                EventStage::Done(Err(fault)),
            ),
            (EventStage::Deliver { at }, FlushReply::TimedOut) => self.at_stage(
                EventStage::Done(Err(Fault::Notice(Notice::DeliveryTimedOut))),
            ),
            (EventStage::Remove { at }, FlushReply::Removed(Ok(()))) => self.removing(at + 1),
            (EventStage::Remove { at }, FlushReply::Removed(Err(fault))) => self.at_stage(
                EventStage::Done(Err(fault)),
            ),
            _ => self,
        }
    }

    /// The flush after several answers.
    pub open spec fn after_all(self, replies: Seq<FlushReply>) -> EventFlushView
        decreases replies.len(),
    {
        if replies.len() == 0 {
            self
        } else {
            self.after_all(replies.drop_last()).after(replies.last())
        }
    }
}

/// The next record at or after `from` that has the event `id` to deliver.
fn find_event(records: &Vec<Stored>, id: &str, from: usize) -> (found: Option<usize>)
    ensures
        match found {
            Some(at) => next_of(records@, id@, from as int) == Some(at as int) && at
                < records@.len(),
            None => next_of(records@, id@, from as int) is None,
        },
{
    let mut at: usize = from;
    while at < records.len()
        invariant
            next_of(records@, id@, from as int) == next_of(records@, id@, at as int),
        decreases records@.len() - at,
    {
        if let Some(event) = records[at].record.pending() {
            if text::same_text(event.id.as_str(), id) {
                return Some(at);
            }
        }
        at += 1;
    }
    None
}

impl EventFlush {
    /// The records that are named are there.
    #[verifier::type_invariant]
    spec fn is_well_formed(self) -> bool {
        match self.stage {
            EventStage::SyncSlot { at } | EventStage::Deliver { at } | EventStage::Remove { at } => at
                < self.records@.len(),
            _ => true,
        }
    }

    /// What the flush asks next.
    pub fn stage(&self) -> (stage: &EventStage)
        ensures
            *stage == self@.stage,
    {
        &self.stage
    }

    /// What the flush asks next, or its outcome, once nothing more is answered.
    pub fn into_stage(self) -> (stage: EventStage)
        ensures
            stage == self@.stage,
    {
        self.stage
    }

    /// The record at `at`, where there is one.
    pub fn record(&self, at: usize) -> (record: Option<&Stored>)
        ensures
            match record {
                Some(record) => at < self@.records.len() && *record == self@.records[at as int],
                None => at >= self@.records.len(),
            },
    {
        if at < self.records.len() {
            Some(&self.records[at])
        } else {
            None
        }
    }

    /// Takes up the next record at or after `from` that holds the event, for removal.
    fn remove_next(event_id: String, records: Vec<Stored>, from: usize) -> (flush: EventFlush)
        ensures
            flush@ == (EventFlushView {
                event_id: event_id@,
                records: records@,
                stage: EventStage::Lock,
            }).removing(from as int),
    {
        let stage: EventStage = match find_event(&records, event_id.as_str(), from) {
            Some(at) => EventStage::Remove { at },
            None => EventStage::Done(Ok(())),
        };
        EventFlush { event_id, records, stage }
    }

    /// Goes on with the flush after an answer.
    pub fn answered(self, reply: FlushReply) -> (next: EventFlush)
        ensures
            next@ == self@.after(reply),
    {
        proof {
            use_type_invariant(&self);
        }
        let EventFlush { event_id, records, stage } = self;
        let total: usize = records.len();
        assert(total == records@.len());
        match (stage, reply) {
            (EventStage::Lock, FlushReply::Locked(locked)) => {
                let stage: EventStage = if locked {
                    EventStage::Inventory
                } else {
                    EventStage::Done(Err(Fault::Notice(Notice::LockTimedOut)))
                };
                EventFlush { event_id, records, stage }
            },
            (EventStage::Inventory, FlushReply::Stock(Err(fault))) => EventFlush {
                event_id,
                records,
                stage: EventStage::Done(Err(fault)),
            },
            (EventStage::Inventory, FlushReply::Stock(Ok(found))) => {
                let stage: EventStage = match find_event(&found.records, event_id.as_str(), 0) {
                    Some(at) => EventStage::SyncSlot { at },
                    None => EventStage::Done(Err(Fault::Notice(Notice::NotPending))),
                };
                EventFlush { event_id, records: found.records, stage }
            },
            (EventStage::SyncSlot { at }, FlushReply::Files(Reply::Done)) => EventFlush {
                event_id,
                records,
                stage: EventStage::Deliver { at },
            },
            (EventStage::SyncSlot { at: _ }, FlushReply::Files(Reply::Failed(failure))) =>
                EventFlush {
                    event_id,
                    records,
                    stage: EventStage::Done(
                        Err(Fault::Os { action: Action::SyncDirectory, text: failure.text }),
                    ),
                },
            (EventStage::Deliver { at: _ }, FlushReply::Delivered(Ok(()))) =>
                EventFlush::remove_next(event_id, records, 0),
            (EventStage::Deliver { at: _ }, FlushReply::Delivered(Err(fault))) => EventFlush {
                event_id,
                records,
                stage: EventStage::Done(Err(fault)),
            },
            (EventStage::Deliver { at: _ }, FlushReply::TimedOut) => EventFlush {
                event_id,
                records,
                stage: EventStage::Done(Err(Fault::Notice(Notice::DeliveryTimedOut))),
            },
            (EventStage::Remove { at }, FlushReply::Removed(Ok(()))) => EventFlush::remove_next(
                event_id,
                records,
                at + 1,
            ),
            (EventStage::Remove { at: _ }, FlushReply::Removed(Err(fault))) => EventFlush {
                event_id,
                records,
                stage: EventStage::Done(Err(fault)),
            },
            (stage, _) => EventFlush { event_id, records, stage },
        }
    }
}

impl Outbox {
    /// Starts to deliver everything that waits in the outbox.
    pub fn flush() -> (flush: Flush)
        ensures
            flush@ == FlushView::start(),
    {
        Flush::start()
    }

    /// Starts to deliver the event `event_id`, which waits in the outbox.
    pub fn flush_event(event_id: &str) -> (flush: EventFlush)
        ensures
            flush@ == EventFlushView::start(event_id@),
    {
        let stage: EventStage = match event_id_error(event_id) {
            None => EventStage::Lock,
            Some(_) => EventStage::Done(Err(Fault::Notice(Notice::InvalidEventId))),
        };
        EventFlush { event_id: event_id.to_owned(), records: Vec::new(), stage }
    }
}

} // verus!
