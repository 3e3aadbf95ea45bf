//! Removing a record that the relay has accepted.

use crate::fault::{Action, Fault, OsFailure, OsKind};
use crate::files;
use crate::files::Reply;
use crate::names;
use crate::outbox::Outbox;
use crate::record::Stored;
use vstd::prelude::*;

verus! {

/// How far a record has been removed. Each stage but the last names what is asked next.
#[derive(Debug, PartialEq, Eq)]
pub enum Removal {
    /// Remove the stage file `stage` of the slot.
    RemoveStage { slot: usize, stage: Vec<u8>, name: Vec<u8> },
    /// Remove the record `name` of the slot.
    RemoveRecord { slot: usize, name: Vec<u8> },
    /// Say whether the slot is there.
    ProbeSlot { slot: usize },
    /// Make the slot durable.
    SyncSlot { slot: usize },
    /// Remove the slot, which must be empty.
    RemoveSlot { slot: usize },
    /// Make the outbox directory durable.
    SyncOutbox,
    Done(Result<(), Fault>),
}

/// How far a record has been removed.
pub enum RemovalView {
    RemoveStage { slot: usize, stage: Seq<u8>, name: Seq<u8> },
    RemoveRecord { slot: usize, name: Seq<u8> },
    ProbeSlot { slot: usize },
    SyncSlot { slot: usize },
    RemoveSlot { slot: usize },
    SyncOutbox,
    Done(Result<(), Fault>),
}

impl View for Removal {
    type V = RemovalView;

    open spec fn view(&self) -> RemovalView {
        match *self {
            Removal::RemoveStage { slot, stage, name } => RemovalView::RemoveStage {
                slot,
                stage: stage@,
                name: name@,
            },
            Removal::RemoveRecord { slot, name } => RemovalView::RemoveRecord { slot, name: name@ },
            Removal::ProbeSlot { slot } => RemovalView::ProbeSlot { slot },
            Removal::SyncSlot { slot } => RemovalView::SyncSlot { slot },
            Removal::RemoveSlot { slot } => RemovalView::RemoveSlot { slot },
            Removal::SyncOutbox => RemovalView::SyncOutbox,
            Removal::Done(outcome) => RemovalView::Done(outcome),
        }
    }
}

/// What is answered while a record is removed.
#[derive(Debug, PartialEq, Eq)]
pub enum RemovalReply {
    /// An answer of the file system.
    Files(Reply),
    /// Whether a path is there.
    Exists(Result<bool, OsFailure>),
}

impl RemovalView {
    /// The stage in which a stored record is taken up for removal.
    pub open spec fn of(stored: Stored) -> RemovalView {
        RemovalView::RemoveStage {
            slot: stored.slot,
            stage: names::stage_name_of(stored.name@),
            name: stored.name@,
        }
    }

    /// The stage after an answer. An answer to another question changes nothing.
    pub open spec fn after(self, reply: RemovalReply) -> RemovalView {
        match (self, reply) {
            (
                RemovalView::RemoveStage { slot, stage: _, name },
                RemovalReply::Files(Reply::Done),
            ) => RemovalView::RemoveRecord { slot, name },
            (
                RemovalView::RemoveStage { slot, stage: _, name },
                RemovalReply::Files(Reply::Failed(failure)),
            ) => match files::file_removed(Err(failure)) {
                Ok(()) => RemovalView::RemoveRecord { slot, name },
                Err(fault) => RemovalView::Done(Err(fault)),
            },
            (RemovalView::RemoveRecord { slot, name: _ }, RemovalReply::Files(Reply::Done)) =>
                RemovalView::ProbeSlot { slot },
            (
                RemovalView::RemoveRecord { slot, name: _ },
                RemovalReply::Files(Reply::Failed(failure)),
            ) => match files::file_removed(Err(failure)) {
                Ok(()) => RemovalView::ProbeSlot { slot },
                Err(fault) => RemovalView::Done(Err(fault)),
            },
            (RemovalView::ProbeSlot { slot }, RemovalReply::Exists(Ok(there))) => if there {
                RemovalView::SyncSlot { slot }
            } else {
                RemovalView::SyncOutbox
            },
            (RemovalView::ProbeSlot { .. }, RemovalReply::Exists(Err(failure))) =>
                RemovalView::Done(Err(Fault::Os { action: Action::Plain, text: failure.text })),
            (RemovalView::SyncSlot { slot }, RemovalReply::Files(Reply::Done)) =>
                RemovalView::RemoveSlot { slot },
            (RemovalView::SyncSlot { .. }, RemovalReply::Files(Reply::Failed(failure))) =>
                RemovalView::Done(files::directory_synced(Err(failure))),
            (RemovalView::RemoveSlot { .. }, RemovalReply::Files(Reply::Done)) =>
                RemovalView::SyncOutbox,
            (RemovalView::RemoveSlot { .. }, RemovalReply::Files(Reply::Failed(failure))) =>
                if failure.kind == OsKind::NotFound {
                    RemovalView::SyncOutbox
                } else {
                    RemovalView::Done(
                        Err(Fault::Os { action: Action::RemoveSlot, text: failure.text }),
                    )
                },
            (RemovalView::SyncOutbox, RemovalReply::Files(Reply::Done)) => RemovalView::Done(
                Ok(()),
            ),
            (RemovalView::SyncOutbox, RemovalReply::Files(Reply::Failed(failure))) =>
                RemovalView::Done(files::directory_synced(Err(failure))),
            _ => self,
        }
    }

    /// The stage after several answers.
    pub open spec fn after_all(self, replies: Seq<RemovalReply>) -> RemovalView
        decreases replies.len(),
    {
        if replies.len() == 0 {
            self
        } else {
            self.after_all(replies.drop_last()).after(replies.last())
        }
    }
}

impl Removal {
    /// Goes on with removing a record after an answer.
    pub fn answered(self, reply: RemovalReply) -> (next: Removal)
        ensures
            next@ == self@.after(reply),
    {
        match (self, reply) {
            (
                Removal::RemoveStage { slot, stage: _, name },
                RemovalReply::Files(Reply::Done),
            ) => Removal::RemoveRecord { slot, name },
            (
                Removal::RemoveStage { slot, stage: _, name },
                RemovalReply::Files(Reply::Failed(failure)),
            ) => match files::remove_if_present(Err(failure)) {
                Ok(()) => Removal::RemoveRecord { slot, name },
                Err(fault) => Removal::Done(Err(fault)),
            },
            (Removal::RemoveRecord { slot, name: _ }, RemovalReply::Files(Reply::Done)) =>
                Removal::ProbeSlot { slot },
            (
                Removal::RemoveRecord { slot, name: _ },
                RemovalReply::Files(Reply::Failed(failure)),
            ) => match files::remove_if_present(Err(failure)) {
                Ok(()) => Removal::ProbeSlot { slot },
                Err(fault) => Removal::Done(Err(fault)),
            },
            (Removal::ProbeSlot { slot }, RemovalReply::Exists(Ok(there))) => if there {
                Removal::SyncSlot { slot }
            } else {
                Removal::SyncOutbox
            },
            (Removal::ProbeSlot { .. }, RemovalReply::Exists(Err(failure))) => Removal::Done(
                Err(Fault::Os { action: Action::Plain, text: failure.text }),
            ),
            (Removal::SyncSlot { slot }, RemovalReply::Files(Reply::Done)) => Removal::RemoveSlot {
                slot,
            },
            (Removal::SyncSlot { .. }, RemovalReply::Files(Reply::Failed(failure))) =>
                Removal::Done(files::sync_directory(Err(failure))),
            (Removal::RemoveSlot { .. }, RemovalReply::Files(Reply::Done)) => Removal::SyncOutbox,
            (Removal::RemoveSlot { .. }, RemovalReply::Files(Reply::Failed(failure))) =>
                if failure.kind == OsKind::NotFound {
                    Removal::SyncOutbox
                } else {
                    Removal::Done(Err(Fault::Os { action: Action::RemoveSlot, text: failure.text }))
                },
            (Removal::SyncOutbox, RemovalReply::Files(Reply::Done)) => Removal::Done(Ok(())),
            (Removal::SyncOutbox, RemovalReply::Files(Reply::Failed(failure))) => Removal::Done(
                files::sync_directory(Err(failure)),
            ),
            (removal, _) => removal,
        }
    }
}

impl Outbox {
    /// Starts to remove `stored`, whose event the relay has accepted.
    pub fn remove_accepted(stored: &Stored) -> (removal: Removal)
        ensures
            removal@ == RemovalView::of(*stored),
    {
        let mut name: Vec<u8> = Vec::new();
        name.extend_from_slice(stored.name.as_slice());
        assert(name@ =~= stored.name@);
        let stage: Vec<u8> = names::stage_name(stored.name.as_slice());
        Removal::RemoveStage { slot: stored.slot, stage, name }
    }
}

} // verus!
