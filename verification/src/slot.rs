//! Loading the record of one slot.

use crate::fault::{Action, Fault, Notice, OsKind};
use crate::files::Reply;
use crate::names;
use crate::outbox;
use crate::outbox::{Outbox, OutboxView};
use crate::record::{Record, Stored};
use crate::text;
use vstd::prelude::*;
use vstd::utf8::*;

verus! {

/// How far the record of a slot has been loaded. Each stage but the last names what is asked next.
#[derive(Debug, PartialEq, Eq)]
pub enum SlotLoad {
    /// Look at the slot without following a link.
    Inspect,
    /// Start to list the slot.
    Open,
    /// Give the next file of the slot. These are the record and the stage file seen so far.
    Next { committed: Option<Vec<u8>>, staged: Option<Vec<u8>> },
    /// Read the record `name`.
    ReadRecord { name: Vec<u8>, staged: Option<Vec<u8>> },
    /// Say whether the record `name`, which could not be read, is still there.
    ProbeRecord { name: Vec<u8>, fault: Fault },
    /// Parse the JSON text of a record.
    Parse { name: Vec<u8>, staged: Option<Vec<u8>>, bytes: Vec<u8> },
    /// Read the stage file `stage`.
    ReadStage { name: Vec<u8>, stage: Vec<u8>, bytes: Vec<u8>, record: Record },
    /// Say whether the stage file, which could not be read, is still there.
    ProbeStage { name: Vec<u8>, stage: Vec<u8>, record: Record, fault: Fault },
    /// The record, nothing where there is no slot, or why the slot cannot be used.
    Done(Result<Option<Stored>, Fault>),
}

/// What is answered while a slot is loaded.
#[derive(Debug, PartialEq, Eq)]
pub enum SlotReply {
    /// An answer of the file system.
    Files(Reply),
    /// The outcome of reading a file.
    Read(Result<Vec<u8>, Fault>),
    /// Whether a file is there; `None` where that cannot be told.
    Exists(Option<bool>),
    /// The record that the JSON text holds, if it holds one.
    Parsed(Option<Record>),
}

/// Whether the file `name` with the JSON text `bytes` holds `record` as this outbox stores it.
pub open spec fn file_checked(
    outbox: OutboxView,
    name: Seq<u8>,
    bytes: Seq<u8>,
    record: Record,
) -> Result<(), Fault> {
    match outbox.record_checked(record) {
        Err(fault) => Err(fault),
        Ok(()) => if name == encode_utf8(outbox::record_name_of(record, bytes)) {
            Ok(())
        } else {
            Err(Fault::Notice(Notice::NameMismatch))
        },
    }
}

/// A file of a slot was listed.
pub open spec fn file_listed(
    committed: Option<Vec<u8>>,
    staged: Option<Vec<u8>>,
    name: Vec<u8>,
) -> SlotLoad {
    if committed is Some && staged is Some {
        SlotLoad::Done(Err(Fault::Notice(Notice::FileQuota)))
    } else if names::extension(name@) == Some(encode_utf8("json"@)) && committed is None {
        SlotLoad::Next { committed: Some(name), staged }
    } else if names::extension(name@) == Some(encode_utf8("stage"@)) && staged is None {
        SlotLoad::Next { committed, staged: Some(name) }
    } else {
        SlotLoad::Done(Err(Fault::Notice(Notice::UnexpectedFile)))
    }
}

/// The JSON text of a record was parsed.
pub open spec fn record_parsed(
    outbox: OutboxView,
    slot: usize,
    name: Vec<u8>,
    staged: Option<Vec<u8>>,
    bytes: Vec<u8>,
    record: Record,
) -> SlotLoad {
    match file_checked(outbox, name@, bytes@, record) {
        Err(fault) => SlotLoad::Done(Err(fault)),
        Ok(()) => match staged {
            None => SlotLoad::Done(Ok(Some(Stored { slot, name, record }))),
            Some(stage) => if stage@ != names::stage_name_of(name@) {
                SlotLoad::Done(Err(Fault::Notice(Notice::ForeignStage)))
            } else {
                SlotLoad::ReadStage { name, stage, bytes, record }
            },
        },
    }
}

impl SlotLoad {
    /// The stage after an answer. An answer to another question changes nothing.
    pub open spec fn after(self, outbox: OutboxView, slot: usize, reply: SlotReply) -> SlotLoad {
        match (self, reply) {
            (SlotLoad::Inspect, SlotReply::Files(Reply::Meta(meta))) => if !meta.is_dir
                || meta.is_symlink {
                SlotLoad::Done(Err(Fault::Notice(Notice::SlotNotDirectory)))
            } else {
                SlotLoad::Open
            },
            (SlotLoad::Inspect, SlotReply::Files(Reply::Failed(failure))) => if failure.kind
                == OsKind::NotFound {
                SlotLoad::Done(Ok(None))
            } else {
                SlotLoad::Done(Err(Fault::Os { action: Action::InspectSlot, text: failure.text }))
            },
            (SlotLoad::Open, SlotReply::Files(Reply::Done)) => SlotLoad::Next {
                committed: None,
                staged: None,
            },
            (SlotLoad::Open, SlotReply::Files(Reply::Failed(failure))) => if failure.kind
                == OsKind::NotFound {
                SlotLoad::Done(Ok(None))
            } else {
                SlotLoad::Done(Err(Fault::Os { action: Action::ReadSlot, text: failure.text }))
            },
            (
                SlotLoad::Next { committed, staged },
                SlotReply::Files(Reply::Entry { name, shown: _ }),
            ) => file_listed(committed, staged, name),
            (SlotLoad::Next { committed, staged }, SlotReply::Files(Reply::Failed(failure))) =>
                if committed is Some && staged is Some {
                    SlotLoad::Done(Err(Fault::Notice(Notice::FileQuota)))
                } else {
                    SlotLoad::Done(Err(Fault::Os { action: Action::Plain, text: failure.text }))
                },
            (SlotLoad::Next { committed, staged }, SlotReply::Files(Reply::End)) =>
                match committed {
                    None => SlotLoad::Done(Err(Fault::Notice(Notice::IncompleteSlot))),
                    Some(name) => SlotLoad::ReadRecord { name, staged },
                },
            (SlotLoad::ReadRecord { name, staged }, SlotReply::Read(Ok(bytes))) => SlotLoad::Parse {
                name,
                staged,
                bytes,
            },
            (SlotLoad::ReadRecord { name, staged: _ }, SlotReply::Read(Err(fault))) =>
                SlotLoad::ProbeRecord { name, fault },
            (SlotLoad::ProbeRecord { name: _, fault }, SlotReply::Exists(there)) => if there
                == Some(false) {
                SlotLoad::Done(Ok(None))
            } else {
                SlotLoad::Done(Err(fault))
            },
            (SlotLoad::Parse { .. }, SlotReply::Parsed(None)) => SlotLoad::Done(
                Err(Fault::Notice(Notice::InvalidJson)),
            ),
            (SlotLoad::Parse { name, staged, bytes }, SlotReply::Parsed(Some(record))) =>
                record_parsed(outbox, slot, name, staged, bytes, record),
            (SlotLoad::ReadStage { name, stage: _, bytes, record }, SlotReply::Read(Ok(copy))) =>
                if copy@ == bytes@ {
                    SlotLoad::Done(Ok(Some(Stored { slot, name, record })))
                } else {
                    SlotLoad::Done(Err(Fault::Notice(Notice::StageMismatch)))
                },
            (
                SlotLoad::ReadStage { name, stage, bytes: _, record },
                SlotReply::Read(Err(fault)),
            ) => SlotLoad::ProbeStage { name, stage, record, fault },
            (
                SlotLoad::ProbeStage { name, stage: _, record, fault },
                SlotReply::Exists(there),
            ) => if there == Some(false) {
                SlotLoad::Done(Ok(Some(Stored { slot, name, record })))
            } else {
                SlotLoad::Done(Err(fault))
            },
            _ => self,
        }
    }

    /// The stage after several answers.
    pub open spec fn after_all(
        self,
        outbox: OutboxView,
        slot: usize,
        replies: Seq<SlotReply>,
    ) -> SlotLoad
        decreases replies.len(),
    {
        if replies.len() == 0 {
            self
        } else {
            self.after_all(outbox, slot, replies.drop_last()).after(outbox, slot, replies.last())
        }
    }
}

/// A file of a slot was listed.
fn list_file(
    committed: Option<Vec<u8>>,
    staged: Option<Vec<u8>>,
    name: Vec<u8>,
) -> (next: SlotLoad)
    ensures
        next == file_listed(committed, staged, name),
{
    if committed.is_some() && staged.is_some() {
        SlotLoad::Done(Err(Fault::Notice(Notice::FileQuota)))
    } else if names::has_extension(name.as_slice(), "json") && committed.is_none() {
        SlotLoad::Next { committed: Some(name), staged }
    } else if names::has_extension(name.as_slice(), "stage") && staged.is_none() {
        SlotLoad::Next { committed, staged: Some(name) }
    } else {
        SlotLoad::Done(Err(Fault::Notice(Notice::UnexpectedFile)))
    }
}

impl Outbox {
    /// Whether the file `name` with the JSON text `bytes` holds `record` as this outbox stores it.
    fn check_file(&self, name: &[u8], bytes: &[u8], record: &Record) -> (checked: Result<(), Fault>)
        ensures
            checked == file_checked(self@, name@, bytes@, *record),
    {
        match self.validate_record(record) {
            Err(fault) => Err(fault),
            Ok(()) => {
                let expected: String = Outbox::record_name(record, bytes);
                if text::same_bytes(name, expected.as_str().as_bytes()) {
                    Ok(())
                } else {
                    Err(Fault::Notice(Notice::NameMismatch))
                }
            },
        }
    }

    /// The JSON text of a record was parsed.
    fn take_parsed(
        &self,
        slot: usize,
        name: Vec<u8>,
        staged: Option<Vec<u8>>,
        bytes: Vec<u8>,
        record: Record,
    ) -> (next: SlotLoad)
        ensures
            next == record_parsed(self@, slot, name, staged, bytes, record),
    {
        match self.check_file(name.as_slice(), bytes.as_slice(), &record) {
            Err(fault) => SlotLoad::Done(Err(fault)),
            Ok(()) => match staged {
                None => SlotLoad::Done(Ok(Some(Stored { slot, name, record }))),
                Some(stage) => {
                    let expected: Vec<u8> = names::stage_name(name.as_slice());
                    if !text::same_bytes(stage.as_slice(), expected.as_slice()) {
                        SlotLoad::Done(Err(Fault::Notice(Notice::ForeignStage)))
                    } else {
                        SlotLoad::ReadStage { name, stage, bytes, record }
                    }
                },
            },
        }
    }

    /// Goes on with loading the slot `slot` after an answer.
    pub fn load_slot(&self, slot: usize, load: SlotLoad, reply: SlotReply) -> (next: SlotLoad)
        ensures
            next == load.after(self@, slot, reply),
    {
        match (load, reply) {
            (SlotLoad::Inspect, SlotReply::Files(Reply::Meta(meta))) => if !meta.is_dir
                || meta.is_symlink {
                SlotLoad::Done(Err(Fault::Notice(Notice::SlotNotDirectory)))
            } else {
                SlotLoad::Open
            },
            (SlotLoad::Inspect, SlotReply::Files(Reply::Failed(failure))) => if failure.kind
                == OsKind::NotFound {
                SlotLoad::Done(Ok(None))
            } else {
                SlotLoad::Done(Err(Fault::Os { action: Action::InspectSlot, text: failure.text }))
            },
            (SlotLoad::Open, SlotReply::Files(Reply::Done)) => SlotLoad::Next {
                committed: None,
                staged: None,
            },
            (SlotLoad::Open, SlotReply::Files(Reply::Failed(failure))) => if failure.kind
                == OsKind::NotFound {
                SlotLoad::Done(Ok(None))
            } else {
                SlotLoad::Done(Err(Fault::Os { action: Action::ReadSlot, text: failure.text }))
            },
            (
                SlotLoad::Next { committed, staged },
                SlotReply::Files(Reply::Entry { name, shown: _ }),
            ) => list_file(committed, staged, name),
            (SlotLoad::Next { committed, staged }, SlotReply::Files(Reply::Failed(failure))) =>
                if committed.is_some() && staged.is_some() {
                    SlotLoad::Done(Err(Fault::Notice(Notice::FileQuota)))
                } else {
                    SlotLoad::Done(Err(Fault::Os { action: Action::Plain, text: failure.text }))
                },
            (SlotLoad::Next { committed, staged }, SlotReply::Files(Reply::End)) =>
                match committed {
                    None => SlotLoad::Done(Err(Fault::Notice(Notice::IncompleteSlot))),
                    Some(name) => SlotLoad::ReadRecord { name, staged },
                },
            (SlotLoad::ReadRecord { name, staged }, SlotReply::Read(Ok(bytes))) => SlotLoad::Parse {
                name,
                staged,
                bytes,
            },
            (SlotLoad::ReadRecord { name, staged: _ }, SlotReply::Read(Err(fault))) =>
                SlotLoad::ProbeRecord { name, fault },
            (SlotLoad::ProbeRecord { name: _, fault }, SlotReply::Exists(there)) => match there {
                Some(false) => SlotLoad::Done(Ok(None)),
                _ => SlotLoad::Done(Err(fault)),
            },
            (SlotLoad::Parse { .. }, SlotReply::Parsed(None)) => SlotLoad::Done(
                Err(Fault::Notice(Notice::InvalidJson)),
            ),
            (SlotLoad::Parse { name, staged, bytes }, SlotReply::Parsed(Some(record))) =>
                self.take_parsed(slot, name, staged, bytes, record),
            (SlotLoad::ReadStage { name, stage: _, bytes, record }, SlotReply::Read(Ok(copy))) =>
                if text::same_bytes(copy.as_slice(), bytes.as_slice()) {
                    SlotLoad::Done(Ok(Some(Stored { slot, name, record })))
                } else {
                    SlotLoad::Done(Err(Fault::Notice(Notice::StageMismatch)))
                },
            (
                SlotLoad::ReadStage { name, stage, bytes: _, record },
                SlotReply::Read(Err(fault)),
            ) => SlotLoad::ProbeStage { name, stage, record, fault },
            (
                SlotLoad::ProbeStage { name, stage: _, record, fault },
                SlotReply::Exists(there),
            ) => match there {
                Some(false) => SlotLoad::Done(Ok(Some(Stored { slot, name, record }))),
                _ => SlotLoad::Done(Err(fault)),
            },
            (load, _) => load,
        }
    }
}

} // verus!
