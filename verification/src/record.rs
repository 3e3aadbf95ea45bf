//! What the outbox stores, and its limits.

use crate::event::Event;
use vstd::prelude::*;

verus! {

/// How many slots an outbox has.
pub const MAX_RECORDS: usize = 64;

/// The largest JSON text that is signed, stored or sent, in bytes.
pub const MAX_RECORD_BYTES: usize = 2 * 1024 * 1024;

/// The longest content or draft, in UTF-8 bytes.
pub const MAX_TEXT_BYTES: usize = 256 * 1024;

/// The longest turn identifier, in UTF-8 bytes.
pub const MAX_TURN_BYTES: usize = 1024;

/// The longest reason for a draft, in UTF-8 bytes.
pub const MAX_REASON_BYTES: usize = 4096;

/// What a record holds.
#[derive(Debug, PartialEq, Eq)]
pub enum Payload {
    /// A signed event that the relay has not accepted yet.
    Pending { event: Event },
    /// A reply that was not published, and why.
    Deferred { text: String, reason: String },
}

/// One entry of the outbox.
#[derive(Debug, PartialEq, Eq)]
pub struct Record {
    pub version: u8,
    pub namespace: String,
    pub turn_id: String,
    pub payload: Payload,
}

/// A record and where it is stored: the slot, and the name of the file in it.
#[derive(Debug, PartialEq, Eq)]
pub struct Stored {
    pub slot: usize,
    pub name: Vec<u8>,
    pub record: Record,
}

impl Record {
    /// The identifier of the event that the record still has to deliver.
    pub open spec fn pending_id(self) -> Option<Seq<char>> {
        match self.payload {
            Payload::Pending { event } => Some(event.id@),
            Payload::Deferred { .. } => None,
        }
    }

    /// The event that the record still has to deliver.
    pub fn pending(&self) -> (event: Option<&Event>)
        ensures
            match self.payload {
                Payload::Pending { event: held } => event == Some(&held),
                Payload::Deferred { .. } => event is None,
            },
    {
        match &self.payload {
            Payload::Pending { event } => Some(event),
            Payload::Deferred { .. } => None,
        }
    }
}

} // verus!
