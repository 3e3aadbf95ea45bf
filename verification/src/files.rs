//! Files and directories: what is asked of the file system, and what its answers mean.

use crate::fault::{Action, Fault, Notice, OsFailure, OsKind};
use crate::record::MAX_RECORD_BYTES;
use vstd::prelude::*;

verus! {

/// What is known of a path without following a link.
#[derive(Clone, Copy, Debug, PartialEq, Eq, Structural)]
pub struct Meta {
    pub is_dir: bool,
    pub is_file: bool,
    pub is_symlink: bool,
    pub len: u64,
}

/// What the file system answers.
#[derive(Debug, PartialEq, Eq)]
pub enum Reply {
    /// It was done.
    Done,
    /// It failed.
    Failed(OsFailure),
    /// What is known of a path.
    Meta(Meta),
    /// The next entry of a directory, and its path as it is shown.
    Entry { name: Vec<u8>, shown: String },
    /// The directory has no more entries.
    End,
    /// What was read of a file.
    Bytes(Vec<u8>),
}

/// What it takes for a path to be a directory, given what is known of the path.
pub open spec fn directory_required(known: Result<Meta, OsFailure>) -> Result<(), Fault> {
    match known {
        Err(failure) => Err(Fault::Os { action: Action::Plain, text: failure.text }),
        Ok(meta) => if meta.is_dir && !meta.is_symlink {
            Ok(())
        } else {
            Err(Fault::Notice(Notice::NotRegularDirectory))
        },
    }
}

/// Demands that a path be a directory and no link, given what is known of the path.
pub fn require_directory(known: Result<Meta, OsFailure>) -> (required: Result<(), Fault>)
    ensures
        required == directory_required(known),
{
    match known {
        Err(failure) => Err(Fault::Os { action: Action::Plain, text: failure.text }),
        Ok(meta) => if meta.is_dir && !meta.is_symlink {
            Ok(())
        } else {
            Err(Fault::Notice(Notice::NotRegularDirectory))
        },
    }
}

/// The outcome of making a directory durable.
pub open spec fn directory_synced(done: Result<(), OsFailure>) -> Result<(), Fault> {
    match done {
        Ok(()) => Ok(()),
        Err(failure) => Err(Fault::Os { action: Action::SyncDirectory, text: failure.text }),
    }
}

/// The outcome of making a directory durable.
pub fn sync_directory(done: Result<(), OsFailure>) -> (synced: Result<(), Fault>)
    ensures
        synced == directory_synced(done),
{
    match done {
        Ok(()) => Ok(()),
        Err(failure) => Err(Fault::Os { action: Action::SyncDirectory, text: failure.text }),
    }
}

/// The outcome of removing a file: one that is gone already counts as removed.
pub open spec fn file_removed(done: Result<(), OsFailure>) -> Result<(), Fault> {
    match done {
        Ok(()) => Ok(()),
        Err(failure) => if failure.kind == OsKind::NotFound {
            Ok(())
        } else {
            Err(Fault::Os { action: Action::RemoveFile, text: failure.text })
        },
    }
}

/// The outcome of removing a file: one that is gone already counts as removed.
pub fn remove_if_present(done: Result<(), OsFailure>) -> (removed: Result<(), Fault>)
    ensures
        removed == file_removed(done),
{
    match done {
        Ok(()) => Ok(()),
        Err(failure) => if failure.kind == OsKind::NotFound {
            Ok(())
        } else {
            Err(Fault::Os { action: Action::RemoveFile, text: failure.text })
        },
    }
}

/// How far a private directory has been made. Each stage but the last names what is asked next.
#[derive(Debug, PartialEq, Eq)]
pub enum Making {
    /// Create the directory and what is missing above it, for the owner alone.
    Create,
    /// Look at the directory without following a link.
    Require,
    /// Make the directory durable.
    Sync,
    /// Make the directory above it durable.
    SyncParent,
    Done(Result<(), Fault>),
}

impl Making {
    /// The stage after an answer. An answer to another question changes nothing.
    pub open spec fn after(self, has_parent: bool, reply: Reply) -> Making {
        match (self, reply) {
            (Making::Create, Reply::Done) => Making::Require,
            (Making::Create, Reply::Failed(failure)) => Making::Done(
                Err(Fault::Os { action: Action::CreateDirectory, text: failure.text }),
            ),
            (Making::Require, Reply::Meta(meta)) => match directory_required(Ok(meta)) {
                Ok(()) => Making::Sync,
                Err(fault) => Making::Done(Err(fault)),
            },
            (Making::Require, Reply::Failed(failure)) => Making::Done(
                directory_required(Err(failure)),
            ),
            (Making::Sync, Reply::Done) => if has_parent {
                Making::SyncParent
            } else {
                Making::Done(Ok(()))
            },
            (Making::Sync, Reply::Failed(failure)) => Making::Done(directory_synced(Err(failure))),
            (Making::SyncParent, Reply::Done) => Making::Done(Ok(())),
            (Making::SyncParent, Reply::Failed(failure)) => Making::Done(
                directory_synced(Err(failure)),
            ),
            _ => self,
        }
    }

    /// The stage after several answers.
    pub open spec fn after_all(self, has_parent: bool, replies: Seq<Reply>) -> Making
        decreases replies.len(),
    {
        if replies.len() == 0 {
            self
        } else {
            self.after_all(has_parent, replies.drop_last()).after(has_parent, replies.last())
        }
    }
}

/// Goes on with a private directory after an answer of the file system. Whether there is a
/// directory above it to make durable is `has_parent`.
pub fn create_private_directory(making: Making, has_parent: bool, reply: Reply) -> (next: Making)
    ensures
        next == making.after(has_parent, reply),
{
    match (making, reply) {
        (Making::Create, Reply::Done) => Making::Require,
        (Making::Create, Reply::Failed(failure)) => Making::Done(
            Err(Fault::Os { action: Action::CreateDirectory, text: failure.text }),
        ),
        (Making::Require, Reply::Meta(meta)) => match require_directory(Ok(meta)) {
            Ok(()) => Making::Sync,
            Err(fault) => Making::Done(Err(fault)),
        },
        (Making::Require, Reply::Failed(failure)) => Making::Done(require_directory(Err(failure))),
        (Making::Sync, Reply::Done) => if has_parent {
            Making::SyncParent
        } else {
            Making::Done(Ok(()))
        },
        (Making::Sync, Reply::Failed(failure)) => Making::Done(sync_directory(Err(failure))),
        (Making::SyncParent, Reply::Done) => Making::Done(Ok(())),
        (Making::SyncParent, Reply::Failed(failure)) => Making::Done(sync_directory(Err(failure))),
        (making, _) => making,
    }
}

/// How far a file has been read. Each stage but the last names what is asked next.
#[derive(Debug, PartialEq, Eq)]
pub enum Reading {
    /// Look at the file without following a link.
    Inspect,
    /// Read the file, up to one byte more than is allowed.
    Contents,
    Done(Result<Vec<u8>, Fault>),
}

impl Reading {
    /// The stage after an answer. An answer to another question changes nothing.
    pub open spec fn after(self, reply: Reply) -> Reading {
        match (self, reply) {
            (Reading::Done(_), _) => self,
            (_, Reply::Failed(failure)) => Reading::Done(
                Err(Fault::Os { action: Action::Plain, text: failure.text }),
            ),
            (Reading::Inspect, Reply::Meta(meta)) => if !meta.is_file || meta.is_symlink {
                Reading::Done(Err(Fault::Notice(Notice::NotRegularFile)))
            } else if meta.len > MAX_RECORD_BYTES {
                Reading::Done(Err(Fault::Notice(Notice::RecordTooLong)))
            } else {
                Reading::Contents
            },
            (Reading::Contents, Reply::Bytes(bytes)) => if bytes@.len() > MAX_RECORD_BYTES {
                Reading::Done(Err(Fault::Notice(Notice::RecordTooLong)))
            } else {
                Reading::Done(Ok(bytes))
            },
            _ => self,
        }
    }

    /// The stage after several answers.
    pub open spec fn after_all(self, replies: Seq<Reply>) -> Reading
        decreases replies.len(),
    {
        if replies.len() == 0 {
            self
        } else {
            self.after_all(replies.drop_last()).after(replies.last())
        }
    }
}

/// Goes on with reading a file after an answer of the file system.
pub fn read_bounded(reading: Reading, reply: Reply) -> (next: Reading)
    ensures
        next == reading.after(reply),
{
    match (reading, reply) {
        (Reading::Done(read), _) => Reading::Done(read),
        (_, Reply::Failed(failure)) => Reading::Done(
            Err(Fault::Os { action: Action::Plain, text: failure.text }),
        ),
        (Reading::Inspect, Reply::Meta(meta)) => if !meta.is_file || meta.is_symlink {
            Reading::Done(Err(Fault::Notice(Notice::NotRegularFile)))
        } else if meta.len > MAX_RECORD_BYTES as u64 {
            Reading::Done(Err(Fault::Notice(Notice::RecordTooLong)))
        } else {
            Reading::Contents
        },
        (Reading::Contents, Reply::Bytes(bytes)) => if bytes.len() > MAX_RECORD_BYTES {
            Reading::Done(Err(Fault::Notice(Notice::RecordTooLong)))
        } else {
            Reading::Done(Ok(bytes))
        },
        (reading, _) => reading,
    }
}

/// `piece` was written behind what was there, whole or not at all. Nothing is written where the text
/// would exceed the size of a record.
pub open spec fn piece_written(
    before: Seq<u8>,
    piece: Seq<u8>,
    written: Result<usize, Fault>,
    after: Seq<u8>,
) -> bool {
    if before.len() + piece.len() > MAX_RECORD_BYTES {
        &&& written == Err::<usize, Fault>(Fault::Notice(Notice::RecordTooLong))
        &&& after == before
    } else {
        &&& written == Ok::<usize, Fault>(piece.len() as usize)
        &&& after == before + piece
    }
}

/// JSON text as it is written piece by piece, up to the size of a record.
pub struct BoundedBuffer {
    bytes: Vec<u8>,
}

impl View for BoundedBuffer {
    type V = Seq<u8>;

    closed spec fn view(&self) -> Seq<u8> {
        self.bytes@
    }
}

impl BoundedBuffer {
    /// What is held fits in a record.
    #[verifier::type_invariant]
    spec fn is_bounded(self) -> bool {
        self.bytes@.len() <= MAX_RECORD_BYTES
    }

    /// A buffer that holds nothing yet.
    pub fn new() -> (buffer: Self)
        ensures
            buffer@ == Seq::<u8>::empty(),
    {
        BoundedBuffer { bytes: Vec::new() }
    }

    /// Writes `piece` behind what is there, whole or not at all. Nothing is written where the text
    /// would exceed the size of a record.
    pub fn write(&mut self, piece: &[u8]) -> (written: Result<usize, Fault>)
        ensures
            piece_written(old(self)@, piece@, written, final(self)@),
    {
        proof {
            use_type_invariant(&*self);
        }
        let mut bytes: Vec<u8> = Vec::new();
        std::mem::swap(&mut bytes, &mut self.bytes);
        let held: usize = bytes.len();
        if piece.len() > MAX_RECORD_BYTES - held {
            self.bytes = bytes;
            return Err(Fault::Notice(Notice::RecordTooLong));
        }
        bytes.extend_from_slice(piece);
        assert(bytes@ =~= old(self)@ + piece@);
        self.bytes = bytes;
        Ok(piece.len())
    }

    /// What was written.
    pub fn into_bytes(self) -> (bytes: Vec<u8>)
        ensures
            bytes@ == self@,
            bytes@.len() <= MAX_RECORD_BYTES,
    {
        proof {
            use_type_invariant(&self);
        }
        self.bytes
    }
}

/// A private directory is made where everything that is asked succeeds: it is created, it is a
/// directory and no link, and it and the directory above it, if there is one, are made durable.
pub proof fn law_private_directory_is_made(meta: Meta)
    requires
        meta.is_dir,
        !meta.is_symlink,
    ensures
        Making::Create.after(true, Reply::Done).after(true, Reply::Meta(meta)).after(
            true,
            Reply::Done,
        ).after(true, Reply::Done) == Making::Done(Ok(())),
        Making::Create.after(false, Reply::Done).after(false, Reply::Meta(meta)).after(
            false,
            Reply::Done,
        ) == Making::Done(Ok(())),
{
}

/// An answer that shows a directory and no link.
pub open spec fn shows_directory(reply: Reply) -> bool {
    reply matches Reply::Meta(meta) && meta.is_dir && !meta.is_symlink
}

/// No private directory is taken for made unless the path was seen to be a directory and no link.
pub proof fn law_private_directory_was_seen(has_parent: bool, replies: Seq<Reply>)
    requires
        Making::Create.after_all(has_parent, replies) == Making::Done(Ok(())),
    ensures
        exists|i: int| 0 <= i < replies.len() && #[trigger] shows_directory(replies[i]),
{
    lemma_directory_was_seen(has_parent, replies);
}

proof fn lemma_directory_was_seen(has_parent: bool, replies: Seq<Reply>)
    ensures
        match Making::Create.after_all(has_parent, replies) {
            Making::Sync | Making::SyncParent | Making::Done(Ok(())) => exists|i: int|
                0 <= i < replies.len() && #[trigger] shows_directory(replies[i]),
            _ => true,
        },
    decreases replies.len(),
{
    if replies.len() > 0 {
        let before = replies.drop_last();
        lemma_directory_was_seen(has_parent, before);
        assert(replies.last() == replies[replies.len() - 1]);
        assert(shows_directory(replies.last()) == shows_directory(replies[replies.len() - 1]));
        if exists|i: int| 0 <= i < before.len() && #[trigger] shows_directory(before[i]) {
            let i = choose|i: int| 0 <= i < before.len() && #[trigger] shows_directory(before[i]);
            assert(shows_directory(replies[i]));
        }
    }
}

/// Nothing longer than a record comes out of reading a file, whatever the file system answers.
pub proof fn law_reading_is_bounded(replies: Seq<Reply>)
    ensures
        Reading::Inspect.after_all(replies) matches Reading::Done(Ok(bytes)) ==> bytes@.len()
            <= MAX_RECORD_BYTES,
    decreases replies.len(),
{
    if replies.len() > 0 {
        law_reading_is_bounded(replies.drop_last());
    }
}

} // verus!
