//! What each answer of the file system comes to, for directories, files and slots.

use crate::fault::{Action, Fault, Notice, OsFailure, OsKind};
use crate::files;
use crate::files::{Making, Meta, Reading, Reply};
use crate::inventory;
use crate::inventory::{FoundView, InventoryReply, InventoryView};
use crate::inventory_laws;
use crate::inventory_laws::DirectoryEntry;
use crate::names;
use crate::naming_laws;
use crate::outbox;
use crate::outbox::OutboxView;
use crate::record::{Record, Stored};
use crate::slot;
use crate::slot::{SlotLoad, SlotReply};
use vstd::prelude::*;
use vstd::utf8::*;

verus! {

/// A directory is what is one and is no link; making something durable succeeds where it is done; and
/// a file is removed where it is done or was gone. Every other failure is said to be what it is.
pub proof fn law_outcomes_of_single_questions(meta: Meta, failure: OsFailure)
    ensures
        files::directory_required(Ok(meta)) is Ok <==> meta.is_dir && !meta.is_symlink,
        files::directory_required(Ok(meta)) matches Err(fault) ==> fault == Fault::Notice(
            Notice::NotRegularDirectory,
        ),
        files::directory_required(Err(failure)) == Err::<(), Fault>(
            Fault::Os { action: Action::Plain, text: failure.text },
        ),
        files::directory_synced(Ok(())) is Ok,
        files::directory_synced(Err(failure)) == Err::<(), Fault>(
            Fault::Os { action: Action::SyncDirectory, text: failure.text },
        ),
        files::file_removed(Ok(())) is Ok,
        files::file_removed(Err(failure)) is Ok <==> failure.kind == OsKind::NotFound,
        files::file_removed(Err(failure)) matches Err(fault) ==> fault == (Fault::Os {
            action: Action::RemoveFile,
            text: failure.text,
        }),
{
}

/// A private directory is created, looked at, made durable, and the directory above it, if there is
/// one, is made durable too. The first failure ends it and is said to be what it is.
pub proof fn law_private_directory_step_by_step(has_parent: bool, meta: Meta, failure: OsFailure)
    ensures
        Making::Create.after(has_parent, Reply::Done) == Making::Require,
        meta.is_dir && !meta.is_symlink <==> Making::Require.after(has_parent, Reply::Meta(meta))
            == Making::Sync,
        !(meta.is_dir && !meta.is_symlink) <==> Making::Require.after(has_parent, Reply::Meta(meta))
            == Making::Done(Err(Fault::Notice(Notice::NotRegularDirectory))),
        Making::Sync.after(has_parent, Reply::Done) == (if has_parent {
            Making::SyncParent
        } else {
            Making::Done(Ok(()))
        }),
        Making::SyncParent.after(has_parent, Reply::Done) == Making::Done(Ok(())),
        Making::Create.after(has_parent, Reply::Failed(failure)) == Making::Done(
            Err((Fault::Os { action: Action::CreateDirectory, text: failure.text })),
        ),
        Making::Require.after(has_parent, Reply::Failed(failure)) == Making::Done(
            Err((Fault::Os { action: Action::Plain, text: failure.text })),
        ),
        Making::Sync.after(has_parent, Reply::Failed(failure)) == Making::Done(
            Err((Fault::Os { action: Action::SyncDirectory, text: failure.text })),
        ),
        Making::SyncParent.after(has_parent, Reply::Failed(failure)) == Making::Done(
            Err((Fault::Os { action: Action::SyncDirectory, text: failure.text })),
        ),
{
}

/// A file is read exactly where it is a regular file and no link, and neither what is known of it nor
/// what is read is longer than two mebibytes; it is read whole.
pub proof fn law_file_is_read_whole(meta: Meta, bytes: Vec<u8>, failure: OsFailure, reading: Reading)
    ensures
        meta.is_file && !meta.is_symlink && meta.len <= 2097152 <==> Reading::Inspect.after(
            Reply::Meta(meta),
        ) == Reading::Contents,
        !meta.is_file || meta.is_symlink <==> Reading::Inspect.after(Reply::Meta(meta))
            == Reading::Done(Err(Fault::Notice(Notice::NotRegularFile))),
        meta.is_file && !meta.is_symlink && meta.len > 2097152 <==> Reading::Inspect.after(
            Reply::Meta(meta),
        ) == Reading::Done(Err(Fault::Notice(Notice::RecordTooLong))),
        bytes@.len() <= 2097152 <==> Reading::Contents.after(Reply::Bytes(bytes)) == Reading::Done(
            Ok(bytes),
        ),
        bytes@.len() > 2097152 <==> Reading::Contents.after(Reply::Bytes(bytes)) == Reading::Done(
            Err(Fault::Notice(Notice::RecordTooLong)),
        ),
        !(reading is Done) ==> reading.after(Reply::Failed(failure)) == Reading::Done(
            Err((Fault::Os { action: Action::Plain, text: failure.text })),
        ),
{
}

/// Making a directory and reading a file wait for the answer to their question, and stay over once
/// they are.
pub proof fn law_files_wait_for_their_answer(
    making: Making,
    has_parent: bool,
    reading: Reading,
    reply: Reply,
)
    ensures
        ({
            let is_awaited = match making {
                Making::Create | Making::Sync | Making::SyncParent => reply is Done || reply
                    is Failed,
                Making::Require => reply is Meta || reply is Failed,
                Making::Done(_) => false,
            };
            !is_awaited ==> making.after(has_parent, reply) == making
        }),
        ({
            let is_awaited = match reading {
                Reading::Inspect => reply is Meta || reply is Failed,
                Reading::Contents => reply is Bytes || reply is Failed,
                Reading::Done(_) => false,
            };
            !is_awaited ==> reading.after(reply) == reading
        }),
{
}

/// A piece is written, as a whole and behind what is there, exactly where the text stays within two
/// mebibytes; and all of it counts as written. Otherwise the text stays as it was.
pub proof fn law_pieces_are_written_whole(
    before: Seq<u8>,
    piece: Seq<u8>,
    written: Result<usize, Fault>,
    after: Seq<u8>,
)
    requires
        files::piece_written(before, piece, written, after),
    ensures
        before.len() + piece.len() <= 2097152 <==> written is Ok,
        written matches Ok(count) ==> after == before + piece && count == piece.len(),
        written matches Err(fault) ==> after == before && fault == Fault::Notice(
            Notice::RecordTooLong,
        ),
{
}

/// A file holds a record as this outbox stores it exactly where the record may stand in the outbox and
/// the file has the name that belongs to it; the record is looked at first.
pub proof fn law_which_files_hold_records(
    outbox: OutboxView,
    name: Seq<u8>,
    bytes: Seq<u8>,
    record: Record,
)
    ensures
        slot::file_checked(outbox, name, bytes, record) is Ok <==> outbox.record_checked(record)
            is Ok && name == encode_utf8(outbox::record_name_of(record, bytes)),
        outbox.record_checked(record) matches Err(fault) ==> slot::file_checked(
            outbox,
            name,
            bytes,
            record,
        ) == Err::<(), Fault>(fault),
        outbox.record_checked(record) is Ok && name != encode_utf8(
            outbox::record_name_of(record, bytes),
        ) ==> slot::file_checked(outbox, name, bytes, record) == Err::<(), Fault>(
            Fault::Notice(Notice::NameMismatch),
        ),
{
}

/// How a slot is looked at and listed. What is no directory, or a link, is a fault; a slot that is
/// gone is none; and a listing without a record is unfinished.
pub proof fn law_slot_is_listed(
    outbox: OutboxView,
    slot: usize,
    meta: Meta,
    failure: OsFailure,
    committed: Option<Vec<u8>>,
    staged: Option<Vec<u8>>,
)
    ensures
        meta.is_dir && !meta.is_symlink <==> SlotLoad::Inspect.after(
            outbox,
            slot,
            SlotReply::Files(Reply::Meta(meta)),
        ) == SlotLoad::Open,
        !(meta.is_dir && !meta.is_symlink) <==> SlotLoad::Inspect.after(
            outbox,
            slot,
            SlotReply::Files(Reply::Meta(meta)),
        ) == SlotLoad::Done(Err(Fault::Notice(Notice::SlotNotDirectory))),
        SlotLoad::Inspect.after(outbox, slot, SlotReply::Files(Reply::Failed(failure))) == (
        if failure.kind == OsKind::NotFound {
            SlotLoad::Done(Ok(None))
        } else {
            SlotLoad::Done(Err(Fault::Os { action: Action::InspectSlot, text: failure.text }))
        }),
        SlotLoad::Open.after(outbox, slot, SlotReply::Files(Reply::Done)) == (SlotLoad::Next {
            committed: None,
            staged: None,
        }),
        SlotLoad::Open.after(outbox, slot, SlotReply::Files(Reply::Failed(failure))) == (
        if failure.kind == OsKind::NotFound {
            SlotLoad::Done(Ok(None))
        } else {
            SlotLoad::Done(Err(Fault::Os { action: Action::ReadSlot, text: failure.text }))
        }),
        committed is None ==> (SlotLoad::Next { committed, staged }).after(
            outbox,
            slot,
            SlotReply::Files(Reply::End),
        ) == SlotLoad::Done(Err(Fault::Notice(Notice::IncompleteSlot))),
        committed is Some ==> (SlotLoad::Next { committed, staged }).after(
            outbox,
            slot,
            SlotReply::Files(Reply::End),
        ) == (SlotLoad::ReadRecord { name: committed->0, staged }),
        (SlotLoad::Next { committed, staged }).after(
            outbox,
            slot,
            SlotReply::Files(Reply::Failed(failure)),
        ) == (if committed is Some && staged is Some {
            SlotLoad::Done(Err(Fault::Notice(Notice::FileQuota)))
        } else {
            SlotLoad::Done(Err(Fault::Os { action: Action::Plain, text: failure.text }))
        }),
{
}

/// The extension that stands behind the parting full stop of a name.
pub open spec fn has_extension(name: Seq<u8>, wanted: Seq<char>) -> bool {
    exists|at: int| #[trigger]
        naming_laws::parts_extension(name, at) && name.subrange(at + 1, name.len() as int)
            == encode_utf8(wanted)
}

proof fn lemma_has_extension(name: Seq<u8>, wanted: Seq<char>)
    ensures
        has_extension(name, wanted) <==> names::extension(name) == Some(encode_utf8(wanted)),
{
    if exists|at: int| naming_laws::parts_extension(name, at) {
        let at = choose|at: int| naming_laws::parts_extension(name, at);
        naming_laws::law_extension_is_parted(name, at);
        assert forall|other: int| naming_laws::parts_extension(name, other) implies other == at by {
            if other < at {
                assert(name[at] != 46);
            } else if at < other {
                assert(name[other] != 46);
            }
        }
    } else {
        naming_laws::law_extension_is_parted(name, 0);
    }
}

/// A slot holds one record and one stage file at most, told apart by their extensions and in either
/// order; a third file, a second one of a kind, and any other file are faults.
pub proof fn law_slot_takes_two_files(
    outbox: OutboxView,
    slot: usize,
    committed: Option<Vec<u8>>,
    staged: Option<Vec<u8>>,
    name: Vec<u8>,
    shown: String,
)
    ensures
        ({
            let after = (SlotLoad::Next { committed, staged }).after(
                outbox,
                slot,
                SlotReply::Files(Reply::Entry { name, shown }),
            );
            let is_record = has_extension(name@, "json"@);
            let is_stage = has_extension(name@, "stage"@);
            let is_full = committed is Some && staged is Some;
            &&& is_full ==> after == SlotLoad::Done(Err(Fault::Notice(Notice::FileQuota)))
            &&& !is_full && is_record && committed is None ==> after == (SlotLoad::Next {
                committed: Some(name),
                staged,
            })
            &&& !is_full && is_stage && staged is None ==> after == (SlotLoad::Next {
                committed,
                staged: Some(name),
            })
            &&& !is_full && !(is_record && committed is None) && !(is_stage && staged is None)
                ==> after == SlotLoad::Done(Err(Fault::Notice(Notice::UnexpectedFile)))
        }),
{
    lemma_has_extension(name@, "json"@);
    lemma_has_extension(name@, "stage"@);
    reveal_strlit("json");
    reveal_strlit("stage");
    encode_utf8_decode_utf8("json"@);
    encode_utf8_decode_utf8("stage"@);
}

/// How the record of a slot is read: what cannot be read is gone where that is so, and a fault
/// otherwise; what is no record is a fault; and a record that does not belong is refused.
pub proof fn law_record_is_read(
    outbox: OutboxView,
    slot: usize,
    name: Vec<u8>,
    staged: Option<Vec<u8>>,
    bytes: Vec<u8>,
    record: Record,
    fault: Fault,
    there: Option<bool>,
)
    ensures
        (SlotLoad::ReadRecord { name, staged }).after(outbox, slot, SlotReply::Read(Ok(bytes))) == (
        SlotLoad::Parse { name, staged, bytes }),
        (SlotLoad::ReadRecord { name, staged }).after(outbox, slot, SlotReply::Read(Err(fault)))
            == (SlotLoad::ProbeRecord { name, fault }),
        (SlotLoad::ProbeRecord { name, fault }).after(outbox, slot, SlotReply::Exists(there)) == (
        if there == Some(false) {
            SlotLoad::Done(Ok(None))
        } else {
            SlotLoad::Done(Err(fault))
        }),
        (SlotLoad::Parse { name, staged, bytes }).after(outbox, slot, SlotReply::Parsed(None))
            == SlotLoad::Done(Err(Fault::Notice(Notice::InvalidJson))),
        ({
            let after = (SlotLoad::Parse { name, staged, bytes }).after(
                outbox,
                slot,
                SlotReply::Parsed(Some(record)),
            );
            let is_named = name@ == encode_utf8(outbox::record_name_of(record, bytes@));
            let is_staged = staged is Some && staged->0@ == names::stage_name_of(name@);
            &&& outbox.record_checked(record) matches Err(why) ==> after == SlotLoad::Done(
                Err(why),
            )
            &&& outbox.record_checked(record) is Ok && !is_named ==> after == SlotLoad::Done(
                Err(Fault::Notice(Notice::NameMismatch)),
            )
            &&& outbox.record_checked(record) is Ok && is_named && staged is None ==> after
                == SlotLoad::Done(Ok(Some(Stored { slot, name, record })))
            &&& outbox.record_checked(record) is Ok && is_named && staged is Some && !is_staged
                ==> after == SlotLoad::Done(Err(Fault::Notice(Notice::ForeignStage)))
            &&& outbox.record_checked(record) is Ok && is_named && is_staged ==> after == (
            SlotLoad::ReadStage { name, stage: staged->0, bytes, record })
        }),
{
}

/// How the stage file beside a record is read: it must hold the same text, or be gone.
pub proof fn law_stage_is_read(
    outbox: OutboxView,
    slot: usize,
    name: Vec<u8>,
    stage: Vec<u8>,
    bytes: Vec<u8>,
    copy: Vec<u8>,
    record: Record,
    fault: Fault,
    there: Option<bool>,
)
    ensures
        copy@ == bytes@ <==> (SlotLoad::ReadStage { name, stage, bytes, record }).after(
            outbox,
            slot,
            SlotReply::Read(Ok(copy)),
        ) == SlotLoad::Done(Ok(Some(Stored { slot, name, record }))),
        copy@ != bytes@ <==> (SlotLoad::ReadStage { name, stage, bytes, record }).after(
            outbox,
            slot,
            SlotReply::Read(Ok(copy)),
        ) == SlotLoad::Done(Err(Fault::Notice(Notice::StageMismatch))),
        (SlotLoad::ReadStage { name, stage, bytes, record }).after(
            outbox,
            slot,
            SlotReply::Read(Err(fault)),
        ) == (SlotLoad::ProbeStage { name, stage, record, fault }),
        (SlotLoad::ProbeStage { name, stage, record, fault }).after(
            outbox,
            slot,
            SlotReply::Exists(there),
        ) == (if there == Some(false) {
            SlotLoad::Done(Ok(Some(Stored { slot, name, record })))
        } else {
            SlotLoad::Done(Err(fault))
        }),
{
}

/// Loading a slot waits for the answer to its question, and stays over once it is.
pub proof fn law_slot_waits_for_its_answer(
    outbox: OutboxView,
    slot: usize,
    load: SlotLoad,
    reply: SlotReply,
)
    ensures
        ({
            let is_awaited = match load {
                SlotLoad::Inspect => reply matches SlotReply::Files(files) && (files is Meta || files
                    is Failed),
                SlotLoad::Open => reply matches SlotReply::Files(files) && (files is Done || files
                    is Failed),
                SlotLoad::Next { .. } => reply matches SlotReply::Files(files) && (files is Entry
                    || files is End || files is Failed),
                SlotLoad::ReadRecord { .. } | SlotLoad::ReadStage { .. } => reply is Read,
                SlotLoad::ProbeRecord { .. } | SlotLoad::ProbeStage { .. } => reply is Exists,
                SlotLoad::Parse { .. } => reply is Parsed,
                SlotLoad::Done(_) => false,
            };
            !is_awaited ==> load.after(outbox, slot, reply) == load
        }),
{
}

/// `a` and `b` agree up to `at`, where `a` ends or has the lower byte.
pub open spec fn parts_at(a: Seq<u8>, b: Seq<u8>, at: int) -> bool {
    &&& 0 <= at <= a.len()
    &&& at < b.len()
    &&& forall|i: int| 0 <= i < at ==> #[trigger] a[i] == b[i]
    &&& at == a.len() || a[at] < b[at]
}

/// A name sorts before another one exactly where they part at some place, at which the first one ends
/// or has the lower byte.
pub proof fn law_names_sort_by_their_bytes(a: Seq<u8>, b: Seq<u8>)
    ensures
        inventory::sorts_before(a, b) <==> exists|at: int| #[trigger] parts_at(a, b, at),
    decreases a.len(),
{
    if a.len() == 0 {
        if b.len() > 0 {
            assert(parts_at(a, b, 0));
        }
    } else if b.len() > 0 {
        if a[0] == b[0] {
            law_names_sort_by_their_bytes(a.skip(1), b.skip(1));
            if inventory::sorts_before(a, b) {
                let rest = choose|at: int| #[trigger] parts_at(a.skip(1), b.skip(1), at);
                assert forall|i: int| 0 <= i < rest + 1 implies #[trigger] a[i] == b[i] by {
                    if i > 0 {
                        assert(a.skip(1)[i - 1] == b.skip(1)[i - 1]);
                    }
                }
                assert(parts_at(a, b, rest + 1));
            }
            if exists|at: int| #[trigger] parts_at(a, b, at) {
                let at = choose|at: int| #[trigger] parts_at(a, b, at);
                assert(at > 0);
                assert forall|i: int| 0 <= i < at - 1 implies #[trigger] a.skip(1)[i] == b.skip(
                    1,
                )[i] by {
                    assert(a[i + 1] == b[i + 1]);
                }
                assert(parts_at(a.skip(1), b.skip(1), at - 1));
            }
        } else {
            if a[0] < b[0] {
                assert(parts_at(a, b, 0));
            }
            if exists|at: int| #[trigger] parts_at(a, b, at) {
                let at = choose|at: int| #[trigger] parts_at(a, b, at);
                if at > 0 {
                    assert(a[0] == b[0]);
                }
            }
        }
    }
}

/// Records are ordered by their slots, and within a slot by their names.
pub proof fn law_records_are_ordered_by_slot(a: Stored, b: Stored)
    ensures
        inventory::stands_before(a, b) <==> a.slot < b.slot || (a.slot == b.slot && exists|at: int|
            #[trigger] parts_at(a.name@, b.name@, at)),
{
    law_names_sort_by_their_bytes(a.name@, b.name@);
}

/// A record that is put in its place comes in behind those that it does not stand before and ahead of
/// the others, and these stay as they are.
pub proof fn law_record_is_put_in_its_place(found: FoundView, stored: Stored) -> (at: int)
    ensures
        ({
            let after = found.with_record(stored);
            &&& 0 <= at <= found.records.len()
            &&& after.records == found.records.take(at) + seq![stored] + found.records.skip(at)
            &&& after.faults == found.faults
            &&& forall|i: int|
                0 <= i < at ==> !inventory::stands_before(stored, #[trigger] found.records[i])
            &&& at < found.records.len() ==> inventory::stands_before(stored, found.records[at])
        }),
{
    let at = inventory::place(found.records, stored, 0);
    inventory_laws::lemma_place(found.records, stored, 0);
    assert(found.with_record(stored).records =~= found.records.take(at) + seq![stored]
        + found.records.skip(at));
    at
}

/// How taking stock goes on: the directory must be one, an entry with the name of a slot is loaded,
/// any other entry is a fault, and beyond 64 entries the directory is refused.
pub proof fn law_stock_is_taken_step_by_step(
    count: usize,
    slot: usize,
    name: Vec<u8>,
    shown: String,
    found: FoundView,
    meta: Meta,
    failure: OsFailure,
)
    ensures
        meta.is_dir && !meta.is_symlink <==> InventoryView::Require.after(
            InventoryReply::Files(Reply::Meta(meta)),
        ) == InventoryView::Open,
        !(meta.is_dir && !meta.is_symlink) <==> InventoryView::Require.after(
            InventoryReply::Files(Reply::Meta(meta)),
        ) == InventoryView::Done(Err(Fault::Notice(Notice::NotRegularDirectory))),
        InventoryView::Require.after(InventoryReply::Files(Reply::Failed(failure)))
            == InventoryView::Done(
            Err((Fault::Os { action: Action::Plain, text: failure.text })),
        ),
        InventoryView::Open.after(InventoryReply::Files(Reply::Done)) == (InventoryView::Next {
            count: 0,
            found: FoundView { records: Seq::empty(), faults: Seq::empty() },
        }),
        InventoryView::Open.after(InventoryReply::Files(Reply::Failed(failure)))
            == InventoryView::Done(
            Err((Fault::Os { action: Action::ReadDirectory, text: failure.text })),
        ),
        (InventoryView::Next { count, found }).after(InventoryReply::Files(Reply::End))
            == InventoryView::Done(Ok(found)),
        (InventoryView::Next { count, found }).after(InventoryReply::Files(Reply::Failed(failure)))
            == InventoryView::Done(
            Err(
                if count >= 64 {
                    Fault::Notice(Notice::SlotQuota)
                } else {
                    Fault::Os { action: Action::ReadSlot, text: failure.text }
                },
            ),
        ),
        ({
            let after = (InventoryView::Next { count, found }).after(
                InventoryReply::Files(Reply::Entry { name, shown }),
            );
            let is_slot = slot < 64 && name@ == encode_utf8(names::slot_name_of(slot as int));
            &&& count >= 64 <==> after == InventoryView::Done(Err(Fault::Notice(Notice::SlotQuota)))
            &&& count < 64 && is_slot ==> after == (InventoryView::Load {
                count: (count + 1) as usize,
                slot,
                shown,
                found,
            })
            &&& count < 64 && (forall|other: int|
                0 <= other < 64 ==> name@ != #[trigger] encode_utf8(names::slot_name_of(other)))
                ==> after == (InventoryView::Next {
                count: (count + 1) as usize,
                found: FoundView {
                    faults: found.faults.push(Fault::Notice(Notice::UnexpectedEntry)),
                    ..found
                },
            })
        }),
{
    naming_laws::law_which_entries_are_slots(name@, slot as int);
}

/// What a slot that is loaded adds to what was found: its record in its place, nothing, or its fault
/// with the path that is shown, behind the other faults.
pub proof fn law_loaded_slot_is_added(
    count: usize,
    slot: usize,
    shown: String,
    found: FoundView,
    stored: Stored,
    fault: Fault,
)
    ensures
        ({
            let load = InventoryView::Load { count, slot, shown, found };
            &&& load.after(InventoryReply::Loaded(Ok(Some(stored)))) == (InventoryView::Next {
                count,
                found: found.with_record(stored),
            })
            &&& load.after(InventoryReply::Loaded(Ok(None))) == (InventoryView::Next { count, found })
            &&& load.after(InventoryReply::Loaded(Err(fault))) == (InventoryView::Next {
                count,
                found: FoundView {
                    faults: found.faults.push(Fault::AtSlot { shown, cause: Box::new(fault) }),
                    ..found
                },
            })
        }),
{
}

/// Taking stock waits for the answer to its question, and stays over once it is.
pub proof fn law_inventory_waits_for_its_answer(inventory: InventoryView, reply: InventoryReply)
    ensures
        ({
            let is_awaited = match inventory {
                InventoryView::Require => reply matches InventoryReply::Files(files) && (files
                    is Meta || files is Failed),
                InventoryView::Open => reply matches InventoryReply::Files(files) && (files is Done
                    || files is Failed),
                InventoryView::Next { .. } => reply matches InventoryReply::Files(files) && (files
                    is Entry || files is End || files is Failed),
                InventoryView::Load { .. } => reply is Loaded,
                InventoryView::Done(_) => false,
            };
            !is_awaited ==> inventory.after(reply) == inventory
        }),
{
}

/// The faults that the entries of a directory come to, in the order of the entries.
pub open spec fn faults_of(entries: Seq<DirectoryEntry>) -> Seq<Fault>
    decreases entries.len(),
{
    if entries.len() == 0 {
        Seq::empty()
    } else {
        let before = faults_of(entries.drop_last());
        let entry = entries.last();
        if !(exists|slot: int|
            0 <= slot < 64 && entry.name@ == #[trigger] encode_utf8(names::slot_name_of(slot))) {
            before.push(Fault::Notice(Notice::UnexpectedEntry))
        } else if entry.loaded is Err {
            before.push(
                Fault::AtSlot { shown: entry.shown, cause: Box::new(entry.loaded->Err_0) },
            )
        } else {
            before
        }
    }
}

/// Stock is taken of every fault, in the order of the entries, whatever order the records are put in.
pub proof fn law_every_fault_is_found(entries: Seq<DirectoryEntry>)
    ensures
        inventory_laws::collected(entries).faults == faults_of(entries),
    decreases entries.len(),
{
    if entries.len() > 0 {
        law_every_fault_is_found(entries.drop_last());
        naming_laws::law_which_entries_are_slots(entries.last().name@, 0);
    }
}

} // verus!
