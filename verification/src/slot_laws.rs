//! What loading a slot comes to.

use crate::event;
use crate::fault::{Fault, Notice, OsFailure, OsKind};
use crate::files::{Meta, Reply};
use crate::names;
use crate::outbox;
use crate::outbox::OutboxView;
use crate::outbox_laws;
use crate::outside;
use crate::record::{Payload, Record, Stored};
use crate::slot;
use crate::slot::{SlotLoad, SlotReply};
use vstd::prelude::*;
use vstd::utf8::*;

verus! {

/// A stored record is one of this outbox, under the name that belongs to its JSON text.
pub open spec fn belongs(outbox: OutboxView, stored: Stored) -> bool {
    &&& outbox.record_checked(stored.record) is Ok
    &&& exists|bytes: Seq<u8>|
        stored.name@ == encode_utf8(#[trigger] outbox::record_name_of(stored.record, bytes))
}

/// A file in a slot.
pub struct SlotFile {
    pub name: Vec<u8>,
    pub shown: String,
    pub bytes: Vec<u8>,
}

/// What the file system and the parser answer for a slot that is a directory with these files.
pub open spec fn honest_reply(
    load: SlotLoad,
    slot: Meta,
    files: Seq<SlotFile>,
    parse: spec_fn(Vec<u8>) -> Option<Record>,
) -> SlotReply {
    match load {
        SlotLoad::Inspect => SlotReply::Files(Reply::Meta(slot)),
        SlotLoad::Open => SlotReply::Files(Reply::Done),
        SlotLoad::Next { committed, staged } => {
            let at = (if committed is Some { 1int } else { 0 }) + (if staged is Some { 1int } else { 0 });
            if at < files.len() {
                SlotReply::Files(Reply::Entry { name: files[at].name, shown: files[at].shown })
            } else {
                SlotReply::Files(Reply::End)
            }
        },
        SlotLoad::ReadRecord { name, .. } => SlotReply::Read(Ok(content(files, name@))),
        SlotLoad::Parse { bytes, .. } => SlotReply::Parsed(parse(bytes)),
        SlotLoad::ReadStage { stage, .. } => SlotReply::Read(Ok(content(files, stage@))),
        _ => SlotReply::Exists(Some(true)),
    }
}

/// What stands in the file of this name.
pub open spec fn content(files: Seq<SlotFile>, name: Seq<u8>) -> Vec<u8> {
    files[choose|i: int| 0 <= i < files.len() && (#[trigger] files[i]).name@ == name].bytes
}

/// Loading a slot that is a directory with these files, for so many questions.
pub open spec fn honest_load(
    load: SlotLoad,
    outbox: OutboxView,
    number: usize,
    slot: Meta,
    files: Seq<SlotFile>,
    parse: spec_fn(Vec<u8>) -> Option<Record>,
    questions: nat,
) -> SlotLoad
    decreases questions,
{
    if questions == 0 {
        load
    } else {
        honest_load(
            load.after(outbox, number, honest_reply(load, slot, files, parse)),
            outbox,
            number,
            slot,
            files,
            parse,
            (questions - 1) as nat,
        )
    }
}

/// The file at `at` holds `record` under its own name, alone or beside a stage file of the same
/// text.
pub open spec fn holds(
    outbox: OutboxView,
    files: Seq<SlotFile>,
    parse: spec_fn(Vec<u8>) -> Option<Record>,
    at: int,
    record: Record,
) -> bool {
    &&& 0 <= at < files.len() <= 2
    &&& parse(files[at].bytes) == Some(record)
    &&& slot::file_checked(outbox, files[at].name@, files[at].bytes@, record) is Ok
    &&& files.len() == 2 ==> {
        &&& files[1 - at].name@ == names::stage_name_of(files[at].name@)
        &&& files[1 - at].bytes@ == files[at].bytes@
    }
}

proof fn lemma_hex_text_is_ascii(bytes: Seq<u8>)
    ensures
        is_ascii_chars(outside::hex_text(bytes)),
{
    let text = outside::hex_text(bytes);
    assert forall|i: int| 0 <= i < text.len() implies '\u{0}' <= #[trigger] text[i] <= '\u{7f}' by {
        let byte = bytes[i / 2] as int;
        assert(0 <= byte / 16 < 16 && 0 <= byte % 16 < 16);
    }
}

/// The name of a record of the outbox ends in `.json`, and that of its stage file in `.stage`.
pub proof fn lemma_record_name_is_json(outbox: OutboxView, record: Record, bytes: Seq<u8>)
    requires
        outbox.record_checked(record) is Ok,
    ensures
        ({
            let name = encode_utf8(outbox::record_name_of(record, bytes));
            &&& names::extension(name) == Some(encode_utf8("json"@))
            &&& names::extension(names::stage_name_of(name)) == Some(encode_utf8("stage"@))
            &&& encode_utf8("json"@) != encode_utf8("stage"@)
        }),
{
    reveal_strlit("json");
    reveal_strlit("stage");
    encode_utf8_decode_utf8("json"@);
    encode_utf8_decode_utf8("stage"@);
    match record.payload {
        Payload::Pending { event } => {
            assert forall|i: int| 0 <= i < event.id@.len() implies '\u{0}' <= #[trigger] event.id@[i]
                <= '\u{7f}' by {
                assert(event::is_lower_hex_digit(event.id@[i]));
            }
            names::lemma_json_name(event.id@);
        },
        Payload::Deferred { .. } => {
            let digest = outside::sha256_digest(bytes);
            lemma_hex_text_is_ascii(digest);
            reveal_strlit("deferred-");
            names::lemma_json_name("deferred-"@ + outside::hex_text(digest));
        },
    }
}

/// A slot whose file at `at` holds `record` under its own name, alone or beside a stage file of the
/// same text, loads that record.
pub proof fn law_slot_loads_what_it_holds(
    outbox: OutboxView,
    number: usize,
    slot: Meta,
    files: Seq<SlotFile>,
    parse: spec_fn(Vec<u8>) -> Option<Record>,
    at: int,
    record: Record,
)
    requires
        slot.is_dir,
        !slot.is_symlink,
        holds(outbox, files, parse, at, record),
    ensures
        honest_load(SlotLoad::Inspect, outbox, number, slot, files, parse, 8)
            == SlotLoad::Done(Ok(Some(Stored { slot: number, name: files[at].name, record }))),
{
    lemma_record_name_is_json(outbox, record, files[at].bytes@);
    reveal_with_fuel(honest_load, 9);
    let name = files[at].name@;
    assert(files[at].name@ == name);
    let chosen = choose|i: int| 0 <= i < files.len() && (#[trigger] files[i]).name@ == name;
    assert(chosen == at) by {
        assert(0 <= chosen < files.len() && files[chosen].name@ == name);
    }
    if files.len() == 2 {
        let staged = files[1 - at].name@;
        let other = choose|i: int| 0 <= i < files.len() && (#[trigger] files[i]).name@ == staged;
        assert(other == 1 - at);
    }
}

/// A slot of differently named files loads nothing but a record that one of them holds under its own
/// name, alone or beside a stage file of the same text.
pub proof fn law_slot_holds_what_it_loads(
    outbox: OutboxView,
    number: usize,
    slot: Meta,
    files: Seq<SlotFile>,
    parse: spec_fn(Vec<u8>) -> Option<Record>,
    stored: Stored,
) -> (at: int)
    requires
        forall|i: int, j: int|
            0 <= i < j < files.len() ==> (#[trigger] files[i]).name@ != (#[trigger] files[j]).name@,
        honest_load(SlotLoad::Inspect, outbox, number, slot, files, parse, 8) == SlotLoad::Done(
            Ok(Some(stored)),
        ),
    ensures
        slot.is_dir,
        !slot.is_symlink,
        holds(outbox, files, parse, at, stored.record),
        stored.slot == number,
        stored.name == files[at].name,
{
    reveal_with_fuel(honest_load, 9);
    let at: int = if names::extension(files[0].name@) == Some(encode_utf8("json"@)) {
        0
    } else {
        1
    };
    let name = files[at].name@;
    assert(files[at].name@ == name);
    let chosen = choose|i: int| 0 <= i < files.len() && (#[trigger] files[i]).name@ == name;
    if files.len() == 2 {
        let staged = files[1 - at].name@;
        assert(files[1 - at].name@ == staged);
        let other = choose|i: int| 0 <= i < files.len() && (#[trigger] files[i]).name@ == staged;
    }
    at
}

/// What holds of a stage that is reached, whatever was answered.
pub open spec fn load_is_sound(outbox: OutboxView, slot: usize, load: SlotLoad) -> bool {
    match load {
        SlotLoad::ReadStage { name, bytes, record, .. } => slot::file_checked(
            outbox,
            name@,
            bytes@,
            record,
        ) is Ok,
        SlotLoad::ProbeStage { name, record, .. } => belongs(outbox, Stored { slot, name, record }),
        SlotLoad::Done(Ok(Some(stored))) => stored.slot == slot && belongs(outbox, stored),
        _ => true,
    }
}

/// Whatever is answered, a record that is loaded is one of this outbox, under the name that belongs
/// to its JSON text, from the slot that was asked for.
pub proof fn law_loaded_record_belongs(outbox: OutboxView, slot: usize, replies: Seq<SlotReply>)
    ensures
        load_is_sound(outbox, slot, SlotLoad::Inspect.after_all(outbox, slot, replies)),
    decreases replies.len(),
{
    if replies.len() > 0 {
        law_loaded_record_belongs(outbox, slot, replies.drop_last());
        let load = SlotLoad::Inspect.after_all(outbox, slot, replies.drop_last());
        lemma_load_stays_sound(outbox, slot, load, replies.last());
    }
}

proof fn lemma_load_stays_sound(outbox: OutboxView, slot: usize, load: SlotLoad, reply: SlotReply)
    requires
        load_is_sound(outbox, slot, load),
    ensures
        load_is_sound(outbox, slot, load.after(outbox, slot, reply)),
{
    match load {
        SlotLoad::Parse { name, bytes, .. } => {
            if let SlotReply::Parsed(Some(record)) = reply {
                let by_name = outbox::record_name_of(record, bytes@);
            }
        },
        SlotLoad::ReadStage { name, bytes, record, .. } => {
            let by_name = outbox::record_name_of(record, bytes@);
        },
        _ => {},
    }
}

/// A slot that is gone, before or after it was looked at, is no slot.
pub proof fn law_missing_slot_is_none(outbox: OutboxView, slot: usize, failure: OsFailure)
    requires
        failure.kind == OsKind::NotFound,
    ensures
        SlotLoad::Inspect.after(outbox, slot, SlotReply::Files(Reply::Failed(failure)))
            == SlotLoad::Done(Ok(None)),
        SlotLoad::Open.after(outbox, slot, SlotReply::Files(Reply::Failed(failure)))
            == SlotLoad::Done(Ok(None)),
{
}

/// A record that is gone when it is to be read is no record; one that is there, or may be, and
/// cannot be read is a fault.
pub proof fn law_vanished_record_is_none(
    outbox: OutboxView,
    slot: usize,
    name: Vec<u8>,
    staged: Option<Vec<u8>>,
    fault: Fault,
    there: Option<bool>,
)
    ensures
        (SlotLoad::ReadRecord { name, staged }).after(outbox, slot, SlotReply::Read(Err(fault))).after(
            outbox,
            slot,
            SlotReply::Exists(there),
        ) == (if there == Some(false) {
            SlotLoad::Done(Ok(None))
        } else {
            SlotLoad::Done(Err(fault))
        }),
{
}

/// A slot in which a record was prepared and never committed is kept, and is a fault.
pub proof fn law_uncommitted_slot_is_kept(
    outbox: OutboxView,
    number: usize,
    slot: Meta,
    file: SlotFile,
    parse: spec_fn(Vec<u8>) -> Option<Record>,
)
    requires
        slot.is_dir,
        !slot.is_symlink,
        names::extension(file.name@) == Some(encode_utf8("stage"@)),
    ensures
        honest_load(SlotLoad::Inspect, outbox, number, slot, seq![file], parse, 8)
            == SlotLoad::Done(Err(Fault::Notice(Notice::IncompleteSlot))),
        honest_load(SlotLoad::Inspect, outbox, number, slot, Seq::empty(), parse, 8)
            == SlotLoad::Done(Err(Fault::Notice(Notice::IncompleteSlot))),
{
    reveal_with_fuel(honest_load, 9);
    reveal_strlit("json");
    reveal_strlit("stage");
    encode_utf8_decode_utf8("json"@);
    encode_utf8_decode_utf8("stage"@);
}

/// A draft whose file was altered is refused, whatever its text now parses to, as long as the altered
/// text has another digest.
pub proof fn law_altered_draft_is_refused(
    outbox: OutboxView,
    number: usize,
    slot: Meta,
    draft: Record,
    bytes: Seq<u8>,
    altered: SlotFile,
    parse: spec_fn(Vec<u8>) -> Option<Record>,
)
    requires
        slot.is_dir,
        !slot.is_symlink,
        outbox.record_checked(draft) is Ok,
        draft.pending_id() is None,
        altered.name@ == encode_utf8(outbox::record_name_of(draft, bytes)),
    ensures
        outside::sha256_digest(altered.bytes@) != outside::sha256_digest(bytes) ==> honest_load(
            SlotLoad::Inspect,
            outbox,
            number,
            slot,
            seq![altered],
            parse,
            8,
        ) matches SlotLoad::Done(Err(_)),
{
    lemma_record_name_is_json(outbox, draft, bytes);
    reveal_with_fuel(honest_load, 9);
    let files = seq![altered];
    assert(files[0].name@ == altered.name@);
    let chosen = choose|i: int| 0 <= i < files.len() && (#[trigger] files[i]).name@ == altered.name@;
    assert(chosen == 0);
    if let Some(record) = parse(altered.bytes) {
        if slot::file_checked(outbox, altered.name@, altered.bytes@, record) is Ok {
            encode_utf8_decode_utf8(outbox::record_name_of(draft, bytes));
            encode_utf8_decode_utf8(outbox::record_name_of(record, altered.bytes@));
            outbox_laws::law_record_names_tell_records_apart(
                outbox,
                draft,
                record,
                outside::sha256_digest(bytes),
                outside::sha256_digest(altered.bytes@),
            );
        }
    }
}

} // verus!
