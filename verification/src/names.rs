//! The names of slots and of the files in them.

use crate::record::MAX_RECORDS;
use crate::text;
use vstd::prelude::*;
use vstd::utf8::*;

verus! {

/// The name of a slot: its number in four digits.
pub open spec fn slot_name_of(slot: int) -> Seq<char> {
    "slot-"@ + seq![
        text::digit(slot / 1000 % 10),
        text::digit(slot / 100 % 10),
        text::digit(slot / 10 % 10),
        text::digit(slot % 10),
    ]
}

/// The name of the slot `slot`.
pub fn slot_name(slot: usize) -> (name: String)
    ensures
        name@ == slot_name_of(slot as int),
{
    let name: String = "slot-".to_owned().concat(text::digit_text(slot / 1000 % 10)).concat(
        text::digit_text(slot / 100 % 10),
    ).concat(text::digit_text(slot / 10 % 10)).concat(text::digit_text(slot % 10));
    assert(name@ =~= slot_name_of(slot as int));
    name
}

/// The slot that a directory entry is, where its name is that of a slot.
pub open spec fn slot_named(name: Seq<u8>) -> Option<int> {
    if exists|slot: int| 0 <= slot < MAX_RECORDS && name == #[trigger] encode_utf8(slot_name_of(slot)) {
        Some(choose|slot: int| 0 <= slot < MAX_RECORDS && name == #[trigger] encode_utf8(slot_name_of(slot)))
    } else {
        None
    }
}

/// The names of slots stand in the order of their numbers: they agree up to some place, where the
/// name of the lower slot has the lower character.
pub proof fn law_slot_names_sort_as_numbers(a: int, b: int) -> (at: int)
    requires
        0 <= a < b < MAX_RECORDS,
    ensures
        slot_name_of(a).len() == slot_name_of(b).len(),
        0 <= at < slot_name_of(a).len(),
        slot_name_of(a).take(at) == slot_name_of(b).take(at),
        slot_name_of(a)[at] < slot_name_of(b)[at],
{
    reveal_strlit("slot-");
    assert(a / 1000 % 10 == 0 && a / 100 % 10 == 0 && b / 1000 % 10 == 0 && b / 100 % 10 == 0);
    if a / 10 % 10 == b / 10 % 10 {
        assert(slot_name_of(a).take(8) =~= slot_name_of(b).take(8));
        8
    } else {
        assert(slot_name_of(a).take(7) =~= slot_name_of(b).take(7));
        7
    }
}

/// No two slots have the same name.
pub proof fn law_slot_names_differ(a: int, b: int)
    requires
        0 <= a < MAX_RECORDS,
        0 <= b < MAX_RECORDS,
        encode_utf8(slot_name_of(a)) == encode_utf8(slot_name_of(b)),
    ensures
        a == b,
{
    encode_utf8_decode_utf8(slot_name_of(a));
    encode_utf8_decode_utf8(slot_name_of(b));
    if a < b {
        let at = law_slot_names_sort_as_numbers(a, b);
    } else if b < a {
        let at = law_slot_names_sort_as_numbers(b, a);
    }
}

/// A slot is found again by its name.
pub proof fn law_slot_is_found_by_its_name(slot: int)
    requires
        0 <= slot < MAX_RECORDS,
    ensures
        slot_named(encode_utf8(slot_name_of(slot))) == Some(slot),
{
    let name = encode_utf8(slot_name_of(slot));
    let found = choose|other: int|
        0 <= other < MAX_RECORDS && name == #[trigger] encode_utf8(slot_name_of(other));
    law_slot_names_differ(found, slot);
}

/// The slot that the directory entry `name` is, where its name is that of a slot.
pub fn parse_slot_name(name: &[u8]) -> (found: Option<usize>)
    ensures
        match found {
            Some(slot) => slot_named(name@) == Some(slot as int) && slot < MAX_RECORDS,
            None => slot_named(name@) is None,
        },
{
    let mut slot: usize = 0;
    while slot < MAX_RECORDS
        invariant
            slot <= MAX_RECORDS,
            forall|other: int| 0 <= other < slot ==> name@ != #[trigger] encode_utf8(slot_name_of(other)),
        decreases MAX_RECORDS - slot,
    {
        let candidate: String = slot_name(slot);
        if text::same_bytes(name, candidate.as_str().as_bytes()) {
            proof {
                law_slot_is_found_by_its_name(slot as int);
            }
            return Some(slot);
        }
        slot += 1;
    }
    None
}

/// The place of the last full stop before `end`.
pub open spec fn last_dot(name: Seq<u8>, end: int) -> Option<int>
    decreases end,
{
    if end <= 0 {
        None
    } else if name[end - 1] == 46u8 {
        Some(end - 1)
    } else {
        last_dot(name, end - 1)
    }
}

/// The place of the full stop that parts a file name from its extension. A name that only starts
/// with a full stop has no extension, nor has the name of the parent directory.
pub open spec fn extension_dot(name: Seq<u8>) -> Option<int> {
    match last_dot(name, name.len() as int) {
        Some(at) => if at > 0 && name != seq![46u8, 46u8] {
            Some(at)
        } else {
            None
        },
        None => None,
    }
}

/// The extension of a file name.
pub open spec fn extension(name: Seq<u8>) -> Option<Seq<u8>> {
    match extension_dot(name) {
        Some(at) => Some(name.skip(at + 1)),
        None => None,
    }
}

/// A file name without its extension and the full stop before it.
pub open spec fn stem(name: Seq<u8>) -> Seq<u8> {
    match extension_dot(name) {
        Some(at) => name.take(at),
        None => name,
    }
}

/// The name of the file in which a record is prepared.
pub open spec fn stage_name_of(name: Seq<u8>) -> Seq<u8> {
    stem(name) + encode_utf8(".stage"@)
}

/// The place of the full stop before the extension of `name`.
fn find_extension_dot(name: &[u8]) -> (found: Option<usize>)
    ensures
        match found {
            Some(at) => extension_dot(name@) == Some(at as int) && at < name@.len(),
            None => extension_dot(name@) is None,
        },
{
    let mut end: usize = name.len();
    while end > 0
        invariant
            end <= name@.len(),
            last_dot(name@, name@.len() as int) == last_dot(name@, end as int),
        decreases end,
    {
        if name[end - 1] == 46 {
            let parent: bool = name.len() == 2 && name[0] == 46 && name[1] == 46;
            assert(parent == (name@ =~= seq![46u8, 46u8]));
            if end - 1 > 0 && !parent {
                return Some(end - 1);
            } else {
                return None;
            }
        }
        end -= 1;
    }
    None
}

/// Whether `name` has the extension `wanted`.
pub fn has_extension(name: &[u8], wanted: &str) -> (has: bool)
    ensures
        has == (extension(name@) == Some(encode_utf8(wanted@))),
{
    match find_extension_dot(name) {
        None => false,
        Some(at) => {
            let total: usize = name.len();
            let part: &[u8] = vstd::slice::slice_subrange(name, at + 1, total);
            assert(part@ =~= name@.skip(at + 1));
            text::same_bytes(part, wanted.as_bytes())
        },
    }
}

/// The name of the file in which the record `name` is prepared.
pub fn stage_name(name: &[u8]) -> (stage: Vec<u8>)
    ensures
        stage@ == stage_name_of(name@),
{
    let end: usize = match find_extension_dot(name) {
        Some(at) => at,
        None => name.len(),
    };
    let mut stage: Vec<u8> = Vec::new();
    stage.extend_from_slice(vstd::slice::slice_subrange(name, 0, end));
    let suffix: &[u8] = ".stage".as_bytes();
    stage.extend_from_slice(suffix);
    assert(stage@ =~= stem(name@) + suffix@);
    stage
}

/// A full stop behind which there is no other before `end` is the last one.
proof fn lemma_last_dot_past(name: Seq<u8>, at: int, end: int)
    requires
        0 <= at < end <= name.len(),
        name[at] == 46u8,
        forall|i: int| at < i < end ==> name[i] != 46u8,
    ensures
        last_dot(name, end) == Some(at),
    decreases end,
{
    if end - 1 > at {
        lemma_last_dot_past(name, at, end - 1);
    }
}

/// A name of ASCII characters that is put before `.json` has that extension, and its stage file
/// differs from it in the extension alone.
pub proof fn lemma_json_name(base: Seq<char>)
    requires
        base.len() > 0,
        is_ascii_chars(base),
    ensures
        extension(encode_utf8(base + ".json"@)) == Some(encode_utf8("json"@)),
        stage_name_of(encode_utf8(base + ".json"@)) == encode_utf8(base + ".stage"@),
        extension(encode_utf8(base + ".stage"@)) == Some(encode_utf8("stage"@)),
{
    reveal_strlit(".json");
    reveal_strlit("json");
    reveal_strlit(".stage");
    reveal_strlit("stage");
    assert(seq!['.'] + "json"@ =~= ".json"@);
    assert(seq!['.'] + "stage"@ =~= ".stage"@);
    lemma_dotted_name(base, "json"@);
    lemma_dotted_name(base, "stage"@);
    crate::fit::lemma_encode_concat(base, ".stage"@);
}

proof fn lemma_dotted_name(base: Seq<char>, ext: Seq<char>)
    requires
        base.len() > 0,
        is_ascii_chars(base),
        ext.len() > 1,
        is_ascii_chars(ext),
        forall|i: int| 0 <= i < ext.len() ==> ext[i] != '.',
    ensures
        extension(encode_utf8(base + (seq!['.'] + ext))) == Some(encode_utf8(ext)),
        stem(encode_utf8(base + (seq!['.'] + ext))) == encode_utf8(base),
{
    let whole = base + (seq!['.'] + ext);
    assert(is_ascii_chars(whole));
    is_ascii_chars_encode_utf8(base);
    is_ascii_chars_encode_utf8(ext);
    is_ascii_chars_encode_utf8(whole);
    let name = encode_utf8(whole);
    lemma_last_dot_past(name, base.len() as int, name.len() as int);
    assert(name.skip(base.len() as int + 1) =~= encode_utf8(ext));
    assert(name.take(base.len() as int) =~= encode_utf8(base));
}

} // verus!
