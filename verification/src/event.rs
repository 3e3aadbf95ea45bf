//! A signed Nostr event, field by field.

use crate::text;
use vstd::prelude::*;

verus! {

/// The fields of a signed event. Keys, identifiers and signatures are hexadecimal text.
#[derive(Debug, PartialEq, Eq)]
pub struct Event {
    pub id: String,
    pub pubkey: String,
    pub created_at: u64,
    pub kind: u16,
    pub tags: Vec<Vec<String>>,
    pub content: String,
    pub sig: String,
}

/// What an event says.
pub struct EventView {
    pub id: Seq<char>,
    pub pubkey: Seq<char>,
    pub created_at: u64,
    pub kind: u16,
    pub tags: Seq<Seq<Seq<char>>>,
    pub content: Seq<char>,
    pub sig: Seq<char>,
}

impl View for Event {
    type V = EventView;

    open spec fn view(&self) -> EventView {
        EventView {
            id: self.id@,
            pubkey: self.pubkey@,
            created_at: self.created_at,
            kind: self.kind,
            tags: self.tags.deep_view(),
            content: self.content@,
            sig: self.sig@,
        }
    }
}

/// A copy of one tag.
fn copy_tag(tag: &Vec<String>) -> (copy: Vec<String>)
    ensures
        copy@ == tag@,
{
    let mut copy: Vec<String> = Vec::new();
    let mut at: usize = 0;
    while at < tag.len()
        invariant
            at <= tag@.len(),
            copy@ == tag@.take(at as int),
        decreases tag@.len() - at,
    {
        copy.push(tag[at].clone());
        at += 1;
        assert(copy@ =~= tag@.take(at as int));
    }
    assert(tag@.take(at as int) =~= tag@);
    copy
}

/// A copy of several tags.
fn copy_tags(tags: &Vec<Vec<String>>) -> (copy: Vec<Vec<String>>)
    ensures
        copy.deep_view() == tags.deep_view(),
{
    let mut copy: Vec<Vec<String>> = Vec::new();
    let mut at: usize = 0;
    while at < tags.len()
        invariant
            at <= tags@.len(),
            copy@.len() == at,
            forall|i: int| 0 <= i < at ==> (#[trigger] copy@[i])@ == tags@[i]@,
        decreases tags@.len() - at,
    {
        copy.push(copy_tag(&tags[at]));
        at += 1;
    }
    assert forall|i: int| 0 <= i < at implies (#[trigger] copy@[i]).deep_view()
        == tags@[i].deep_view() by {
        assert(copy@[i]@ == tags@[i]@);
    }
    assert(copy.deep_view() =~= tags.deep_view());
    copy
}

impl Clone for Event {
    fn clone(&self) -> (copy: Self)
        ensures
            copy@ == self@,
    {
        Event {
            id: self.id.clone(),
            pubkey: self.pubkey.clone(),
            created_at: self.created_at,
            kind: self.kind,
            tags: copy_tags(&self.tags),
            content: self.content.clone(),
            sig: self.sig.clone(),
        }
    }
}

/// A hexadecimal digit in either case.
pub open spec fn is_hex_digit(c: char) -> bool {
    '0' <= c <= '9' || 'a' <= c <= 'f' || 'A' <= c <= 'F'
}

/// A hexadecimal digit as it is written out.
pub open spec fn is_lower_hex_digit(c: char) -> bool {
    '0' <= c <= '9' || 'a' <= c <= 'f'
}

/// An event identifier: 32 bytes in hexadecimal.
pub open spec fn is_event_id(text: Seq<char>) -> bool {
    &&& text.len() == 64
    &&& forall|i: int| 0 <= i < text.len() ==> is_hex_digit(#[trigger] text[i])
}

/// A key as it is written out: 32 bytes in lower-case hexadecimal.
pub open spec fn is_key_text(text: Seq<char>) -> bool {
    &&& text.len() == 64
    &&& forall|i: int| 0 <= i < text.len() ==> is_lower_hex_digit(#[trigger] text[i])
}

/// Whether `text` is a key as it is written out.
pub fn is_written_key(text: &str) -> (is_key: bool)
    ensures
        is_key == is_key_text(text@),
{
    let chars: Vec<char> = text::chars_of(text);
    if chars.len() != 64 {
        return false;
    }
    let mut at: usize = 0;
    while at < chars.len()
        invariant
            at <= chars@.len(),
            chars@ == text@,
            forall|i: int| 0 <= i < at ==> is_lower_hex_digit(#[trigger] text@[i]),
        decreases chars@.len() - at,
    {
        let c: char = chars[at];
        if !('0' <= c && c <= '9' || 'a' <= c && c <= 'f') {
            assert(!is_lower_hex_digit(text@[at as int]));
            return false;
        }
        at += 1;
    }
    true
}

} // verus!
