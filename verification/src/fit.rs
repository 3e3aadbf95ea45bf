//! How much of a text fits in a given number of UTF-8 bytes.

use vstd::prelude::*;
use vstd::utf8::*;

verus! {

/// The encoding of a concatenation is the concatenation of the encodings.
pub proof fn lemma_encode_concat(a: Seq<char>, b: Seq<char>)
    ensures
        encode_utf8(a + b) == encode_utf8(a) + encode_utf8(b),
    decreases a.len(),
{
    if a.len() == 0 {
        assert(a + b =~= b);
    } else {
        lemma_encode_concat(a.drop_first(), b);
        assert((a + b).drop_first() =~= a.drop_first() + b);
        assert(encode_utf8(a + b) =~= encode_utf8(a) + encode_utf8(b));
    }
}

/// How many of the first characters of `text` fit in `room` bytes of UTF-8.
pub open spec fn fitting(text: Seq<char>, room: int) -> nat
    decreases text.len(),
{
    if text.len() == 0 || encode_scalar(text[0] as u32).len() > room {
        0
    } else {
        1 + fitting(text.drop_first(), room - encode_scalar(text[0] as u32).len())
    }
}

/// `fitting` is the longest prefix that fits: it fits, and every prefix that fits is no longer.
pub proof fn lemma_fitting(text: Seq<char>, room: int)
    requires
        0 <= room,
    ensures
        fitting(text, room) <= text.len(),
        encode_utf8(text.take(fitting(text, room) as int)).len() <= room,
        forall|k: int|
            0 <= k <= text.len() && #[trigger] encode_utf8(text.take(k)).len() <= room ==> k
                <= fitting(text, room),
    decreases text.len(),
{
    let kept = fitting(text, room) as int;
    assert(text.take(0) =~= Seq::<char>::empty());
    if text.len() == 0 {
    } else {
        let width = encode_scalar(text[0] as u32).len() as int;
        let rest = text.drop_first();
        if width <= room {
            lemma_fitting(rest, room - width);
            lemma_take_encoding(text, kept);
        }
        assert forall|k: int|
            0 <= k <= text.len() && #[trigger] encode_utf8(text.take(k)).len() <= room implies k
            <= kept by {
            if k > 0 {
                lemma_take_encoding(text, k);
                assert(encode_utf8(rest.take(k - 1)).len() + width <= room);
            }
        }
    }
}

proof fn lemma_take_encoding(text: Seq<char>, k: int)
    requires
        0 < k <= text.len(),
    ensures
        encode_utf8(text.take(k)) == encode_scalar(text[0] as u32) + encode_utf8(
            text.drop_first().take(k - 1),
        ),
{
    assert(text.take(k).drop_first() =~= text.drop_first().take(k - 1));
}

/// A byte offset is a character boundary exactly where some prefix of the text ends.
proof fn lemma_boundary_is_prefix(text: Seq<char>, at: int) -> (k: int)
    requires
        is_char_boundary(encode_utf8(text), at),
    ensures
        0 <= k <= text.len(),
        at == encode_utf8(text.take(k)).len(),
    decreases text.len(),
{
    encode_utf8_valid_utf8(text);
    if at == 0 {
        assert(text.take(0) =~= Seq::<char>::empty());
        0
    } else {
        encode_utf8_first_scalar(text);
        assert(pop_first_scalar(encode_utf8(text)) =~= encode_utf8(text.drop_first()));
        let rest = lemma_boundary_is_prefix(
            text.drop_first(),
            at - encode_scalar(text[0] as u32).len(),
        );
        lemma_take_encoding(text, rest + 1);
        rest + 1
    }
}

proof fn lemma_prefix_is_boundary(text: Seq<char>, k: int)
    requires
        0 <= k <= text.len(),
    ensures
        is_char_boundary(encode_utf8(text), encode_utf8(text.take(k)).len() as int),
        encode_utf8(text.take(k)) == encode_utf8(text).subrange(
            0,
            encode_utf8(text.take(k)).len() as int,
        ),
        encode_utf8(text.take(k)).len() <= encode_utf8(text).len(),
    decreases text.len(),
{
    encode_utf8_valid_utf8(text);
    lemma_encode_concat(text.take(k), text.skip(k));
    assert(text.take(k) + text.skip(k) =~= text);
    assert(encode_utf8(text.take(k)) =~= encode_utf8(text).subrange(
        0,
        encode_utf8(text.take(k)).len() as int,
    ));
    if k > 0 {
        encode_utf8_first_scalar(text);
        assert(pop_first_scalar(encode_utf8(text)) =~= encode_utf8(text.drop_first()));
        lemma_prefix_is_boundary(text.drop_first(), k - 1);
        lemma_take_encoding(text, k);
    }
}

/// A prefix takes fewer bytes than the whole exactly where it leaves characters out.
pub proof fn lemma_prefix_shorter(text: Seq<char>, k: int)
    requires
        0 <= k <= text.len(),
    ensures
        encode_utf8(text.take(k)).len() < encode_utf8(text).len() <==> k < text.len(),
{
    lemma_encode_concat(text.take(k), text.skip(k));
    assert(text.take(k) + text.skip(k) =~= text);
    if k < text.len() {
        char_is_scalar(text[k]);
        assert(encode_utf8(text.skip(k)).len() > 0);
    } else {
        assert(text.take(k) =~= text);
    }
}

/// The part of `text` that still fits in `room` bytes, never splitting a character.
pub fn fitting_part(text: &str, room: usize) -> (part: &str)
    ensures
        part@ == text@.take(fitting(text@, room as int) as int),
{
    let total: usize = text.as_bytes().len();
    let mut boundary: usize = if room < total {
        room
    } else {
        total
    };
    let ghost kept = fitting(text@, room as int) as int;
    let ghost target = encode_utf8(text@.take(kept)).len();
    proof {
        lemma_fitting(text@, room as int);
        lemma_prefix_is_boundary(text@, kept);
    }
    while !text.is_char_boundary(boundary)
        invariant
            kept == fitting(text@, room as int),
            kept <= text@.len(),
            target == encode_utf8(text@.take(kept)).len(),
            is_char_boundary(encode_utf8(text@), target as int),
            target <= boundary <= room,
        decreases boundary,
    {
        boundary = boundary - 1;
    }
    proof {
        let k = lemma_boundary_is_prefix(text@, boundary as int);
        assert(k <= kept);
        assert(text@.take(k) =~= text@.take(kept).take(k));
        lemma_encode_concat(text@.take(k), text@.take(kept).skip(k));
        assert(text@.take(k) + text@.take(kept).skip(k) =~= text@.take(kept));
        assert(boundary == target);
    }
    let part: &str = text.split_at(boundary).0;
    proof {
        encode_utf8_decode_utf8(part@);
        encode_utf8_decode_utf8(text@.take(kept));
    }
    part
}

} // verus!
