//! What searching, trimming, case folding and decimal numbers come to, place by place.

use crate::text;
use vstd::prelude::*;

verus! {

/// From `at` on, `text` reads `pattern`, character by character.
pub open spec fn stands_at(text: Seq<char>, pattern: Seq<char>, at: int) -> bool {
    &&& 0 <= at
    &&& at + pattern.len() <= text.len()
    &&& forall|k: int| 0 <= k < pattern.len() ==> text[at + k] == #[trigger] pattern[k]
}

/// `pattern` stands at `at`, and wherever else it stands, it overlaps that place from behind.
pub open spec fn stands_once(text: Seq<char>, pattern: Seq<char>, at: int) -> bool {
    &&& stands_at(text, pattern, at)
    &&& forall|i: int| #[trigger] stands_at(text, pattern, i) ==> at <= i < at + pattern.len()
}

/// A match is a place where the text reads the pattern.
pub proof fn law_match_is_read(text: Seq<char>, pattern: Seq<char>, at: int)
    ensures
        text::matches_at(text, pattern, at) <==> stands_at(text, pattern, at),
{
    if stands_at(text, pattern, at) {
        assert(text.subrange(at, at + pattern.len()) =~= pattern);
    }
    if text::matches_at(text, pattern, at) {
        assert forall|k: int| 0 <= k < pattern.len() implies text[at + k] == #[trigger] pattern[k] by {
            assert(text.subrange(at, at + pattern.len())[k] == pattern[k]);
        }
    }
}

/// A search finds the least place where the text reads the pattern, and nothing exactly where it
/// reads it nowhere.
pub proof fn law_search_finds_the_first_place(text: Seq<char>, pattern: Seq<char>)
    ensures
        match text::first_match(text, pattern, 0) {
            Some(at) => stands_at(text, pattern, at) && forall|i: int|
                i < at ==> !stands_at(text, pattern, i),
            None => forall|i: int| !stands_at(text, pattern, i),
        },
        text::occurs(text, pattern) <==> exists|at: int| stands_at(text, pattern, at),
{
    text::lemma_first_match(text, pattern, 0);
    assert forall|i: int| text::matches_at(text, pattern, i) == stands_at(text, pattern, i) by {
        law_match_is_read(text, pattern, i);
    }
    if text::occurs(text, pattern) {
        let at = choose|at: int| text::matches_at(text, pattern, at);
        assert(stands_at(text, pattern, at));
    }
    if exists|at: int| stands_at(text, pattern, at) {
        let at = choose|at: int| stands_at(text, pattern, at);
        assert(text::matches_at(text, pattern, at));
    }
}

/// A pattern is counted once exactly where it stands once, and not at all exactly where the text reads
/// it nowhere.
pub proof fn law_count_of_one(text: Seq<char>, pattern: Seq<char>)
    requires
        pattern.len() > 0,
    ensures
        text::match_count(text, pattern, 0) == 1 <==> exists|at: int| stands_once(text, pattern, at),
        text::match_count(text, pattern, 0) == 0 <==> forall|i: int| !stands_at(text, pattern, i),
        forall|at: int| #[trigger]
            stands_once(text, pattern, at) ==> text::first_match(text, pattern, 0) == Some(at),
{
    law_search_finds_the_first_place(text, pattern);
    text::lemma_count_from_first(text, pattern, 0);
    assert forall|i: int| text::matches_at(text, pattern, i) == stands_at(text, pattern, i) by {
        law_match_is_read(text, pattern, i);
    }
    if let Some(at) = text::first_match(text, pattern, 0) {
        let rest = at + pattern.len();
        text::lemma_first_match(text, pattern, rest);
        text::lemma_count_from_first(text, pattern, rest);
        match text::first_match(text, pattern, rest) {
            Some(again) => {
                assert(stands_at(text, pattern, again));
                assert forall|other: int| !stands_once(text, pattern, other) by {
                    if stands_once(text, pattern, other) {
                        assert(stands_at(text, pattern, at));
                    }
                }
            },
            None => {
                assert forall|i: int| #[trigger] stands_at(text, pattern, i) implies at <= i < at
                    + pattern.len() by {
                    assert(text::matches_at(text, pattern, i));
                }
                assert(stands_once(text, pattern, at));
            },
        }
        assert forall|other: int| #[trigger] stands_once(text, pattern, other) implies other
            == at by {
            assert(stands_at(text, pattern, at) && stands_at(text, pattern, other));
        }
    }
}

/// White space is what Unicode calls so.
pub proof fn law_white_space(c: char)
    ensures
        text::is_white_space(c) <==> {
            let code = c as u32;
            ||| 9 <= code <= 13
            ||| code == 32
            ||| code == 133
            ||| code == 160
            ||| code == 5760
            ||| 8192 <= code <= 8202
            ||| code == 8232
            ||| code == 8233
            ||| code == 8239
            ||| code == 8287
            ||| code == 12288
        },
{
}

/// `core` is what is left of `text` without the white space around it.
pub open spec fn is_core(core: Seq<char>, text: Seq<char>) -> bool {
    exists|start: int| #[trigger] is_core_at(core, text, start)
}

/// `core` stands in `text` at `start`, with nothing but white space around it, and neither starts nor
/// ends with any.
pub open spec fn is_core_at(core: Seq<char>, text: Seq<char>, start: int) -> bool {
    &&& stands_at(text, core, start)
    &&& forall|i: int|
        0 <= i < text.len() && !(start <= i < start + core.len()) ==> text::is_white_space(
            #[trigger] text[i],
        )
    &&& core.len() > 0 ==> !text::is_white_space(core[0]) && !text::is_white_space(core.last())
}

/// Trimming leaves exactly the core of a text.
pub proof fn law_trimming_leaves_the_core(text: Seq<char>, core: Seq<char>)
    ensures
        text::trimmed(text) == core <==> is_core(core, text),
{
    let start = text::lemma_trimmed(text);
    let left = text::trimmed(text);
    assert forall|k: int| 0 <= k < left.len() implies text[start + k] == #[trigger] left[k] by {
        assert(text.subrange(start, start + left.len())[k] == left[k]);
    }
    assert(is_core_at(left, text, start));
    if is_core(core, text) {
        let other = choose|other: int| #[trigger] is_core_at(core, text, other);
        if left.len() > 0 {
            assert(text[start] == left[0]);
            assert(text[start + (left.len() - 1)] == left[left.len() - 1]);
            assert(other <= start && start + left.len() <= other + core.len());
        }
        if core.len() > 0 {
            assert(text[other] == core[0]);
            assert(text[other + (core.len() - 1)] == core[core.len() - 1]);
            assert(start <= other && other + core.len() <= start + left.len());
        }
        assert(core =~= left);
    }
}

/// `c` with an ASCII upper-case letter made lower-case.
pub open spec fn folded(c: char) -> char {
    if 65 <= c as u32 <= 90 {
        (c as u32 + 32) as char
    } else {
        c
    }
}

/// From `at` on, `text` reads `pattern`, whatever the case of its ASCII letters.
pub open spec fn stands_folded_at(text: Seq<char>, pattern: Seq<char>, at: int) -> bool {
    &&& 0 <= at
    &&& at + pattern.len() <= text.len()
    &&& forall|k: int| 0 <= k < pattern.len() ==> folded(text[at + k]) == #[trigger] pattern[k]
}

/// Case folding changes nothing but ASCII upper-case letters, each into its lower-case one, so that a
/// folded text reads a pattern where the text reads it in any case.
pub proof fn law_case_folding(text: Seq<char>, pattern: Seq<char>, at: int)
    ensures
        text::ascii_lowercase(text).len() == text.len(),
        forall|i: int|
            0 <= i < text.len() ==> #[trigger] text::ascii_lowercase(text)[i] == folded(text[i]),
        stands_at(text::ascii_lowercase(text), pattern, at) <==> stands_folded_at(
            text,
            pattern,
            at,
        ),
{
    let lower = text::ascii_lowercase(text);
    assert forall|i: int| 0 <= i < text.len() implies #[trigger] lower[i] == folded(text[i]) by {}
    if stands_at(lower, pattern, at) {
        assert forall|k: int| 0 <= k < pattern.len() implies folded(text[at + k])
            == #[trigger] pattern[k] by {
            assert(lower[at + k] == pattern[k]);
        }
    }
    if stands_folded_at(text, pattern, at) {
        assert forall|k: int| 0 <= k < pattern.len() implies lower[at + k]
            == #[trigger] pattern[k] by {
            assert(folded(text[at + k]) == pattern[k]);
        }
    }
}

/// The number that a text of digits stands for.
pub open spec fn value_of(digits: Seq<char>) -> int
    decreases digits.len(),
{
    if digits.len() == 0 {
        0
    } else {
        value_of(digits.drop_last()) * 10 + (digits.last() as int - '0' as int)
    }
}

/// A number is written in digits that stand for it, without a zero in front.
pub proof fn law_decimal(n: nat)
    ensures
        value_of(text::decimal(n)) == n,
        text::decimal(n).len() > 0,
        forall|i: int|
            0 <= i < text::decimal(n).len() ==> '0' <= #[trigger] text::decimal(n)[i] <= '9',
        n > 0 ==> text::decimal(n)[0] != '0',
    decreases n,
{
    let digits = text::decimal(n);
    if n < 10 {
        assert(digits.drop_last() =~= Seq::<char>::empty());
        assert(value_of(digits.drop_last()) == 0);
    } else {
        law_decimal(n / 10);
        assert(digits.drop_last() =~= text::decimal(n / 10));
        assert(digits[0] == text::decimal(n / 10)[0]);
    }
}

} // verus!
