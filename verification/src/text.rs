//! Text as a sequence of characters: searching, trimming, case folding and numbers.

use vstd::prelude::*;
use vstd::utf8::*;

verus! {

/// `pattern` stands in `text` with its first character at `at`.
pub open spec fn matches_at(text: Seq<char>, pattern: Seq<char>, at: int) -> bool {
    &&& 0 <= at
    &&& at + pattern.len() <= text.len()
    &&& text.subrange(at, at + pattern.len()) == pattern
}

/// `pattern` stands somewhere in `text`.
pub open spec fn occurs(text: Seq<char>, pattern: Seq<char>) -> bool {
    exists|at: int| matches_at(text, pattern, at)
}

/// The least position at or after `from` where `pattern` stands in `text`.
pub open spec fn first_match(text: Seq<char>, pattern: Seq<char>, from: int) -> Option<int>
    decreases text.len() - from + 1,
{
    if from < 0 || from + pattern.len() > text.len() {
        None
    } else if matches_at(text, pattern, from) {
        Some(from)
    } else {
        first_match(text, pattern, from + 1)
    }
}

/// How often `pattern` stands in `text` from `from` on, reading left to right and resuming after
/// each match, so that matches never overlap. An empty pattern is not counted.
pub open spec fn match_count(text: Seq<char>, pattern: Seq<char>, from: int) -> nat
    decreases text.len() - from,
{
    if pattern.len() == 0 || from < 0 || from + pattern.len() > text.len() {
        0
    } else if matches_at(text, pattern, from) {
        1 + match_count(text, pattern, from + pattern.len())
    } else {
        match_count(text, pattern, from + 1)
    }
}

/// `first_match` is the least match, and there is none exactly where it is `None`.
pub proof fn lemma_first_match(text: Seq<char>, pattern: Seq<char>, from: int)
    requires
        0 <= from,
    ensures
        match first_match(text, pattern, from) {
            Some(at) => {
                &&& from <= at
                &&& matches_at(text, pattern, at)
                &&& forall|i: int| from <= i < at ==> !matches_at(text, pattern, i)
            },
            None => forall|i: int| from <= i ==> !matches_at(text, pattern, i),
        },
    decreases text.len() - from + 1,
{
    if from + pattern.len() > text.len() {
    } else if matches_at(text, pattern, from) {
    } else {
        lemma_first_match(text, pattern, from + 1);
    }
}

/// Counting ahead of the first match sees nothing, so the count starts there.
pub proof fn lemma_count_from_first(text: Seq<char>, pattern: Seq<char>, from: int)
    requires
        0 <= from,
        pattern.len() > 0,
    ensures
        match first_match(text, pattern, from) {
            Some(at) => match_count(text, pattern, from) == 1 + match_count(
                text,
                pattern,
                at + pattern.len(),
            ),
            None => match_count(text, pattern, from) == 0,
        },
    decreases text.len() - from,
{
    if from + pattern.len() > text.len() {
    } else if matches_at(text, pattern, from) {
    } else {
        lemma_count_from_first(text, pattern, from + 1);
    }
}

/// A pattern that stands at exactly one position is counted once and found there.
pub proof fn lemma_sole_match(text: Seq<char>, pattern: Seq<char>, at: int)
    requires
        pattern.len() > 0,
        matches_at(text, pattern, at),
        forall|i: int| matches_at(text, pattern, i) ==> i == at,
    ensures
        match_count(text, pattern, 0) == 1,
        first_match(text, pattern, 0) == Some(at),
{
    lemma_first_match(text, pattern, 0);
    lemma_count_from_first(text, pattern, 0);
    lemma_first_match(text, pattern, at + pattern.len());
    lemma_count_from_first(text, pattern, at + pattern.len());
}

/// The characters of `text`.
pub fn chars_of(text: &str) -> (chars: Vec<char>)
    ensures
        chars@ == text@,
{
    let mut chars: Vec<char> = Vec::new();
    for c in it: text.chars()
        invariant
            it.seq() == text@,
            chars@ == it.seq().take(it.index() as int),
    {
        chars.push(c);
    }
    chars
}

/// Whether `pattern` stands in `text` at `at`.
fn stands_at(text: &Vec<char>, pattern: &Vec<char>, at: usize) -> (found: bool)
    requires
        at + pattern@.len() <= text@.len(),
    ensures
        found == matches_at(text@, pattern@, at as int),
{
    let total: usize = text.len();
    let mut i: usize = 0;
    while i < pattern.len()
        invariant
            total == text@.len(),
            i <= pattern@.len(),
            at + pattern@.len() <= text@.len(),
            forall|k: int| 0 <= k < i ==> text@[at + k] == pattern@[k],
        decreases pattern@.len() - i,
    {
        if text[at + i] != pattern[i] {
            assert(text@.subrange(at as int, at + pattern@.len())[i as int] != pattern@[i as int]);
            return false;
        }
        i = i + 1;
    }
    assert(text@.subrange(at as int, at + pattern@.len()) =~= pattern@);
    true
}

/// The least position of `pattern` in `text` at or after `from`.
pub fn find(text: &Vec<char>, pattern: &Vec<char>, from: usize) -> (found: Option<usize>)
    ensures
        match found {
            Some(at) => first_match(text@, pattern@, from as int) == Some(at as int),
            None => first_match(text@, pattern@, from as int) is None,
        },
{
    if pattern.len() > text.len() {
        return None;
    }
    let last: usize = text.len() - pattern.len();
    let mut at: usize = from;
    while at <= last
        invariant
            last + pattern@.len() == text@.len(),
            from <= at,
            first_match(text@, pattern@, from as int) == first_match(text@, pattern@, at as int),
        decreases last + 1 - at,
    {
        if stands_at(text, pattern, at) {
            return Some(at);
        }
        if at == last {
            assert(first_match(text@, pattern@, at + 1) is None);
            return None;
        }
        at = at + 1;
    }
    None
}

/// The number of matches of a non-empty `pattern` in `text` that do not overlap.
pub fn count(text: &Vec<char>, pattern: &Vec<char>) -> (total: usize)
    requires
        pattern@.len() > 0,
    ensures
        total == match_count(text@, pattern@, 0),
{
    let len: usize = text.len();
    let mut total: usize = 0;
    let mut at: usize = 0;
    loop
        invariant
            len == text@.len(),
            pattern@.len() > 0,
            at <= text@.len(),
            total <= at,
            total + match_count(text@, pattern@, at as int) == match_count(text@, pattern@, 0),
        decreases text@.len() - at,
    {
        proof {
            lemma_first_match(text@, pattern@, at as int);
            lemma_count_from_first(text@, pattern@, at as int);
        }
        match find(text, pattern, at) {
            Some(found) => {
                total = total + 1;
                at = found + pattern.len();
            },
            None => {
                return total;
            },
        }
    }
}

/// Whether `pattern` stands anywhere in `text`.
pub fn contains(text: &Vec<char>, pattern: &Vec<char>) -> (found: bool)
    ensures
        found == occurs(text@, pattern@),
{
    proof {
        lemma_first_match(text@, pattern@, 0);
    }
    match find(text, pattern, 0) {
        Some(at) => {
            assert(matches_at(text@, pattern@, at as int));
            true
        },
        None => {
            false
        },
    }
}

/// The characters with the Unicode property White_Space.
pub open spec fn is_white_space(c: char) -> bool {
    ||| '\u{9}' <= c <= '\u{d}'
    ||| c == ' '
    ||| c == '\u{85}'
    ||| c == '\u{a0}'
    ||| c == '\u{1680}'
    ||| '\u{2000}' <= c <= '\u{200a}'
    ||| c == '\u{2028}'
    ||| c == '\u{2029}'
    ||| c == '\u{202f}'
    ||| c == '\u{205f}'
    ||| c == '\u{3000}'
}

/// `text` without the white space that it starts with.
pub open spec fn trim_start(text: Seq<char>) -> Seq<char>
    decreases text.len(),
{
    if text.len() > 0 && is_white_space(text[0]) {
        trim_start(text.drop_first())
    } else {
        text
    }
}

/// `text` without the white space that it ends with.
pub open spec fn trim_end(text: Seq<char>) -> Seq<char>
    decreases text.len(),
{
    if text.len() > 0 && is_white_space(text.last()) {
        trim_end(text.drop_last())
    } else {
        text
    }
}

/// `text` without white space at either end.
pub open spec fn trimmed(text: Seq<char>) -> Seq<char> {
    trim_end(trim_start(text))
}

/// What is left after trimming neither starts nor ends with white space, and stands in `text` with
/// nothing but white space around it.
pub proof fn lemma_trimmed(text: Seq<char>) -> (start: int)
    ensures
        0 <= start,
        start + trimmed(text).len() <= text.len(),
        trimmed(text) == text.subrange(start, start + trimmed(text).len()),
        forall|i: int| 0 <= i < start ==> is_white_space(text[i]),
        forall|i: int|
            start + trimmed(text).len() <= i < text.len() ==> is_white_space(text[i]),
        trimmed(text).len() > 0 ==> !is_white_space(trimmed(text)[0]) && !is_white_space(
            trimmed(text).last(),
        ),
{
    let start = lemma_trim_start(text);
    lemma_trim_end(trim_start(text));
    assert forall|i: int|
        start + trimmed(text).len() <= i < text.len() implies is_white_space(text[i]) by {
        assert(text[i] == trim_start(text)[i - start]);
    }
    start
}

proof fn lemma_trim_start(text: Seq<char>) -> (start: int)
    ensures
        0 <= start <= text.len(),
        trim_start(text) == text.subrange(start, text.len() as int),
        forall|i: int| 0 <= i < start ==> is_white_space(text[i]),
        start < text.len() ==> !is_white_space(text[start]),
    decreases text.len(),
{
    if text.len() > 0 && is_white_space(text[0]) {
        let rest = lemma_trim_start(text.drop_first());
        assert forall|i: int| 0 <= i < rest + 1 implies is_white_space(text[i]) by {
            if i > 0 {
                assert(text[i] == text.drop_first()[i - 1]);
            }
        }
        assert(text.drop_first().subrange(rest, text.len() - 1) =~= text.subrange(
            rest + 1,
            text.len() as int,
        ));
        rest + 1
    } else {
        assert(text.subrange(0, text.len() as int) =~= text);
        0
    }
}

proof fn lemma_trim_end(text: Seq<char>)
    ensures
        trim_end(text).len() <= text.len(),
        trim_end(text) == text.subrange(0, trim_end(text).len() as int),
        forall|i: int| trim_end(text).len() <= i < text.len() ==> is_white_space(text[i]),
        trim_end(text).len() > 0 ==> !is_white_space(trim_end(text).last()),
    decreases text.len(),
{
    if text.len() > 0 && is_white_space(text.last()) {
        lemma_trim_end(text.drop_last());
        assert(text.drop_last().subrange(0, trim_end(text).len() as int) =~= text.subrange(
            0,
            trim_end(text).len() as int,
        ));
        assert forall|i: int| trim_end(text).len() <= i < text.len() implies is_white_space(
            text[i],
        ) by {
            if i < text.len() - 1 {
                assert(text[i] == text.drop_last()[i]);
            }
        }
    } else {
        assert(text.subrange(0, text.len() as int) =~= text);
    }
}

/// Whether `c` is white space.
fn white_space(c: char) -> (yes: bool)
    ensures
        yes == is_white_space(c),
{
    ('\u{9}' <= c && c <= '\u{d}') || c == ' ' || c == '\u{85}' || c == '\u{a0}' || c == '\u{1680}'
        || ('\u{2000}' <= c && c <= '\u{200a}') || c == '\u{2028}' || c == '\u{2029}' || c
        == '\u{202f}' || c == '\u{205f}' || c == '\u{3000}'
}

/// The bounds of what is left of `chars[from..to]` after trimming.
pub fn trim_range(chars: &Vec<char>, from: usize, to: usize) -> (range: (usize, usize))
    requires
        from <= to <= chars@.len(),
    ensures
        from <= range.0 <= range.1 <= to,
        chars@.subrange(range.0 as int, range.1 as int) == trimmed(
            chars@.subrange(from as int, to as int),
        ),
{
    let mut start: usize = from;
    while start < to && white_space(chars[start])
        invariant
            from <= start <= to <= chars@.len(),
            trim_start(chars@.subrange(from as int, to as int)) == trim_start(
                chars@.subrange(start as int, to as int),
            ),
        decreases to - start,
    {
        assert(chars@.subrange(start as int, to as int).drop_first() =~= chars@.subrange(
            start + 1,
            to as int,
        ));
        start = start + 1;
    }
    let mut end: usize = to;
    while end > start && white_space(chars[end - 1])
        invariant
            from <= start <= end <= to <= chars@.len(),
            trim_end(chars@.subrange(start as int, to as int)) == trim_end(
                chars@.subrange(start as int, end as int),
            ),
        decreases end - start,
    {
        assert(chars@.subrange(start as int, end as int).drop_last() =~= chars@.subrange(
            start as int,
            end - 1,
        ));
        end = end - 1;
    }
    (start, end)
}

/// `c` with an ASCII upper-case letter made lower-case.
pub open spec fn ascii_lower(c: char) -> char {
    if 'A' <= c <= 'Z' {
        (c as u8 + 32) as char
    } else {
        c
    }
}

/// `text` with every ASCII upper-case letter made lower-case.
pub open spec fn ascii_lowercase(text: Seq<char>) -> Seq<char> {
    text.map_values(|c: char| ascii_lower(c))
}

/// `chars[from..to]` with every ASCII upper-case letter made lower-case.
pub fn lowered(chars: &Vec<char>, from: usize, to: usize) -> (lower: Vec<char>)
    requires
        from <= to <= chars@.len(),
    ensures
        lower@ == ascii_lowercase(chars@.subrange(from as int, to as int)),
{
    let mut lower: Vec<char> = Vec::new();
    let mut i: usize = from;
    while i < to
        invariant
            from <= i <= to <= chars@.len(),
            lower@ == ascii_lowercase(chars@.subrange(from as int, i as int)),
        decreases to - i,
    {
        let c: char = chars[i];
        if 'A' <= c && c <= 'Z' {
            lower.push((c as u8 + 32) as char);
        } else {
            lower.push(c);
        }
        assert(chars@.subrange(from as int, i + 1) =~= chars@.subrange(from as int, i as int).push(
            c,
        ));
        i = i + 1;
    }
    lower
}

/// The characters `chars[from..to]`.
pub fn slice_of(chars: &Vec<char>, from: usize, to: usize) -> (part: Vec<char>)
    requires
        from <= to <= chars@.len(),
    ensures
        part@ == chars@.subrange(from as int, to as int),
{
    let mut part: Vec<char> = Vec::new();
    let mut i: usize = from;
    while i < to
        invariant
            from <= i <= to <= chars@.len(),
            part@ == chars@.subrange(from as int, i as int),
        decreases to - i,
    {
        part.push(chars[i]);
        i = i + 1;
    }
    part
}

/// Whether two byte strings are equal.
pub fn same_bytes(a: &[u8], b: &[u8]) -> (same: bool)
    ensures
        same == (a@ == b@),
{
    if a.len() != b.len() {
        return false;
    }
    let mut i: usize = 0;
    while i < a.len()
        invariant
            i <= a@.len() == b@.len(),
            forall|k: int| 0 <= k < i ==> a@[k] == b@[k],
        decreases a@.len() - i,
    {
        if a[i] != b[i] {
            return false;
        }
        i = i + 1;
    }
    assert(a@ =~= b@);
    true
}

/// Whether two texts are equal.
pub fn same_text(a: &str, b: &str) -> (same: bool)
    ensures
        same == (a@ == b@),
{
    proof {
        encode_utf8_decode_utf8(a@);
        encode_utf8_decode_utf8(b@);
    }
    same_bytes(a.as_bytes(), b.as_bytes())
}

/// The length of `text` in UTF-8 bytes.
pub fn byte_len(text: &str) -> (len: usize)
    ensures
        len == encode_utf8(text@).len(),
{
    text.as_bytes().len()
}

/// The digit that stands for `n`.
pub open spec fn digit(n: int) -> char {
    ('0' as int + n) as char
}

/// `n` in decimal.
pub open spec fn decimal(n: nat) -> Seq<char>
    decreases n,
{
    if n < 10 {
        seq![digit(n as int)]
    } else {
        decimal(n / 10).push(digit((n % 10) as int))
    }
}

/// The digit for `n` as text.
pub fn digit_text(n: usize) -> (text: &'static str)
    requires
        n < 10,
    ensures
        text@ == seq![digit(n as int)],
{
    proof {
        reveal_strlit("0");
        reveal_strlit("1");
        reveal_strlit("2");
        reveal_strlit("3");
        reveal_strlit("4");
        reveal_strlit("5");
        reveal_strlit("6");
        reveal_strlit("7");
        reveal_strlit("8");
        reveal_strlit("9");
    }
    match n {
        0 => "0",
        1 => "1",
        2 => "2",
        3 => "3",
        4 => "4",
        5 => "5",
        6 => "6",
        7 => "7",
        8 => "8",
        _ => "9",
    }
}

/// `n` in decimal.
pub fn decimal_text(n: usize) -> (text: String)
    ensures
        text@ == decimal(n as nat),
    decreases n,
{
    if n < 10 {
        digit_text(n).to_owned()
    } else {
        let mut text: String = decimal_text(n / 10);
        text.append(digit_text(n % 10));
        text
    }
}

} // verus!
