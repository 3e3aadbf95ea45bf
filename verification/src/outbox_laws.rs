//! What the names in an outbox tell apart.

use crate::event;
use crate::outbox;
use crate::outbox::OutboxView;
use crate::outside;
use crate::record::{Payload, Record};
use vstd::prelude::*;
use vstd::utf8::*;

verus! {

proof fn lemma_hex_digits_differ(a: int, b: int)
    requires
        0 <= a < 16,
        0 <= b < 16,
        outside::hex_digit(a) == outside::hex_digit(b),
    ensures
        a == b,
{
}

/// The two digits of a byte.
proof fn lemma_hex_pair(bytes: Seq<u8>, i: int)
    requires
        0 <= i < bytes.len(),
    ensures
        outside::hex_text(bytes)[2 * i] == outside::hex_digit(bytes[i] as int / 16),
        outside::hex_text(bytes)[2 * i + 1] == outside::hex_digit(bytes[i] as int % 16),
{
    assert((2 * i) / 2 == i && (2 * i) % 2 == 0);
    assert((2 * i + 1) / 2 == i && (2 * i + 1) % 2 == 1);
}

/// Different bytes are written differently.
pub proof fn lemma_hex_texts_differ(a: Seq<u8>, b: Seq<u8>)
    requires
        outside::hex_text(a) == outside::hex_text(b),
    ensures
        a == b,
{
    assert(outside::hex_text(a).len() == 2 * a.len());
    assert(outside::hex_text(b).len() == 2 * b.len());
    assert forall|i: int| 0 <= i < a.len() implies a[i] == b[i] by {
        lemma_hex_pair(a, i);
        lemma_hex_pair(b, i);
        lemma_hex_digits_differ(a[i] as int / 16, b[i] as int / 16);
        lemma_hex_digits_differ(a[i] as int % 16, b[i] as int % 16);
    }
    assert(a =~= b);
}

/// The text of bytes has two digits for each byte, all of them lower-case.
pub proof fn lemma_hex_text_digits(bytes: Seq<u8>)
    ensures
        outside::hex_text(bytes).len() == 2 * bytes.len(),
        forall|i: int|
            0 <= i < 2 * bytes.len() ==> event::is_lower_hex_digit(
                #[trigger] outside::hex_text(bytes)[i],
            ),
{
    assert forall|i: int| 0 <= i < 2 * bytes.len() implies event::is_lower_hex_digit(
        #[trigger] outside::hex_text(bytes)[i],
    ) by {
        let byte = bytes[i / 2] as int;
        assert(0 <= byte / 16 < 16 && 0 <= byte % 16 < 16);
    }
}

/// The name of an outbox is a plain directory name, whatever the relay and the identity.
pub proof fn law_namespace_is_a_directory_name(digest: Seq<u8>, public_key: Seq<char>)
    requires
        digest.len() == 32,
        event::is_key_text(public_key),
    ensures
        outbox::is_directory_name(outbox::namespace_of(digest, public_key)),
{
    reveal_strlit("-");
    lemma_hex_text_digits(digest);
    let name = outbox::namespace_of(digest, public_key);
    assert forall|i: int| 0 <= i < 129 && i != 64 implies event::is_lower_hex_digit(
        #[trigger] name[i],
    ) by {
        if i < 64 {
            assert(name[i] == outside::hex_text(digest)[i]);
        } else {
            assert(name[i] == public_key[i - 65]);
        }
    }
}

/// The outboxes of two identities, and those of one identity at relays whose URLs have different
/// digests, have different names.
pub proof fn law_outboxes_are_apart(a: Seq<u8>, b: Seq<u8>, one: Seq<char>, other: Seq<char>)
    requires
        outbox::namespace_of(a, one) == outbox::namespace_of(b, other),
    ensures
        a == b,
        one == other,
{
    reveal_strlit("-");
    lemma_hex_text_digits(a);
    lemma_hex_text_digits(b);
    let name = outbox::namespace_of(a, one);
    let end = 2 * a.len() as int;
    let other_end = 2 * b.len() as int;
    assert(name[end] == '-');
    assert(outbox::namespace_of(b, other)[other_end] == '-');
    if end < other_end {
        assert(event::is_lower_hex_digit(outside::hex_text(b)[end]));
        assert(outbox::namespace_of(b, other)[end] == outside::hex_text(b)[end]);
    } else if other_end < end {
        assert(event::is_lower_hex_digit(outside::hex_text(a)[other_end]));
        assert(name[other_end] == outside::hex_text(a)[other_end]);
    }
    assert(outside::hex_text(a) =~= name.take(end));
    assert(outside::hex_text(b) =~= outbox::namespace_of(b, other).take(end));
    lemma_hex_texts_differ(a, b);
    assert(one =~= name.skip(end + 1));
    assert(other =~= outbox::namespace_of(b, other).skip(end + 1));
}

/// Two outboxes that are open have the same name only where they belong to the same identity.
pub proof fn law_identities_have_their_own_outboxes(
    one_url: Seq<char>,
    one_key: Seq<char>,
    other_url: Seq<char>,
    other_key: Seq<char>,
    tag: Option<Seq<char>>,
)
    ensures
        match (
            outbox::opened(one_url, one_key, tag, false),
            outbox::opened(other_url, other_key, tag, false),
        ) {
            (Ok(one), Ok(other)) => one.public_key != other.public_key ==> one.namespace
                != other.namespace,
            _ => true,
        },
{
    if let (Ok(one), Ok(other)) = (
        outbox::opened(one_url, one_key, tag, false),
        outbox::opened(other_url, other_key, tag, false),
    ) {
        if one.namespace == other.namespace {
            law_outboxes_are_apart(
                outside::sha256_digest(encode_utf8(one.base_url)),
                outside::sha256_digest(encode_utf8(other.base_url)),
                one.public_key,
                other.public_key,
            );
        }
    }
}

/// One more slash at the end makes no difference to a relay's URL.
pub proof fn law_another_slash_is_dropped(text: Seq<char>)
    ensures
        outbox::without_slashes(text + "/"@) == outbox::without_slashes(text),
{
    reveal_strlit("/");
    assert((text + "/"@).drop_last() =~= text);
}

/// Two URLs whose normal forms are the same, or differ in one more slash at the end, open the same
/// outbox for an identity.
pub proof fn law_slashes_do_not_split_an_outbox(
    one: Seq<char>,
    other: Seq<char>,
    secret_key: Seq<char>,
    tag: Option<Seq<char>>,
    root_is_empty: bool,
)
    ensures
        match (outside::parsed_url(one), outside::parsed_url(other)) {
            (Some(a), Some(b)) => (b.text == a.text || b.text == a.text + "/"@)
                && outbox::is_relay_url(a) && outbox::is_relay_url(b) ==> outbox::opened(
                one,
                secret_key,
                tag,
                root_is_empty,
            ) == outbox::opened(
                other,
                secret_key,
                tag,
                root_is_empty,
            ),
            _ => true,
        },
{
    if let Some(a) = outside::parsed_url(one) {
        law_another_slash_is_dropped(a.text);
    }
}

/// A relay's URL is kept without the slashes at its end, and otherwise as it is.
pub proof fn law_base_url_ends_in_no_slash(text: Seq<char>)
    ensures
        ({
            let base = outbox::without_slashes(text);
            &&& base.len() == 0 || base.last() != '/'
            &&& base.len() <= text.len()
            &&& base == text.take(base.len() as int)
            &&& forall|i: int| base.len() <= i < text.len() ==> text[i] == '/'
        }),
    decreases text.len(),
{
    if text.len() > 0 && text.last() == '/' {
        let rest = text.drop_last();
        law_base_url_ends_in_no_slash(rest);
        let base = outbox::without_slashes(text);
        assert(rest.take(base.len() as int) =~= text.take(base.len() as int));
        assert forall|i: int| base.len() <= i < text.len() implies text[i] == '/' by {
            if i < rest.len() {
                assert(text[i] == rest[i]);
            }
        }
    } else {
        assert(text.take(text.len() as int) =~= text);
    }
}

/// Two records of an outbox have the same name only where both hold the same event, or both are
/// drafts whose texts have the same digest.
pub proof fn law_record_names_tell_records_apart(
    outbox: OutboxView,
    a: Record,
    b: Record,
    one: Seq<u8>,
    other: Seq<u8>,
)
    requires
        outbox.record_checked(a) is Ok,
        outbox.record_checked(b) is Ok,
        outbox::name_by_digest(a, one) == outbox::name_by_digest(b, other),
    ensures
        match (a.pending_id(), b.pending_id()) {
            (Some(id), Some(same)) => id == same,
            (None, None) => one == other,
            _ => false,
        },
{
    reveal_strlit(".json");
    reveal_strlit("deferred-");
    let name = outbox::name_by_digest(a, one);
    match (a.payload, b.payload) {
        (Payload::Pending { event: x }, Payload::Pending { event: y }) => {
            assert(x.id@ =~= name.take(64));
            assert(y.id@ =~= outbox::name_by_digest(b, other).take(64));
        },
        (Payload::Deferred { .. }, Payload::Deferred { .. }) => {
            lemma_hex_text_digits(one);
            lemma_hex_text_digits(other);
            assert(name.len() == 14 + 2 * one.len());
            assert(outbox::name_by_digest(b, other).len() == 14 + 2 * other.len());
            assert(outside::hex_text(one) =~= name.subrange(9, name.len() - 5));
            assert(outside::hex_text(other) =~= outbox::name_by_digest(b, other).subrange(
                9,
                name.len() - 5,
            ));
            lemma_hex_texts_differ(one, other);
        },
        (Payload::Pending { event: x }, Payload::Deferred { .. }) => {
            assert(event::is_lower_hex_digit(x.id@[4]));
            assert(name[4] == x.id@[4]);
            assert(outbox::name_by_digest(b, other)[4] == "deferred-"@[4]);
        },
        (Payload::Deferred { .. }, Payload::Pending { event: y }) => {
            assert(event::is_lower_hex_digit(y.id@[4]));
            assert(outbox::name_by_digest(b, other)[4] == y.id@[4]);
            assert(name[4] == "deferred-"@[4]);
        },
    }
}

} // verus!
