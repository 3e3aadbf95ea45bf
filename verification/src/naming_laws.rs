//! Where an outbox lies and what things in it are called, character by character.

use crate::fault::{Fault, Notice};
use crate::names;
use crate::outbox;
use crate::outbox::{OutboxView, Root, Setting};
use crate::outside;
use crate::outside::UrlView;
use crate::record::{Payload, Record};
use vstd::prelude::*;
use vstd::utf8::*;

verus! {

/// The root of all outboxes is the directory that was configured; only where none was, the home
/// directory decides. An empty setting is an error, and so is a home that is not given, which is
/// called by the name that the system has for it.
pub proof fn law_root_is_configured_or_under_home<T>(
    configured: Setting<T>,
    home: Setting<T>,
    windows: bool,
    root: T,
)
    ensures
        outbox::root_of(configured, home, windows) == Ok::<Root<T>, Fault>(Root::Configured(root))
            <==> configured == Setting::Given(root),
        outbox::root_of(configured, home, windows) == Ok::<Root<T>, Fault>(Root::UnderHome(root))
            <==> configured is Unset && home == Setting::Given(root),
        outbox::root_of(configured, home, windows) == Err::<Root<T>, Fault>(
            Fault::Notice(Notice::EmptyRootVariable),
        ) <==> configured is Empty,
        outbox::root_of(configured, home, windows) == Err::<Root<T>, Fault>(
            Fault::Notice(Notice::NoUserProfile),
        ) <==> configured is Unset && !(home is Given) && windows,
        outbox::root_of(configured, home, windows) == Err::<Root<T>, Fault>(
            Fault::Notice(Notice::NoHome),
        ) <==> configured is Unset && !(home is Given) && !windows,
{
}

/// `base` is `text` up to the slashes at its end, which are all left out.
pub open spec fn is_stripped(text: Seq<char>, base: Seq<char>) -> bool {
    &&& base.len() <= text.len()
    &&& forall|i: int| 0 <= i < base.len() ==> #[trigger] base[i] == text[i]
    &&& forall|i: int| base.len() <= i < text.len() ==> #[trigger] text[i] == '/'
    &&& base.len() > 0 ==> base[base.len() - 1] != '/'
}

/// A text is stripped of the slashes at its end, of all of them and of nothing else.
pub proof fn law_slashes_are_stripped(text: Seq<char>, base: Seq<char>)
    ensures
        outbox::without_slashes(text) == base <==> is_stripped(text, base),
    decreases text.len(),
{
    if text.len() > 0 && text.last() == '/' {
        let rest = text.drop_last();
        law_slashes_are_stripped(rest, base);
        law_slashes_are_stripped(rest, outbox::without_slashes(rest));
        if is_stripped(text, base) {
            if base.len() == text.len() {
                assert(base[base.len() - 1] == text[base.len() - 1]);
                assert(false);
            }
            assert forall|i: int| base.len() <= i < rest.len() implies #[trigger] rest[i] == '/' by {
                assert(rest[i] == text[i]);
            }
            assert(is_stripped(rest, base));
        }
        if is_stripped(rest, base) {
            assert forall|i: int| base.len() <= i < text.len() implies #[trigger] text[i] == '/' by {
                if i < rest.len() {
                    assert(rest[i] == text[i]);
                }
            }
            assert(is_stripped(text, base));
        }
    } else {
        assert(is_stripped(text, text));
        if is_stripped(text, base) {
            if base.len() < text.len() {
                assert(text[text.len() - 1] == '/');
                assert(false);
            }
            assert(base =~= text);
        }
    }
}

/// A URL by which a relay can be reached: by HTTP, with a host, and with nothing that says more.
pub open spec fn reaches_relay(url: UrlView) -> bool {
    &&& url.scheme == "http"@ || url.scheme == "https"@
    &&& url.host is Some
    &&& url.username.len() == 0
    &&& url.password is None
    &&& url.query is None
    &&& url.fragment is None
}

/// An outbox is opened exactly where the secret key is one, the URL is one and reaches a relay, and
/// there is a root. It carries the keys, the URL without slashes at its end, and the tag as it is
/// given, and is named by the digest of that URL and the public key.
pub proof fn law_outbox_is_opened(
    base_url: Seq<char>,
    secret_key: Seq<char>,
    auth_tag: Option<Seq<char>>,
    root_is_empty: bool,
    view: OutboxView,
)
    ensures
        outbox::opened(base_url, secret_key, auth_tag, root_is_empty) == Ok::<OutboxView, Notice>(
            view,
        ) <==> {
            let key = outside::public_key_text(secret_key);
            let url = outside::parsed_url(base_url);
            &&& key is Some
            &&& url is Some
            &&& reaches_relay(url->0)
            &&& !root_is_empty
            &&& view.secret_key == secret_key
            &&& view.public_key == key->0
            &&& view.auth_tag == auth_tag
            &&& is_stripped(url->0.text, view.base_url)
            &&& view.namespace == outside::hex_text(
                outside::sha256_digest(encode_utf8(view.base_url)),
            ) + seq!['-'] + key->0
        },
{
    reveal_strlit("-");
    assert("-"@ =~= seq!['-']);
    if outside::parsed_url(base_url) is Some {
        let text = outside::parsed_url(base_url)->0.text;
        law_slashes_are_stripped(text, view.base_url);
        law_slashes_are_stripped(text, outbox::without_slashes(text));
    }
}

/// Why no outbox is opened: the secret key is looked at first, then whether the URL is one, then
/// whether it reaches a relay, then the root.
pub proof fn law_why_no_outbox_is_opened(
    base_url: Seq<char>,
    secret_key: Seq<char>,
    auth_tag: Option<Seq<char>>,
    root_is_empty: bool,
)
    ensures
        ({
            let opened = outbox::opened(base_url, secret_key, auth_tag, root_is_empty);
            let key = outside::public_key_text(secret_key);
            let url = outside::parsed_url(base_url);
            &&& opened == Err::<OutboxView, Notice>(Notice::InvalidSecretKey) <==> key is None
            &&& opened == Err::<OutboxView, Notice>(Notice::InvalidUrl) <==> key is Some && url
                is None
            &&& opened == Err::<OutboxView, Notice>(Notice::UnusableUrl) <==> key is Some && url
                is Some && !reaches_relay(url->0)
            &&& opened == Err::<OutboxView, Notice>(Notice::EmptyRoot) <==> key is Some && url
                is Some && reaches_relay(url->0) && root_is_empty
            &&& opened is Ok <==> key is Some && url is Some && reaches_relay(url->0)
                && !root_is_empty
        }),
{
}

/// A signed event is stored under its identifier, a draft under the digest of its text; both names
/// end in `.json`.
pub proof fn law_records_are_named(record: Record, bytes: Seq<u8>)
    ensures
        ({
            let name = outbox::record_name_of(record, bytes);
            let end = seq!['.', 'j', 's', 'o', 'n'];
            match record.payload {
                Payload::Pending { event } => name == event.id@ + end,
                Payload::Deferred { .. } => name == seq![
                    'd',
                    'e',
                    'f',
                    'e',
                    'r',
                    'r',
                    'e',
                    'd',
                    '-',
                ] + outside::hex_text(outside::sha256_digest(bytes)) + end,
            }
        }),
        forall|digest: Seq<u8>| #[trigger]
            outbox::name_by_digest(record, digest) == (match record.payload {
                Payload::Pending { event } => event.id@ + ".json"@,
                Payload::Deferred { .. } => "deferred-"@ + outside::hex_text(digest) + ".json"@,
            }),
{
    reveal_strlit(".json");
    reveal_strlit("deferred-");
    assert(".json"@ =~= seq!['.', 'j', 's', 'o', 'n']);
    assert("deferred-"@ =~= seq!['d', 'e', 'f', 'e', 'r', 'r', 'e', 'd', '-']);
}

/// The value of a decimal digit.
pub open spec fn worth(c: char) -> int {
    c as int - '0' as int
}

proof fn lemma_four_digits(slot: int)
    requires
        0 <= slot < 10000,
    ensures
        0 <= slot / 1000 % 10 < 10,
        0 <= slot / 100 % 10 < 10,
        0 <= slot / 10 % 10 < 10,
        0 <= slot % 10 < 10,
        slot / 1000 % 10 * 1000 + slot / 100 % 10 * 100 + slot / 10 % 10 * 10 + slot % 10 == slot,
{
    let tens = slot / 10;
    let hundreds = tens / 10;
    let thousands = hundreds / 10;
    assert(slot / 100 == hundreds);
    assert(slot / 1000 == thousands);
    assert(0 <= thousands < 10);
}

/// The name of a slot is `slot-` and the number of the slot in four decimal digits.
pub proof fn law_slot_name_is_its_number(slot: int)
    requires
        0 <= slot < 10000,
    ensures
        ({
            let name = names::slot_name_of(slot);
            &&& name.len() == 9
            &&& name[0] == 's' && name[1] == 'l' && name[2] == 'o' && name[3] == 't' && name[4]
                == '-'
            &&& forall|i: int| 5 <= i < 9 ==> '0' <= #[trigger] name[i] <= '9'
            &&& worth(name[5]) * 1000 + worth(name[6]) * 100 + worth(name[7]) * 10 + worth(name[8])
                == slot
        }),
{
    reveal_strlit("slot-");
    let name = names::slot_name_of(slot);
    lemma_four_digits(slot);
}

/// A directory entry is a slot exactly where it has the name of one of the 64 slots.
pub proof fn law_which_entries_are_slots(name: Seq<u8>, slot: int)
    ensures
        names::slot_named(name) == Some(slot) <==> 0 <= slot < 64 && name == encode_utf8(
            names::slot_name_of(slot),
        ),
        names::slot_named(name) is None <==> forall|other: int|
            0 <= other < 64 ==> name != #[trigger] encode_utf8(names::slot_name_of(other)),
{
    if 0 <= slot < 64 && name == encode_utf8(names::slot_name_of(slot)) {
        names::law_slot_is_found_by_its_name(slot);
    }
}

/// The full stop at `at` parts a file name from its extension: it is the last one, something stands
/// before it, and the name is not that of the parent directory.
pub open spec fn parts_extension(name: Seq<u8>, at: int) -> bool {
    &&& 0 < at < name.len()
    &&& name[at] == 46
    &&& forall|i: int| at < i < name.len() ==> #[trigger] name[i] != 46
    &&& !(name.len() == 2 && name[0] == 46 && name[1] == 46)
}

proof fn lemma_last_dot(name: Seq<u8>, end: int)
    requires
        end <= name.len(),
    ensures
        match names::last_dot(name, end) {
            Some(at) => 0 <= at < end && name[at] == 46 && forall|i: int|
                at < i < end ==> #[trigger] name[i] != 46,
            None => forall|i: int| 0 <= i < end ==> #[trigger] name[i] != 46,
        },
    decreases end,
{
    if end > 0 && name[end - 1] != 46 {
        lemma_last_dot(name, end - 1);
    }
}

proof fn lemma_extension_dot(name: Seq<u8>, at: int)
    ensures
        names::extension_dot(name) == Some(at) <==> parts_extension(name, at),
{
    lemma_last_dot(name, name.len() as int);
    assert(name == seq![46u8, 46u8] <==> name.len() == 2 && name[0] == 46 && name[1] == 46) by {
        if name.len() == 2 && name[0] == 46 && name[1] == 46 {
            assert(name =~= seq![46u8, 46u8]);
        }
    }
    if parts_extension(name, at) {
        let found = names::last_dot(name, name.len() as int);
        assert(found is Some);
        if found->0 < at {
            assert(name[at] != 46);
        } else if found->0 > at {
            assert(name[found->0] != 46);
        }
    }
}

/// The extension of a file name is what stands behind the full stop that parts it, and the stage file
/// is named by what stands before that full stop; a name without such a full stop has no extension,
/// and is whole in the name of the stage file.
pub proof fn law_extension_is_parted(name: Seq<u8>, at: int)
    ensures
        parts_extension(name, at) ==> names::extension(name) == Some(
            name.subrange(at + 1, name.len() as int),
        ) && names::stage_name_of(name) == name.subrange(0, at) + encode_utf8(".stage"@),
        (forall|i: int| !#[trigger] parts_extension(name, i)) ==> names::extension(name) is None
            && names::stage_name_of(name) == name + encode_utf8(".stage"@),
{
    lemma_extension_dot(name, at);
    if parts_extension(name, at) {
        assert(name.skip(at + 1) =~= name.subrange(at + 1, name.len() as int));
        assert(name.take(at) =~= name.subrange(0, at));
    }
    if forall|i: int| !#[trigger] parts_extension(name, i) {
        if let Some(found) = names::extension_dot(name) {
            lemma_extension_dot(name, found);
            assert(false);
        }
    }
}

} // verus!
