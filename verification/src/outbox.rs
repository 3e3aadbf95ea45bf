//! The outbox of one identity at one relay: where it lies, and which records belong to it.

use crate::event;
use crate::event::Event;
use crate::fault::{Fault, Notice};
use crate::outside;
use crate::outside::{hex_encode, parse_url, public_key_of, sha256, verify_event, UrlParts, UrlView};
use crate::record::{
    Payload, Record, MAX_REASON_BYTES, MAX_TEXT_BYTES, MAX_TURN_BYTES,
};
use crate::text;
use vstd::prelude::*;
use vstd::utf8::*;

verus! {

/// A setting of the environment.
#[derive(Debug, PartialEq, Eq)]
pub enum Setting<T> {
    Unset,
    Empty,
    Given(T),
}

/// The directory under which all outboxes lie.
#[derive(Debug, PartialEq, Eq)]
pub enum Root<T> {
    /// The directory that was configured.
    Configured(T),
    /// The directory `.buzz/auto-publish-outbox` of this home directory.
    UnderHome(T),
}

/// The directories below a home directory under which all outboxes lie.
pub const HOME_DIRECTORIES: (&'static str, &'static str) = (".buzz", "auto-publish-outbox");

/// What an outbox works with.
pub struct OutboxView {
    /// The relay's URL, without a slash at its end.
    pub base_url: Seq<char>,
    pub secret_key: Seq<char>,
    pub public_key: Seq<char>,
    /// The name of the outbox among those of other relays and identities.
    pub namespace: Seq<char>,
    /// What is sent along with each request, where there is anything.
    pub auth_tag: Option<Seq<char>>,
}

/// The outbox of one identity at one relay.
pub struct Outbox {
    base_url: String,
    secret_key: String,
    public_key: String,
    namespace: String,
    auth_tag_json: Option<String>,
}

impl View for Outbox {
    type V = OutboxView;

    closed spec fn view(&self) -> OutboxView {
        OutboxView {
            base_url: self.base_url@,
            secret_key: self.secret_key@,
            public_key: self.public_key@,
            namespace: self.namespace@,
            auth_tag: outside::optional(self.auth_tag_json),
        }
    }
}

/// The directory under which all outboxes lie, by the settings of the environment.
pub open spec fn root_of<T>(configured: Setting<T>, home: Setting<T>, windows: bool) -> Result<
    Root<T>,
    Fault,
> {
    match configured {
        Setting::Given(root) => Ok(Root::Configured(root)),
        Setting::Empty => Err(Fault::Notice(Notice::EmptyRootVariable)),
        Setting::Unset => match home {
            Setting::Given(home) => Ok(Root::UnderHome(home)),
            _ => Err(
                Fault::Notice(
                    if windows {
                        Notice::NoUserProfile
                    } else {
                        Notice::NoHome
                    },
                ),
            ),
        },
    }
}

/// The directory under which all outboxes lie, by the settings of the environment.
pub fn default_root<T>(configured: Setting<T>, home: Setting<T>, windows: bool) -> (root: Result<
    Root<T>,
    Fault,
>)
    ensures
        root == root_of(configured, home, windows),
{
    Outbox::default_root(configured, home, windows)
}

/// `text` without the slashes at its end.
pub open spec fn without_slashes(text: Seq<char>) -> Seq<char>
    decreases text.len(),
{
    if text.len() > 0 && text.last() == '/' {
        without_slashes(text.drop_last())
    } else {
        text
    }
}

/// A relay is reached by HTTP, and its URL says nothing but where it is.
pub open spec fn is_relay_url(url: UrlView) -> bool {
    &&& url.scheme == "http"@ || url.scheme == "https"@
    &&& url.host is Some
    &&& url.username.len() == 0
    &&& url.password is None
    &&& url.query is None
    &&& url.fragment is None
}

/// The URL of the relay without a slash at its end, where `parts` are those of a relay's URL.
pub fn relay_base(parts: &UrlParts) -> (base: Option<String>)
    ensures
        match base {
            Some(base) => is_relay_url(parts@) && base@ == without_slashes(parts@.text),
            None => !is_relay_url(parts@),
        },
{
    let by_http: bool = text::same_text(parts.scheme.as_str(), "http") || text::same_text(
        parts.scheme.as_str(),
        "https",
    );
    if !by_http || parts.host.is_none() || !parts.username.as_str().is_empty()
        || parts.password.is_some() || parts.query.is_some() || parts.fragment.is_some() {
        return None;
    }
    let chars: Vec<char> = text::chars_of(parts.text.as_str());
    let mut end: usize = chars.len();
    assert(chars@.take(end as int) =~= chars@);
    while end > 0 && chars[end - 1] == '/'
        invariant
            end <= chars@.len(),
            without_slashes(chars@) == without_slashes(chars@.take(end as int)),
        decreases end,
    {
        assert(chars@.take(end as int).drop_last() =~= chars@.take(end - 1));
        end -= 1;
    }
    let base: &str = parts.text.as_str().substring_char(0, end);
    assert(base@ =~= chars@.take(end as int));
    Some(base.to_owned())
}

/// The name of the outbox of the identity `public_key` at the relay whose URL has `digest`.
pub open spec fn namespace_of(digest: Seq<u8>, public_key: Seq<char>) -> Seq<char> {
    outside::hex_text(digest) + "-"@ + public_key
}

/// A name of lower-case hexadecimal digits and one hyphen behind the first 64 of them.
pub open spec fn is_directory_name(name: Seq<char>) -> bool {
    &&& name.len() == 129
    &&& name[64] == '-'
    &&& forall|i: int| 0 <= i < 129 && i != 64 ==> event::is_lower_hex_digit(#[trigger] name[i])
}

/// The name of the outbox of the identity `public_key` at the relay whose URL has `digest`.
pub fn namespace(digest: &[u8], public_key: &str) -> (namespace: String)
    requires
        digest@.len() == 32,
    ensures
        namespace@ == namespace_of(digest@, public_key@),
{
    hex_encode(digest).concat("-").concat(public_key)
}

/// The outbox that is opened, or why none is.
pub open spec fn opened(
    base_url: Seq<char>,
    secret_key: Seq<char>,
    auth_tag: Option<Seq<char>>,
    root_is_empty: bool,
) -> Result<OutboxView, Notice> {
    match (outside::public_key_text(secret_key), outside::parsed_url(base_url)) {
        (None, _) => Err(Notice::InvalidSecretKey),
        (_, None) => Err(Notice::InvalidUrl),
        (Some(public_key), Some(url)) => if !is_relay_url(url) {
            Err(Notice::UnusableUrl)
        } else if root_is_empty {
            Err(Notice::EmptyRoot)
        } else {
            let base_url = without_slashes(url.text);
            Ok(
                OutboxView {
                    base_url,
                    secret_key,
                    public_key,
                    namespace: namespace_of(
                        outside::sha256_digest(encode_utf8(base_url)),
                        public_key,
                    ),
                    auth_tag,
                },
            )
        },
    }
}

/// Whether an event may stand in the outbox of `public_key`, given whether it verifies.
pub open spec fn event_judged(public_key: Seq<char>, event: Event, verified: bool) -> Result<
    (),
    Fault,
> {
    if event.pubkey@ != public_key {
        Err(Fault::Notice(Notice::ForeignAuthor))
    } else if encode_utf8(event.content@).len() > MAX_TEXT_BYTES {
        Err(Fault::Notice(Notice::ContentTooLong))
    } else if !verified || !event::is_key_text(event.id@) {
        Err(Fault::Notice(Notice::InvalidEvent))
    } else {
        Ok(())
    }
}

/// Whether a record may stand in an outbox, given whether its event verifies.
pub open spec fn record_judged(
    namespace: Seq<char>,
    public_key: Seq<char>,
    record: Record,
    verified: bool,
) -> Result<(), Fault> {
    if record.version != 1 || record.namespace@ != namespace {
        Err(Fault::Notice(Notice::ForeignNamespace))
    } else if record.turn_id@.len() == 0 || encode_utf8(record.turn_id@).len() > MAX_TURN_BYTES {
        Err(Fault::Notice(Notice::TurnIdLength))
    } else {
        match record.payload {
            Payload::Pending { event } => event_judged(public_key, event, verified),
            Payload::Deferred { text, reason } => if encode_utf8(text@).len() <= MAX_TEXT_BYTES
                && encode_utf8(reason@).len() <= MAX_REASON_BYTES {
                Ok(())
            } else {
                Err(Fault::Notice(Notice::OversizedDraft))
            },
        }
    }
}

/// The event of a record verifies; a draft has nothing to verify.
pub open spec fn record_verifies(record: Record) -> bool {
    match record.payload {
        Payload::Pending { event } => outside::event_verifies(event@),
        Payload::Deferred { .. } => true,
    }
}

impl OutboxView {
    /// Whether `event` may stand in this outbox.
    pub open spec fn event_checked(self, event: Event) -> Result<(), Fault> {
        event_judged(self.public_key, event, outside::event_verifies(event@))
    }

    /// Whether `record` may stand in this outbox.
    pub open spec fn record_checked(self, record: Record) -> Result<(), Fault> {
        record_judged(self.namespace, self.public_key, record, record_verifies(record))
    }
}

/// The name of the file that holds a record: a signed event goes by its identifier, a draft by the
/// digest of its JSON text.
pub open spec fn name_by_digest(record: Record, digest: Seq<u8>) -> Seq<char> {
    match record.payload {
        Payload::Pending { event } => event.id@ + ".json"@,
        Payload::Deferred { .. } => "deferred-"@ + outside::hex_text(digest) + ".json"@,
    }
}

/// The name of the file that holds a record whose JSON text is `bytes`.
pub open spec fn record_name_of(record: Record, bytes: Seq<u8>) -> Seq<char> {
    name_by_digest(record, outside::sha256_digest(bytes))
}

/// The name of the file that holds a record whose JSON text has `digest`.
pub fn record_name_by_digest(record: &Record, digest: &[u8]) -> (name: String)
    requires
        digest@.len() == 32,
    ensures
        name@ == name_by_digest(*record, digest@),
{
    match &record.payload {
        Payload::Pending { event } => event.id.clone().concat(".json"),
        Payload::Deferred { .. } => "deferred-".to_owned().concat(
            hex_encode(digest).as_str(),
        ).concat(".json"),
    }
}

impl Outbox {
    /// The public key is that of the secret key, as it is written out.
    #[verifier::type_invariant]
    spec fn is_well_formed(self) -> bool {
        &&& outside::public_key_text(self.secret_key@) == Some(self.public_key@)
        &&& event::is_key_text(self.public_key@)
    }

    /// The directory under which all outboxes lie, by the settings of the environment.
    pub fn default_root<T>(configured: Setting<T>, home: Setting<T>, windows: bool) -> (root: Result<
        Root<T>,
        Fault,
    >)
        ensures
            root == root_of(configured, home, windows),
    {
        match configured {
            Setting::Given(root) => Ok(Root::Configured(root)),
            Setting::Empty => Err(Fault::Notice(Notice::EmptyRootVariable)),
            Setting::Unset => match home {
                Setting::Given(home) => Ok(Root::UnderHome(home)),
                _ => Err(
                    Fault::Notice(
                        if windows {
                            Notice::NoUserProfile
                        } else {
                            Notice::NoHome
                        },
                    ),
                ),
            },
        }
    }

    /// Opens the outbox of the identity with `secret_key` at the relay `base_url`, under a root
    /// directory whose path may be empty.
    pub fn new(
        base_url: &str,
        secret_key: String,
        auth_tag_json: Option<String>,
        root_is_empty: bool,
    ) -> (outbox: Result<Self, Fault>)
        ensures
            match outbox {
                Ok(outbox) => {
                    &&& opened(
                        base_url@,
                        secret_key@,
                        outside::optional(auth_tag_json),
                        root_is_empty,
                    ) == Ok::<OutboxView, Notice>(outbox@)
                    &&& is_directory_name(outbox@.namespace)
                },
                Err(fault) => fault matches Fault::Notice(notice) && opened(
                    base_url@,
                    secret_key@,
                    outside::optional(auth_tag_json),
                    root_is_empty,
                ) == Err::<OutboxView, Notice>(notice),
            },
    {
        let public_key: String = match public_key_of(secret_key.as_str()) {
            Some(public_key) => public_key,
            None => {
                return Err(Fault::Notice(Notice::InvalidSecretKey));
            },
        };
        let parts: UrlParts = match parse_url(base_url) {
            Ok(parts) => parts,
            Err(_) => {
                return Err(Fault::Notice(Notice::InvalidUrl));
            },
        };
        let base: String = match relay_base(&parts) {
            Some(base) => base,
            None => {
                return Err(Fault::Notice(Notice::UnusableUrl));
            },
        };
        if root_is_empty {
            return Err(Fault::Notice(Notice::EmptyRoot));
        }
        let digest: Vec<u8> = sha256(base.as_str().as_bytes());
        let namespace: String = namespace(digest.as_slice(), public_key.as_str());
        proof {
            crate::outbox_laws::law_namespace_is_a_directory_name(digest@, public_key@);
        }
        Ok(Outbox { base_url: base, secret_key, public_key, namespace, auth_tag_json })
    }

    /// The relay's URL, without a slash at its end.
    pub fn base_url(&self) -> (base_url: &str)
        ensures
            base_url@ == self@.base_url,
    {
        self.base_url.as_str()
    }

    /// The key by which the identity is known.
    pub fn public_key(&self) -> (public_key: &str)
        ensures
            public_key@ == self@.public_key,
            event::is_key_text(public_key@),
    {
        proof {
            use_type_invariant(self);
        }
        self.public_key.as_str()
    }

    /// The key with which the identity signs.
    pub(crate) fn secret_key(&self) -> (secret_key: &str)
        ensures
            secret_key@ == self@.secret_key,
            outside::public_key_text(secret_key@) == Some(self@.public_key),
    {
        proof {
            use_type_invariant(self);
        }
        self.secret_key.as_str()
    }

    /// The name of the outbox, which is that of its directory.
    pub fn namespace(&self) -> (namespace: &str)
        ensures
            namespace@ == self@.namespace,
    {
        self.namespace.as_str()
    }

    /// What is sent along with each request, where there is anything.
    pub fn auth_tag_json(&self) -> (tag: Option<&str>)
        ensures
            match tag {
                Some(tag) => self@.auth_tag == Some(tag@),
                None => self@.auth_tag is None,
            },
    {
        match &self.auth_tag_json {
            Some(tag) => Some(tag.as_str()),
            None => None,
        }
    }

    /// Whether `event` may stand in this outbox, given whether it verifies.
    pub fn judge_event(&self, event: &Event, verified: bool) -> (judged: Result<(), Fault>)
        ensures
            judged == event_judged(self@.public_key, *event, verified),
    {
        if !text::same_text(event.pubkey.as_str(), self.public_key()) {
            return Err(Fault::Notice(Notice::ForeignAuthor));
        }
        if text::byte_len(event.content.as_str()) > MAX_TEXT_BYTES {
            return Err(Fault::Notice(Notice::ContentTooLong));
        }
        if !verified || !event::is_written_key(event.id.as_str()) {
            return Err(Fault::Notice(Notice::InvalidEvent));
        }
        Ok(())
    }

    /// Whether `event` may stand in this outbox: its author is the identity, its content is not too
    /// long, and its identifier and signature are right.
    pub fn validate_event(&self, event: &Event) -> (checked: Result<(), Fault>)
        ensures
            checked == self@.event_checked(*event),
    {
        self.judge_event(event, verify_event(event).is_some())
    }

    /// Whether `record` may stand in this outbox, given whether its event verifies.
    pub fn judge_record(&self, record: &Record, verified: bool) -> (judged: Result<(), Fault>)
        ensures
            judged == record_judged(self@.namespace, self@.public_key, *record, verified),
    {
        if record.version != 1 || !text::same_text(record.namespace.as_str(), self.namespace()) {
            return Err(Fault::Notice(Notice::ForeignNamespace));
        }
        if record.turn_id.as_str().is_empty() || text::byte_len(record.turn_id.as_str())
            > MAX_TURN_BYTES {
            return Err(Fault::Notice(Notice::TurnIdLength));
        }
        match &record.payload {
            Payload::Pending { event } => self.judge_event(event, verified),
            Payload::Deferred { text, reason } => if text::byte_len(text.as_str())
                <= MAX_TEXT_BYTES && text::byte_len(reason.as_str()) <= MAX_REASON_BYTES {
                Ok(())
            } else {
                Err(Fault::Notice(Notice::OversizedDraft))
            },
        }
    }

    /// Whether `record` may stand in this outbox.
    pub fn validate_record(&self, record: &Record) -> (checked: Result<(), Fault>)
        ensures
            checked == self@.record_checked(*record),
    {
        let verified: bool = match record.pending() {
            Some(event) => verify_event(event).is_some(),
            None => true,
        };
        self.judge_record(record, verified)
    }

    /// The name of the file that holds `record`, whose JSON text is `bytes`.
    pub fn record_name(record: &Record, bytes: &[u8]) -> (name: String)
        ensures
            name@ == record_name_of(*record, bytes@),
    {
        let digest: Vec<u8> = sha256(bytes);
        record_name_by_digest(record, digest.as_slice())
    }
}

} // verus!
