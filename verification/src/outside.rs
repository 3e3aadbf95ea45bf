//! The calls into other crates and what is taken for granted of them.

use crate::event::{Event, EventView};
use crate::record::MAX_RECORD_BYTES;
use nostr::{EventBuilder, EventId, Keys, Kind, PublicKey, SecretKey, Tags, Timestamp};
use vstd::prelude::*;

verus! {

/// The SHA-256 digest of `bytes`.
pub uninterp spec fn sha256_digest(bytes: Seq<u8>) -> Seq<u8>;

/// `sha2::Sha256::digest`: the digest is a function of the bytes and has 32 bytes.
#[verifier::external_body]
pub(crate) fn sha256(bytes: &[u8]) -> (digest: Vec<u8>)
    ensures
        digest@ == sha256_digest(bytes@),
        digest@.len() == 32,
{
    <sha2::Sha256 as sha2::Digest>::digest(bytes).to_vec()
}

/// The lower-case hexadecimal digit for `n`.
pub open spec fn hex_digit(n: int) -> char {
    if n < 10 {
        ('0' as int + n) as char
    } else {
        ('a' as int + n - 10) as char
    }
}

/// `bytes` in lower-case hexadecimal, the high half of each byte first.
pub open spec fn hex_text(bytes: Seq<u8>) -> Seq<char> {
    Seq::new(
        2 * bytes.len(),
        |i: int|
            if i % 2 == 0 {
                hex_digit(bytes[i / 2] as int / 16)
            } else {
                hex_digit(bytes[i / 2] as int % 16)
            },
    )
}

/// `hex::encode`: two lower-case digits for each byte, in order.
#[verifier::external_body]
pub(crate) fn hex_encode(bytes: &[u8]) -> (text: String)
    requires
        bytes@.len() <= MAX_RECORD_BYTES,
    ensures
        text@ == hex_text(bytes@),
{
    hex::encode(bytes)
}

/// The character of the standard Base64 alphabet for a group of six bits.
pub open spec fn base64_digit(n: int) -> char {
    if n < 26 {
        ('A' as int + n) as char
    } else if n < 52 {
        ('a' as int + n - 26) as char
    } else if n < 62 {
        ('0' as int + n - 52) as char
    } else if n == 62 {
        '+'
    } else {
        '/'
    }
}

/// `bytes` in Base64 with the standard alphabet and padding.
pub open spec fn base64_text(bytes: Seq<u8>) -> Seq<char>
    decreases bytes.len(),
{
    if bytes.len() == 0 {
        Seq::empty()
    } else {
        let a = bytes[0] as int;
        let b = if bytes.len() > 1 {
            bytes[1] as int
        } else {
            0
        };
        let c = if bytes.len() > 2 {
            bytes[2] as int
        } else {
            0
        };
        let group = seq![
            base64_digit(a / 4),
            base64_digit(a % 4 * 16 + b / 16),
            if bytes.len() > 1 {
                base64_digit(b % 16 * 4 + c / 64)
            } else {
                '='
            },
            if bytes.len() > 2 {
                base64_digit(c % 64)
            } else {
                '='
            },
        ];
        if bytes.len() <= 3 {
            group
        } else {
            group + base64_text(bytes.skip(3))
        }
    }
}

/// `base64`'s `STANDARD.encode`: the standard alphabet of RFC 4648, with padding.
#[verifier::external_body]
pub(crate) fn base64_encode(bytes: &[u8]) -> (text: String)
    requires
        bytes@.len() <= MAX_RECORD_BYTES,
    ensures
        text@ == base64_text(bytes@),
{
    base64::Engine::encode(&base64::engine::general_purpose::STANDARD, bytes)
}

/// The text of a random (version 4) UUID: lower-case hexadecimal in five groups, with the version
/// and the variant in their places.
pub open spec fn is_random_uuid(text: Seq<char>) -> bool {
    &&& text.len() == 36
    &&& text[8] == '-' && text[13] == '-' && text[18] == '-' && text[23] == '-'
    &&& text[14] == '4'
    &&& text[19] == '8' || text[19] == '9' || text[19] == 'a' || text[19] == 'b'
    &&& forall|i: int|
        0 <= i < 36 && i != 8 && i != 13 && i != 18 && i != 23
            ==> crate::event::is_lower_hex_digit(#[trigger] text[i])
}

/// `uuid::Uuid::new_v4` as text: random, so only its form is known.
#[verifier::external_body]
pub(crate) fn random_uuid() -> (text: String)
    ensures
        is_random_uuid(text@),
{
    uuid::Uuid::new_v4().to_string()
}

/// The parts of a URL.
#[derive(Debug, PartialEq, Eq)]
pub struct UrlParts {
    pub scheme: String,
    pub host: Option<String>,
    pub username: String,
    pub password: Option<String>,
    pub query: Option<String>,
    pub fragment: Option<String>,
    /// The whole URL in its normal form.
    pub text: String,
}

/// What the parts of a URL say.
pub struct UrlView {
    pub scheme: Seq<char>,
    pub host: Option<Seq<char>>,
    pub username: Seq<char>,
    pub password: Option<Seq<char>>,
    pub query: Option<Seq<char>>,
    pub fragment: Option<Seq<char>>,
    pub text: Seq<char>,
}

/// What an optional text says.
pub open spec fn optional(text: Option<String>) -> Option<Seq<char>> {
    match text {
        Some(text) => Some(text@),
        None => None,
    }
}

impl View for UrlParts {
    type V = UrlView;

    open spec fn view(&self) -> UrlView {
        UrlView {
            scheme: self.scheme@,
            host: optional(self.host),
            username: self.username@,
            password: optional(self.password),
            query: optional(self.query),
            fragment: optional(self.fragment),
            text: self.text@,
        }
    }
}

/// Why a text is no URL.
#[verifier::external_type_specification]
#[verifier::external_body]
pub struct ExUrlParseError(url::ParseError);

/// The parts of the URL that a text holds, by the URL standard; `None` where it holds none.
pub uninterp spec fn parsed_url(text: Seq<char>) -> Option<UrlView>;

/// `url::Url::parse` and the accessors of its result: the parts are a function of the text.
#[verifier::external_body]
pub(crate) fn parse_url(text: &str) -> (parts: Result<UrlParts, url::ParseError>)
    ensures
        match parts {
            Ok(parts) => parsed_url(text@) == Some(parts@),
            Err(_) => parsed_url(text@) is None,
        },
{
    let url: url::Url = url::Url::parse(text)?;
    Ok(
        UrlParts {
            scheme: url.scheme().to_owned(),
            host: url.host_str().map(str::to_owned),
            username: url.username().to_owned(),
            password: url.password().map(str::to_owned),
            query: url.query().map(str::to_owned),
            fragment: url.fragment().map(str::to_owned),
            text: url.as_str().to_owned(),
        },
    )
}

/// A member of a JSON object, as far as it is read.
#[derive(Debug, PartialEq, Eq)]
pub enum JsonMember {
    /// The text is no object, or has no such member.
    Absent,
    Flag(bool),
    Text(String),
    /// A null, a number, an array or an object.
    Other,
}

/// What a member of a JSON object says.
pub enum JsonMemberView {
    Absent,
    Flag(bool),
    Text(Seq<char>),
    Other,
}

impl View for JsonMember {
    type V = JsonMemberView;

    open spec fn view(&self) -> JsonMemberView {
        match self {
            JsonMember::Absent => JsonMemberView::Absent,
            JsonMember::Flag(flag) => JsonMemberView::Flag(*flag),
            JsonMember::Text(text) => JsonMemberView::Text(text@),
            JsonMember::Other => JsonMemberView::Other,
        }
    }
}

/// Why bytes are no JSON.
#[verifier::external_type_specification]
#[verifier::external_body]
pub struct ExJsonError(serde_json::Error);

/// The member `key` of the JSON value that `bytes` hold; `None` where they hold no JSON value.
pub uninterp spec fn parsed_json_member(bytes: Seq<u8>, key: Seq<char>) -> Option<JsonMemberView>;

/// `serde_json::from_slice` into a `Value`, then `Value::get`: a function of the bytes and the key.
#[verifier::external_body]
pub(crate) fn json_member(bytes: &[u8], key: &str) -> (member: Result<
    JsonMember,
    serde_json::Error,
>)
    ensures
        match member {
            Ok(member) => parsed_json_member(bytes@, key@) == Some(member@),
            Err(_) => parsed_json_member(bytes@, key@) is None,
        },
{
    let value: serde_json::Value = serde_json::from_slice(bytes)?;
    Ok(
        match value.get(key) {
            None => JsonMember::Absent,
            Some(serde_json::Value::Bool(flag)) => JsonMember::Flag(*flag),
            Some(serde_json::Value::String(text)) => JsonMember::Text(text.clone()),
            Some(serde_json::Value::Null) => JsonMember::Other,
            Some(serde_json::Value::Number(_)) => JsonMember::Other,
            Some(serde_json::Value::Array(_)) => JsonMember::Other,
            Some(serde_json::Value::Object(_)) => JsonMember::Other,
        },
    )
}

/// What is said of a text that is no event identifier.
pub uninterp spec fn event_id_error_text(text: Seq<char>) -> Seq<char>;

/// `nostr::EventId::from_hex`: it takes exactly 64 hexadecimal digits of either case. What its error
/// says of another text is a function of that text.
#[verifier::external_body]
pub(crate) fn event_id_error(text: &str) -> (error: Option<String>)
    ensures
        error is None <==> crate::event::is_event_id(text@),
        error matches Some(said) ==> said@ == event_id_error_text(text@),
{
    match EventId::from_hex(text) {
        Ok(_) => None,
        Err(error) => Some(error.to_string()),
    }
}

/// The public key that belongs to a secret key in hexadecimal; `None` where it is no secret key.
pub uninterp spec fn public_key_text(secret_key: Seq<char>) -> Option<Seq<char>>;

/// `nostr::SecretKey::from_hex`, then `nostr::Keys::new` and its public key in hexadecimal: a
/// function of the secret key, written out in 64 lower-case digits.
#[verifier::external_body]
pub(crate) fn public_key_of(secret_key: &str) -> (public_key: Option<String>)
    ensures
        optional(public_key) == public_key_text(secret_key@),
        public_key matches Some(text) ==> crate::event::is_key_text(text@),
{
    let secret_key: SecretKey = SecretKey::from_hex(secret_key).ok()?;
    Some(Keys::new(secret_key).public_key().to_hex())
}

/// The identifier of the event is the hash of its fields, and the signature is its author's.
pub uninterp spec fn event_verifies(event: EventView) -> bool;

/// `nostr::Event::verify` on the event with the given fields: a function of the fields.
#[verifier::external_body]
pub(crate) fn verify_event(event: &Event) -> (verified: Option<()>)
    ensures
        verified is Some <==> event_verifies(event@),
{
    nostr::Event::new(
        EventId::from_hex(&event.id).ok()?,
        PublicKey::from_hex(&event.pubkey).ok()?,
        Timestamp::from(event.created_at),
        Kind::from(event.kind),
        Tags::parse(event.tags.clone()).ok()?,
        event.content.clone(),
        event.sig.parse::<nostr::secp256k1::schnorr::Signature>().ok()?,
    ).verify().ok()
}

/// The JSON text of an event; `None` where the fields make no event.
pub uninterp spec fn event_json_bytes(event: EventView) -> Option<Seq<u8>>;

/// `serde_json::to_vec` on the `nostr::Event` with the given fields: a function of the fields.
#[verifier::external_body]
pub(crate) fn event_json(event: &Event) -> (json: Option<Vec<u8>>)
    ensures
        match json {
            Some(json) => event_json_bytes(event@) == Some(json@),
            None => event_json_bytes(event@) is None,
        },
{
    serde_json::to_vec(&nostr::Event::new(
        EventId::from_hex(&event.id).ok()?,
        PublicKey::from_hex(&event.pubkey).ok()?,
        Timestamp::from(event.created_at),
        Kind::from(event.kind),
        Tags::parse(event.tags.clone()).ok()?,
        event.content.clone(),
        event.sig.parse::<nostr::secp256k1::schnorr::Signature>().ok()?,
    )).ok()
}

/// Why no event was signed.
#[derive(Clone, Copy, Debug, PartialEq, Eq, Structural)]
pub enum SigningFailure {
    Key,
    Tags,
    Signature,
}

/// `nostr::EventBuilder::new`, `tags` and `sign_with_keys`: with a secret key and tags that are not
/// empty an event comes back, written by the owner of the key, with the kind, the content and the
/// tags that were asked for. Its identifier is computed from its fields and signed with the key, so
/// the event verifies, and its fields are those of an event. Which time and which random signature
/// it carries is not stated. Tags named `p` are left out of the calls, since the builder drops those
/// that name the author.
#[verifier::external_body]
pub(crate) fn sign_event(
    secret_key: &str,
    kind: u16,
    content: &str,
    tags: &Vec<Vec<String>>,
) -> (event: Result<Event, SigningFailure>)
    requires
        forall|i: int|
            0 <= i < tags@.len() ==> #[trigger] tags@[i]@.len() > 0 && tags@[i]@[0]@ != "p"@,
    ensures
        match event {
            Ok(event) => {
                &&& Some(event.pubkey@) == public_key_text(secret_key@)
                &&& event.kind == kind
                &&& event.content@ == content@
                &&& event.tags.deep_view() == tags.deep_view()
                &&& event_verifies(event@)
                &&& event_json_bytes(event@) is Some
            },
            Err(failure) => failure == SigningFailure::Key && public_key_text(secret_key@) is None,
        },
{
    let key = SecretKey::from_hex(secret_key).or(Err(SigningFailure::Key))?;
    let tags = Tags::parse(tags.clone()).or(Err(SigningFailure::Tags))?;
    let builder = EventBuilder::new(Kind::from(kind), content).tags(tags);
    let signed = builder.sign_with_keys(&Keys::new(key));
    let event = signed.or(Err(SigningFailure::Signature))?;
    Ok(Event {
        id: event.id.to_hex(),
        pubkey: event.pubkey.to_hex(),
        created_at: event.created_at.as_secs(),
        kind: event.kind.as_u16(),
        tags: event.tags.iter().map(|tag| tag.as_slice().to_vec()).collect(),
        content: event.content,
        sig: event.sig.to_string(),
    })
}

} // verus!
