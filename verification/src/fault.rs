//! What can go wrong, and what is said of it.

use crate::text;
use crate::turn::Refusal;
use vstd::prelude::*;

verus! {

/// How the operating system classes a failure, as far as it matters.
#[derive(Clone, Copy, Debug, PartialEq, Eq, Structural)]
pub enum OsKind {
    NotFound,
    AlreadyExists,
    Other,
}

/// A failure that the operating system or the network reported.
#[derive(Debug, PartialEq, Eq)]
pub struct OsFailure {
    pub kind: OsKind,
    pub text: String,
}

/// What was being done when the operating system or the network failed.
#[derive(Clone, Copy, Debug, PartialEq, Eq, Structural)]
pub enum Action {
    /// Nothing is said but what was reported.
    Plain,
    CreateDirectory,
    SyncDirectory,
    ReadDirectory,
    InspectSlot,
    ReadSlot,
    ReserveSlot,
    CreateStage,
    SyncRecord,
    PublishRecord,
    RemoveFile,
    RemoveSlot,
    HttpClient,
    Transport,
    AckTransport,
}

impl Action {
    /// What stands before the report.
    pub open spec fn prefix(self) -> Seq<char> {
        match self {
            Action::Plain => ""@,
            Action::CreateDirectory => "create outbox directory: "@,
            Action::SyncDirectory => "sync outbox directory: "@,
            Action::ReadDirectory => "read outbox directory: "@,
            Action::InspectSlot => "inspect outbox slot: "@,
            Action::ReadSlot => "read outbox slot: "@,
            Action::ReserveSlot => "reserve outbox slot: "@,
            Action::CreateStage => "create outbox stage: "@,
            Action::SyncRecord => "sync outbox record: "@,
            Action::PublishRecord => "publish immutable outbox record: "@,
            Action::RemoveFile => "remove acknowledged outbox file: "@,
            Action::RemoveSlot => "remove accepted outbox slot: "@,
            Action::HttpClient => "outbox HTTP client: "@,
            Action::Transport => "outbox transport: "@,
            Action::AckTransport => "outbox ACK transport: "@,
        }
    }

    /// What stands before the report.
    pub fn text(self) -> (text: &'static str)
        ensures
            text@ == self.prefix(),
    {
        match self {
            Action::Plain => "",
            Action::CreateDirectory => "create outbox directory: ",
            Action::SyncDirectory => "sync outbox directory: ",
            Action::ReadDirectory => "read outbox directory: ",
            Action::InspectSlot => "inspect outbox slot: ",
            Action::ReadSlot => "read outbox slot: ",
            Action::ReserveSlot => "reserve outbox slot: ",
            Action::CreateStage => "create outbox stage: ",
            Action::SyncRecord => "sync outbox record: ",
            Action::PublishRecord => "publish immutable outbox record: ",
            Action::RemoveFile => "remove acknowledged outbox file: ",
            Action::RemoveSlot => "remove accepted outbox slot: ",
            Action::HttpClient => "outbox HTTP client: ",
            Action::Transport => "outbox transport: ",
            Action::AckTransport => "outbox ACK transport: ",
        }
    }
}

/// A fault that always reads the same.
#[derive(Clone, Copy, Debug, PartialEq, Eq, Structural)]
pub enum Notice {
    EmptyRootVariable,
    NoHome,
    NoUserProfile,
    InvalidSecretKey,
    InvalidUrl,
    UnusableUrl,
    EmptyRoot,
    DraftTooLong,
    InvalidEventId,
    LockTimedOut,
    NotPending,
    DeliveryTimedOut,
    AlreadyFlushing,
    BatchLimit,
    BatchTimedOut,
    StillPending,
    ForeignAuthor,
    ContentTooLong,
    InvalidEvent,
    ForeignNamespace,
    TurnIdLength,
    OversizedDraft,
    OutboxFull,
    SlotQuota,
    UnexpectedEntry,
    SlotNotDirectory,
    FileQuota,
    UnexpectedFile,
    IncompleteSlot,
    InvalidJson,
    NameMismatch,
    ForeignStage,
    StageMismatch,
    NotRegularFile,
    RecordTooLong,
    NotRegularDirectory,
    AuthTag,
    AuthSigning,
    AckTooLong,
    AckNotJson,
    AckMismatch,
    RequestTimedOut,
}

impl Notice {
    /// How the fault reads.
    pub open spec fn message(self) -> Seq<char> {
        match self {
            Notice::EmptyRootVariable => "BUZZ_ACP_OUTBOX_DIR must not be empty"@,
            Notice::NoHome => "set BUZZ_ACP_OUTBOX_DIR or HOME"@,
            Notice::NoUserProfile => "set BUZZ_ACP_OUTBOX_DIR or USERPROFILE"@,
            Notice::InvalidSecretKey => "invalid outbox secret key"@,
            Notice::InvalidUrl => "invalid outbox relay URL"@,
            Notice::UnusableUrl =>
                "outbox relay URL must be HTTP(S), without credentials/query/fragment"@,
            Notice::EmptyRoot => "outbox root must not be empty"@,
            Notice::DraftTooLong => "deferred draft exceeds 256 KiB text or 4 KiB reason limit"@,
            Notice::InvalidEventId => "invalid outbox event ID"@,
            Notice::LockTimedOut => "outbox flush lock timed out"@,
            Notice::NotPending => "requested event is not a validated pending outbox record"@,
            Notice::DeliveryTimedOut => "outbox event delivery timed out; retained"@,
            Notice::AlreadyFlushing => "outbox flush already in progress"@,
            Notice::BatchLimit => "outbox batch limit reached; pending records retained"@,
            Notice::BatchTimedOut => "outbox batch timed out; pending records retained"@,
            Notice::StillPending => "outbox still has pending events"@,
            Notice::ForeignAuthor => "foreign outbox event author"@,
            Notice::ContentTooLong => "outbox event content exceeds 256 KiB"@,
            Notice::InvalidEvent => "invalid outbox event ID or signature"@,
            Notice::ForeignNamespace => "unsupported or foreign outbox namespace"@,
            Notice::TurnIdLength => "outbox turn ID must contain 1..1024 bytes"@,
            Notice::OversizedDraft => "oversized deferred outbox record"@,
            Notice::OutboxFull =>
                "outbox full: 64 slots, at most 134217728 bytes; existing records retained"@,
            Notice::SlotQuota =>
                "outbox directory exceeds slot quota; manual recovery required"@,
            Notice::UnexpectedEntry =>
                "unexpected outbox directory entry; retained for inspection"@,
            Notice::SlotNotDirectory => "outbox slot is not a regular directory"@,
            Notice::FileQuota => "outbox slot exceeds file quota"@,
            Notice::UnexpectedFile => "unexpected outbox slot file"@,
            Notice::IncompleteSlot => "incomplete outbox slot; retained for manual recovery"@,
            Notice::InvalidJson => "invalid outbox JSON; retained for inspection"@,
            Notice::NameMismatch =>
                "outbox filename does not match its signed event or draft"@,
            Notice::ForeignStage => "foreign outbox staging file"@,
            Notice::StageMismatch => "outbox staging content mismatch"@,
            Notice::NotRegularFile => "outbox record is not a regular file"@,
            Notice::RecordTooLong => "outbox record exceeds 2 MiB"@,
            Notice::NotRegularDirectory => "outbox path is not a regular directory"@,
            Notice::AuthTag => "outbox auth tag error"@,
            Notice::AuthSigning => "outbox auth signing error"@,
            Notice::AckTooLong => "outbox ACK exceeds size limit"@,
            Notice::AckNotJson => "outbox ACK is not JSON"@,
            Notice::AckMismatch => "outbox ACK must accept the exact event ID"@,
            Notice::RequestTimedOut => "outbox request timed out"@,
        }
    }

    /// How the fault reads.
    pub fn text(self) -> (text: &'static str)
        ensures
            text@ == self.message(),
    {
        match self {
            Notice::EmptyRootVariable => "BUZZ_ACP_OUTBOX_DIR must not be empty",
            Notice::NoHome => "set BUZZ_ACP_OUTBOX_DIR or HOME",
            Notice::NoUserProfile => "set BUZZ_ACP_OUTBOX_DIR or USERPROFILE",
            Notice::InvalidSecretKey => "invalid outbox secret key",
            Notice::InvalidUrl => "invalid outbox relay URL",
            Notice::UnusableUrl =>
                "outbox relay URL must be HTTP(S), without credentials/query/fragment",
            Notice::EmptyRoot => "outbox root must not be empty",
            Notice::DraftTooLong => "deferred draft exceeds 256 KiB text or 4 KiB reason limit",
            Notice::InvalidEventId => "invalid outbox event ID",
            Notice::LockTimedOut => "outbox flush lock timed out",
            Notice::NotPending => "requested event is not a validated pending outbox record",
            Notice::DeliveryTimedOut => "outbox event delivery timed out; retained",
            Notice::AlreadyFlushing => "outbox flush already in progress",
            Notice::BatchLimit => "outbox batch limit reached; pending records retained",
            Notice::BatchTimedOut => "outbox batch timed out; pending records retained",
            Notice::StillPending => "outbox still has pending events",
            Notice::ForeignAuthor => "foreign outbox event author",
            Notice::ContentTooLong => "outbox event content exceeds 256 KiB",
            Notice::InvalidEvent => "invalid outbox event ID or signature",
            Notice::ForeignNamespace => "unsupported or foreign outbox namespace",
            Notice::TurnIdLength => "outbox turn ID must contain 1..1024 bytes",
            Notice::OversizedDraft => "oversized deferred outbox record",
            Notice::OutboxFull =>
                "outbox full: 64 slots, at most 134217728 bytes; existing records retained",
            Notice::SlotQuota =>
                "outbox directory exceeds slot quota; manual recovery required",
            Notice::UnexpectedEntry =>
                "unexpected outbox directory entry; retained for inspection",
            Notice::SlotNotDirectory => "outbox slot is not a regular directory",
            Notice::FileQuota => "outbox slot exceeds file quota",
            Notice::UnexpectedFile => "unexpected outbox slot file",
            Notice::IncompleteSlot => "incomplete outbox slot; retained for manual recovery",
            Notice::InvalidJson => "invalid outbox JSON; retained for inspection",
            Notice::NameMismatch => "outbox filename does not match its signed event or draft",
            Notice::ForeignStage => "foreign outbox staging file",
            Notice::StageMismatch => "outbox staging content mismatch",
            Notice::NotRegularFile => "outbox record is not a regular file",
            Notice::RecordTooLong => "outbox record exceeds 2 MiB",
            Notice::NotRegularDirectory => "outbox path is not a regular directory",
            Notice::AuthTag => "outbox auth tag error",
            Notice::AuthSigning => "outbox auth signing error",
            Notice::AckTooLong => "outbox ACK exceeds size limit",
            Notice::AckNotJson => "outbox ACK is not JSON",
            Notice::AckMismatch => "outbox ACK must accept the exact event ID",
            Notice::RequestTimedOut => "outbox request timed out",
        }
    }
}

/// Why a reply was kept as a draft instead of being published.
#[derive(Debug, PartialEq, Eq)]
pub enum Reason {
    /// The turn holds no reply that may be published.
    Turn(Refusal),
    /// The turn did not come to its end.
    Unfinished,
    NoBatch,
    NoTrigger,
    IncompleteDestination,
    /// What was reported while the message was put together.
    Reported { text: String },
}

impl Reason {
    /// What is said of the reason.
    pub open spec fn message(self) -> Seq<char> {
        match self {
            Reason::Turn(refusal) => refusal.message(),
            Reason::Unfinished =>
                "automatic publication deferred: turn did not finish normally"@,
            Reason::NoBatch => "automatic publication has no triggering batch"@,
            Reason::NoTrigger => "automatic publication has no triggering event"@,
            Reason::IncompleteDestination =>
                "automatic publication has incomplete reply destination"@,
            Reason::Reported { text } => text@,
        }
    }

    /// What is said of the reason.
    pub fn text(&self) -> (text: String)
        ensures
            text@ == self.message(),
    {
        match self {
            Reason::Turn(refusal) => refusal.text(),
            Reason::Unfinished =>
                "automatic publication deferred: turn did not finish normally".to_owned(),
            Reason::NoBatch => "automatic publication has no triggering batch".to_owned(),
            Reason::NoTrigger => "automatic publication has no triggering event".to_owned(),
            Reason::IncompleteDestination =>
                "automatic publication has incomplete reply destination".to_owned(),
            Reason::Reported { text } => text.clone(),
        }
    }
}

/// Why an operation on the outbox failed.
#[derive(Debug, PartialEq, Eq)]
pub enum Fault {
    Notice(Notice),
    /// The operating system or the network failed.
    Os { action: Action, text: String },
    /// The relay answered with a status other than success.
    Status { text: String },
    /// The slot that is shown could not be read.
    AtSlot { shown: String, cause: Box<Fault> },
    /// The slot that is shown was reserved and not filled.
    RetainedSlot { shown: String, cause: Box<Fault> },
    /// The event was not accepted.
    RetainedEvent { cause: Box<Fault> },
    /// The event of this identifier was not accepted.
    AtEvent { id: String, cause: Box<Fault> },
    /// Nothing is stored while there are faults in the outbox.
    NeedsRecovery { faults: Vec<Fault> },
    /// Not everything was delivered.
    Incomplete { accepted: usize, faults: Vec<Fault> },
    /// The reply was kept as a draft, at the place that is shown.
    Draft { reason: Reason, shown: String },
}

impl Fault {
    /// What is said of the fault.
    pub open spec fn message(self) -> Seq<char>
        decreases self,
    {
        match self {
            Fault::Notice(notice) => notice.message(),
            Fault::Os { action, text } => action.prefix() + text@,
            Fault::Status { text } => "outbox HTTP "@ + text@,
            Fault::AtSlot { shown, cause } => shown@ + ": "@ + cause.message(),
            Fault::RetainedSlot { shown, cause } => cause.message() + "; retained slot "@ + shown@
                + " needs inspection"@,
            Fault::RetainedEvent { cause } => cause.message()
                + "; signed event retained for a later flush"@,
            Fault::AtEvent { id, cause } => "event "@ + id@ + ": "@ + cause.message(),
            Fault::NeedsRecovery { faults } => "outbox needs recovery: "@ + joined(faults@),
            Fault::Incomplete { accepted, faults } => "outbox accepted "@ + text::decimal(
                accepted as nat,
            ) + " event(s); "@ + joined(faults@),
            Fault::Draft { reason, shown } => reason.message() + "; draft retained at "@ + shown@,
        }
    }

    /// What is said of the fault.
    pub fn text(&self) -> (text: String)
        ensures
            text@ == self.message(),
        decreases self,
    {
        match self {
            Fault::Notice(notice) => notice.text().to_owned(),
            Fault::Os { action, text } => action.text().to_owned().concat(text.as_str()),
            Fault::Status { text } => "outbox HTTP ".to_owned().concat(text.as_str()),
            Fault::AtSlot { shown, cause } => shown.clone().concat(": ").concat(
                cause.text().as_str(),
            ),
            Fault::RetainedSlot { shown, cause } => cause.text().concat("; retained slot ").concat(
                shown.as_str(),
            ).concat(" needs inspection"),
            Fault::RetainedEvent { cause } => cause.text().concat(
                "; signed event retained for a later flush",
            ),
            Fault::AtEvent { id, cause } => "event ".to_owned().concat(id.as_str()).concat(
                ": ",
            ).concat(cause.text().as_str()),
            Fault::NeedsRecovery { faults } => "outbox needs recovery: ".to_owned().concat(
                joined_text(faults).as_str(),
            ),
            Fault::Incomplete { accepted, faults } => "outbox accepted ".to_owned().concat(
                text::decimal_text(*accepted).as_str(),
            ).concat(" event(s); ").concat(joined_text(faults).as_str()),
            Fault::Draft { reason, shown } => reason.text().concat("; draft retained at ").concat(
                shown.as_str(),
            ),
        }
    }
}

/// What is said of several faults, one after the other.
pub open spec fn joined(faults: Seq<Fault>) -> Seq<char>
    decreases faults,
{
    if faults.len() == 0 {
        Seq::empty()
    } else if faults.len() == 1 {
        faults[0].message()
    } else {
        joined(faults.drop_last()) + "; "@ + faults.last().message()
    }
}

/// What is said of several faults, one after the other.
pub fn joined_text(faults: &Vec<Fault>) -> (text: String)
    ensures
        text@ == joined(faults@),
    decreases faults,
{
    let mut text: String = String::new();
    let mut at: usize = 0;
    while at < faults.len()
        invariant
            at <= faults@.len(),
            text@ == joined(faults@.take(at as int)),
        decreases faults@.len() - at,
    {
        proof {
            assert(decreases_to!(faults => faults@[at as int]));
            assert(faults@.take(at as int + 1).drop_last() =~= faults@.take(at as int));
        }
        let said: String = faults[at].text();
        text = if at == 0 {
            said
        } else {
            text.concat("; ").concat(said.as_str())
        };
        at += 1;
    }
    assert(faults@.take(at as int) =~= faults@);
    text
}

} // verus!
