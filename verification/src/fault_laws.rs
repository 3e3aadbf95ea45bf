//! What is said of a fault, and the limits that the library keeps.

use crate::delivery::{HTTP_AUTH_KIND, MAX_ACK_BYTES, MAX_ATTEMPTS, REQUEST_TIMEOUT_SECONDS};
use crate::fault;
use crate::fault::{Action, Fault, Notice, Reason};
use crate::flush::{BATCH_TIMEOUT_SECONDS, MAX_BATCH};
use crate::outbox::HOME_DIRECTORIES;
use crate::record::{
    MAX_REASON_BYTES, MAX_RECORDS, MAX_RECORD_BYTES, MAX_TEXT_BYTES, MAX_TURN_BYTES,
};
use crate::text;
use crate::text_laws;
use crate::turn::{OutputMode, Refusal, TurnOutput, MAX_CAPTURE_BYTES, MAX_MESSAGE_BYTES};
use vstd::prelude::*;

verus! {

/// The limits, each as a plain number.
pub proof fn law_limits()
    ensures
        MAX_CAPTURE_BYTES == 262144,
        MAX_MESSAGE_BYTES == 65536,
        MAX_RECORDS == 64,
        MAX_RECORD_BYTES == 2097152,
        MAX_TEXT_BYTES == 262144,
        MAX_TURN_BYTES == 1024,
        MAX_REASON_BYTES == 4096,
        MAX_ACK_BYTES == 16384,
        MAX_ATTEMPTS == 3,
        MAX_BATCH == 8,
        REQUEST_TIMEOUT_SECONDS == 5,
        BATCH_TIMEOUT_SECONDS == 20,
        HTTP_AUTH_KIND == 27235,
        HOME_DIRECTORIES.0@ == ".buzz"@,
        HOME_DIRECTORIES.1@ == "auto-publish-outbox"@,
{
}

/// What stands before the report of a failure.
pub proof fn law_actions_are_named(action: Action)
    ensures
        action == Action::Plain ==> action.prefix().len() == 0,
        action == Action::CreateDirectory ==> action.prefix()
            == "create outbox directory: "@,
        action == Action::SyncDirectory ==> action.prefix()
            == "sync outbox directory: "@,
        action == Action::ReadDirectory ==> action.prefix()
            == "read outbox directory: "@,
        action == Action::InspectSlot ==> action.prefix()
            == "inspect outbox slot: "@,
        action == Action::ReadSlot ==> action.prefix()
            == "read outbox slot: "@,
        action == Action::ReserveSlot ==> action.prefix()
            == "reserve outbox slot: "@,
        action == Action::CreateStage ==> action.prefix()
            == "create outbox stage: "@,
        action == Action::SyncRecord ==> action.prefix()
            == "sync outbox record: "@,
        action == Action::PublishRecord ==> action.prefix()
            == "publish immutable outbox record: "@,
        action == Action::RemoveFile ==> action.prefix()
            == "remove acknowledged outbox file: "@,
        action == Action::RemoveSlot ==> action.prefix()
            == "remove accepted outbox slot: "@,
        action == Action::HttpClient ==> action.prefix()
            == "outbox HTTP client: "@,
        action == Action::Transport ==> action.prefix()
            == "outbox transport: "@,
        action == Action::AckTransport ==> action.prefix()
            == "outbox ACK transport: "@,
{
    reveal_strlit("");
}

/// How each notice reads.
pub proof fn law_notices_read(notice: Notice)
    ensures
        notice == Notice::EmptyRootVariable ==> notice.message()
            == "BUZZ_ACP_OUTBOX_DIR must not be empty"@,
        notice == Notice::NoHome ==> notice.message()
            == "set BUZZ_ACP_OUTBOX_DIR or HOME"@,
        notice == Notice::NoUserProfile ==> notice.message()
            == "set BUZZ_ACP_OUTBOX_DIR or USERPROFILE"@,
        notice == Notice::InvalidSecretKey ==> notice.message()
            == "invalid outbox secret key"@,
        notice == Notice::InvalidUrl ==> notice.message()
            == "invalid outbox relay URL"@,
        notice == Notice::UnusableUrl ==> notice.message()
            == "outbox relay URL must be HTTP(S), without credentials/query/fragment"@,
        notice == Notice::EmptyRoot ==> notice.message()
            == "outbox root must not be empty"@,
        notice == Notice::DraftTooLong ==> notice.message()
            == "deferred draft exceeds 256 KiB text or 4 KiB reason limit"@,
        notice == Notice::InvalidEventId ==> notice.message()
            == "invalid outbox event ID"@,
        notice == Notice::LockTimedOut ==> notice.message()
            == "outbox flush lock timed out"@,
        notice == Notice::NotPending ==> notice.message()
            == "requested event is not a validated pending outbox record"@,
        notice == Notice::DeliveryTimedOut ==> notice.message()
            == "outbox event delivery timed out; retained"@,
        notice == Notice::AlreadyFlushing ==> notice.message()
            == "outbox flush already in progress"@,
        notice == Notice::BatchLimit ==> notice.message()
            == "outbox batch limit reached; pending records retained"@,
        notice == Notice::BatchTimedOut ==> notice.message()
            == "outbox batch timed out; pending records retained"@,
        notice == Notice::StillPending ==> notice.message()
            == "outbox still has pending events"@,
        notice == Notice::ForeignAuthor ==> notice.message()
            == "foreign outbox event author"@,
        notice == Notice::ContentTooLong ==> notice.message()
            == "outbox event content exceeds 256 KiB"@,
        notice == Notice::InvalidEvent ==> notice.message()
            == "invalid outbox event ID or signature"@,
        notice == Notice::ForeignNamespace ==> notice.message()
            == "unsupported or foreign outbox namespace"@,
        notice == Notice::TurnIdLength ==> notice.message()
            == "outbox turn ID must contain 1..1024 bytes"@,
        notice == Notice::OversizedDraft ==> notice.message()
            == "oversized deferred outbox record"@,
        notice == Notice::OutboxFull ==> notice.message()
            == "outbox full: 64 slots, at most 134217728 bytes; existing records retained"@,
        notice == Notice::SlotQuota ==> notice.message()
            == "outbox directory exceeds slot quota; manual recovery required"@,
        notice == Notice::UnexpectedEntry ==> notice.message()
            == "unexpected outbox directory entry; retained for inspection"@,
        notice == Notice::SlotNotDirectory ==> notice.message()
            == "outbox slot is not a regular directory"@,
        notice == Notice::FileQuota ==> notice.message()
            == "outbox slot exceeds file quota"@,
        notice == Notice::UnexpectedFile ==> notice.message()
            == "unexpected outbox slot file"@,
        notice == Notice::IncompleteSlot ==> notice.message()
            == "incomplete outbox slot; retained for manual recovery"@,
        notice == Notice::InvalidJson ==> notice.message()
            == "invalid outbox JSON; retained for inspection"@,
        notice == Notice::NameMismatch ==> notice.message()
            == "outbox filename does not match its signed event or draft"@,
        notice == Notice::ForeignStage ==> notice.message()
            == "foreign outbox staging file"@,
        notice == Notice::StageMismatch ==> notice.message()
            == "outbox staging content mismatch"@,
        notice == Notice::NotRegularFile ==> notice.message()
            == "outbox record is not a regular file"@,
        notice == Notice::RecordTooLong ==> notice.message()
            == "outbox record exceeds 2 MiB"@,
        notice == Notice::NotRegularDirectory ==> notice.message()
            == "outbox path is not a regular directory"@,
        notice == Notice::AuthTag ==> notice.message()
            == "outbox auth tag error"@,
        notice == Notice::AuthSigning ==> notice.message()
            == "outbox auth signing error"@,
        notice == Notice::AckTooLong ==> notice.message()
            == "outbox ACK exceeds size limit"@,
        notice == Notice::AckNotJson ==> notice.message()
            == "outbox ACK is not JSON"@,
        notice == Notice::AckMismatch ==> notice.message()
            == "outbox ACK must accept the exact event ID"@,
        notice == Notice::RequestTimedOut ==> notice.message()
            == "outbox request timed out"@,
{
}

/// Only an outbox that is full names its size: as many slots as there are, and as many bytes as they
/// hold together.
pub proof fn law_full_outbox_names_its_size()
    ensures
        Notice::OutboxFull.message() == "outbox full: "@ + text::decimal(MAX_RECORDS as nat)
            + " slots, at most "@ + text::decimal((MAX_RECORDS * MAX_RECORD_BYTES) as nat)
            + " bytes; existing records retained"@,
{
    reveal_strlit("outbox full: 64 slots, at most 134217728 bytes; existing records retained");
    reveal_strlit("outbox full: ");
    reveal_strlit(" slots, at most ");
    reveal_strlit(" bytes; existing records retained");
    reveal_with_fuel(text::decimal, 10);
    assert(text::decimal(64) =~= seq!['6', '4']);
    assert(text::decimal(134217728) =~= seq!['1', '3', '4', '2', '1', '7', '7', '2', '8']);
    assert(Notice::OutboxFull.message() =~= "outbox full: "@ + seq!['6', '4'] + " slots, at most "@
        + seq!['1', '3', '4', '2', '1', '7', '7', '2', '8'] + " bytes; existing records retained"@);
}

/// Why a reply is kept as a draft, as it is said: a refusal and a report in their own words.
pub proof fn law_reasons_read(refusal: Refusal, text: String)
    ensures
        Reason::Turn(refusal).message() == refusal.message(),
        Reason::Unfinished.message()
            == "automatic publication deferred: turn did not finish normally"@,
        Reason::NoBatch.message() == "automatic publication has no triggering batch"@,
        Reason::NoTrigger.message() == "automatic publication has no triggering event"@,
        Reason::IncompleteDestination.message()
            == "automatic publication has incomplete reply destination"@,
        (Reason::Reported { text }).message() == text@,
{
}

/// A fault says what it is a fault of, and what caused it in the words of the cause.
pub proof fn law_faults_tell_their_causes(
    notice: Notice,
    action: Action,
    text: String,
    shown: String,
    id: String,
    cause: Fault,
    reason: Reason,
)
    ensures
        Fault::Notice(notice).message() == notice.message(),
        (Fault::Os { action, text }).message() == action.prefix() + text@,
        (Fault::Status { text }).message() == "outbox HTTP "@ + text@,
        (Fault::AtSlot { shown, cause: Box::new(cause) }).message() == shown@ + ": "@
            + cause.message(),
        (Fault::RetainedSlot { shown, cause: Box::new(cause) }).message() == cause.message()
            + "; retained slot "@ + shown@ + " needs inspection"@,
        (Fault::RetainedEvent { cause: Box::new(cause) }).message() == cause.message()
            + "; signed event retained for a later flush"@,
        (Fault::AtEvent { id, cause: Box::new(cause) }).message() == "event "@ + id@ + ": "@
            + cause.message(),
        (Fault::Draft { reason, shown }).message() == reason.message() + "; draft retained at "@
            + shown@,
{
    reveal_with_fuel(Fault::message, 2);
}

/// Several faults are told one after the other, in their order and parted by a semicolon, behind what
/// they kept from happening. The number of accepted events is told in decimal.
pub proof fn law_several_faults_are_told(faults: Vec<Fault>, accepted: usize)
    ensures
        (Fault::NeedsRecovery { faults }).message() == "outbox needs recovery: "@ + fault::joined(
            faults@,
        ),
        text_laws::value_of(text::decimal(accepted as nat)) == accepted,
        (Fault::Incomplete { accepted, faults }).message() == "outbox accepted "@ + text::decimal(
            accepted as nat,
        ) + " event(s); "@ + fault::joined(faults@),
{
    text_laws::law_decimal(accepted as nat);
}

/// Faults that are told together: none, one alone, and one more behind others.
pub proof fn law_faults_are_joined(faults: Seq<Fault>, more: Fault)
    ensures
        fault::joined(Seq::<Fault>::empty()).len() == 0,
        fault::joined(seq![more]) == more.message(),
        faults.len() > 0 ==> fault::joined(faults.push(more)) == fault::joined(faults) + "; "@
            + more.message(),
{
    assert(faults.push(more).drop_last() =~= faults);
    assert(faults.push(more).last() == more);
}

/// What an agent is told of a captured turn, word for word.
pub proof fn law_instruction_reads(turn_id: Seq<char>)
    ensures
        TurnOutput::instruction_for(turn_id)
            == "Publication contract for this turn: conversational-final. The harness, not a tool, publishes your final response. Do not call tools or publish messages yourself in this mode. Return exactly one final response between "@
            + crate::reply_laws::opener(turn_id) + " and "@ + crate::reply_laws::closer(turn_id)
            + ". These markers must appear only once each. Put only channel-ready text inside, no thoughts, progress or drafts. Text outside the markers is not published. Keep the final response below 65536 UTF-8 bytes. If tools are necessary, do not claim success: this turn will require review instead of automatic publication."@,
        OutputMode::unknown_message()
            == "BUZZ_ACP_OUTPUT_MODE must be tool-only or conversational-final"@,
{
}

} // verus!
