//! What a conversational turn has produced so far, and the reply that may be published from it.

use crate::fit;
use crate::text;
use crate::turn_laws;
use vstd::prelude::*;
use vstd::utf8::*;

verus! {

/// The most text that is kept of one turn, in UTF-8 bytes.
pub const MAX_CAPTURE_BYTES: usize = 256 * 1024;

/// The longest reply that is published, in UTF-8 bytes.
pub const MAX_MESSAGE_BYTES: usize = 64 * 1024;

/// Who publishes what an agent has to say.
#[derive(Clone, Copy, Debug, PartialEq, Eq, Structural)]
pub enum OutputMode {
    /// The agent publishes through its tools; nothing is captured.
    ToolOnly,
    /// The final response of the turn is published for the agent.
    ConversationalFinal,
}

impl Default for OutputMode {
    fn default() -> (mode: Self)
        ensures
            mode == OutputMode::ToolOnly,
            OutputMode::named(None) == Some(mode),
    {
        OutputMode::ToolOnly
    }
}

impl OutputMode {
    /// The mode that a setting names, if it names one. White space around the name is ignored.
    pub open spec fn named(value: Option<Seq<char>>) -> Option<OutputMode> {
        match value {
            None => Some(OutputMode::ToolOnly),
            Some(text) => {
                let name = text::trimmed(text);
                if name == ""@ || name == "tool-only"@ {
                    Some(OutputMode::ToolOnly)
                } else if name == "conversational-final"@ {
                    Some(OutputMode::ConversationalFinal)
                } else {
                    None
                }
            },
        }
    }

    /// What is said of a setting that names no mode.
    pub open spec fn unknown_message() -> Seq<char> {
        "BUZZ_ACP_OUTPUT_MODE must be tool-only or conversational-final"@
    }

    /// The mode that the setting `value` names; no setting, and an empty one, name the default.
    pub fn parse(value: Option<&str>) -> (mode: Result<Self, String>)
        ensures
            match mode {
                Ok(mode) => Self::named(
                    match value {
                        Some(text) => Some(text@),
                        None => None,
                    },
                ) == Some(mode),
                Err(message) => {
                    &&& value matches Some(text) && Self::named(Some(text@)) is None
                    &&& message@ == Self::unknown_message()
                },
            },
    {
        match value {
            None => Ok(OutputMode::ToolOnly),
            Some(text) => {
                let chars: Vec<char> = text::chars_of(text);
                let range = text::trim_range(&chars, 0, chars.len());
                assert(chars@.subrange(0, chars@.len() as int) =~= text@);
                let name: &str = text.substring_char(range.0, range.1);
                if text::same_text(name, "") || text::same_text(name, "tool-only") {
                    Ok(OutputMode::ToolOnly)
                } else if text::same_text(name, "conversational-final") {
                    Ok(OutputMode::ConversationalFinal)
                } else {
                    Err("BUZZ_ACP_OUTPUT_MODE must be tool-only or conversational-final".to_owned())
                }
            },
        }
    }
}

/// What a turn has produced so far.
pub struct TurnState {
    /// The turn whose reply is captured; `None` where nothing is captured.
    pub turn_id: Option<Seq<char>>,
    /// The text that was kept.
    pub text: Seq<char>,
    /// A tool was used during the turn.
    pub saw_tool: bool,
    /// More text was produced than is kept.
    pub overflowed: bool,
}

/// Why a captured turn holds no reply that may be published.
#[derive(Clone, Copy, Debug, PartialEq, Eq, Structural)]
pub enum Refusal {
    /// Tools were used, so it is open who has published what.
    UsedTools,
    /// The captured text is incomplete.
    Overflowed,
    /// One of the two markers is missing or stands more than once.
    NoEnvelope,
    /// The closing marker stands before the end of the opening one.
    Reversed,
    /// The reply is empty or too long.
    Length,
    /// The reply holds thought markup or the start of a marker.
    Markup,
}

impl Refusal {
    /// What is said of the refusal.
    pub open spec fn message(self) -> Seq<char> {
        match self {
            Refusal::UsedTools =>
                "automatic publication deferred: this conversational turn used tools; publication ownership cannot be proven"@,
            Refusal::Overflowed =>
                "automatic publication deferred: captured output exceeded 256 KiB; the retained draft is incomplete"@,
            Refusal::NoEnvelope =>
                "automatic publication deferred: missing or repeated final response envelope"@,
            Refusal::Reversed => "automatic publication deferred: reversed final envelope"@,
            Refusal::Length =>
                "automatic publication deferred: final response must contain 1..65536 UTF-8 bytes"@,
            Refusal::Markup =>
                "automatic publication deferred: final response contains thought markup or nested envelopes"@,
        }
    }

    /// What is said of the refusal.
    pub fn text(&self) -> (text: String)
        ensures
            text@ == self.message(),
    {
        match self {
            Refusal::UsedTools =>
                "automatic publication deferred: this conversational turn used tools; publication ownership cannot be proven".to_owned(),
            Refusal::Overflowed =>
                "automatic publication deferred: captured output exceeded 256 KiB; the retained draft is incomplete".to_owned(),
            Refusal::NoEnvelope =>
                "automatic publication deferred: missing or repeated final response envelope".to_owned(),
            Refusal::Reversed => "automatic publication deferred: reversed final envelope".to_owned(),
            Refusal::Length =>
                "automatic publication deferred: final response must contain 1..65536 UTF-8 bytes".to_owned(),
            Refusal::Markup =>
                "automatic publication deferred: final response contains thought markup or nested envelopes".to_owned(),
        }
    }
}

/// The marker that opens the reply of the turn `turn_id`.
pub open spec fn opening(turn_id: Seq<char>) -> Seq<char> {
    "[[BUZZ_FINAL:"@ + turn_id + "]]"@
}

/// The marker that closes the reply of the turn `turn_id`.
pub open spec fn closing(turn_id: Seq<char>) -> Seq<char> {
    "[[/BUZZ_FINAL:"@ + turn_id + "]]"@
}

/// What a reply must not hold: thought markup in any case, or the start of a marker of any turn.
pub open spec fn has_markup(reply: Seq<char>) -> bool {
    ||| text::occurs(text::ascii_lowercase(reply), "<think"@)
    ||| text::occurs(text::ascii_lowercase(reply), "</think"@)
    ||| text::occurs(reply, "[[BUZZ_FINAL:"@)
    ||| text::occurs(reply, "[[/BUZZ_FINAL:"@)
}

impl TurnState {
    /// The state at the start of the turn `turn_id`.
    pub open spec fn begun(mode: OutputMode, turn_id: Seq<char>) -> TurnState {
        TurnState {
            turn_id: if mode == OutputMode::ConversationalFinal {
                Some(turn_id)
            } else {
                None
            },
            text: Seq::empty(),
            saw_tool: false,
            overflowed: false,
        }
    }

    /// The state after everything captured so far is forgotten.
    pub open spec fn cleared(self) -> TurnState {
        TurnState { text: Seq::empty(), saw_tool: false, overflowed: false, ..self }
    }

    /// How many more bytes of text are kept.
    pub open spec fn room(self) -> int {
        if encode_utf8(self.text).len() < MAX_CAPTURE_BYTES {
            MAX_CAPTURE_BYTES - encode_utf8(self.text).len()
        } else {
            0
        }
    }

    /// The state after `more` was produced: as many whole characters are kept as there is room
    /// for, and the first character that has none closes the capture.
    pub open spec fn pushed(self, more: Seq<char>) -> TurnState {
        if self.turn_id is None || self.overflowed {
            self
        } else {
            let kept = fit::fitting(more, self.room());
            TurnState {
                text: self.text + more.take(kept as int),
                overflowed: kept < more.len(),
                ..self
            }
        }
    }

    /// The state after a tool was used.
    pub open spec fn tool_seen(self) -> TurnState {
        TurnState { saw_tool: self.saw_tool || self.turn_id is Some, ..self }
    }

    /// What may be shown of the turn.
    pub open spec fn summarized(self) -> SummaryView {
        SummaryView {
            turn_id: self.turn_id,
            bytes: encode_utf8(self.text).len(),
            saw_tool: self.saw_tool,
            overflowed: self.overflowed,
        }
    }

    /// The reply that the turn publishes: what stands between its two markers, trimmed. Nothing
    /// where the turn is not captured.
    pub open spec fn reply(self) -> Result<Option<Seq<char>>, Refusal> {
        match self.turn_id {
            None => Ok(None),
            Some(turn_id) => if self.saw_tool {
                Err(Refusal::UsedTools)
            } else if self.overflowed {
                Err(Refusal::Overflowed)
            } else if text::match_count(self.text, opening(turn_id), 0) != 1 || text::match_count(
                self.text,
                closing(turn_id),
                0,
            ) != 1 {
                Err(Refusal::NoEnvelope)
            } else {
                let start = text::first_match(self.text, opening(turn_id), 0)->0 + opening(
                    turn_id,
                ).len();
                let end = text::first_match(self.text, closing(turn_id), 0)->0;
                if end < start {
                    Err(Refusal::Reversed)
                } else {
                    let reply = text::trimmed(self.text.subrange(start, end));
                    if reply.len() == 0 || encode_utf8(reply).len() > MAX_MESSAGE_BYTES {
                        Err(Refusal::Length)
                    } else if has_markup(reply) {
                        Err(Refusal::Markup)
                    } else {
                        Ok(Some(reply))
                    }
                }
            },
        }
    }
}

/// What may be shown of a captured turn: how much text there is, and not the text itself.
#[derive(Debug, PartialEq, Eq)]
pub struct TurnSummary<'a> {
    pub turn_id: Option<&'a str>,
    /// The length of the text in UTF-8 bytes.
    pub bytes: usize,
    pub saw_tool: bool,
    pub overflowed: bool,
}

/// What may be shown of a captured turn.
pub struct SummaryView {
    pub turn_id: Option<Seq<char>>,
    pub bytes: nat,
    pub saw_tool: bool,
    pub overflowed: bool,
}

impl<'a> View for TurnSummary<'a> {
    type V = SummaryView;

    open spec fn view(&self) -> SummaryView {
        SummaryView {
            turn_id: match self.turn_id {
                Some(turn_id) => Some(turn_id@),
                None => None,
            },
            bytes: self.bytes as nat,
            saw_tool: self.saw_tool,
            overflowed: self.overflowed,
        }
    }
}

/// The text that a turn produces, as far as it is captured for publication.
pub struct TurnOutput {
    turn_id: Option<String>,
    text: String,
    saw_tool: bool,
    overflowed: bool,
}

impl View for TurnOutput {
    type V = TurnState;

    closed spec fn view(&self) -> TurnState {
        TurnState {
            turn_id: match self.turn_id {
                Some(turn_id) => Some(turn_id@),
                None => None,
            },
            text: self.text@,
            saw_tool: self.saw_tool,
            overflowed: self.overflowed,
        }
    }
}

impl Default for TurnOutput {
    fn default() -> (output: Self)
        ensures
            output@ == TurnState::begun(OutputMode::ToolOnly, Seq::empty()),
            output@.reply() == Ok::<Option<Seq<char>>, Refusal>(None),
    {
        TurnOutput { turn_id: None, text: String::new(), saw_tool: false, overflowed: false }
    }
}

fn marker(prefix: &str, turn_id: &str) -> (marker: String)
    ensures
        marker@ == prefix@ + turn_id@ + "]]"@,
{
    prefix.to_owned().concat(turn_id).concat("]]")
}

impl TurnOutput {
    /// No more text is kept than the limit, and nothing at all where the turn is not captured.
    #[verifier::type_invariant]
    spec fn is_well_formed(self) -> bool {
        turn_laws::well_formed(self@)
    }

    /// Starts to capture the turn `turn_id`, where `mode` asks for it.
    pub fn begin(mode: OutputMode, turn_id: &str) -> (output: Self)
        ensures
            output@ == TurnState::begun(mode, turn_id@),
    {
        let captured: Option<String> = if mode == OutputMode::ConversationalFinal {
            Some(turn_id.to_owned())
        } else {
            None
        };
        TurnOutput { turn_id: captured, text: String::new(), saw_tool: false, overflowed: false }
    }

    /// What an agent is told about publication in a captured turn.
    pub open spec fn instruction_for(turn_id: Seq<char>) -> Seq<char> {
        "Publication contract for this turn: conversational-final. The harness, not a tool, publishes your final response. Do not call tools or publish messages yourself in this mode. Return exactly one final response between "@
            + opening(turn_id) + " and "@ + closing(turn_id)
            + ". These markers must appear only once each. Put only channel-ready text inside, no thoughts, progress or drafts. Text outside the markers is not published. Keep the final response below 65536 UTF-8 bytes. If tools are necessary, do not claim success: this turn will require review instead of automatic publication."@
    }

    /// What the agent is told about publication; nothing where the turn is not captured.
    pub fn instruction(&self) -> (instruction: Option<String>)
        ensures
            match self@.turn_id {
                Some(turn_id) => instruction matches Some(told) && told@ == Self::instruction_for(
                    turn_id,
                ),
                None => instruction is None,
            },
    {
        match &self.turn_id {
            None => None,
            Some(turn_id) => Some(
                "Publication contract for this turn: conversational-final. The harness, not a tool, publishes your final response. Do not call tools or publish messages yourself in this mode. Return exactly one final response between ".to_owned().concat(
                    marker("[[BUZZ_FINAL:", turn_id.as_str()).as_str(),
                ).concat(" and ").concat(
                    marker("[[/BUZZ_FINAL:", turn_id.as_str()).as_str(),
                ).concat(
                    ". These markers must appear only once each. Put only channel-ready text inside, no thoughts, progress or drafts. Text outside the markers is not published. Keep the final response below 65536 UTF-8 bytes. If tools are necessary, do not claim success: this turn will require review instead of automatic publication.",
                ),
            ),
        }
    }

    /// Forgets what was captured, for a new attempt at the same turn.
    pub fn reset(&mut self)
        ensures
            final(self)@ == old(self)@.cleared(),
    {
        proof {
            use_type_invariant(&*self);
        }
        self.text = String::new();
        self.saw_tool = false;
        self.overflowed = false;
    }

    /// Captures more text of the turn.
    pub fn push_text(&mut self, text: &str)
        ensures
            final(self)@ == old(self)@.pushed(text@),
    {
        proof {
            use_type_invariant(&*self);
        }
        if self.turn_id.is_none() || self.overflowed {
            return ;
        }
        let held: usize = text::byte_len(self.text.as_str());
        let room: usize = if held < MAX_CAPTURE_BYTES {
            MAX_CAPTURE_BYTES - held
        } else {
            0
        };
        let part: &str = fit::fitting_part(text, room);
        let kept: usize = text::byte_len(part);
        let total: usize = text::byte_len(text);
        proof {
            fit::lemma_fitting(text@, room as int);
            fit::lemma_prefix_shorter(text@, fit::fitting(text@, room as int) as int);
        }
        let mut captured: String = String::new();
        std::mem::swap(&mut captured, &mut self.text);
        proof {
            fit::lemma_encode_concat(captured@, part@);
        }
        captured.append(part);
        self.text = captured;
        self.overflowed = kept < total;
    }

    /// Notes that a tool was used.
    pub fn observe_tool(&mut self)
        ensures
            final(self)@ == old(self)@.tool_seen(),
    {
        proof {
            use_type_invariant(&*self);
        }
        if self.turn_id.is_some() {
            self.saw_tool = true;
        }
    }

    /// The text that was captured.
    pub fn captured_text(&self) -> (text: &str)
        ensures
            text@ == self@.text,
            encode_utf8(text@).len() <= MAX_CAPTURE_BYTES,
    {
        proof {
            use_type_invariant(self);
        }
        self.text.as_str()
    }

    /// Whether the turn is captured.
    pub fn is_captured(&self) -> (captured: bool)
        ensures
            captured == (self@.turn_id is Some),
    {
        self.turn_id.is_some()
    }

    /// What may be shown of the turn in a log.
    pub fn summary(&self) -> (summary: TurnSummary<'_>)
        ensures
            summary@ == self@.summarized(),
    {
        TurnSummary {
            turn_id: match &self.turn_id {
                Some(turn_id) => Some(turn_id.as_str()),
                None => None,
            },
            bytes: text::byte_len(self.text.as_str()),
            saw_tool: self.saw_tool,
            overflowed: self.overflowed,
        }
    }

    /// The reply that the turn publishes, or why it publishes none.
    pub fn reply(&self) -> (reply: Result<Option<String>, Refusal>)
        ensures
            match reply {
                Ok(Some(reply)) => self@.reply() == Ok::<Option<Seq<char>>, Refusal>(Some(reply@)),
                Ok(None) => self@.reply() == Ok::<Option<Seq<char>>, Refusal>(None),
                Err(refusal) => self@.reply() == Err::<Option<Seq<char>>, Refusal>(refusal),
            },
    {
        let turn_id: &String = match &self.turn_id {
            None => {
                return Ok(None);
            },
            Some(turn_id) => turn_id,
        };
        if self.saw_tool {
            return Err(Refusal::UsedTools);
        }
        if self.overflowed {
            return Err(Refusal::Overflowed);
        }
        let opening: Vec<char> = text::chars_of(marker("[[BUZZ_FINAL:", turn_id.as_str()).as_str());
        let closing: Vec<char> = text::chars_of(
            marker("[[/BUZZ_FINAL:", turn_id.as_str()).as_str(),
        );
        proof {
            reveal_strlit("[[BUZZ_FINAL:");
            reveal_strlit("[[/BUZZ_FINAL:");
        }
        let text: Vec<char> = text::chars_of(self.text.as_str());
        if text::count(&text, &opening) != 1 || text::count(&text, &closing) != 1 {
            return Err(Refusal::NoEnvelope);
        }
        proof {
            text::lemma_count_from_first(text@, opening@, 0);
            text::lemma_count_from_first(text@, closing@, 0);
            text::lemma_first_match(text@, opening@, 0);
            text::lemma_first_match(text@, closing@, 0);
        }
        let len: usize = text.len();
        let start: usize = text::find(&text, &opening, 0).unwrap() + opening.len();
        let end: usize = text::find(&text, &closing, 0).unwrap();
        if end < start {
            return Err(Refusal::Reversed);
        }
        let range = text::trim_range(&text, start, end);
        let reply: &str = self.text.as_str().substring_char(range.0, range.1);
        if range.0 == range.1 || text::byte_len(reply) > MAX_MESSAGE_BYTES {
            return Err(Refusal::Length);
        }
        let chars: Vec<char> = text::slice_of(&text, range.0, range.1);
        let lower: Vec<char> = text::lowered(&text, range.0, range.1);
        if text::contains(&lower, &text::chars_of("<think")) || text::contains(
            &lower,
            &text::chars_of("</think"),
        ) || text::contains(&chars, &text::chars_of("[[BUZZ_FINAL:")) || text::contains(
            &chars,
            &text::chars_of("[[/BUZZ_FINAL:"),
        ) {
            return Err(Refusal::Markup);
        }
        Ok(Some(reply.to_owned()))
    }

    /// The reply that the turn publishes, or what is said of why it publishes none.
    pub fn final_text(&self) -> (reply: Result<Option<String>, String>)
        ensures
            match self@.reply() {
                Ok(Some(expected)) => reply matches Ok(Some(text)) && text@ == expected,
                Ok(None) => reply matches Ok(None),
                Err(refusal) => reply matches Err(text) && text@ == refusal.message(),
            },
    {
        match self.reply() {
            Ok(reply) => Ok(reply),
            Err(refusal) => Err(refusal.text()),
        }
    }
}

} // verus!
