//! Which reply a captured turn publishes, and why it publishes none, in terms of what stands where.

use crate::fit;
use crate::text;
use crate::text_laws;
use crate::turn;
use crate::turn::{OutputMode, Refusal, TurnState};
use vstd::prelude::*;
use vstd::utf8::*;

verus! {

/// The marker that opens the reply of a turn.
pub open spec fn opener(turn_id: Seq<char>) -> Seq<char> {
    "[[BUZZ_FINAL:"@ + turn_id + "]]"@
}

/// The marker that closes the reply of a turn.
pub open spec fn closer(turn_id: Seq<char>) -> Seq<char> {
    "[[/BUZZ_FINAL:"@ + turn_id + "]]"@
}

/// The reply of the turn runs from `from` to `to`: each of its markers stands once, the opening one
/// before and the closing one behind.
pub open spec fn is_enveloped(text: Seq<char>, turn_id: Seq<char>, from: int, to: int) -> bool {
    &&& text_laws::stands_once(text, opener(turn_id), from - opener(turn_id).len())
    &&& text_laws::stands_once(text, closer(turn_id), to)
    &&& from <= to
}

/// Nowhere in `reply` stands the start of a thought, in any case, or of a marker of any turn.
pub open spec fn is_plain(reply: Seq<char>) -> bool {
    forall|at: int|
        {
            &&& !text_laws::stands_folded_at(reply, "<think"@, at)
            &&& !text_laws::stands_folded_at(reply, "</think"@, at)
            &&& !#[trigger] text_laws::stands_at(reply, "[[BUZZ_FINAL:"@, at)
            &&& !text_laws::stands_at(reply, "[[/BUZZ_FINAL:"@, at)
        }
}

/// A reply that is neither empty nor too long.
pub open spec fn has_length(reply: Seq<char>) -> bool {
    0 < reply.len() && encode_utf8(reply).len() <= 65536
}

/// `reply` stands, trimmed, in the envelope of the turn.
pub open spec fn is_held(text: Seq<char>, turn_id: Seq<char>, reply: Seq<char>) -> bool {
    exists|from: int, to: int| #[trigger]
        is_enveloped(text, turn_id, from, to) && text_laws::is_core(reply, text.subrange(from, to))
}

proof fn lemma_markup(reply: Seq<char>)
    ensures
        turn::has_markup(reply) <==> !is_plain(reply),
{
    let lower = text::ascii_lowercase(reply);
    text_laws::law_search_finds_the_first_place(lower, "<think"@);
    text_laws::law_search_finds_the_first_place(lower, "</think"@);
    text_laws::law_search_finds_the_first_place(reply, "[[BUZZ_FINAL:"@);
    text_laws::law_search_finds_the_first_place(reply, "[[/BUZZ_FINAL:"@);
    assert forall|at: int|
        text_laws::stands_at(lower, "<think"@, at) == text_laws::stands_folded_at(
            reply,
            "<think"@,
            at,
        ) by {
        text_laws::law_case_folding(reply, "<think"@, at);
    }
    assert forall|at: int|
        text_laws::stands_at(lower, "</think"@, at) == text_laws::stands_folded_at(
            reply,
            "</think"@,
            at,
        ) by {
        text_laws::law_case_folding(reply, "</think"@, at);
    }
    if turn::has_markup(reply) {
        if text::occurs(lower, "<think"@) {
            let at = choose|at: int| text_laws::stands_at(lower, "<think"@, at);
            let other = text_laws::stands_at(reply, "[[BUZZ_FINAL:"@, at);
            assert(text_laws::stands_folded_at(reply, "<think"@, at));
        } else if text::occurs(lower, "</think"@) {
            let at = choose|at: int| text_laws::stands_at(lower, "</think"@, at);
            let other = text_laws::stands_at(reply, "[[BUZZ_FINAL:"@, at);
            assert(text_laws::stands_folded_at(reply, "</think"@, at));
        } else if text::occurs(reply, "[[BUZZ_FINAL:"@) {
            let at = choose|at: int| text_laws::stands_at(reply, "[[BUZZ_FINAL:"@, at);
            assert(text_laws::stands_at(reply, "[[BUZZ_FINAL:"@, at));
        } else {
            let at = choose|at: int| text_laws::stands_at(reply, "[[/BUZZ_FINAL:"@, at);
            let other = text_laws::stands_at(reply, "[[BUZZ_FINAL:"@, at);
        }
    }
    if !is_plain(reply) {
        let at = choose|at: int|
            {
                ||| text_laws::stands_folded_at(reply, "<think"@, at)
                ||| text_laws::stands_folded_at(reply, "</think"@, at)
                ||| #[trigger] text_laws::stands_at(reply, "[[BUZZ_FINAL:"@, at)
                ||| text_laws::stands_at(reply, "[[/BUZZ_FINAL:"@, at)
            };
        assert(text_laws::stands_at(lower, "<think"@, at) || text_laws::stands_at(
            lower,
            "</think"@,
            at,
        ) || text_laws::stands_at(reply, "[[BUZZ_FINAL:"@, at) || text_laws::stands_at(
            reply,
            "[[/BUZZ_FINAL:"@,
            at,
        ));
    }
}

/// What a turn that is captured, used no tool and did not overflow makes of its text: the markers
/// decide first, in this order, then the length, then the markup; and what is left is published.
pub proof fn law_reply_is_what_the_envelope_holds(state: TurnState, turn_id: Seq<char>, reply: Seq<char>)
    requires
        state.turn_id == Some(turn_id),
        !state.saw_tool,
        !state.overflowed,
    ensures
        state.reply() == Ok::<Option<Seq<char>>, Refusal>(Some(reply)) <==> is_held(
            state.text,
            turn_id,
            reply,
        ) && has_length(reply) && is_plain(reply),
        is_held(state.text, turn_id, reply) && !has_length(reply) ==> state.reply() == Err::<
            Option<Seq<char>>,
            Refusal,
        >(Refusal::Length),
        is_held(state.text, turn_id, reply) && has_length(reply) && !is_plain(reply)
            ==> state.reply() == Err::<Option<Seq<char>>, Refusal>(Refusal::Markup),
        state.reply() == Err::<Option<Seq<char>>, Refusal>(Refusal::NoEnvelope) <==> (forall|at: int|
            !text_laws::stands_once(state.text, opener(turn_id), at)) || (forall|at: int|
            !text_laws::stands_once(state.text, closer(turn_id), at)),
        state.reply() == Err::<Option<Seq<char>>, Refusal>(Refusal::Reversed) <==> exists|
            open: int,
            close: int,
        |
            #![trigger text_laws::stands_once(state.text, opener(turn_id), open), text_laws::stands_once(state.text, closer(turn_id), close)]
            text_laws::stands_once(state.text, opener(turn_id), open) && text_laws::stands_once(
                state.text,
                closer(turn_id),
                close,
            ) && close < open + opener(turn_id).len(),
        state.reply() != Ok::<Option<Seq<char>>, Refusal>(None),
        state.reply() != Err::<Option<Seq<char>>, Refusal>(Refusal::UsedTools),
        state.reply() != Err::<Option<Seq<char>>, Refusal>(Refusal::Overflowed),
{
    reveal_strlit("[[BUZZ_FINAL:");
    reveal_strlit("[[/BUZZ_FINAL:");
    let text = state.text;
    let open = opener(turn_id);
    let close = closer(turn_id);
    assert(open == turn::opening(turn_id) && close == turn::closing(turn_id));
    text_laws::law_count_of_one(text, open);
    text_laws::law_count_of_one(text, close);
    if text::match_count(text, open, 0) == 1 && text::match_count(text, close, 0) == 1 {
        let at = choose|at: int| text_laws::stands_once(text, open, at);
        let end = choose|at: int| text_laws::stands_once(text, close, at);
        let start = at + open.len();
        assert(text::first_match(text, open, 0) == Some(at));
        assert(text::first_match(text, close, 0) == Some(end));
        if start <= end {
            let held = text::trimmed(text.subrange(start, end));
            text_laws::law_trimming_leaves_the_core(text.subrange(start, end), held);
            text_laws::law_trimming_leaves_the_core(text.subrange(start, end), reply);
            assert(start - open.len() == at);
            assert(is_enveloped(text, turn_id, start, end));
            assert(is_held(text, turn_id, held));
            lemma_markup(held);
            assert forall|from: int, to: int| #[trigger]
                is_enveloped(text, turn_id, from, to) implies from == start && to == end by {
                assert(text_laws::stands_once(text, open, from - open.len()));
                assert(text_laws::stands_once(text, close, to));
            }
            assert(is_held(text, turn_id, reply) <==> reply == held);
        } else {
            assert forall|from: int, to: int| !#[trigger] is_enveloped(text, turn_id, from, to) by {
                if is_enveloped(text, turn_id, from, to) {
                    assert(text_laws::stands_once(text, open, from - open.len()));
                    assert(text_laws::stands_once(text, close, to));
                }
            }
        }
    } else {
        assert forall|from: int, to: int| !#[trigger] is_enveloped(text, turn_id, from, to) by {
            if is_enveloped(text, turn_id, from, to) {
                assert(text_laws::stands_once(text, open, from - open.len()));
                assert(text_laws::stands_once(text, close, to));
            }
        }
    }
}

/// A turn that is not captured publishes nothing; one that used a tool is refused for that, and
/// otherwise one that overflowed for that, whatever its text holds.
pub proof fn law_state_decides_before_the_text(state: TurnState)
    ensures
        state.reply() == Ok::<Option<Seq<char>>, Refusal>(None) <==> state.turn_id is None,
        state.reply() == Err::<Option<Seq<char>>, Refusal>(Refusal::UsedTools) <==> state.turn_id
            is Some && state.saw_tool,
        state.reply() == Err::<Option<Seq<char>>, Refusal>(Refusal::Overflowed) <==> state.turn_id
            is Some && !state.saw_tool && state.overflowed,
{
}

/// A published reply holds no thought and no marker, at any place and in any case.
pub proof fn law_published_reply_is_plain(state: TurnState, reply: Seq<char>, at: int)
    requires
        state.reply() == Ok::<Option<Seq<char>>, Refusal>(Some(reply)),
    ensures
        !text_laws::stands_folded_at(reply, "<think"@, at),
        !text_laws::stands_folded_at(reply, "</think"@, at),
        !text_laws::stands_at(reply, "[[BUZZ_FINAL:"@, at),
        !text_laws::stands_at(reply, "[[/BUZZ_FINAL:"@, at),
        0 < reply.len(),
        encode_utf8(reply).len() <= 65536,
{
    law_state_decides_before_the_text(state);
    law_reply_is_what_the_envelope_holds(state, state.turn_id->0, reply);
    let place = text_laws::stands_at(reply, "[[BUZZ_FINAL:"@, at);
}

/// A captured turn that has not overflowed keeps of what is pushed the longest start that leaves it
/// within its limit, and overflows exactly where something is left over. Nothing else changes.
pub proof fn law_push_keeps_the_longest_start(state: TurnState, more: Seq<char>, other: int)
    requires
        state.turn_id is Some,
        !state.overflowed,
        encode_utf8(state.text).len() <= 262144,
    ensures
        ({
            let after = state.pushed(more);
            let kept = after.text.len() - state.text.len();
            &&& 0 <= kept <= more.len()
            &&& after.text == state.text + more.take(kept)
            &&& encode_utf8(after.text).len() <= 262144
            &&& kept < other <= more.len() ==> encode_utf8(state.text + more.take(other)).len()
                > 262144
            &&& after.overflowed <==> kept < more.len()
            &&& after.turn_id == state.turn_id
            &&& after.saw_tool == state.saw_tool
        }),
{
    fit::lemma_fitting(more, state.room());
    let kept = fit::fitting(more, state.room()) as int;
    fit::lemma_encode_concat(state.text, more.take(kept));
    if kept < other <= more.len() {
        fit::lemma_encode_concat(state.text, more.take(other));
        let bytes = encode_utf8(more.take(other)).len();
    }
}

/// What is pushed to a turn that is not captured, or that has overflowed, is lost.
pub proof fn law_closed_turn_keeps_nothing(state: TurnState, more: Seq<char>)
    requires
        state.turn_id is None || state.overflowed,
    ensures
        state.pushed(more) == state,
{
}

/// How a turn starts, starts over, and notes a tool.
pub proof fn law_turn_starts_and_notes_tools(state: TurnState, turn_id: Seq<char>)
    ensures
        TurnState::begun(OutputMode::ConversationalFinal, turn_id).turn_id == Some(turn_id),
        TurnState::begun(OutputMode::ToolOnly, turn_id).turn_id is None,
        forall|mode: OutputMode|
            {
                let begun = #[trigger] TurnState::begun(mode, turn_id);
                begun.text.len() == 0 && !begun.saw_tool && !begun.overflowed
            },
        state.cleared().turn_id == state.turn_id,
        state.cleared().text.len() == 0,
        !state.cleared().saw_tool,
        !state.cleared().overflowed,
        state.tool_seen().saw_tool <==> state.saw_tool || state.turn_id is Some,
        state.tool_seen().turn_id == state.turn_id,
        state.tool_seen().text == state.text,
        state.tool_seen().overflowed == state.overflowed,
        state.summarized().turn_id == state.turn_id,
        state.summarized().bytes == encode_utf8(state.text).len(),
        state.summarized().saw_tool == state.saw_tool,
        state.summarized().overflowed == state.overflowed,
{
}

/// A setting names a mode exactly where its core is the name of that mode; no setting, and a blank
/// one, name the default.
pub proof fn law_setting_names_a_mode(value: Seq<char>)
    ensures
        OutputMode::named(None) == Some(OutputMode::ToolOnly),
        OutputMode::named(Some(value)) == Some(OutputMode::ToolOnly) <==> (text_laws::is_core(
            Seq::empty(),
            value,
        ) || text_laws::is_core("tool-only"@, value)),
        OutputMode::named(Some(value)) == Some(OutputMode::ConversationalFinal)
            <==> text_laws::is_core("conversational-final"@, value),
{
    reveal_strlit("");
    reveal_strlit("tool-only");
    reveal_strlit("conversational-final");
    assert(""@ =~= Seq::<char>::empty());
    text_laws::law_trimming_leaves_the_core(value, Seq::empty());
    text_laws::law_trimming_leaves_the_core(value, "tool-only"@);
    text_laws::law_trimming_leaves_the_core(value, "conversational-final"@);
    assert("conversational-final"@.len() != "tool-only"@.len());
}

/// What an agent is told names the two markers that its reply must stand between.
pub proof fn law_instruction_names_the_markers(turn_id: Seq<char>) -> (places: (int, int))
    ensures
        text_laws::stands_at(
            turn::TurnOutput::instruction_for(turn_id),
            opener(turn_id),
            places.0,
        ),
        text_laws::stands_at(
            turn::TurnOutput::instruction_for(turn_id),
            closer(turn_id),
            places.1,
        ),
        places.0 + opener(turn_id).len() <= places.1,
{
    let told = turn::TurnOutput::instruction_for(turn_id);
    let first =
        "Publication contract for this turn: conversational-final. The harness, not a tool, publishes your final response. Do not call tools or publish messages yourself in this mode. Return exactly one final response between "@.len() as int;
    let second = first + opener(turn_id).len() + " and "@.len();
    assert(told.subrange(first, first + opener(turn_id).len()) =~= opener(turn_id));
    assert(told.subrange(second, second + closer(turn_id).len()) =~= closer(turn_id));
    text_laws::law_match_is_read(told, opener(turn_id), first);
    text_laws::law_match_is_read(told, closer(turn_id), second);
    (first, second)
}

} // verus!
