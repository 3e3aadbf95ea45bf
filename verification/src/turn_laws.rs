//! What holds of every captured turn, whatever is pushed and in whatever order.

use crate::fit;
use crate::text;
use crate::turn;
use crate::turn::{OutputMode, Refusal, TurnState};
use vstd::prelude::*;
use vstd::utf8::*;

verus! {

/// What every reachable state keeps: no more text than the limit, and nothing at all where the
/// turn is not captured.
pub open spec fn well_formed(state: TurnState) -> bool {
    &&& encode_utf8(state.text).len() <= turn::MAX_CAPTURE_BYTES
    &&& state.turn_id is None ==> state.text.len() == 0 && !state.saw_tool && !state.overflowed
}

/// Every turn starts well formed, and capturing, tool use and a reset keep it so.
pub proof fn law_capture_stays_bounded(
    state: TurnState,
    mode: OutputMode,
    turn_id: Seq<char>,
    more: Seq<char>,
)
    requires
        well_formed(state),
    ensures
        well_formed(TurnState::begun(mode, turn_id)),
        well_formed(state.pushed(more)),
        well_formed(state.tool_seen()),
        well_formed(state.cleared()),
{
    fit::lemma_fitting(more, state.room());
    fit::lemma_encode_concat(state.text, more.take(fit::fitting(more, state.room()) as int));
}

proof fn lemma_fitting_concat(a: Seq<char>, b: Seq<char>, room: int)
    requires
        0 <= room,
    ensures
        fit::fitting(a, room) < a.len() ==> fit::fitting(a + b, room) == fit::fitting(a, room),
        fit::fitting(a, room) >= a.len() ==> {
            &&& fit::fitting(a, room) == a.len()
            &&& encode_utf8(a).len() <= room
            &&& fit::fitting(a + b, room) == a.len() + fit::fitting(b, room - encode_utf8(a).len())
        },
    decreases a.len(),
{
    if a.len() == 0 {
        assert(a + b =~= b);
    } else {
        let width = encode_scalar(a[0] as u32).len() as int;
        assert((a + b)[0] == a[0]);
        assert((a + b).drop_first() =~= a.drop_first() + b);
        if width <= room {
            lemma_fitting_concat(a.drop_first(), b, room - width);
        }
    }
}

/// How a text is cut into pieces makes no difference: pushing two pieces leaves the turn as pushing
/// both at once does.
pub proof fn law_fragments_join(state: TurnState, a: Seq<char>, b: Seq<char>)
    ensures
        state.pushed(a).pushed(b) == state.pushed(a + b),
{
    if state.turn_id is Some && !state.overflowed {
        let room = state.room();
        let kept = fit::fitting(a, room) as int;
        fit::lemma_fitting(a, room);
        lemma_fitting_concat(a, b, room);
        if kept < a.len() {
            assert((a + b).take(kept) =~= a.take(kept));
        } else {
            assert(a.take(kept) =~= a);
            fit::lemma_encode_concat(state.text, a);
            let rest = fit::fitting(b, room - encode_utf8(a).len()) as int;
            assert(state.pushed(a).room() == room - encode_utf8(a).len());
            fit::lemma_fitting(b, room - encode_utf8(a).len());
            assert((a + b).take(a.len() + rest) =~= a + b.take(rest));
            assert(state.text + a + b.take(rest) =~= state.text + (a + b.take(rest)));
        }
    }
}

/// Text is only ever added at the end, whole characters at a time, and never past an overflow: what
/// was kept stays kept, and what is added is the start of what was pushed.
pub proof fn law_push_only_appends(state: TurnState, more: Seq<char>)
    ensures
        exists|kept: int|
            0 <= kept <= more.len() && state.pushed(more).text == state.text + #[trigger] more.take(
                kept,
            ),
        state.overflowed ==> state.pushed(more) == state,
        state.turn_id is Some && !state.overflowed && !state.pushed(more).overflowed
            ==> state.pushed(more).text == state.text + more,
        state.pushed(more).turn_id == state.turn_id,
        state.pushed(more).saw_tool == state.saw_tool,
{
    fit::lemma_fitting(more, state.room());
    if state.turn_id is Some && !state.overflowed {
        let kept = fit::fitting(more, state.room()) as int;
        assert(state.pushed(more).text == state.text + more.take(kept));
        if kept == more.len() {
            assert(more.take(kept) =~= more);
        }
    } else {
        assert(state.text + more.take(0) =~= state.text);
    }
}

/// A turn in tool-only mode captures nothing and publishes nothing, whatever it produces.
pub proof fn law_tool_only_captures_nothing(turn_id: Seq<char>, more: Seq<char>)
    ensures
        ({
            let state = TurnState::begun(OutputMode::ToolOnly, turn_id);
            &&& state.pushed(more) == state
            &&& state.tool_seen() == state
            &&& state.reply() == Ok::<Option<Seq<char>>, Refusal>(None)
        }),
{
}

/// Once a captured turn has used a tool it publishes nothing, whatever it produces after, until it
/// is reset.
pub proof fn law_tool_use_blocks_publication(state: TurnState, more: Seq<char>)
    requires
        state.turn_id is Some,
    ensures
        state.tool_seen().reply() == Err::<Option<Seq<char>>, Refusal>(Refusal::UsedTools),
        state.tool_seen().pushed(more).reply() == Err::<Option<Seq<char>>, Refusal>(
            Refusal::UsedTools,
        ),
        !state.tool_seen().cleared().saw_tool,
{
}

/// An incomplete capture publishes nothing, whatever it produces after, until it is reset.
pub proof fn law_overflow_blocks_publication(state: TurnState, more: Seq<char>)
    requires
        state.turn_id is Some,
        state.overflowed,
        !state.saw_tool,
    ensures
        state.pushed(more).reply() == Err::<Option<Seq<char>>, Refusal>(Refusal::Overflowed),
        !state.cleared().overflowed,
{
}

/// A reset leaves a turn as it was when it began.
pub proof fn law_reset_starts_over(state: TurnState, mode: OutputMode, turn_id: Seq<char>)
    requires
        state.turn_id == TurnState::begun(mode, turn_id).turn_id,
    ensures
        state.cleared() == TurnState::begun(mode, turn_id),
{
}

/// What is published stands between the turn's own two markers, each of which stands once; it is
/// trimmed, holds from one byte to the limit, and holds no thought markup and no marker.
pub proof fn law_published_reply(state: TurnState) -> (span: (int, int))
    requires
        state.reply() matches Ok(Some(_)),
    ensures
        ({
            let turn_id = state.turn_id->0;
            let reply = (state.reply()->Ok_0)->0;
            &&& state.turn_id is Some
            &&& !state.saw_tool
            &&& !state.overflowed
            &&& text::match_count(state.text, turn::opening(turn_id), 0) == 1
            &&& text::match_count(state.text, turn::closing(turn_id), 0) == 1
            &&& 0 <= span.0 <= span.1 <= state.text.len()
            &&& text::matches_at(
                state.text,
                turn::opening(turn_id),
                span.0 - turn::opening(turn_id).len(),
            )
            &&& text::matches_at(state.text, turn::closing(turn_id), span.1)
            &&& reply == text::trimmed(state.text.subrange(span.0, span.1))
            &&& 1 <= encode_utf8(reply).len() <= turn::MAX_MESSAGE_BYTES
            &&& !text::is_white_space(reply[0])
            &&& !text::is_white_space(reply.last())
            &&& !turn::has_markup(reply)
        }),
{
    let turn_id = state.turn_id->0;
    reveal_strlit("[[BUZZ_FINAL:");
    reveal_strlit("[[/BUZZ_FINAL:");
    text::lemma_count_from_first(state.text, turn::opening(turn_id), 0);
    text::lemma_count_from_first(state.text, turn::closing(turn_id), 0);
    text::lemma_first_match(state.text, turn::opening(turn_id), 0);
    text::lemma_first_match(state.text, turn::closing(turn_id), 0);
    let start = text::first_match(state.text, turn::opening(turn_id), 0)->0 + turn::opening(
        turn_id,
    ).len();
    let end = text::first_match(state.text, turn::closing(turn_id), 0)->0;
    let reply = text::trimmed(state.text.subrange(start, end));
    text::lemma_trimmed(state.text.subrange(start, end));
    fit::lemma_prefix_shorter(reply, 0);
    (start, end)
}

/// A captured turn that used no tool and wrapped its reply once in its own markers publishes
/// exactly that reply, whatever stands around the markers.
pub proof fn law_enveloped_reply_is_published(
    state: TurnState,
    before: Seq<char>,
    reply: Seq<char>,
    after: Seq<char>,
)
    requires
        state.turn_id is Some,
        !state.saw_tool,
        !state.overflowed,
        state.text == before + turn::opening(state.turn_id->0) + reply + turn::closing(
            state.turn_id->0,
        ) + after,
        forall|at: int|
            text::matches_at(state.text, turn::opening(state.turn_id->0), at) ==> at
                == before.len(),
        forall|at: int|
            text::matches_at(state.text, turn::closing(state.turn_id->0), at) ==> at
                == before.len() + turn::opening(state.turn_id->0).len() + reply.len(),
    ensures
        ({
            let published = text::trimmed(reply);
            state.reply() == (if published.len() == 0 || encode_utf8(published).len()
                > turn::MAX_MESSAGE_BYTES {
                Err::<Option<Seq<char>>, Refusal>(Refusal::Length)
            } else if turn::has_markup(published) {
                Err(Refusal::Markup)
            } else {
                Ok(Some(published))
            })
        }),
{
    let open = turn::opening(state.turn_id->0);
    let close = turn::closing(state.turn_id->0);
    let start = (before.len() + open.len()) as int;
    let end = (start + reply.len()) as int;
    reveal_strlit("[[BUZZ_FINAL:");
    reveal_strlit("[[/BUZZ_FINAL:");
    assert(state.text.subrange(before.len() as int, start) =~= open);
    assert(state.text.subrange(end, end + close.len()) =~= close);
    text::lemma_sole_match(state.text, open, before.len() as int);
    text::lemma_sole_match(state.text, close, end);
    assert(state.text.subrange(start, end) =~= reply);
}

/// What may be shown of a turn tells nothing of the captured text but its length.
pub proof fn law_summary_hides_the_text(state: TurnState, other: Seq<char>)
    requires
        encode_utf8(other).len() == encode_utf8(state.text).len(),
    ensures
        (TurnState { text: other, ..state }).summarized() == state.summarized(),
{
}

} // verus!
