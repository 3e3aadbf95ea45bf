use auto_publish::turn::{
    OutputMode, Refusal, TurnOutput, TurnSummary, MAX_CAPTURE_BYTES, MAX_MESSAGE_BYTES,
};

fn capture(body: &str) -> TurnOutput {
    let mut output = TurnOutput::begin(OutputMode::ConversationalFinal, "fresh");
    output.push_text(body);
    output
}

#[test]
fn tool_only_is_default_and_captures_nothing() {
    assert_eq!(OutputMode::parse(None), Ok(OutputMode::ToolOnly));
    assert!(OutputMode::parse(Some("true")).is_err());
    let mut output = TurnOutput::begin(OutputMode::ToolOnly, "fresh");
    output.push_text(&"secret".repeat(100_000));
    assert_eq!(output.captured_text(), "");
    assert_eq!(output.final_text(), Ok(None));
}

#[test]
fn fragmented_envelope_ignores_progress() {
    let mut output = capture("Progress: inspect later. [[BUZZ_FI");
    output.push_text("NAL:fresh]]Xin chào 🐝[[/BUZZ_FINAL:fresh]] internal footer");
    assert_eq!(output.final_text(), Ok(Some("Xin chào 🐝".into())));
}

#[test]
fn rejects_stale_missing_multiple_and_reversed_envelopes() {
    for text in [
        "raw final text",
        "[[BUZZ_FINAL:old]]reply[[/BUZZ_FINAL:old]]",
        "[[BUZZ_FINAL:fresh]]unfinished",
        "[[/BUZZ_FINAL:fresh]][[BUZZ_FINAL:fresh]]",
        "[[BUZZ_FINAL:fresh]]one[[/BUZZ_FINAL:fresh]][[BUZZ_FINAL:fresh]]two[[/BUZZ_FINAL:fresh]]",
    ] {
        assert!(capture(text).final_text().is_err(), "{text}");
    }
}

#[test]
fn rejects_thought_markup_instead_of_leaking_nested_tail() {
    for body in [
        "<think>outer<think>inner</think>SECRET</think>public",
        "<THINK>secret</THINK>",
        "<think>unclosed",
        "<think >secret</think >",
    ] {
        let output = capture(&format!("[[BUZZ_FINAL:fresh]]{body}[[/BUZZ_FINAL:fresh]]"));
        assert!(output.final_text().is_err());
    }
}

#[test]
fn tool_activity_never_means_message_was_sent() {
    let mut output = capture("[[BUZZ_FINAL:fresh]]reply[[/BUZZ_FINAL:fresh]]");
    output.observe_tool();
    assert!(output.final_text().is_err());
}

#[test]
fn enforces_utf8_byte_limits_without_panicking() {
    let exactly = "a".repeat(MAX_MESSAGE_BYTES);
    assert!(capture(&format!("[[BUZZ_FINAL:fresh]]{exactly}[[/BUZZ_FINAL:fresh]]")).final_text().is_ok());
    assert!(capture(&format!("[[BUZZ_FINAL:fresh]]{exactly}é[[/BUZZ_FINAL:fresh]]")).final_text().is_err());
    let mut output = capture(&"a".repeat(MAX_CAPTURE_BYTES - 1));
    output.push_text("🐝");
    assert_eq!(output.captured_text().len(), MAX_CAPTURE_BYTES - 1);
    assert!(output.final_text().is_err());
}

#[test]
fn reset_drops_old_text_and_tool_state() {
    let mut output = capture("old");
    output.observe_tool();
    output.reset();
    output.push_text("[[BUZZ_FINAL:fresh]]new[[/BUZZ_FINAL:fresh]]");
    assert_eq!(output.final_text(), Ok(Some("new".into())));
}

#[test]
fn output_mode_is_read_from_its_name() {
    assert_eq!(OutputMode::default(), OutputMode::ToolOnly);
    assert_eq!(OutputMode::parse(Some("")), Ok(OutputMode::ToolOnly));
    assert_eq!(OutputMode::parse(Some(" \t\u{a0}\n")), Ok(OutputMode::ToolOnly));
    assert_eq!(OutputMode::parse(Some("tool-only")), Ok(OutputMode::ToolOnly));
    assert_eq!(
        OutputMode::parse(Some("\u{2003}conversational-final ")),
        Ok(OutputMode::ConversationalFinal)
    );
    assert_eq!(
        OutputMode::parse(Some("Tool-only")),
        Err("BUZZ_ACP_OUTPUT_MODE must be tool-only or conversational-final".to_string())
    );
}

#[test]
fn each_refusal_has_its_text() {
    let mut used_tools = capture("[[BUZZ_FINAL:fresh]]reply[[/BUZZ_FINAL:fresh]]");
    used_tools.observe_tool();
    let overflowed = capture(&"a".repeat(MAX_CAPTURE_BYTES + 1));
    let missing = capture("reply");
    let reversed = capture("[[/BUZZ_FINAL:fresh]]reply[[BUZZ_FINAL:fresh]]");
    let empty = capture("[[BUZZ_FINAL:fresh]] \n [[/BUZZ_FINAL:fresh]]");
    let nested = capture("[[BUZZ_FINAL:fresh]]a [[BUZZ_FINAL:other]] b[[/BUZZ_FINAL:fresh]]");
    for (output, refusal, text) in [
        (
            used_tools,
            Refusal::UsedTools,
            "automatic publication deferred: this conversational turn used tools; publication ownership cannot be proven",
        ),
        (
            overflowed,
            Refusal::Overflowed,
            "automatic publication deferred: captured output exceeded 256 KiB; the retained draft is incomplete",
        ),
        (
            missing,
            Refusal::NoEnvelope,
            "automatic publication deferred: missing or repeated final response envelope",
        ),
        (
            reversed,
            Refusal::Reversed,
            "automatic publication deferred: reversed final envelope",
        ),
        (
            empty,
            Refusal::Length,
            "automatic publication deferred: final response must contain 1..65536 UTF-8 bytes",
        ),
        (
            nested,
            Refusal::Markup,
            "automatic publication deferred: final response contains thought markup or nested envelopes",
        ),
    ] {
        assert_eq!(output.reply(), Err(refusal));
        assert_eq!(output.final_text(), Err(text.to_string()));
    }
}

#[test]
fn reply_is_trimmed_and_otherwise_kept() {
    let output = capture("[[BUZZ_FINAL:fresh]]\n  Línea 1\n\n  Línea 2 \t[[/BUZZ_FINAL:fresh]]");
    assert_eq!(output.final_text(), Ok(Some("Línea 1\n\n  Línea 2".to_string())));
    let marked = capture("[[BUZZ_FINAL:fresh]]I thInk so, <thin>[[/BUZZ_FINAL:fresh]]");
    assert_eq!(marked.final_text(), Ok(Some("I thInk so, <thin>".to_string())));
    let closing = capture("[[BUZZ_FINAL:fresh]]x </THINK y[[/BUZZ_FINAL:fresh]]");
    assert_eq!(closing.reply(), Err(Refusal::Markup));
}

#[test]
fn capture_stops_at_the_first_character_without_room() {
    let mut output = capture(&"a".repeat(MAX_CAPTURE_BYTES - 2));
    output.push_text("é");
    assert_eq!(output.captured_text().len(), MAX_CAPTURE_BYTES);
    output.push_text("");
    assert_eq!(output.reply(), Err(Refusal::NoEnvelope));
    output.push_text("b");
    assert_eq!(output.reply(), Err(Refusal::Overflowed));
    output.push_text("c");
    assert_eq!(output.captured_text().len(), MAX_CAPTURE_BYTES);
    output.reset();
    assert_eq!(output.captured_text(), "");
    assert_eq!(output.reply(), Err(Refusal::NoEnvelope));
}

#[test]
fn instruction_names_the_markers_of_the_turn() {
    assert_eq!(TurnOutput::begin(OutputMode::ToolOnly, "t7").instruction(), None);
    assert_eq!(
        TurnOutput::begin(OutputMode::ConversationalFinal, "t7").instruction(),
        Some("Publication contract for this turn: conversational-final. The harness, not a tool, publishes your final response. Do not call tools or publish messages yourself in this mode. Return exactly one final response between [[BUZZ_FINAL:t7]] and [[/BUZZ_FINAL:t7]]. These markers must appear only once each. Put only channel-ready text inside, no thoughts, progress or drafts. Text outside the markers is not published. Keep the final response below 65536 UTF-8 bytes. If tools are necessary, do not claim success: this turn will require review instead of automatic publication.".to_string())
    );
}

#[test]
fn uncaptured_turn_ignores_tools_and_text() {
    let mut output = TurnOutput::default();
    output.observe_tool();
    output.push_text("text");
    assert_eq!(output.final_text(), Ok(None));
    assert!(!output.is_captured());
    assert_eq!(
        output.summary(),
        TurnSummary { turn_id: None, bytes: 0, saw_tool: false, overflowed: false }
    );
}

#[test]
fn summary_shows_the_length_and_not_the_text() {
    let mut output = capture("secret é");
    output.observe_tool();
    assert_eq!(
        output.summary(),
        TurnSummary { turn_id: Some("fresh"), bytes: 9, saw_tool: true, overflowed: false }
    );
    let other = {
        let mut other = capture("public é");
        other.observe_tool();
        other
    };
    assert_eq!(output.summary(), other.summary());
}
