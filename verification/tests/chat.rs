//! The transcript: deltas, settling, the user echo, cursors, titles.

use attacca::app::{title_in, Msg, MsgKind, Transcript};
use attacca::brief::NodeBrief;
use attacca::chat::{classify, display_title, ellipsize, text_of};
use attacca::json::Json;
use attacca::wire::{ZDeltaKind, ZSessionEvent, ZTurnFrame};

fn delta(kind: ZDeltaKind, text: &str) -> ZTurnFrame {
    ZTurnFrame::Delta { kind, text: text.to_string() }
}

fn json(text: &str) -> Json {
    Json::parse(text).expect("valid JSON")
}

fn event(cursor: i64, kind: &str, payload: Json) -> ZTurnFrame {
    ZTurnFrame::Event {
        cursor,
        event: ZSessionEvent { seq: cursor, cursor, kind: kind.to_string(), payload },
    }
}

fn msg(cursor: i64, kind: &str, text: &str) -> ZTurnFrame {
    event(cursor, kind, Json::Object(vec![("text".to_string(), Json::Text(text.to_string()))]))
}

fn only(t: &Transcript) -> &Msg {
    assert_eq!(t.msgs.len(), 1, "{:?}", t.msgs);
    &t.msgs[0]
}

// ── Deltas and settling ────────────────────────────────────────

#[test]
fn deltas_grow_a_single_card() {
    let mut t = Transcript::new();
    t.apply_frame(delta(ZDeltaKind::Assistant, "Hel"), false);
    t.apply_frame(delta(ZDeltaKind::Assistant, "lo!"), false);

    assert_eq!(t.msgs.len(), 1);
    assert_eq!(t.msgs[0].text, "Hello!");
    assert!(t.msgs[0].streaming);
}

#[test]
fn a_durable_message_settles_the_streamed_card_instead_of_duplicating_it() {
    let mut t = Transcript::new();
    t.apply_frame(delta(ZDeltaKind::Assistant, "Hel"), false);
    t.apply_frame(delta(ZDeltaKind::Assistant, "lo!"), false);
    t.apply_frame(msg(3, "assistant_message", "Hello!"), false);

    assert_eq!(t.msgs.len(), 1, "{:?}", t.msgs);
    assert_eq!(t.msgs[0].text, "Hello!");
    assert!(!t.msgs[0].streaming);
    assert_eq!(t.cur, 3);
}

#[test]
fn a_durable_message_with_no_deltas_is_appended() {
    let mut t = Transcript::new();
    t.apply_frame(msg(1, "assistant_message", "no deltas here"), false);

    assert_eq!(t.msgs.len(), 1);
    assert_eq!(t.msgs[0].kind, MsgKind::Agent);
    assert!(!t.msgs[0].streaming);
}

#[test]
fn reasoning_does_not_merge_into_the_assistant_card() {
    let mut t = Transcript::new();
    t.apply_frame(delta(ZDeltaKind::Reasoning, "hmm…"), false);
    t.apply_frame(delta(ZDeltaKind::Assistant, "Hello!"), false);

    assert_eq!(t.msgs.len(), 2);
    assert_eq!(t.msgs[0].kind, MsgKind::Reasoning);
    assert_eq!(t.msgs[1].kind, MsgKind::Agent);
}

#[test]
fn an_empty_first_delta_still_opens_a_card() {
    let mut t = Transcript::new();
    t.apply_frame(delta(ZDeltaKind::Assistant, ""), false);
    t.apply_frame(delta(ZDeltaKind::Assistant, "then text"), false);

    assert_eq!(t.msgs.len(), 1);
    assert_eq!(t.msgs[0].text, "then text");
}

#[test]
fn status_stops_the_turn_and_settles_any_open_card() {
    let mut t = Transcript::new();
    t.apply_frame(ZTurnFrame::Status { running: true }, false);
    t.apply_frame(delta(ZDeltaKind::Assistant, "half a th"), false);
    assert!(t.running);

    t.apply_frame(ZTurnFrame::Status { running: false }, false);
    assert!(!t.running);
    assert!(!t.msgs[0].streaming, "a stopped turn must not blink forever");
}

#[test]
fn a_card_that_is_no_longer_last_is_left_alone() {
    let mut t = Transcript::new();
    t.apply_frame(delta(ZDeltaKind::Assistant, "par"), false);
    t.push(MsgKind::Sys, "a note");
    t.apply_frame(msg(1, "assistant_message", "partial no more"), false);
    assert_eq!(t.msgs.len(), 3);
    assert_eq!(t.msgs[0].text, "par");
    assert_eq!(t.msgs[2].text, "partial no more");
    assert!(!t.msgs[2].streaming);
}

#[test]
fn a_blank_message_is_not_pushed() {
    let mut t = Transcript::new();
    t.push(MsgKind::Sys, " \n\t ");
    assert!(t.msgs.is_empty());
}

// ── The user echo ──────────────────────────────────────────────

#[test]
fn the_optimistic_user_echo_is_not_duplicated_by_its_durable_event() {
    let mut t = Transcript::new();
    t.push(MsgKind::User, "what is in main.rs?");
    t.apply_frame(msg(1, "user_message", "what is in main.rs?"), false);

    assert_eq!(t.msgs.len(), 1, "{:?}", t.msgs);
}

#[test]
fn a_replayed_user_message_with_no_echo_is_shown() {
    let mut t = Transcript::new();
    t.apply_frame(msg(1, "user_message", "from history"), false);

    assert_eq!(t.msgs.len(), 1);
    assert_eq!(t.msgs[0].kind, MsgKind::User);
}

#[test]
fn the_node_brief_is_stripped_from_a_replayed_first_message() {
    let brief =
        NodeBrief { node_name: "box".into(), file_root: "/tmp".into(), terminal: true };
    let sent = format!("{}{}", brief.preamble(), "what is in main.rs?");

    let mut t = Transcript::new();
    t.apply_frame(msg(1, "user_message", &sent), false);

    assert_eq!(t.msgs.len(), 1);
    assert_eq!(t.msgs[0].text, "what is in main.rs?");
}

#[test]
fn an_echo_further_back_than_the_recent_tail_is_shown_again() {
    let mut t = Transcript::new();
    t.push(MsgKind::User, "hi");
    t.push(MsgKind::Sys, "one");
    t.push(MsgKind::Sys, "two");
    t.push(MsgKind::Sys, "three");
    t.apply_frame(msg(1, "user_message", " hi "), false);
    assert_eq!(t.msgs.len(), 4);
    t.push(MsgKind::Sys, "four");
    t.apply_frame(msg(2, "user_message", "hi"), false);
    assert_eq!(t.msgs.len(), 6);
    assert_eq!(t.msgs[5].kind, MsgKind::User);
}

// ── Cursors and replay ─────────────────────────────────────────

#[test]
fn the_cursor_only_moves_forward() {
    let mut t = Transcript::new();
    t.apply_frame(msg(5, "assistant_message", "five"), false);
    t.apply_frame(msg(2, "assistant_message", "two"), false);

    assert_eq!(t.cur, 5);
}

#[test]
fn a_replayed_boundary_event_is_dropped() {
    // An inclusive `after` re-delivers the event the subscription resumed from. Without the
    // skip, every turn boundary would re-render its last message.
    let mut t = Transcript::new();
    t.apply_frame(msg(3, "assistant_message", "Hello!"), false);
    assert_eq!(t.msgs.len(), 1);

    t.apply_frame(msg(3, "assistant_message", "Hello!"), false);
    assert_eq!(t.msgs.len(), 1, "{:?}", t.msgs);
}

// ── Tools and unknown kinds ────────────────────────────────────

#[test]
fn tool_events_render_as_cards_and_results() {
    let mut t = Transcript::new();
    t.apply_frame(
        event(
            1,
            "assistant_tool_call",
            json(r#"{ "name": "read_file", "args": { "path": "src/main.rs" } }"#),
        ),
        false,
    );
    t.apply_frame(event(2, "tool_result", json(r#"{ "output": "fn main() {}" }"#)), false);

    assert_eq!(t.msgs[0].kind, MsgKind::Tool);
    assert!(t.msgs[0].text.contains("read_file"));
    assert!(t.msgs[0].text.contains("path=src/main.rs"));
    assert_eq!(t.msgs[1].kind, MsgKind::Result);
    assert_eq!(t.msgs[1].text, "fn main() {}");
}

#[test]
fn an_unknown_kind_is_ignored_unless_debugging() {
    let mut quiet = Transcript::new();
    quiet.apply_frame(event(1, "sparkles", json(r#"{ "a": 1 }"#)), false);
    assert!(quiet.msgs.is_empty());

    let mut loud = Transcript::new();
    loud.apply_frame(event(1, "sparkles", json(r#"{ "a": 1 }"#)), true);
    assert_eq!(loud.msgs.len(), 1);
    assert!(loud.msgs[0].text.contains("sparkles"));
}

#[test]
fn a_number_among_the_arguments_is_written_as_json() {
    let mut t = Transcript::new();
    t.apply_frame(
        event(1, "tool_call", json(r#"{ "tool": "head", "args": { "lines": 12 } }"#)),
        false,
    );
    let m = only(&t);
    assert_eq!(m.kind, MsgKind::Tool);
    assert!(m.text.contains("head"), "{}", m.text);
    assert!(m.text.contains("lines=12"), "{}", m.text);
}

#[test]
fn classify_covers_the_plausible_spellings() {
    assert_eq!(classify("assistant_message"), Some(MsgKind::Agent));
    assert_eq!(classify("ASSISTANT_TEXT"), Some(MsgKind::Agent));
    assert_eq!(classify("user_message"), Some(MsgKind::User));
    assert_eq!(classify("reasoning_delta"), Some(MsgKind::Reasoning));
    assert_eq!(classify("thinking"), Some(MsgKind::Reasoning));
    // `tool` wins over `assistant` so a tool call does not read as prose.
    assert_eq!(classify("assistant_tool_call"), Some(MsgKind::Tool));
    assert_eq!(classify("tool_result"), Some(MsgKind::Result));
    assert_eq!(classify("tool_output"), Some(MsgKind::Result));
    assert_eq!(classify("sparkles"), None);
}

#[test]
fn text_of_tries_each_spelling_and_flattens_content_blocks() {
    assert_eq!(text_of(&json(r#"{ "message": "hi" }"#)).as_deref(), Some("hi"));
    assert_eq!(
        text_of(&json(
            r#"{ "content": [{ "type": "text", "text": "a" }, { "type": "image" }, "b"] }"#
        ))
        .as_deref(),
        Some("ab")
    );
    assert_eq!(text_of(&json(r#"{ "text": "   " }"#)), None);
    assert_eq!(text_of(&json("{}")), None);
}

#[test]
fn ellipsize_counts_characters() {
    assert_eq!(ellipsize("abc", 3), "abc");
    assert_eq!(ellipsize("한글한글", 4), "한글한글");
    assert!(ellipsize("abcdef", 3).starts_with("abc"));
    assert!(ellipsize("abcdef", 3).ends_with('…'));
}

// ── Titles ─────────────────────────────────────────────────────

#[test]
fn a_title_in_an_event_payload_is_picked_up() {
    let frame = event(1, "anything", json(r#"{ "title": "  Rollout  " }"#));
    assert_eq!(title_in(&frame).as_deref(), Some("Rollout"));
}

#[test]
fn a_frame_with_no_title_is_left_alone() {
    assert_eq!(title_in(&msg(1, "assistant_message", "hi")), None);
    assert_eq!(title_in(&delta(ZDeltaKind::Assistant, "hi")), None);
    assert_eq!(title_in(&event(1, "x", json(r#"{ "title": "  " }"#))), None);
}

#[test]
fn display_title_shows_the_real_title_and_hides_the_legacy_placeholder() {
    assert_eq!(display_title(Some("Rollout".into())), "Rollout");
    assert_eq!(display_title(Some("attacca-cli".into())), "untitled");
    assert_eq!(display_title(Some("  ".into())), "untitled");
    assert_eq!(display_title(None), "untitled");
}
