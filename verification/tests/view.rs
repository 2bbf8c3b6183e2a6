//! What is on the screen.

use attacca::app::{App, Focus, Msg, MsgKind};
use attacca::brief::NodeBrief;
use attacca::chat_view::{card, chat_lines, visible_chat_rows, wrap_tail, CardStyle};
use attacca::handler::{handle_key, KeyCode, KeyModifiers};
use attacca::input_view::info_text;
use attacca::palette::{BG, CARD, DIM, P, POPOVER};
use attacca::screen::{ink, line1, line2, plain, rect, span, Line, Rect, Widget};
use attacca::ui::{draw, short_name};

fn app() -> App {
    App::new(
        NodeBrief { node_name: "test-node".into(), file_root: "/tmp".into(), terminal: false },
        false,
        false,
    )
}

fn text(line: &Line) -> String {
    line.spans.iter().map(|s| s.text.as_str()).collect()
}

fn area_of(w: &Widget) -> Rect {
    match w {
        Widget::Paragraph { area, .. } => *area,
        Widget::List { area, .. } => *area,
        Widget::Scrolled { area, .. } => *area,
        Widget::Scrollbar { area, .. } => *area,
    }
}

fn texts(w: &Widget) -> Vec<String> {
    match w {
        Widget::Paragraph { lines, .. } => lines.iter().map(text).collect(),
        Widget::List { items, .. } => items.iter().map(text).collect(),
        Widget::Scrolled { lines, .. } => lines.iter().map(text).collect(),
        Widget::Scrollbar { .. } => vec![],
    }
}

// ── Cards ──────────────────────────────────────────────────────

#[test]
fn a_streaming_card_adds_exactly_one_row_beyond_its_wrapped_body() {
    // The scroll offset is derived from the number of rows, so a card must occupy the same number
    // of rows streaming as settled — otherwise the viewport jumps at the moment the cursor
    // disappears.
    let text = "안녕하세요 반갑습니다 오늘도 좋은 하루 되세요 and then some ASCII to push it over";
    for w in [20usize, 40, 80] {
        let cw = w.saturating_sub(2).max(1);
        let style = CardStyle { head: plain(), rail: plain(), body: plain() };
        let mut streaming = Vec::new();
        card(&mut streaming, "assistant", w, cw, style, text, true);
        let mut settled = Vec::new();
        card(&mut settled, "assistant", w, cw, style, text, false);
        assert_eq!(
            streaming.len(),
            settled.len(),
            "row count changed with the cursor at width {w}"
        );
    }
}

#[test]
fn a_card_has_a_header_a_rail_and_a_footer() {
    let style = CardStyle { head: plain(), rail: plain(), body: plain() };
    let mut lines = Vec::new();
    card(&mut lines, "you", 12, 4, style, "ab\n\ncdefgh", true);
    let rows: Vec<String> = lines.iter().map(text).collect();
    assert_eq!(
        rows,
        vec![
            "┌─ you ─────".to_string(),
            "│ ab".to_string(),
            "│ ".to_string(),
            "│ cdef".to_string(),
            "│ gh▌".to_string(),
            "└──────────".to_string(),
        ]
    );
}

#[test]
fn each_kind_of_message_has_its_look() {
    let msg = |kind, text: &str| Msg { kind, text: text.into(), streaming: false };
    let msgs = vec![
        msg(MsgKind::Sys, "note"),
        msg(MsgKind::Result, "fine\nmore"),
        msg(MsgKind::Result, "err: gone"),
        msg(MsgKind::Tool, "◆ ls"),
        msg(MsgKind::Reasoning, "hmm"),
    ];
    let rows: Vec<String> = chat_lines(&msgs, 20, 18).iter().map(text).collect();
    assert_eq!(rows[0], " ── note");
    assert_eq!(rows[1], "  ok fine");
    assert_eq!(rows[2], "  ✘ err: gone");
    assert!(rows[3].starts_with("┌─ tool ─"));
    assert_eq!(rows[4], "│ ◆ ls");
    assert!(rows[6].starts_with("┌─ thinking ─"));
    assert_eq!(rows.len(), 9);
}

// ── Windowed vs. full-history rendering ────────────────────────

/// Wrap the *entire* transcript, then slice out the visible window: the oracle that the windowed
/// version is held to.
fn full_visible_rows(
    msgs: &[Msg],
    w: usize,
    content_width: usize,
    max_rows: usize,
    at_end: bool,
    scroll: usize,
    hide_reasoning: bool,
    busy: bool,
) -> Vec<Line> {
    let filtered: Vec<Msg>;
    let visible: &[Msg] = if hide_reasoning {
        filtered = msgs.iter().filter(|m| m.kind != MsgKind::Reasoning).cloned().collect();
        &filtered
    } else {
        msgs
    };
    let mut lines = chat_lines(visible, w, content_width);

    if lines.is_empty() {
        lines.push(line2(
            span("  ◆ ", ink(P)),
            span("type something —  enter:send  /help", ink(DIM)),
        ));
    } else if busy && !msgs.last().is_some_and(|m| m.streaming) {
        lines.push(line1(span(" ◉ thinking…", ink(P))));
    }

    let total = lines.len();
    let scroll_off = if at_end || total <= max_rows {
        total.saturating_sub(max_rows)
    } else {
        total.saturating_sub(max_rows).saturating_sub(scroll)
    };
    let end = (scroll_off + max_rows).min(total);
    lines.drain(scroll_off..end).collect()
}

fn synthetic_msgs(n: usize) -> Vec<Msg> {
    (0..n)
        .map(|i| {
            let kind = match i % 6 {
                0 => MsgKind::Sys,
                1 => MsgKind::User,
                2 => MsgKind::Agent,
                3 => MsgKind::Reasoning,
                4 => MsgKind::Tool,
                _ => MsgKind::Result,
            };
            let text = format!(
                "message {i} with 한글 텍스트 and some padding {}",
                "x".repeat(i % 7)
            );
            Msg { kind, text, streaming: false }
        })
        .collect()
}

/// The windowed tail computation must show exactly what wrapping the whole transcript and then
/// slicing would have shown — across transcript lengths (short, and long enough to force the
/// doubling loop to grow past its first guess), viewport sizes, scroll depths, `at_end`,
/// `hide_reasoning`, and a busy/streaming tail.
#[test]
fn windowed_rows_match_full_history_computation() {
    for n in [0usize, 1, 5, 50] {
        for streaming_last in [false, true] {
            let mut msgs = synthetic_msgs(n);
            if let Some(last) = msgs.last_mut() {
                last.streaming = streaming_last;
            }
            for w in [40usize, 80] {
                let content_width = w.saturating_sub(2).max(1);
                for max_rows in [3usize, 10] {
                    for at_end in [true, false] {
                        for scroll in [0usize, 7] {
                            for hide_reasoning in [false, true] {
                                for busy in [false, true] {
                                    let got = visible_chat_rows(
                                        &msgs,
                                        w,
                                        content_width,
                                        max_rows,
                                        at_end,
                                        scroll,
                                        hide_reasoning,
                                        busy,
                                    );
                                    let want = full_visible_rows(
                                        &msgs,
                                        w,
                                        content_width,
                                        max_rows,
                                        at_end,
                                        scroll,
                                        hide_reasoning,
                                        busy,
                                    );
                                    assert_eq!(
                                        got, want,
                                        "n={n} streaming_last={streaming_last} w={w} \
                                         max_rows={max_rows} at_end={at_end} scroll={scroll} \
                                         hide_reasoning={hide_reasoning} busy={busy}"
                                    );
                                }
                            }
                        }
                    }
                }
            }
        }
    }
}

#[test]
fn a_tail_says_whether_it_reached_the_start() {
    let msgs = synthetic_msgs(5);
    let (rows, all) = wrap_tail(&msgs, 2, 40, 38, false);
    assert!(!all && !rows.is_empty());
    let (rows, all) = wrap_tail(&msgs, 9, 40, 38, true);
    assert!(all);
    let kept: Vec<Msg> = msgs.iter().filter(|m| m.kind != MsgKind::Reasoning).cloned().collect();
    assert_eq!(rows, chat_lines(&kept, 40, 38));
}

// ── The screen ─────────────────────────────────────────────────

#[test]
fn a_small_screen_stays_empty() {
    let mut app = app();
    assert!(draw(&mut app, rect(0, 0, 49, 40)).is_empty());
    assert!(draw(&mut app, rect(0, 0, 100, 9)).is_empty());
}

/// The panes at every width from the least up: the chat keeps its thirty columns, and below
/// fifty-eight the sidebar gives way.
#[test]
fn the_panes_divide_the_screen() {
    for (width, left) in [(50u16, 20u16), (53, 23), (57, 27), (58, 28), (59, 28), (200, 28)] {
        let mut app = app();
        let out = draw(&mut app, rect(0, 0, width, 24));
        assert_eq!(area_of(&out[0]), rect(0, 0, width, 24));
        assert_eq!(area_of(&out[1]), rect(0, 0, width, 1));
        let sidebar = out
            .iter()
            .find(|w| matches!(w, Widget::Paragraph { lines, bg, .. } if lines.is_empty() && *bg == POPOVER))
            .expect("a sidebar");
        assert_eq!(area_of(sidebar), rect(0, 1, left, 19), "at width {width}");
        let chat = out
            .iter()
            .find(|w| texts(w).iter().any(|t| t.contains("type something")))
            .expect("a chat");
        assert_eq!(area_of(chat), rect(left, 1, width - left, 19), "at width {width}");
        let info = out
            .iter()
            .find(|w| texts(w) == vec!["  no session".to_string()])
            .expect("an info bar");
        assert_eq!(area_of(info), rect(0, 20, width, 1));
    }
}

/// Every size of terminal there is likely to be divides without a gap.
#[test]
fn the_panes_divide_every_screen() {
    for width in 50u16..=260 {
        for height in (10u16..=90).step_by(5) {
            let mut app = app();
            let out = draw(&mut app, rect(0, 0, width, height));
            let left = if width < 58 { width - 30 } else { 28 };
            let sidebar = out
                .iter()
                .find(|w| matches!(w, Widget::Paragraph { lines, bg, .. } if lines.is_empty() && *bg == POPOVER))
                .expect("a sidebar");
            assert_eq!(area_of(sidebar), rect(0, 1, left, height - 5));
            let chat = out
                .iter()
                .find(|w| texts(w).iter().any(|t| t.contains("type something")))
                .expect("a chat");
            assert_eq!(area_of(chat), rect(left, 1, width - left, height - 5));
        }
    }
}

#[test]
fn an_area_off_the_origin_divides_alike() {
    let mut app = app();
    let out = draw(&mut app, rect(7, 3, 60, 10));
    assert_eq!(area_of(&out[1]), rect(7, 3, 60, 1));
    let sidebar = out
        .iter()
        .find(|w| matches!(w, Widget::Paragraph { lines, bg, .. } if lines.is_empty() && *bg == POPOVER))
        .expect("a sidebar");
    assert_eq!(area_of(sidebar), rect(7, 4, 28, 5));
}

#[test]
fn the_status_bar_says_who_and_whether() {
    let mut app = app();
    let out = draw(&mut app, rect(0, 0, 80, 24));
    assert_eq!(texts(&out[1]), vec![" ◆ Attacca ready  offline".to_string()]);
    app.connected = true;
    app.inc_busy();
    app.sid = Some("abcdefghij".into());
    let out = draw(&mut app, rect(0, 0, 80, 24));
    assert_eq!(texts(&out[1]), vec![" ◆ Attacca running  ◉ online  abcdefgh".to_string()]);
    assert!(matches!(&out[1], Widget::Paragraph { bg, .. } if *bg == CARD));
}

#[test]
fn the_sidebar_lists_from_its_scroll_offset() {
    let mut app = app();
    app.rebuild_sidebar();
    app.focus = Focus::Sidebar;
    let out = draw(&mut app, rect(0, 0, 80, 24));
    let list = out.iter().find(|w| matches!(w, Widget::List { .. })).expect("a list");
    assert_eq!(texts(list), vec![" ▸ + new".to_string()]);
    assert_eq!(area_of(list), rect(2, 2, 25, 15));
    assert!(out.iter().any(|w| texts(w) == vec!["press Tab to focus chat".to_string()]));
}

#[test]
fn long_names_are_cut() {
    assert_eq!(short_name("abc", 3), "abc");
    assert_eq!(short_name("abcd", 3), "a..");
    assert_eq!(short_name("한글한글한", 4), "한글..");
    assert_eq!(short_name("ab", 1), "..");
}

// ── The input box ──────────────────────────────────────────────

#[test]
fn the_info_bar_shows_what_is_known() {
    let mut app = app();
    assert_eq!(info_text(&app), "  no session");
    app.current_project_name = "Default".into();
    app.usage_context_tokens = "12400".into();
    app.usage_total_tokens = "12400".into();
    assert_eq!(info_text(&app), " proj:Default ctx:12400 tokens:12400");
    app.usage_input_tokens = "9100".into();
    app.usage_output_tokens = "3300".into();
    app.usage_credits_used = "0.5".into();
    app.usage_model = "m".into();
    assert_eq!(
        info_text(&app),
        " proj:Default ctx:12400 tokens:9100/3300 credits:0.5 m"
    );
}

#[test]
fn an_empty_input_shows_a_hint_and_its_cursor() {
    let mut app = app();
    let out = draw(&mut app, rect(0, 0, 80, 24));
    assert_eq!(app.cursor_screen, Some((4, 21)));
    assert!(out.iter().any(|w| texts(w) == vec![" > type a message…".to_string()]));
}

#[test]
fn the_cursor_lands_after_wide_characters() {
    let mut app = app();
    app.input = "한글x".into();
    app.input_cursor = 6;
    let out = draw(&mut app, rect(0, 0, 80, 24));
    assert_eq!(app.cursor_screen, Some((1 + 3 + 4, 21)));
    assert!(out.iter().any(|w| texts(w) == vec![" > 한글x".to_string()]));
    assert_eq!(app.input_max_scroll, 0);
}

#[test]
fn a_long_input_scrolls_with_a_bar() {
    let mut app = app();
    app.input = "a\nb\nc\nd\ne".into();
    app.input_cursor = app.input.len();
    app.input_scroll = usize::MAX;
    let out = draw(&mut app, rect(0, 0, 80, 24));
    assert_eq!(app.input_max_scroll, 2);
    assert_eq!(app.cursor_screen, Some((5, 23)));
    let rows: Vec<String> =
        vec!["   c".to_string(), "   d".to_string(), "   e".to_string()];
    assert!(out.iter().any(|w| texts(w) == rows));
    assert!(out.iter().any(|w| matches!(
        w,
        Widget::Scrollbar { total: 5, view: 3, position: 2, area, .. } if *area == rect(78, 21, 1, 3)
    )));
    // Scrolled to the top, the cursor's row is out of sight.
    app.input_scroll = 0;
    draw(&mut app, rect(0, 0, 80, 24));
    assert_eq!(app.cursor_screen, None);
}

#[test]
fn the_popup_stands_above_the_box() {
    let mut app = app();
    for c in "/lo".chars() {
        handle_key(&mut app, KeyCode::Char(c), KeyModifiers::none());
    }
    handle_key(&mut app, KeyCode::Tab, KeyModifiers::none());
    let out = draw(&mut app, rect(0, 0, 80, 24));
    let popup = out
        .iter()
        .find(|w| texts(w).iter().any(|t| t.contains("forget credential")))
        .expect("a popup");
    assert_eq!(
        texts(popup),
        vec![" /login  authorize node".to_string(), " /logout  forget credential".to_string()]
    );
    assert_eq!(area_of(popup), rect(1, 17, 28, 2));
}

#[test]
fn drawing_twice_shows_the_same() {
    let mut app = app();
    app.input = "some text\nmore".into();
    app.input_cursor = 3;
    let first = draw(&mut app, rect(0, 0, 80, 24));
    let cursor = app.cursor_screen;
    let second = draw(&mut app, rect(0, 0, 80, 24));
    assert_eq!(first, second);
    assert_eq!(app.cursor_screen, cursor);
    assert!(matches!(&first[0], Widget::Paragraph { bg, .. } if *bg == BG));
}
