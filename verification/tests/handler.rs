//! Keys, the mouse, and what Enter does.

use attacca::app::{Action, App, Focus, MsgKind, SidebarItem};
use attacca::brief::NodeBrief;
use attacca::handler::{
    activate_sidebar_selection, clamp_sidebar_scroll, delete_word_backward, handle_chat, handle_key,
    handle_mouse, handle_paste, handle_sidebar, KeyCode, KeyModifiers, MouseButton, MouseEventKind,
};
use attacca::wire::{Capability, Tool, ZMe, ZProject, ZSession};
use attacca::app::BgEvent;
use attacca::event::apply_bg_event;

fn app() -> App {
    App::new(
        NodeBrief { node_name: "test-node".into(), file_root: "/tmp".into(), terminal: false },
        false,
        false,
    )
}

fn none() -> KeyModifiers {
    KeyModifiers::none()
}

fn control() -> KeyModifiers {
    KeyModifiers { control: true, ..KeyModifiers::none() }
}

fn type_in(app: &mut App, text: &str) {
    for c in text.chars() {
        handle_key(app, KeyCode::Char(c), none());
    }
}

fn enter(app: &mut App, text: &str) -> bool {
    app.input = text.into();
    app.input_cursor = text.len();
    handle_key(app, KeyCode::Enter, none())
}

fn project(id: &str, name: &str, is_default: bool) -> ZProject {
    ZProject { id: id.into(), name: name.into(), is_default }
}

fn session(id: &str, title: &str, project: &str) -> ZSession {
    ZSession {
        id: id.into(),
        title: Some(title.into()),
        project_id: Some(project.into()),
        running: false,
    }
}

/// Two projects, the first expanded with two sessions in it: five lines in all.
fn listed() -> App {
    let mut app = app();
    apply_bg_event(
        &mut app,
        BgEvent::Projects(vec![project("p1", "Default", true), project("p2", "Other", false)]),
    );
    apply_bg_event(
        &mut app,
        BgEvent::Sessions(vec![
            session("s1", "Rollout", "p1"),
            session("s2", "Cleanup", "p1"),
            session("s3", "Hidden", "p2"),
        ]),
    );
    assert_eq!(app.sidebar_items.len(), 5);
    app
}

fn last_text(app: &App) -> &str {
    &app.chat.msgs.last().expect("a message").text
}

// ── Editing ────────────────────────────────────────────────────

/// Typing after moving left inserts at the cursor, not at the end of the string.
#[test]
fn left_arrow_moves_the_insertion_point_backward() {
    let mut app = app();
    for c in "helo".chars() {
        handle_chat(&mut app, KeyCode::Char(c), none());
    }
    handle_chat(&mut app, KeyCode::Left, none());
    handle_chat(&mut app, KeyCode::Char('l'), none());
    assert_eq!(app.input, "hello");
    assert_eq!(app.input_cursor, 4);
}

/// Right arrow cannot walk past the end of the text.
#[test]
fn right_arrow_stops_at_the_end() {
    let mut app = app();
    app.input = "hi".into();
    app.input_cursor = 2;
    handle_chat(&mut app, KeyCode::Right, none());
    assert_eq!(app.input_cursor, 2);
}

/// Left arrow steps over a multi-byte character as one unit rather than landing on a UTF-8
/// continuation byte, which would panic on the next edit.
#[test]
fn left_arrow_steps_over_a_multi_byte_char() {
    let mut app = app();
    app.input = "a한b".into();
    app.input_cursor = app.input.len();
    handle_chat(&mut app, KeyCode::Left, none()); // before 'b', after '한'
    assert!(app.input.is_char_boundary(app.input_cursor));
    handle_chat(&mut app, KeyCode::Backspace, none()); // removes all of '한'
    assert_eq!(app.input, "ab");
}

/// Backspace at a mid-text cursor removes the char just before it, not the last char of the
/// string.
#[test]
fn backspace_removes_the_char_before_the_cursor() {
    let mut app = app();
    app.input = "abc".into();
    app.input_cursor = 2; // between 'b' and 'c'
    handle_chat(&mut app, KeyCode::Backspace, none());
    assert_eq!(app.input, "ac");
    assert_eq!(app.input_cursor, 1);
}

/// Ctrl+W deletes the word ending at the cursor, leaving anything after it intact.
#[test]
fn ctrl_w_deletes_the_word_before_the_cursor_not_the_end_of_the_line() {
    let mut app = app();
    app.input = "hello world".into();
    app.input_cursor = "hello".len();
    delete_word_backward(&mut app);
    assert_eq!(app.input, " world");
    assert_eq!(app.input_cursor, 0);
}

/// A lone newline right before the cursor is removed by itself — word deletion must not also eat
/// the previous line's last word in the same keystroke.
#[test]
fn ctrl_w_on_an_empty_line_only_removes_the_newline() {
    let mut app = app();
    app.input = "line1\n".into();
    app.input_cursor = app.input.len();
    delete_word_backward(&mut app);
    assert_eq!(app.input, "line1");
    assert_eq!(app.input_cursor, 5);
}

#[test]
fn ctrl_w_takes_a_separator_along_and_stops_at_a_newline() {
    let mut app = app();
    app.input = "one two".into();
    app.input_cursor = app.input.len();
    handle_key(&mut app, KeyCode::Char('w'), control());
    assert_eq!(app.input, "one");
    app.input = "한글\n  안녕  ".into();
    app.input_cursor = app.input.len();
    handle_key(&mut app, KeyCode::Backspace, control());
    assert_eq!(app.input, "한글\n ");
    handle_key(&mut app, KeyCode::Backspace, control());
    assert_eq!(app.input, "한글\n");
}

/// Pasted text lands at the cursor, and any newline it carries is inserted as literal text rather
/// than reaching the Enter-to-send path.
#[test]
fn paste_inserts_at_the_cursor_including_embedded_newlines() {
    let mut app = app();
    app.input = "ac".into();
    app.input_cursor = 1;
    handle_paste(&mut app, "b\nx");
    assert_eq!(app.input, "ab\nxc");
    assert_eq!(app.input_cursor, 4);
    assert!(app.actions.is_empty(), "paste must not enqueue a send");
}

#[test]
fn a_paste_beside_the_chat_is_ignored() {
    let mut app = app();
    app.focus = Focus::Sidebar;
    handle_paste(&mut app, "text");
    assert_eq!(app.input, "");
}

#[test]
fn a_modified_enter_and_ctrl_j_insert_a_newline() {
    for m in [
        KeyModifiers { shift: true, ..none() },
        KeyModifiers { alt: true, ..none() },
        control(),
    ] {
        let mut app = app();
        type_in(&mut app, "a");
        handle_key(&mut app, KeyCode::Enter, m);
        assert_eq!(app.input, "a\n");
        assert!(app.actions.is_empty());
    }
    let mut app = app();
    type_in(&mut app, "a");
    handle_key(&mut app, KeyCode::Char('j'), control());
    assert_eq!(app.input, "a\n");
}

#[test]
fn typing_a_character_and_erasing_it_changes_nothing() {
    let mut app = app();
    app.input = "a한b".into();
    app.input_cursor = 4;
    handle_key(&mut app, KeyCode::Char('é'), none());
    assert_eq!(app.input, "a한éb");
    assert_eq!(app.input_cursor, 6);
    handle_key(&mut app, KeyCode::Backspace, none());
    assert_eq!(app.input, "a한b");
    assert_eq!(app.input_cursor, 4);
}

// ── Scrolling ──────────────────────────────────────────────────

#[test]
fn scrolling_up_leaves_the_end_and_down_returns_to_it() {
    let mut app = app();
    handle_key(&mut app, KeyCode::Up, none());
    assert!(!app.at_end);
    assert_eq!(app.scroll, 3);
    handle_key(&mut app, KeyCode::PageUp, none());
    assert_eq!(app.scroll, 13);
    handle_key(&mut app, KeyCode::PageDown, none());
    assert_eq!(app.scroll, 3);
    handle_key(&mut app, KeyCode::Down, none());
    assert!(app.at_end);
    assert_eq!(app.scroll, 0);
    handle_key(&mut app, KeyCode::Home, none());
    assert_eq!(app.scroll, 9999);
    handle_key(&mut app, KeyCode::End, none());
    assert!(app.at_end);
}

#[test]
fn control_up_and_down_scroll_the_input() {
    let mut app = app();
    app.input_scroll = usize::MAX;
    app.input_max_scroll = 2;
    handle_key(&mut app, KeyCode::Up, control());
    assert_eq!(app.input_scroll, 1);
    handle_key(&mut app, KeyCode::Down, control());
    handle_key(&mut app, KeyCode::Down, control());
    assert_eq!(app.input_scroll, 2);
}

// ── Focus and the popup ────────────────────────────────────────

#[test]
fn tab_toggles_the_focus_and_a_slash_returns_to_the_chat() {
    let mut app = app();
    handle_key(&mut app, KeyCode::Tab, none());
    assert_eq!(app.focus, Focus::Sidebar);
    handle_key(&mut app, KeyCode::Tab, none());
    assert_eq!(app.focus, Focus::Chat);
    handle_key(&mut app, KeyCode::Tab, none());
    handle_key(&mut app, KeyCode::Char('/'), none());
    assert_eq!(app.focus, Focus::Chat);
    assert_eq!(app.input, "/");
}

#[test]
fn tab_cycles_through_what_was_started() {
    let mut app = app();
    type_in(&mut app, "/lo");
    assert_eq!(app.autocomplete_suggestions, vec!["/login".to_string(), "/logout".to_string()]);
    handle_key(&mut app, KeyCode::Tab, none());
    assert_eq!(app.input, "/login ");
    handle_key(&mut app, KeyCode::Tab, none());
    assert_eq!(app.input, "/logout ");
    handle_key(&mut app, KeyCode::Tab, none());
    assert_eq!(app.input, "/login ");
    assert_eq!(app.input_cursor, 7);
}

// ── Commands ───────────────────────────────────────────────────

#[test]
fn a_message_is_echoed_and_queued() {
    let mut app = app();
    assert!(enter(&mut app, "  hello there  "));
    assert_eq!(app.chat.msgs.len(), 1);
    assert_eq!(app.chat.msgs[0].kind, MsgKind::User);
    assert_eq!(app.chat.msgs[0].text, "hello there");
    assert_eq!(app.actions.len(), 1);
    assert!(matches!(&app.actions[0], Action::Send(t) if t == "hello there"));
    assert_eq!(app.input, "");
    assert_eq!(app.input_cursor, 0);
}

#[test]
fn a_blank_message_is_not_sent() {
    let mut app = app();
    enter(&mut app, "   ");
    assert!(app.actions.is_empty());
    assert!(app.chat.msgs.is_empty());
    assert_eq!(app.input, "   ");
}

#[test]
fn a_request_to_leave_returns_false() {
    for text in ["/exit", "/quit"] {
        let mut app = app();
        assert!(!enter(&mut app, text));
        assert!(app.exit_requested);
    }
    let mut app = app();
    assert!(enter(&mut app, "/help"));
    assert!(!app.exit_requested);
}

#[test]
fn commands_queue_what_they_stand_for() {
    let mut app = app();
    enter(&mut app, "/new");
    enter(&mut app, "/cancel");
    enter(&mut app, "/logout");
    enter(&mut app, "/usage");
    enter(&mut app, "/sessions");
    assert_eq!(app.focus, Focus::Sidebar);
    assert!(matches!(app.actions[0], Action::Create));
    assert!(matches!(app.actions[1], Action::Cancel));
    assert!(matches!(app.actions[2], Action::Logout));
    assert!(matches!(app.actions[3], Action::ShowInfo));
    assert!(matches!(app.actions[4], Action::RefreshSessions));
    assert_eq!(app.actions.len(), 5);
}

#[test]
fn login_is_requested_and_a_key_is_refused() {
    let mut app = app();
    enter(&mut app, "/login");
    assert!(app.login_requested);
    assert_eq!(last_text(&app), "authorizing — see the terminal");
    let mut app = self::app();
    enter(&mut app, "/login some-key");
    assert!(!app.login_requested);
    assert_eq!(app.chat.msgs.len(), 2);
    assert_eq!(last_text(&app), "set ZYRIS_NODE_TOKEN for a static token instead");
}

#[test]
fn an_unknown_command_is_named() {
    let mut app = app();
    enter(&mut app, "/dance");
    assert_eq!(last_text(&app), "unknown command: /dance");
    assert!(app.actions.is_empty());
}

#[test]
fn help_lists_commands_and_keys() {
    let mut app = app();
    enter(&mut app, "/help");
    // The blank line between the two halves is not a message.
    assert_eq!(app.chat.msgs.len(), 20);
    assert_eq!(last_text(&app), "  Ctrl+C      Exit");
}

#[test]
fn whoami_shows_identity_and_scopes() {
    let mut app = app();
    enter(&mut app, "/whoami");
    assert_eq!(last_text(&app), "not connected yet");
    app.me = Some(ZMe {
        user_id: "u1".into(),
        email: "ada@example.com".into(),
        display_name: "Ada".into(),
        scopes: vec!["agents:read".into(), "events:read".into()],
        plan: None,
        credits: None,
    });
    enter(&mut app, "/whoami");
    assert_eq!(app.chat.msgs[1].text, "Ada <ada@example.com>");
    assert_eq!(app.chat.msgs[2].text, "scopes: agents:read, events:read");
    app.me.as_mut().unwrap().scopes.clear();
    enter(&mut app, "/whoami");
    assert_eq!(last_text(&app), "scopes: none granted");
}

#[test]
fn tools_lists_what_the_server_announces() {
    let mut app = app();
    enter(&mut app, "/tools");
    assert_eq!(last_text(&app), "not connected yet");
    app.peer = Some(vec![Capability {
        name: "attacca_api".into(),
        version: 1,
        tools: vec![Tool { name: "me".into(), transfer: "Unary".into() }],
    }]);
    enter(&mut app, "/tools");
    assert_eq!(app.chat.msgs[1].text, "attacca_api v1");
    assert_eq!(app.chat.msgs[2].text, "  me (Unary)");
}

#[test]
fn a_listed_title_opens_its_session() {
    let mut app = listed();
    enter(&mut app, "Cleanup");
    assert!(matches!(&app.actions[0], Action::Open(id) if id == "s2"));
    assert!(app.chat.msgs.is_empty());
}

#[test]
fn escape_cancels_a_running_turn_only() {
    let mut app = app();
    handle_key(&mut app, KeyCode::Esc, none());
    assert!(app.actions.is_empty());
    app.chat.running = true;
    handle_key(&mut app, KeyCode::Esc, none());
    assert!(matches!(app.actions[0], Action::Cancel));
}

// ── The sidebar ────────────────────────────────────────────────

#[test]
fn the_sidebar_opens_what_is_selected() {
    let mut app = listed();
    app.focus = Focus::Sidebar;
    handle_key(&mut app, KeyCode::Down, none());
    handle_key(&mut app, KeyCode::Enter, none());
    assert!(matches!(&app.actions[0], Action::Open(id) if id == "s1"));
    for _ in 0..9 {
        handle_key(&mut app, KeyCode::Down, none());
    }
    assert_eq!(app.sidebar_sel, 4);
    handle_key(&mut app, KeyCode::Right, none());
    assert!(matches!(app.actions[1], Action::Create));
}

#[test]
fn a_header_toggles_and_toggles_back() {
    let mut app = listed();
    app.sidebar_sel = 0;
    activate_sidebar_selection(&mut app);
    assert_eq!(app.sidebar_items.len(), 3);
    assert!(matches!(&app.sidebar_items[0], SidebarItem::ProjectHeader { expanded: false, .. }));
    activate_sidebar_selection(&mut app);
    assert_eq!(app.sidebar_items.len(), 5);
    assert!(matches!(&app.sidebar_items[0], SidebarItem::ProjectHeader { expanded: true, .. }));
}

#[test]
fn left_collapses_the_project_above() {
    let mut app = listed();
    app.sidebar_sel = 2;
    assert!(handle_sidebar(&mut app, KeyCode::Left));
    assert_eq!(app.sidebar_sel, 0);
    assert_eq!(app.sidebar_items.len(), 3);
}

#[test]
fn the_selection_stays_in_view() {
    let mut app = app();
    app.sidebar_sel = 20;
    clamp_sidebar_scroll(&mut app);
    assert_eq!(app.sidebar_scroll, 9);
    app.sidebar_sel = 5;
    clamp_sidebar_scroll(&mut app);
    assert_eq!(app.sidebar_scroll, 5);
}

// ── The mouse ──────────────────────────────────────────────────

#[test]
fn a_click_focuses_and_opens() {
    let mut app = listed();
    handle_mouse(&mut app, 5, 3, MouseEventKind::Down(MouseButton::Left));
    assert_eq!(app.focus, Focus::Sidebar);
    assert_eq!(app.sidebar_sel, 1);
    assert!(matches!(&app.actions[0], Action::Open(id) if id == "s1"));
    handle_mouse(&mut app, 30, 3, MouseEventKind::Down(MouseButton::Left));
    assert_eq!(app.focus, Focus::Chat);
    handle_mouse(&mut app, 5, 3, MouseEventKind::Down(MouseButton::Right));
    assert_eq!(app.focus, Focus::Chat);
    handle_mouse(&mut app, 5, 60, MouseEventKind::Down(MouseButton::Left));
    assert_eq!(app.sidebar_sel, 1);
}

#[test]
fn the_wheel_scrolls_what_is_under_it() {
    let mut app = listed();
    handle_mouse(&mut app, 5, 3, MouseEventKind::ScrollDown);
    assert_eq!(app.sidebar_scroll, 3);
    assert_eq!(app.sidebar_sel, 3);
    handle_mouse(&mut app, 5, 3, MouseEventKind::ScrollDown);
    assert_eq!(app.sidebar_scroll, 4);
    handle_mouse(&mut app, 5, 3, MouseEventKind::ScrollUp);
    assert_eq!(app.sidebar_scroll, 1);
    handle_mouse(&mut app, 40, 3, MouseEventKind::ScrollUp);
    assert!(!app.at_end);
    assert_eq!(app.scroll, 3);
    handle_mouse(&mut app, 40, 3, MouseEventKind::ScrollDown);
    assert!(app.at_end);
}
