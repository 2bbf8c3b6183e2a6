//! Background events, the action queue, and the main loop.

use attacca::app::{Action, App, BgEvent, Effect, MsgKind, SidebarItem};
use attacca::bg::{self, Step};
use attacca::brief::NodeBrief;
use attacca::event::{
    apply_bg_event, consume_event, drain_actions, drain_bg_events, relogin, run, start, KeyKind,
    LoopStep, TermEvent,
};
use attacca::handler::{KeyCode, KeyModifiers, MouseButton, MouseEventKind};
use attacca::json::Json;
use attacca::screen::rect;
use attacca::ui::draw;
use attacca::wire::{
    ZAgent, ZDeltaKind, ZMe, ZProject, ZSession, ZSessionEvent, ZTurnFrame, ZUsage,
};

fn app() -> App {
    App::new(
        NodeBrief { node_name: "test-node".into(), file_root: "/tmp".into(), terminal: false },
        false,
        false,
    )
}

fn me(scopes: &[&str]) -> ZMe {
    ZMe {
        user_id: "u1".into(),
        email: "ada@example.com".into(),
        display_name: "Ada".into(),
        scopes: scopes.iter().map(|s| s.to_string()).collect(),
        plan: Some("pro".into()),
        credits: Some("42.50".into()),
    }
}

fn session(id: &str, title: Option<&str>, project: Option<&str>) -> ZSession {
    ZSession {
        id: id.into(),
        title: title.map(|t| t.into()),
        project_id: project.map(|p| p.into()),
        running: false,
    }
}

fn texts(app: &App) -> Vec<String> {
    app.chat.msgs.iter().map(|m| m.text.clone()).collect()
}

fn frame(sid: &str, frame: ZTurnFrame) -> BgEvent {
    BgEvent::Frame { session_id: sid.into(), frame }
}

/// Perform the effects of a program that has no connection, and collect what comes back.
fn perform_offline(app: &mut App) -> Vec<BgEvent> {
    let mut events = Vec::new();
    for effect in app.effects.drain(..) {
        let step = match effect {
            Effect::Send { text, sid, spec } => bg::send(false, text, sid, spec),
            Effect::CreateSession(spec) => bg::create_session(false, spec),
            Effect::CancelTurn(sid) => bg::cancel_turn(false, sid),
            Effect::RefreshSessions => bg::refresh_sessions(false),
            Effect::SessionUsage { sid, quiet } => bg::session_usage(false, sid, quiet),
            _ => continue,
        };
        match step {
            Step::Finished(more) => events.extend(more),
            Step::Waiting { .. } => panic!("there is no connection to wait for"),
        }
    }
    events
}

// ── The queue ──────────────────────────────────────────────────

/// The action queue gates on one-shot requests, not on `busy()`. Without the split, a turn's
/// whole duration would hold back the next message.
#[test]
fn send_defers_until_the_previous_request_settles() {
    let mut app = app();
    app.actions.push(Action::Send("first".into()));
    app.actions.push(Action::Send("second".into()));

    // Not connected, so the request comes to a notice and a `Done`; the increment in the drain is
    // still outstanding until that `Done` is drained.
    drain_actions(&mut app, "", "");
    assert_eq!(app.actions.len(), 1, "the second send must wait");
    assert!(app.requests_in_flight());

    let events = perform_offline(&mut app);
    drain_bg_events(&mut app, events);
    assert!(!app.requests_in_flight(), "Done must balance the increment");

    drain_actions(&mut app, "", "");
    assert!(app.actions.is_empty());
}

/// A streaming turn must not block the queue the way an in-flight request does.
#[test]
fn a_running_turn_does_not_gate_the_action_queue() {
    let mut app = app();
    app.chat.running = true;
    assert!(app.busy(), "the spinner should show a running turn");
    assert!(!app.requests_in_flight(), "but the queue must stay open during one");

    app.actions.push(Action::Send("during a turn".into()));
    drain_actions(&mut app, "", "");
    assert!(app.actions.is_empty(), "the send must go out");
}

#[test]
fn opening_a_session_stops_the_old_feed_first() {
    let mut app = app();
    app.stream = Some("s0".into());
    app.actions.push(Action::Open("session-one".into()));
    assert!(drain_actions(&mut app, "", ""));
    assert_eq!(app.sid.as_deref(), Some("session-one"));
    assert_eq!(texts(&app), vec!["session session-".to_string()]);
    assert_eq!(app.effects.len(), 3);
    assert!(matches!(app.effects[0], Effect::StopFeed));
    assert!(matches!(&app.effects[1], Effect::StartFeed(s) if s == "session-one"));
    assert!(matches!(&app.effects[2], Effect::SessionUsage { quiet: true, .. }));
    assert_eq!(app.busy_count, 1);
}

#[test]
fn creating_a_session_clears_the_view() {
    let mut app = app();
    app.agents = vec![ZAgent { id: "agent-1".into(), name: "Researcher".into() }];
    app.sid = Some("s1".into());
    app.chat.push(MsgKind::User, "old");
    app.actions.push(Action::Create);
    drain_actions(&mut app, "", "");
    assert_eq!(app.sid, None);
    assert_eq!(texts(&app), vec!["creating session…".to_string()]);
    match &app.effects[0] {
        Effect::CreateSession(Some(spec)) => {
            assert_eq!(spec.agent_id, "agent-1");
            assert_eq!(spec.title, None);
            assert_eq!(spec.project_id, None);
            assert_eq!(spec.preamble, Some(app.node_brief.preamble()));
        }
        _ => panic!("expected a session to be created"),
    }
}

#[test]
fn with_no_session_there_is_nothing_to_cancel_or_meter() {
    let mut app = app();
    app.actions.push(Action::Cancel);
    app.actions.push(Action::ShowInfo);
    drain_actions(&mut app, "", "");
    assert_eq!(
        texts(&app),
        vec![
            "no session to cancel".to_string(),
            "── Account ───────────────────────────".to_string(),
            "  not connected yet".to_string(),
            "no session open".to_string(),
        ]
    );
    assert_eq!(app.busy_count, 0);
    assert!(app.effects.is_empty());
}

#[test]
fn usage_shows_the_account_and_asks_for_the_session() {
    let mut app = app();
    app.me = Some(me(&[]));
    app.sid = Some("s1".into());
    app.actions.push(Action::ShowInfo);
    drain_actions(&mut app, "", "");
    assert_eq!(
        texts(&app),
        vec![
            "── Account ───────────────────────────".to_string(),
            "  User:     Ada <ada@example.com>".to_string(),
            "  Plan:     pro".to_string(),
            "  Credits:  42.50".to_string(),
        ]
    );
    assert!(matches!(&app.effects[0], Effect::SessionUsage { quiet: false, .. }));
}

#[test]
fn logout_refresh_and_cancel_are_passed_on() {
    let mut app = app();
    app.sid = Some("s1".into());
    for action in [Action::Logout, Action::RefreshSessions, Action::Cancel] {
        app.actions.push(action);
        drain_actions(&mut app, "", "");
        app.dec_busy();
    }
    assert!(matches!(app.effects[0], Effect::Logout));
    assert!(matches!(app.effects[1], Effect::RefreshSessions));
    assert!(matches!(&app.effects[2], Effect::CancelTurn(s) if s == "s1"));
}

// ── Background events ──────────────────────────────────────────

#[test]
fn connecting_names_the_account_and_what_the_grant_lacks() {
    let mut app = app();
    apply_bg_event(&mut app, BgEvent::Connected(Box::new(me(&["agents:read", "projects:read"]))));
    assert!(app.connected);
    assert_eq!(
        texts(&app),
        vec![
            "connected — Ada <ada@example.com>".to_string(),
            "grant is missing sessions:read, sessions:write, events:read — run /login to re-authorize"
                .to_string(),
        ]
    );
    apply_bg_event(&mut app, BgEvent::Disconnected("gone".into()));
    assert!(!app.connected);
    assert_eq!(app.chat.msgs[2].text, "disconnected — gone");
    assert!(app.me.is_some());
}

#[test]
fn a_created_session_is_listed_and_followed() {
    let mut app = app();
    app.chat.push(MsgKind::User, "first message");
    apply_bg_event(
        &mut app,
        BgEvent::SessionCreated(Box::new(session("abcdefghij", None, Some("p1")))),
    );
    assert_eq!(app.sid.as_deref(), Some("abcdefghij"));
    assert_eq!(texts(&app), vec!["first message".to_string(), "new session abcdefgh".to_string()]);
    assert_eq!(app.sessions[0].title, "untitled");
    assert_eq!(app.current_project_name, "p1");
    assert!(matches!(&app.effects[0], Effect::StartFeed(s) if s == "abcdefghij"));
}

#[test]
fn the_default_project_is_expanded() {
    let mut app = app();
    apply_bg_event(
        &mut app,
        BgEvent::Projects(vec![
            ZProject { id: "p1".into(), name: "Default".into(), is_default: true },
            ZProject { id: "p2".into(), name: "Other".into(), is_default: false },
        ]),
    );
    apply_bg_event(
        &mut app,
        BgEvent::Sessions(vec![session("s1", Some("Rollout"), Some("p1")), session("s2", None, None)]),
    );
    assert_eq!(app.sidebar_items.len(), 5);
    assert!(matches!(
        &app.sidebar_items[0],
        SidebarItem::ProjectHeader { name, expanded: true, session_count: 1, .. } if name == "📁 Default"
    ));
    assert!(matches!(&app.sidebar_items[1], SidebarItem::Session { title, .. } if title == "Rollout"));
    assert!(matches!(
        &app.sidebar_items[3],
        SidebarItem::ProjectHeader { name, expanded: false, session_count: 1, .. }
            if name == "📁 (no project)"
    ));
    assert!(matches!(app.sidebar_items[4], SidebarItem::NewSession));
}

#[test]
fn frames_of_another_session_are_ignored() {
    let mut app = app();
    app.sid = Some("s1".into());
    apply_bg_event(
        &mut app,
        frame("s2", ZTurnFrame::Delta { kind: ZDeltaKind::Assistant, text: "hi".into() }),
    );
    assert!(app.chat.msgs.is_empty());
    apply_bg_event(&mut app, BgEvent::StreamHead { session_id: "s2".into(), running: true });
    assert!(!app.chat.running);
    apply_bg_event(
        &mut app,
        frame("s1", ZTurnFrame::Delta { kind: ZDeltaKind::Assistant, text: "hi".into() }),
    );
    assert_eq!(texts(&app), vec!["hi".to_string()]);
}

#[test]
fn a_turn_that_ends_asks_for_the_list_and_the_usage() {
    let mut app = app();
    app.sid = Some("s1".into());
    app.replace_sessions(vec![session("s1", Some("Rollout"), None)]);
    apply_bg_event(&mut app, BgEvent::StreamHead { session_id: "s1".into(), running: true });
    assert!(app.sessions[0].running);
    apply_bg_event(&mut app, frame("s1", ZTurnFrame::Status { running: false }));
    assert!(!app.sessions[0].running);
    assert_eq!(app.busy_count, 2);
    assert!(matches!(app.effects[0], Effect::RefreshSessions));
    assert!(matches!(&app.effects[1], Effect::SessionUsage { quiet: true, .. }));
    apply_bg_event(&mut app, frame("s1", ZTurnFrame::Status { running: false }));
    assert_eq!(app.effects.len(), 2);
}

#[test]
fn a_title_in_a_frame_renames_the_row() {
    let mut app = app();
    app.sid = Some("s1".into());
    app.replace_sessions(vec![session("s1", None, None), session("s2", None, None)]);
    let payload = Json::parse(r#"{"title":"Named"}"#).unwrap();
    let event = ZSessionEvent { seq: 1, cursor: 1, kind: "renamed".into(), payload };
    apply_bg_event(&mut app, frame("s1", ZTurnFrame::Event { cursor: 1, event }));
    assert_eq!(app.sessions[0].title, "Named");
    assert_eq!(app.sessions[1].title, "untitled");
}

#[test]
fn usage_fills_the_info_bar() {
    let mut app = app();
    apply_bg_event(
        &mut app,
        BgEvent::Usage(Box::new(ZUsage {
            model: Some("opus-5".into()),
            context_tokens: Some(12_400),
            input_tokens: Some(-1),
            output_tokens: None,
            total_tokens: Some(0),
            credits_used: None,
        })),
    );
    assert_eq!(app.usage_model, "opus-5");
    assert_eq!(app.usage_context_tokens, "12400");
    assert_eq!(app.usage_input_tokens, "-1");
    assert_eq!(app.usage_output_tokens, "");
    assert_eq!(app.usage_total_tokens, "0");
    assert_eq!(app.usage_credits_used, "");
}

#[test]
fn a_stopped_node_is_shown_before_the_program_ends() {
    let mut app = app();
    start(&mut app);
    let mut dirty = false;
    assert_eq!(run(&mut app, &mut dirty, LoopStep::Sleep, true), LoopStep::DrainBackground);
    let any = drain_bg_events(
        &mut app,
        vec![BgEvent::NodeStopped { message: "revoked".into(), needs_operator: true }],
    );
    assert!(any);
    assert!(app.exit_requested && !app.connected && app.node_needs_operator);
    assert_eq!(app.node_stopped.as_deref(), Some("revoked"));
    assert_eq!(app.chat.msgs[1].text, "node stopped — revoked");
    assert_eq!(
        app.chat.msgs[2].text,
        "this needs a person: try /login, or check ZYRIS_SERVER_URL"
    );
    let next = run(&mut app, &mut dirty, LoopStep::DrainBackground, any);
    assert_eq!(next, LoopStep::DrainActions);
    let next = run(&mut app, &mut dirty, next, false);
    assert_eq!(next, LoopStep::ReadInput);
    let next = run(&mut app, &mut dirty, next, false);
    assert_eq!(next, LoopStep::Draw);
    assert_eq!(run(&mut app, &mut dirty, next, true), LoopStep::Stop);
}

#[test]
fn nothing_is_drained_from_an_empty_channel() {
    let mut app = app();
    assert!(!drain_bg_events(&mut app, vec![]));
    assert!(drain_bg_events(&mut app, vec![BgEvent::Notice("hello".into()), BgEvent::Done]));
    assert_eq!(texts(&app), vec!["hello".to_string()]);
}

// ── Logging in again ───────────────────────────────────────────

#[test]
fn a_fresh_credential_asks_for_a_reconnect() {
    let mut app = app();
    app.peer = Some(vec![]);
    relogin(&mut app, Ok("znt_ab".into()));
    assert_eq!(
        texts(&app),
        vec!["logged in — credential znt_ab…".to_string(), "reconnecting…".to_string()]
    );
    assert!(matches!(app.effects[0], Effect::Reconnect));

    let mut app = self::app();
    relogin(&mut app, Err("denied".into()));
    assert_eq!(
        texts(&app),
        vec![
            "login failed: denied".to_string(),
            "still connected on the previous credential, if there was one".to_string()
        ]
    );
    assert!(app.effects.is_empty());
}

// ── The loop ───────────────────────────────────────────────────

#[test]
fn the_loop_draws_first_and_sleeps_when_idle() {
    let mut app = app();
    start(&mut app);
    assert_eq!(
        texts(&app),
        vec!["── attacca ── enter:send  shift+enter:newline  tab:autocomplete  /help ──".to_string()]
    );
    let mut dirty = true;
    let order = [
        (LoopStep::Start, true, LoopStep::Draw),
        (LoopStep::Draw, true, LoopStep::DrainBackground),
        (LoopStep::DrainBackground, false, LoopStep::DrainActions),
        (LoopStep::DrainActions, false, LoopStep::ReadInput),
        (LoopStep::ReadInput, false, LoopStep::Sleep),
        (LoopStep::Sleep, true, LoopStep::DrainBackground),
        (LoopStep::DrainBackground, false, LoopStep::DrainActions),
        (LoopStep::DrainActions, true, LoopStep::ReadInput),
        (LoopStep::ReadInput, false, LoopStep::Draw),
        (LoopStep::Draw, false, LoopStep::Stop),
    ];
    for (last, ok, next) in order {
        assert_eq!(run(&mut app, &mut dirty, last, ok), next, "{last:?}");
    }
}

#[test]
fn a_requested_login_happens_once() {
    let mut app = app();
    app.login_requested = true;
    let mut dirty = false;
    assert_eq!(run(&mut app, &mut dirty, LoopStep::Sleep, true), LoopStep::Relogin);
    assert!(!app.login_requested);
    assert_eq!(run(&mut app, &mut dirty, LoopStep::Relogin, true), LoopStep::DrainBackground);
    assert!(dirty);
}

#[test]
fn control_c_leaves_and_a_release_does_nothing() {
    let control = KeyModifiers { control: true, ..KeyModifiers::none() };
    let key = |code, modifiers, kind| TermEvent::Key { code, modifiers, kind };
    let mut app = app();
    assert!(consume_event(&mut app, key(KeyCode::Char('x'), KeyModifiers::none(), KeyKind::Release)));
    assert_eq!(app.input, "");
    assert!(consume_event(&mut app, key(KeyCode::Char('x'), KeyModifiers::none(), KeyKind::Repeat)));
    assert_eq!(app.input, "x");
    assert!(consume_event(&mut app, TermEvent::Other));
    assert!(!consume_event(&mut app, key(KeyCode::Char('c'), control, KeyKind::Press)));
    assert!(app.exit_requested);
    let mut dirty = true;
    assert_eq!(run(&mut app, &mut dirty, LoopStep::ReadInput, true), LoopStep::Stop);
    let mut app = self::app();
    assert!(!consume_event(&mut app, TermEvent::Failed));
}

// ── Soundness ──────────────────────────────────────────────────

/// The insertion point is a boundary, a sidebar line is selected, and the popup's choice is one of
/// its lines.
fn check(app: &App) {
    assert!(app.input.is_char_boundary(app.input_cursor));
    assert!(app.sidebar_sel < app.sidebar_items.len());
    assert!(app.sidebar_scroll < app.sidebar_items.len());
    assert!(matches!(app.sidebar_items.last(), Some(SidebarItem::NewSession)));
    if let Some(i) = app.autocomplete_idx {
        assert!(i < app.autocomplete_suggestions.len());
    }
}

/// A long run of keys, clicks, events and draws never leaves a state that the next one cannot take.
#[test]
fn every_step_keeps_the_state_sound() {
    let mut app = app();
    start(&mut app);
    check(&app);
    let mut seed: u64 = 7;
    let mut roll = |n: u64| -> u64 {
        seed = seed.wrapping_mul(6364136223846793005).wrapping_add(1442695040888963407);
        (seed >> 33) % n
    };
    let codes = [
        KeyCode::Char('/'),
        KeyCode::Char('l'),
        KeyCode::Char('o'),
        KeyCode::Char('한'),
        KeyCode::Char(' '),
        KeyCode::Char('j'),
        KeyCode::Char('w'),
        KeyCode::Enter,
        KeyCode::Backspace,
        KeyCode::Tab,
        KeyCode::Up,
        KeyCode::Down,
        KeyCode::Left,
        KeyCode::Right,
        KeyCode::PageUp,
        KeyCode::End,
    ];
    for _ in 0..4000 {
        match roll(10) {
            0 => {
                let n = roll(5);
                let projects = (0..n)
                    .map(|i| ZProject {
                        id: format!("p{i}"),
                        name: format!("Project {i}"),
                        is_default: i == 0,
                    })
                    .collect();
                apply_bg_event(&mut app, BgEvent::Projects(projects));
            }
            1 => {
                let n = roll(30);
                let sessions = (0..n)
                    .map(|i| {
                        let project = format!("p{}", roll(7));
                        session(&format!("s{i}"), Some("Rollout"), Some(&project))
                    })
                    .collect();
                apply_bg_event(&mut app, BgEvent::Sessions(sessions));
            }
            2 => {
                drain_actions(&mut app, "", "");
                let events = perform_offline(&mut app);
                drain_bg_events(&mut app, events);
            }
            3 => {
                let kind = match roll(3) {
                    0 => MouseEventKind::ScrollDown,
                    1 => MouseEventKind::ScrollUp,
                    _ => MouseEventKind::Down(MouseButton::Left),
                };
                let (column, row) = (roll(60) as u16, roll(40) as u16);
                consume_event(&mut app, TermEvent::Mouse { column, row, kind });
            }
            4 => {
                draw(&mut app, rect(0, 0, 50 + roll(60) as u16, 10 + roll(30) as u16));
            }
            _ => {
                let code = codes[roll(codes.len() as u64) as usize];
                let modifiers =
                    KeyModifiers { control: roll(6) == 0, shift: roll(9) == 0, ..KeyModifiers::none() };
                consume_event(&mut app, TermEvent::Key { code, modifiers, kind: KeyKind::Press });
            }
        }
        check(&app);
    }
}
