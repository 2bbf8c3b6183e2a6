//! The session list, the project label, and new sessions.

use attacca::app::{App, SidebarItem};
use attacca::brief::NodeBrief;
use attacca::wire::{ZAgent, ZSession};

const ID: &str = "3f2504e0-4f89-11d3-9a0c-0305e82c3301";

fn app() -> App {
    App::new(
        NodeBrief { node_name: "test-node".into(), file_root: "/tmp".into(), terminal: true },
        true,
        false,
    )
}

fn session(id: &str, title: Option<&str>, project: Option<&str>, running: bool) -> ZSession {
    ZSession {
        id: id.into(),
        title: title.map(|t| t.into()),
        project_id: project.map(|p| p.into()),
        running,
    }
}

fn agents() -> Vec<ZAgent> {
    vec![
        ZAgent { id: "agent-1".into(), name: "Researcher".into() },
        ZAgent { id: "agent-2".into(), name: "Builder".into() },
    ]
}

#[test]
fn a_new_state_is_idle() {
    let app = app();
    assert!(!app.busy() && !app.requests_in_flight());
    assert!(app.at_end && app.debug_events && !app.hide_reasoning);
    assert_eq!(app.sid, None);
    assert!(app.sidebar_items.is_empty());
}

#[test]
fn requests_are_counted() {
    let mut app = app();
    app.inc_busy();
    app.inc_busy();
    app.dec_busy();
    assert!(app.busy() && app.requests_in_flight());
    app.dec_busy();
    app.dec_busy();
    assert!(!app.requests_in_flight());
    assert_eq!(app.busy_count, 0);
}

#[test]
fn sessions_are_grouped_by_project_in_order() {
    let mut app = app();
    app.project_order = vec!["p2".into(), "p9".into()];
    app.project_names.insert("p2".into(), "Second".into());
    app.expanded_projects.insert("p2".into());
    app.sid = Some("s3".into());
    app.replace_sessions(vec![
        session("s1", Some("One"), Some("project-one"), false),
        session("s2", Some("Two"), Some("p2"), true),
        session("s3", None, Some("p2"), false),
    ]);
    let lines: Vec<String> = app
        .sidebar_items
        .iter()
        .map(|i| match i {
            SidebarItem::ProjectHeader { name, expanded, session_count, .. } => {
                format!("{name} {expanded} {session_count}")
            }
            SidebarItem::Session { title, active, running, .. } => {
                format!("{title} {active} {running}")
            }
            SidebarItem::NewSession => "new".to_string(),
        })
        .collect();
    assert_eq!(
        lines,
        vec![
            "📁 Second true 2".to_string(),
            "Two false true".to_string(),
            "untitled true false".to_string(),
            "📁 project- false 1".to_string(),
            "new".to_string(),
        ]
    );
    assert_eq!(app.current_project_name, "Second");
}

#[test]
fn the_selection_follows_a_list_that_shrinks() {
    let mut app = app();
    app.sidebar_sel = 9;
    app.sidebar_scroll = 9;
    app.replace_sessions(vec![session("s1", None, None, false)]);
    assert_eq!(app.sidebar_items.len(), 2);
    assert_eq!(app.sidebar_sel, 1);
    assert_eq!(app.sidebar_scroll, 0);
}

#[test]
fn an_inserted_session_comes_first() {
    let mut app = app();
    app.replace_sessions(vec![session("s1", Some("One"), None, false)]);
    app.insert_session(session("s2", Some("attacca-cli"), None, true));
    assert_eq!(app.sessions.len(), 2);
    assert_eq!(app.sessions[0].id, "s2");
    assert_eq!(app.sessions[0].title, "untitled");
    assert!(app.sessions[0].running);
}

#[test]
fn attaching_keeps_the_transcript_and_switching_clears_it() {
    let mut app = app();
    app.push_sys("hello");
    app.chat.cur = 9;
    app.attach_session("s1".into());
    assert_eq!(app.chat.msgs.len(), 1);
    assert_eq!(app.chat.cur, 0);
    assert_eq!(app.sid.as_deref(), Some("s1"));
    app.scroll = 4;
    app.at_end = false;
    app.reset_for_session("0123456789");
    assert_eq!(app.chat.msgs.len(), 1);
    assert_eq!(app.chat.msgs[0].text, "session 01234567");
    assert!(app.at_end && app.scroll == 0);
}

#[test]
fn a_feed_is_stopped_once() {
    let mut app = app();
    app.stop_stream();
    assert!(app.effects.is_empty());
    app.stream = Some("s1".into());
    app.stop_stream();
    app.stop_stream();
    assert_eq!(app.effects.len(), 1);
    assert_eq!(app.stream, None);
}

#[test]
fn the_open_row_follows_the_feed() {
    let mut app = app();
    app.sid = Some("s1".into());
    app.replace_sessions(vec![
        session("s1", Some("One"), None, false),
        session("s2", Some("Two"), None, false),
    ]);
    app.chat.running = true;
    app.sync_open_row();
    assert!(app.sessions[0].running && !app.sessions[1].running);
    app.retitle_open_row("Renamed");
    assert_eq!(app.sessions[0].title, "Renamed");
    app.retitle_open_row("   ");
    assert_eq!(app.sessions[0].title, "untitled");
    assert_eq!(app.sessions[1].title, "Two");
}

#[test]
fn a_new_session_uses_the_first_agent_and_no_title() {
    let mut app = app();
    assert!(app.new_session_spec("", "").is_none());
    app.agents = agents();
    let spec = app.new_session_spec("", "").expect("a session");
    assert_eq!(spec.agent_id, "agent-1");
    assert_eq!(spec.title, None);
    assert_eq!(spec.project_id, None);
    assert_eq!(spec.preamble, Some(app.node_brief.preamble()));
    assert!(app.chat.msgs.is_empty());
}

#[test]
fn references_choose_the_project_and_the_agent() {
    let mut app = app();
    app.agents = agents();
    app.project_names.insert("p1".into(), "Rollout".into());
    let spec = app.new_session_spec("rollout", "BUILDER").expect("a session");
    assert_eq!(spec.project_id.as_deref(), Some("p1"));
    assert_eq!(spec.agent_id, "agent-2");
    let spec = app.new_session_spec(ID, "agent-2").expect("a session");
    assert_eq!(spec.project_id.as_deref(), Some(ID));
    assert!(app.chat.msgs.is_empty());
}

#[test]
fn an_unresolved_reference_is_called_out() {
    let mut app = app();
    app.agents = agents();
    let spec = app.new_session_spec(" typo ", "nobody").expect("a session");
    assert_eq!(spec.project_id, None);
    assert_eq!(spec.agent_id, "agent-1");
    assert_eq!(
        app.chat.msgs[0].text,
        "ATTACCA_PROJECT \"typo\" matched no project — using the account default"
    );
    assert_eq!(
        app.chat.msgs[1].text,
        "ATTACCA_AGENT \"nobody\" matched no agent — using the first one"
    );
}

#[test]
fn a_snapshot_keeps_the_list_and_the_place_in_it() {
    let mut app = app();
    app.sid = Some("s1".into());
    app.replace_sessions(vec![session("s1", Some("One"), Some("p1"), true)]);
    app.sidebar_sel = 1;
    let saved = app.saved_state();
    assert_eq!(saved.sessions.len(), 1);
    assert_eq!(saved.sessions[0].id, "s1");
    assert_eq!(saved.sessions[0].title, "One");
    assert_eq!(saved.sessions[0].project_id, "p1");
    assert_eq!(saved.last_sid.as_deref(), Some("s1"));
    assert_eq!(saved.last_project_name, "p1");
    assert_eq!(saved.sidebar_sel, 1);
    assert_eq!(saved.sidebar_scroll, 0);
}
