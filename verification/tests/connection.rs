//! The connection slot, what a connection reports, and enrolling again.

use attacca::app::BgEvent;
use attacca::auth::{AuthEvent, AuthStep, Authenticator};
use attacca::wire::{ZAgent, ZMe, ZProject, ZSession};
use attacca::zyris_client::{
    missing_scopes, on_connect, ApiSlot, ConnEvent, ConnStep, Fetched, Live, CONSUME_WAIT,
    DEFAULT_SCOPES, SESSION_LIMIT,
};

fn me(scopes: Vec<String>) -> ZMe {
    ZMe {
        user_id: "u1".into(),
        email: "ada@example.com".into(),
        display_name: "Ada".into(),
        scopes,
        plan: None,
        credits: None,
    }
}

/// The race `clear_if` exists for: the outgoing connection's close handler and the dial loop wake
/// on the same event, so a blind clear can erase what a reconnect just published.
#[test]
fn clear_if_ignores_a_stale_connection_id() {
    let mut slot: ApiSlot<u8> = ApiSlot::new();
    slot.set(Live { conn_id: "live".into(), conn: 7 });

    slot.clear_if("some-older-connection");
    assert!(slot.get().is_some(), "a stale id must not clear the slot");

    slot.clear_if("live");
    assert!(slot.get().is_none(), "the live id must clear the slot");
}

#[test]
fn a_connection_is_published_before_its_metadata_is_read() {
    let mut slot: ApiSlot<u8> = ApiSlot::new();
    let (events, step) = on_connect(&mut slot, "c1", ConnEvent::Announced(Ok(7)));
    assert!(events.is_empty());
    assert_eq!(step, ConnStep::Fetch { session_limit: SESSION_LIMIT });
    assert_eq!(SESSION_LIMIT, 200);
    assert_eq!(slot.get().map(|l| l.conn), Some(7));

    let fetched = Fetched {
        me: Ok(me(vec![])),
        projects: Ok(vec![ZProject { id: "p1".into(), name: "Default".into(), is_default: true }]),
        sessions: Ok(vec![ZSession {
            id: "s1".into(),
            title: None,
            project_id: None,
            running: false,
        }]),
        agents: Ok(vec![ZAgent { id: "a".into(), name: "R".into() }]),
    };
    let (events, step) = on_connect(&mut slot, "c1", ConnEvent::Fetched(fetched));
    assert_eq!(step, ConnStep::AwaitClose);
    assert_eq!(events.len(), 4);
    assert!(matches!(&events[0], BgEvent::Connected(me) if me.display_name == "Ada"));
    assert!(matches!(&events[1], BgEvent::Projects(v) if v.len() == 1));
    assert!(matches!(&events[2], BgEvent::Sessions(v) if v.len() == 1));
    assert!(matches!(&events[3], BgEvent::Agents(v) if v.len() == 1));

    let (events, step) = on_connect(&mut slot, "c1", ConnEvent::Closed("bye".into()));
    assert_eq!(step, ConnStep::Finished);
    assert!(matches!(&events[0], BgEvent::Disconnected(r) if r == "bye"));
    assert!(slot.get().is_none());
}

#[test]
fn a_failed_read_costs_a_notice() {
    let mut slot: ApiSlot<u8> = ApiSlot::new();
    let fetched = Fetched {
        me: Err("a".into()),
        projects: Err("b".into()),
        sessions: Err("c".into()),
        agents: Err("d".into()),
    };
    let (events, _) = on_connect(&mut slot, "c1", ConnEvent::Fetched(fetched));
    let texts: Vec<String> = events
        .into_iter()
        .map(|e| match e {
            BgEvent::Notice(t) => t,
            _ => panic!("expected a notice"),
        })
        .collect();
    assert_eq!(
        texts,
        vec![
            "me: a".to_string(),
            "list_projects: b".to_string(),
            "list_sessions: c".to_string(),
            "list_agents: d".to_string(),
        ]
    );
    let (events, step) = on_connect(&mut slot, "c1", ConnEvent::Announced(Err("timed out".into())));
    assert_eq!(step, ConnStep::Finished);
    assert!(matches!(
        &events[0],
        BgEvent::Notice(t) if t == "server did not announce attacca_api: timed out"
    ));
    assert!(slot.get().is_none());
}

#[test]
fn a_late_close_does_not_clear_the_next_connection() {
    let mut slot: ApiSlot<u8> = ApiSlot::new();
    on_connect(&mut slot, "c1", ConnEvent::Announced(Ok(1)));
    on_connect(&mut slot, "c2", ConnEvent::Announced(Ok(2)));
    let (events, _) = on_connect(&mut slot, "c1", ConnEvent::Closed("bye".into()));
    assert_eq!(events.len(), 1);
    assert_eq!(slot.get().map(|l| l.conn), Some(2));
}

#[test]
fn a_missing_scope_is_named() {
    assert_eq!(CONSUME_WAIT, 5);
    let all: Vec<String> = DEFAULT_SCOPES.iter().map(|s| s.to_string()).collect();
    assert!(missing_scopes(&me(all)).is_empty());
    assert_eq!(
        missing_scopes(&me(vec!["sessions:read".into(), "agents:read".into()])),
        vec!["projects:read", "sessions:write", "events:read"]
    );
    assert_eq!(missing_scopes(&me(vec![])), DEFAULT_SCOPES.to_vec());
}

// ── Enrolling again ────────────────────────────────────────────

fn auth() -> Authenticator {
    Authenticator::new(
        "wss://example.test/zyris/v1/ws".into(),
        "default".into(),
        "test-node".into(),
        "test".into(),
        vec!["events:read".into()],
    )
}

#[test]
fn a_relogin_clears_enrolls_and_swaps() {
    let a = auth();
    assert_eq!(a.scopes(), ["events:read".to_string()]);
    assert!(matches!(a.relogin(AuthEvent::Begun), AuthStep::OpenStore));
    assert!(matches!(a.relogin(AuthEvent::StoreOpened(Ok(()))), AuthStep::ClearStore));
    assert!(matches!(a.relogin(AuthEvent::StoreCleared(Ok(()))), AuthStep::MakeEnroller));
    assert!(matches!(a.relogin(AuthEvent::EnrollerMade(Ok(()))), AuthStep::AskForBearer));
    assert!(matches!(
        a.relogin(AuthEvent::Bearer(Ok("znt_ab".into()))),
        AuthStep::Swap(p) if p == "znt_ab"
    ));
    for ev in [
        AuthEvent::StoreOpened(Err("e".into())),
        AuthEvent::StoreCleared(Err("e".into())),
        AuthEvent::EnrollerMade(Err("e".into())),
        AuthEvent::Bearer(Err("e".into())),
    ] {
        assert!(matches!(a.relogin(ev), AuthStep::Failed(e) if e == "e"));
    }
}

#[test]
fn a_logout_only_clears() {
    let a = auth();
    assert!(matches!(a.logout(AuthEvent::Begun), AuthStep::OpenStore));
    assert!(matches!(a.logout(AuthEvent::StoreOpened(Ok(()))), AuthStep::ClearStore));
    assert!(matches!(a.logout(AuthEvent::StoreCleared(Ok(()))), AuthStep::Done));
    assert!(matches!(a.logout(AuthEvent::StoreOpened(Err("e".into()))), AuthStep::Failed(_)));
    assert!(matches!(a.logout(AuthEvent::StoreCleared(Err("e".into()))), AuthStep::Failed(_)));
}
