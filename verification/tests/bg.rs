//! Requests and session feeds, driven by hand against a deployment of a few values.

use attacca::app::{BgEvent, MsgKind, Transcript};
use attacca::bg::{
    self, spawn_session_stream, Call, Drained, Feed, SessionStream, Step, StreamEvent, StreamStep,
    RESUBSCRIBE_MAX, RESUBSCRIBE_MIN,
};
use attacca::json::Json;
use attacca::wire::{ZDeltaKind, ZNewSession, ZSession, ZSessionEvent, ZTurnFrame, ZUsage};

fn durable(cursor: i64, kind: &str, text: &str) -> ZSessionEvent {
    ZSessionEvent {
        seq: cursor,
        cursor,
        kind: kind.into(),
        payload: Json::Object(vec![("text".to_string(), Json::Text(text.to_string()))]),
    }
}

/// A durable timeline, read from a cursor on.
fn history(after: Option<i64>) -> Vec<ZSessionEvent> {
    let all = vec![
        durable(1, "user_message", "what is in main.rs?"),
        durable(2, "assistant_message", "a main function"),
    ];
    match after {
        Some(after) => all.into_iter().filter(|e| e.cursor > after).collect(),
        None => all,
    }
}

/// One turn, streamed and then settled.
fn turn() -> Vec<ZTurnFrame> {
    vec![
        ZTurnFrame::Delta { kind: ZDeltaKind::Assistant, text: "Hel".into() },
        ZTurnFrame::Delta { kind: ZDeltaKind::Assistant, text: "lo!".into() },
        ZTurnFrame::Event { cursor: 3, event: durable(3, "assistant_message", "Hello!") },
        ZTurnFrame::Status { running: false },
    ]
}

fn reduce(events: Vec<BgEvent>, chat: &mut Transcript) {
    for ev in events {
        if let BgEvent::Frame { frame, .. } = ev {
            chat.apply_frame(frame, false);
        }
    }
}

/// One round of a session's stream on a deployment that streams `frames`; what it asked history
/// for.
fn round(
    stream: &mut SessionStream,
    frames: Vec<ZTurnFrame>,
    chat: &mut Transcript,
) -> Option<i64> {
    let mut asked = None;
    let running = !frames.is_empty();
    let mut frames = frames.into_iter();
    let mut event = StreamEvent::Connected;
    loop {
        let (events, step) = spawn_session_stream(stream, event);
        reduce(events, chat);
        event = match step {
            StreamStep::AwaitConnection => panic!("the connection is live"),
            StreamStep::ReadHistory { after } => {
                asked = after;
                StreamEvent::History(Ok(history(after)))
            }
            StreamStep::Subscribe { after } => {
                assert_eq!(after, Some(stream.feed.last_cursor));
                StreamEvent::Subscribed(Ok(running))
            }
            StreamStep::AwaitItem => match frames.next() {
                Some(frame) => StreamEvent::Item(frame),
                None => StreamEvent::Ended,
            },
            StreamStep::Sleep { millis } => {
                assert_eq!(millis, stream.feed.backoff);
                return asked;
            }
        };
    }
}

fn finished(step: Step) -> Vec<BgEvent> {
    match step {
        Step::Finished(events) => events,
        Step::Waiting { .. } => panic!("expected the request to be over"),
    }
}

fn notice(ev: &BgEvent) -> &str {
    match ev {
        BgEvent::Notice(text) => text,
        _ => panic!("expected a notice"),
    }
}

fn spec() -> ZNewSession {
    ZNewSession {
        agent_id: "agent-1".into(),
        title: None,
        project_id: None,
        preamble: Some("you are driving build-box".into()),
    }
}

fn session(id: &str) -> ZSession {
    ZSession { id: id.into(), title: None, project_id: None, running: false }
}

// ── The feed ───────────────────────────────────────────────────

/// Opening a session loads its history: the durable log is a separate read, because the turn feed
/// carries only what happens from now on.
#[test]
fn opening_a_session_loads_its_history() {
    let mut feed = SessionStream::new("s1".into());
    let mut chat = Transcript::new();
    round(&mut feed, vec![], &mut chat);

    assert_eq!(chat.msgs[0].kind, MsgKind::User);
    assert_eq!(chat.msgs[0].text, "what is in main.rs?");
    assert_eq!(chat.msgs[1].kind, MsgKind::Agent);
    assert_eq!(chat.msgs[1].text, "a main function");
}

/// History first, then the live turn — and the deltas settle into one card rather than two.
#[test]
fn history_is_followed_by_the_live_stream() {
    let mut feed = SessionStream::new("s1".into());
    let mut chat = Transcript::new();
    round(&mut feed, turn(), &mut chat);

    assert_eq!(chat.msgs.len(), 3, "{:?}", chat.msgs);
    assert_eq!(chat.msgs[2].kind, MsgKind::Agent);
    assert_eq!(chat.msgs[2].text, "Hello!");
    assert_eq!(chat.cur, 3);
}

/// A re-subscribe must not re-read the whole timeline, or every turn boundary would replay it.
#[test]
fn a_resubscribe_asks_for_history_after_the_last_cursor() {
    let mut feed = SessionStream::new("s1".into());
    let mut chat = Transcript::new();
    let queries = vec![
        round(&mut feed, turn(), &mut chat),
        round(&mut feed, vec![], &mut chat),
    ];
    assert_eq!(queries.first(), Some(&None), "the open reads everything");
    assert!(queries.len() > 1, "expected a re-subscribe, saw {queries:?}");
    assert_eq!(
        queries[1],
        Some(3),
        "a re-subscribe resumes from the last cursor, saw {queries:?}"
    );
}

/// A feed outlives the connection it started on, and resumes on the next one from the cursor it
/// had reached.
#[test]
fn a_reconnect_republishes_the_slot_and_the_parked_stream_resumes() {
    let mut feed = SessionStream::new("s1".into());
    let mut chat = Transcript::new();
    let first = round(&mut feed, vec![], &mut chat);
    assert_eq!(chat.cur, 2);

    // The connection goes away and another takes its place: the next round is on that one.
    let second = round(&mut feed, vec![], &mut chat);

    // Nothing was duplicated, and the catch-up asked only for what came after cursor 2.
    assert_eq!(chat.msgs.len(), 2, "{:?}", chat.msgs);
    assert_eq!(first, None);
    assert_eq!(second, Some(2), "the reconnect must resume from the last cursor");
}

/// A stream started before the connection exists must park, not die.
#[test]
fn a_stream_started_while_disconnected_waits_for_the_connection() {
    let mut feed = SessionStream::new("s1".into());
    let (events, step) = spawn_session_stream(&mut feed, StreamEvent::Started);
    assert!(events.is_empty(), "a parked stream must stay quiet");
    assert_eq!(step, StreamStep::AwaitConnection);

    let mut chat = Transcript::new();
    round(&mut feed, vec![], &mut chat);
    assert_eq!(chat.msgs[0].text, "what is in main.rs?");

    let (events, step) = spawn_session_stream(&mut feed, StreamEvent::Slept);
    assert!(events.is_empty());
    assert_eq!(step, StreamStep::AwaitConnection);
}

#[test]
fn a_refused_subscription_waits_and_delivers_nothing() {
    let mut feed = SessionStream::new("s1".into());
    let (events, step) = spawn_session_stream(&mut feed, StreamEvent::Subscribed(Err("no".into())));
    assert_eq!(notice(&events[0]), "stream: no");
    assert_eq!(step, StreamStep::Sleep { millis: 1000 });
    let (events, _) = spawn_session_stream(&mut feed, StreamEvent::Subscribed(Ok(true)));
    assert!(matches!(
        &events[0],
        BgEvent::StreamHead { session_id, running: true } if session_id == "s1"
    ));
}

#[test]
fn a_subscription_counts_its_durable_events() {
    let feed = Feed::new("s1".into());
    let mut drained = Drained::new();
    for frame in turn() {
        feed.item(&mut drained, frame);
    }
    assert_eq!(drained.events, 1);
    assert_eq!(drained.max_cursor, 3);
}

#[test]
fn empty_rounds_double_the_wait_up_to_its_ceiling() {
    assert_eq!(RESUBSCRIBE_MIN, 500);
    assert_eq!(RESUBSCRIBE_MAX, 15_000);
    let mut feed = SessionStream::new("s1".into());
    let mut chat = Transcript::new();
    let mut waits = Vec::new();
    for _ in 0..6 {
        round(&mut feed, vec![], &mut chat);
        waits.push(feed.feed.backoff);
    }
    assert_eq!(waits, vec![1000, 2000, 4000, 8000, 15_000, 15_000]);
    round(&mut feed, turn(), &mut chat);
    assert_eq!(feed.feed.backoff, 500);
}

#[test]
fn a_run_of_failures_is_reported_once() {
    let mut feed = Feed::new("s1".into());
    let events = feed.history(Err("refused".into()));
    assert_eq!(notice(&events[0]), "history: refused");
    assert!(feed.subscribed(Err("refused".into())).is_empty());
    assert_eq!(feed.backoff, 1000);
    assert!(feed.history(Err("refused".into())).is_empty());
    // A subscription that works ends the run.
    assert_eq!(feed.subscribed(Ok(false)).len(), 1);
    let events = feed.subscribed(Err("again".into()));
    assert_eq!(notice(&events[0]), "stream: again");
}

#[test]
fn a_feed_subscribes_after_what_it_has_seen() {
    let mut feed = Feed::new("s1".into());
    assert_eq!(feed.history_after(), None);
    assert_eq!(feed.subscribe_after(), Some(0));
    feed.history(Ok(history(None)));
    assert_eq!(feed.history_after(), Some(2));
    assert_eq!(feed.subscribe_after(), Some(2));
}

// ── Requests ───────────────────────────────────────────────────

/// Sessions are created untitled and with a preamble: a title supplied here is permanent and opts
/// the session out of being named from its first message.
#[test]
fn a_session_is_created_with_a_preamble_and_no_title() {
    let created = match bg::create_session(true, Some(spec())) {
        Step::Waiting { events, call: Call::CreateSession { spec, then_send } } => {
            assert!(events.is_empty());
            assert_eq!(then_send, None);
            vec![spec]
        }
        _ => panic!("expected a session to be created"),
    };
    for ev in finished(bg::session_created(None, Ok(session("s2")))) {
        if let BgEvent::Notice(text) = ev {
            panic!("unexpected notice: {text}");
        }
    }
    assert_eq!(created.len(), 1);
    assert_eq!(created[0].title, None, "a title here would be permanent");
    assert_eq!(created[0].preamble.as_deref(), Some("you are driving build-box"));
}

/// Not connected is a normal state, not an error state: the `Done` still has to arrive or the
/// caller's busy count never comes back down and the action queue wedges forever.
#[test]
fn a_request_with_no_connection_still_reports_done() {
    let events = finished(bg::cancel_turn(false, "s1".into()));
    assert!(matches!(events[0], BgEvent::Notice(_)));
    assert!(matches!(events[1], BgEvent::Done));
    assert_eq!(events.len(), 2);
    assert_eq!(notice(&events[0]), "not connected yet");
}

/// A deployment that predates the metering must cost one notice, not a broken client.
#[test]
fn usage_is_absent_rather_than_a_startup_failure() {
    match bg::session_usage(true, "s1".into(), false) {
        Step::Waiting { call: Call::SessionUsage { sid, quiet }, .. } => {
            assert_eq!(sid, "s1");
            assert!(!quiet);
        }
        _ => panic!("expected the usage to be asked for"),
    }
    let events = finished(bg::usage_read(false, Err("capability_not_announced".into())));
    let mut notices = Vec::new();
    for ev in &events {
        match ev {
            BgEvent::Notice(text) => notices.push(text.clone()),
            BgEvent::Usage(_) => panic!("a deployment without the tool must not report usage"),
            _ => {}
        }
    }
    assert_eq!(notices.len(), 1, "say it once: {notices:?}");
    assert!(notices[0].contains("not available"), "{}", notices[0]);
    assert!(matches!(events.last(), Some(BgEvent::Done)));
    assert_eq!(finished(bg::usage_read(true, Err("x".into()))).len(), 1);
}

/// And when it does meter, the numbers reach the info bar.
#[test]
fn usage_reaches_the_app_when_the_deployment_meters() {
    let reply = ZUsage {
        model: Some("opus-5".into()),
        context_tokens: Some(12_400),
        input_tokens: Some(9_100),
        output_tokens: Some(3_300),
        total_tokens: Some(12_400),
        credits_used: None,
    };
    let mut events = finished(bg::usage_read(false, Ok(reply)));
    assert!(matches!(events.pop(), Some(BgEvent::Done)));
    let usage = match events.pop() {
        Some(BgEvent::Usage(u)) => u,
        _ => panic!("finished without reporting usage"),
    };
    assert_eq!(usage.model.as_deref(), Some("opus-5"));
    assert_eq!(usage.total_tokens, Some(12_400));
    // Unmetered fields stay absent rather than rendering as a zero.
    assert_eq!(usage.credits_used, None);
}

#[test]
fn a_message_without_a_session_creates_one_first() {
    let step = bg::send(true, "hi".into(), None, Some(spec()));
    let then = match step {
        Step::Waiting { events, call: Call::CreateSession { then_send, .. } } => {
            assert!(events.is_empty());
            then_send
        }
        _ => panic!("expected a session to be created"),
    };
    assert_eq!(then.as_deref(), Some("hi"));
    match bg::session_created(then, Ok(session("s2"))) {
        Step::Waiting { events, call: Call::SendMessage { sid, text } } => {
            assert!(matches!(&events[0], BgEvent::SessionCreated(s) if s.id == "s2"));
            assert_eq!(events.len(), 1);
            assert_eq!(sid, "s2");
            assert_eq!(text, "hi");
        }
        _ => panic!("expected the message to be sent"),
    }
    let events = finished(bg::message_sent(Err("lost".into())));
    assert_eq!(notice(&events[0]), "send_message: lost");
    assert_eq!(finished(bg::message_sent(Ok(()))).len(), 1);
}

#[test]
fn a_message_in_an_open_session_is_sent_at_once() {
    match bg::send(true, "hi".into(), Some("s1".into()), None) {
        Step::Waiting { call: Call::SendMessage { sid, text }, .. } => {
            assert_eq!(sid, "s1");
            assert_eq!(text, "hi");
        }
        _ => panic!("expected the message to be sent"),
    }
}

#[test]
fn without_an_agent_no_session_is_created() {
    for step in [bg::send(true, "hi".into(), None, None), bg::create_session(true, None)] {
        let events = finished(step);
        assert_eq!(
            notice(&events[0]),
            "no agent available — set ATTACCA_AGENT or create one in Attacca"
        );
        assert!(matches!(events[1], BgEvent::Done));
    }
    let events = finished(bg::session_created(Some("hi".into()), Err("full".into())));
    assert_eq!(notice(&events[0]), "create_session: full");
    assert!(matches!(events[1], BgEvent::Done));
}

#[test]
fn the_other_requests_report_their_outcome() {
    let events = finished(bg::turn_cancelled(Ok(())));
    assert_eq!(notice(&events[0]), "turn cancelled");
    let events = finished(bg::turn_cancelled(Err("idle".into())));
    assert_eq!(notice(&events[0]), "cancel_turn: idle");
    assert!(matches!(
        bg::refresh_sessions(true),
        Step::Waiting { call: Call::ListSessions { limit: 200 }, .. }
    ));
    let events = finished(bg::sessions_listed(Ok(vec![session("s1")])));
    assert!(matches!(&events[0], BgEvent::Sessions(v) if v.len() == 1));
    assert_eq!(finished(bg::sessions_listed(Err("x".into()))).len(), 1);
    assert!(matches!(bg::logout(), Step::Waiting { call: Call::Logout, .. }));
    let events = finished(bg::logged_out(Ok(())));
    assert_eq!(notice(&events[0]), "credential cleared — /login now, or restart");
    let events = finished(bg::logged_out(Err("locked".into())));
    assert_eq!(notice(&events[0]), "logout: locked");
    assert!(matches!(
        bg::cancel_turn(true, "s1".into()),
        Step::Waiting { call: Call::CancelTurn { .. }, .. }
    ));
}
