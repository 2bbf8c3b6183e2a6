//! Laws of what arrives and of what is asked for: what each report and each action leaves, and that
//! it leaves the rest alone.

use crate::app::{ActionView, AppView, BgView, EffectView, RowView};
use crate::app_laws;
use crate::chat;
use crate::chat::{MsgKind, MsgView, TranscriptView};
use crate::event;
use crate::event::{KeyKind, LoopStep, TermEvent};
use crate::event_laws;
use crate::handler::{KeyCode, KeyModifiers, MouseEventKind};
use crate::refs;
use crate::session_laws;
use crate::session_laws::but_for_the_sidebar;
use crate::text;
use crate::wire::{AgentView, FrameView, MeView, ProjectView, SessionView, UsageView};
use crate::zyris_client;
use vstd::prelude::*;

verus! {

/// A notice, as a card.
pub open spec fn notice(line: Seq<char>) -> MsgView {
    MsgView { kind: MsgKind::Sys, text: line, streaming: false }
}

/// The state with notices behind everything else that was said, and nothing else changed.
pub open spec fn noting(a: AppView, lines: Seq<Seq<char>>) -> AppView {
    AppView {
        chat: TranscriptView {
            msgs: a.chat.msgs + Seq::new(lines.len(), |i: int| notice(lines[i])),
            ..a.chat
        },
        ..a
    }
}

proof fn lemma_told(a: AppView, line: Seq<char>)
    requires
        line.len() > 0,
        !text::is_space(line[0]),
    ensures
        a.told(line) == noting(a, seq![line]),
{
    assert(!text::is_blank(line));
    assert(a.chat.msgs.push(notice(line)) =~= a.chat.msgs + Seq::new(1, |i: int| notice(seq![line][i])));
}

proof fn lemma_noting_twice(a: AppView, first: Seq<Seq<char>>, second: Seq<Seq<char>>)
    ensures
        noting(noting(a, first), second) == noting(a, first + second),
{
    let all = first + second;
    assert(noting(noting(a, first), second).chat.msgs =~= noting(a, all).chat.msgs);
}

// ── Reports ────────────────────────────────────────────────────

/// A connection is said, with who connected, and that it is missing scopes where it is, with each of
/// them; the account is kept.
pub proof fn law_a_connection_is_reported(a: AppView, me: MeView)
    ensures
        ({
            let b = a.notified(BgView::Connected(me));
            let hello = "connected — "@ + (me.display_name + " <"@ + me.email + ">"@);
            let lacking = zyris_client::missing(me.scopes);
            let lines = if lacking.len() == 0 {
                seq![hello]
            } else {
                seq![
                    hello,
                    "grant is missing "@ + text::joined(lacking, ", "@)
                        + " — run /login to re-authorize"@,
                ]
            };
            b == noting(AppView { connected: true, me: Some(me), ..a }, lines)
        }),
{
    reveal(AppView::met);
    reveal_strlit("connected — ");
    reveal_strlit("grant is missing ");
    let hello = event::connected_line(me);
    let lack = event::missing_line(me);
    let c = AppView { connected: true, ..a };
    assert(hello[0] == 'c');
    assert(lack[0] == 'g');
    lemma_told(c, hello);
    lemma_told(noting(c, seq![hello]), lack);
    lemma_noting_twice(c, seq![hello], seq![lack]);
    assert(seq![hello] + seq![lack] =~= seq![hello, lack]);
}

/// A lost connection, a notice and a stopped node are said in the words that came with them.
pub proof fn law_a_loss_is_said_in_its_own_words(
    a: AppView,
    line: Seq<char>,
    needs_operator: bool,
)
    ensures
        a.notified(BgView::Disconnected(line)) == noting(
            AppView { connected: false, ..a },
            seq!["disconnected — "@ + line],
        ),
        !text::is_blank(line) ==> a.notified(BgView::Notice(line)) == noting(a, seq![line]),
        text::is_blank(line) ==> a.notified(BgView::Notice(line)) == a,
        a.notified(BgView::NodeStopped { message: line, needs_operator }) == noting(
            AppView {
                connected: false,
                node_stopped: Some(line),
                node_needs_operator: needs_operator,
                exit_requested: true,
                ..a
            },
            if needs_operator {
                seq![
                    "node stopped — "@ + line,
                    "this needs a person: try /login, or check ZYRIS_SERVER_URL"@,
                ]
            } else {
                seq!["node stopped — "@ + line]
            },
        ),
{
    reveal(AppView::halted);
    reveal_strlit("disconnected — ");
    reveal_strlit("node stopped — ");
    reveal_strlit("this needs a person: try /login, or check ZYRIS_SERVER_URL");
    let c = AppView { connected: false, ..a };
    let lost = "disconnected — "@ + line;
    assert(lost[0] == 'd');
    lemma_told(c, lost);
    assert(a.chat.msgs.push(notice(line)) =~= a.chat.msgs + Seq::new(
        1,
        |i: int| notice(seq![line][i]),
    ));
    let stopped = "node stopped — "@ + line;
    let help = "this needs a person: try /login, or check ZYRIS_SERVER_URL"@;
    assert(stopped[0] == 'n');
    assert(help[0] == 't');
    lemma_told(c, stopped);
    lemma_told(noting(c, seq![stopped]), help);
    lemma_noting_twice(c, seq![stopped], seq![help]);
    assert(seq![stopped] + seq![help] =~= seq![stopped, help]);
}

/// The agents are replaced by those reported; a session's usage is shown; a request that is done is
/// taken off the count.
pub proof fn law_agents_usage_and_done(a: AppView, agents: Seq<AgentView>, usage: UsageView)
    ensures
        a.notified(BgView::Agents(agents)) == (AppView { agents, ..a }),
        a.notified(BgView::Usage(usage)) == a.with_usage(usage),
        a.busy_count > 0 ==> a.notified(BgView::Done) == (AppView {
            busy_count: (a.busy_count - 1) as u32,
            ..a
        }),
        a.busy_count == 0 ==> a.notified(BgView::Done) == a,
{
}

proof fn lemma_project_order(a: AppView, projects: Seq<ProjectView>)
    requires
        a.project_order.len() == 0,
    ensures
        a.with_projects(projects).project_order.len() == projects.len(),
        forall|i: int|
            0 <= i < projects.len() ==> #[trigger] a.with_projects(projects).project_order[i]
                == projects[i].id,
    decreases projects.len(),
{
    if projects.len() > 0 {
        lemma_project_order(a, projects.drop_last());
    }
}

proof fn lemma_unknown_project(a: AppView, projects: Seq<ProjectView>, id: Seq<char>)
    requires
        a.project_names.len() == 0,
        forall|i: int| 0 <= i < projects.len() ==> (#[trigger] projects[i]).id != id,
    ensures
        refs::lookup(a.with_projects(projects).project_names, id) is None,
    decreases projects.len(),
{
    if projects.len() == 0 {
        session_laws::law_a_table_gives_its_first_entry(a.project_names, id, 0);
    } else {
        let rest = projects.drop_last();
        let last = projects[projects.len() - 1];
        assert forall|i: int| 0 <= i < rest.len() implies (#[trigger] rest[i]).id != id by {
            assert(projects[i].id != id);
        }
        assert(last.id != id);
        lemma_unknown_project(a, rest, id);
        refs::law_entering_a_key(a.with_projects(rest).project_names, last.id, last.name, id);
    }
}

proof fn lemma_known_project(a: AppView, projects: Seq<ProjectView>, k: int)
    requires
        0 <= k < projects.len(),
        forall|j: int| k < j < projects.len() ==> (#[trigger] projects[j]).id != projects[k].id,
    ensures
        refs::lookup(a.with_projects(projects).project_names, projects[k].id) == Some(
            projects[k].name,
        ),
    decreases projects.len(),
{
    let rest = projects.drop_last();
    let n = rest.len() as int;
    let last = projects[n];
    let before = a.with_projects(rest).project_names;
    refs::law_entering_a_key(before, last.id, last.name, projects[k].id);
    if k < n {
        assert(rest[k] == projects[k]);
        assert(projects[n].id != projects[k].id);
        assert forall|j: int| k < j < rest.len() implies (#[trigger] rest[j]).id != rest[k].id by {
            assert(projects[j].id != projects[k].id);
        }
        lemma_known_project(a, rest, k);
    }
}

/// The projects that are reported replace those that were known: their order is the reported one,
/// each has its reported name, no other has any, and the default ones are expanded, beside what was.
pub proof fn law_projects_are_taken_over(a: AppView, projects: Seq<ProjectView>, k: int)
    ensures
        ({
            let b = a.notified(BgView::Projects(projects));
            &&& b.project_order.len() == projects.len()
            &&& 0 <= k < projects.len() ==> b.project_order[k] == projects[k].id
            &&& 0 <= k < projects.len() && (forall|j: int|
                k < j < projects.len() ==> (#[trigger] projects[j]).id != projects[k].id)
                ==> refs::lookup(b.project_names, projects[k].id) == Some(projects[k].name)
            &&& forall|id: Seq<char>|
                #![trigger refs::lookup(b.project_names, id)]
                (forall|i: int| 0 <= i < projects.len() ==> (#[trigger] projects[i]).id != id)
                    ==> refs::lookup(b.project_names, id) is None
            &&& forall|id: Seq<char>| #[trigger]
                b.expanded_projects.contains(id) <==> a.expanded_projects.contains(id) || exists|i: int|
                    0 <= i < projects.len() && (#[trigger] projects[i]).is_default && projects[i].id
                        == id
            &&& but_for_the_sidebar(
                AppView {
                    project_order: b.project_order,
                    project_names: b.project_names,
                    expanded_projects: b.expanded_projects,
                    current_project_name: b.current_project_name,
                    ..a
                },
                b,
            )
            &&& b.sidebar_items == b.sidebar()
            &&& b.current_project_name == b.open_project()
        }),
{
    reveal(AppView::projects_listed);
    reveal(AppView::rebuilt);
    let none = AppView { project_order: Seq::empty(), project_names: Seq::empty(), ..a };
    lemma_project_order(none, projects);
    if 0 <= k < projects.len() && (forall|j: int|
        k < j < projects.len() ==> (#[trigger] projects[j]).id != projects[k].id) {
        lemma_known_project(none, projects, k);
    }
    event_laws::lemma_with_projects(none, projects);
    event_laws::lemma_expanded(none, projects);
    let c = none.with_projects(projects).project_synced();
    let b = a.notified(BgView::Projects(projects));
    app_laws::lemma_same_sidebar(b, c);
    assert forall|id: Seq<char>|
        #![trigger refs::lookup(b.project_names, id)]
        (forall|i: int| 0 <= i < projects.len() ==> (#[trigger] projects[i]).id
            != id) implies refs::lookup(b.project_names, id) is None by {
        lemma_unknown_project(none, projects, id);
    }
    assert forall|id: Seq<char>| #[trigger]
        b.expanded_projects.contains(id) <==> a.expanded_projects.contains(id) || exists|i: int|
            0 <= i < projects.len() && (#[trigger] projects[i]).is_default && projects[i].id
                == id by {
        assert(none.with_projects(projects).expanded_projects.contains(id)
            <==> none.expanded_projects.contains(id) || event_laws::default_among(projects, id));
    }
}

/// The sessions that are reported replace those that were listed, row by row; but whether the open
/// session runs is what its own feed says.
pub proof fn law_sessions_are_taken_over(a: AppView, sessions: Seq<SessionView>, i: int)
    ensures
        ({
            let b = a.notified(BgView::Sessions(sessions));
            &&& b.sessions.len() == sessions.len()
            &&& 0 <= i < sessions.len() ==> b.sessions[i] == (RowView {
                project_id: match sessions[i].project_id {
                    Some(p) => p,
                    None => Seq::empty(),
                },
                title: chat::shown_title(sessions[i].title),
                id: sessions[i].id,
                running: if a.sid == Some(sessions[i].id) {
                    a.chat.running
                } else {
                    sessions[i].running
                },
            })
            &&& but_for_the_sidebar(
                AppView {
                    sessions: b.sessions,
                    current_project_name: b.current_project_name,
                    ..a
                },
                b,
            )
        }),
{
    session_laws::law_a_list_is_taken_over_row_by_row(a, sessions, i);
    let c = a.listing(sessions);
    session_laws::law_the_open_sessions_rows_are_kept(c, Seq::empty(), i);
}

/// A session that was created is said, comes first in the list, is opened, and is followed.
pub proof fn law_a_created_session_is_opened(a: AppView, session: SessionView)
    ensures
        ({
            let b = a.notified(BgView::SessionCreated(session));
            let line = "new session "@ + (if session.id.len() <= 8 {
                session.id
            } else {
                session.id.subrange(0, 8)
            });
            let row = RowView {
                project_id: match session.project_id {
                    Some(p) => p,
                    None => Seq::empty(),
                },
                title: chat::shown_title(session.title),
                id: session.id,
                running: session.running,
            };
            let stopped = if a.stream is Some {
                a.effects.push(EffectView::StopFeed)
            } else {
                a.effects
            };
            but_for_the_sidebar(
                AppView {
                    chat: TranscriptView {
                        msgs: a.chat.msgs.push(notice(line)),
                        cur: 0,
                        running: a.chat.running,
                    },
                    sid: Some(session.id),
                    sessions: seq![row] + a.sessions,
                    stream: Some(session.id),
                    effects: stopped.push(EffectView::StartFeed(session.id)),
                    current_project_name: b.current_project_name,
                    ..a
                },
                b,
            )
        }),
{
    reveal(AppView::following);
    reveal_strlit("new session ");
    let line = "new session "@ + text::prefix(session.id, 8);
    assert(line[0] == 'n');
    assert(!text::is_space(line[0]));
    assert(!text::is_blank(line));
    let c = a.told(line);
    let d = c.with_session(session);
    session_laws::law_a_new_session_is_put_first(c, session);
    session_laws::law_attaching_opens_the_session(d, session.id);
}

/// The head of the open session's feed says whether its turn runs, to the transcript and to its rows,
/// and nothing else.
pub proof fn law_the_head_says_whether_a_turn_runs(a: AppView, sid: Seq<char>, running: bool, i: int)
    requires
        a.sid == Some(sid),
    ensures
        ({
            let b = a.notified(BgView::StreamHead { session_id: sid, running });
            &&& b.chat == (TranscriptView { running, ..a.chat })
            &&& b.sessions.len() == a.sessions.len()
            &&& 0 <= i < a.sessions.len() ==> b.sessions[i] == (if a.sessions[i].id == sid {
                RowView { running, ..a.sessions[i] }
            } else {
                a.sessions[i]
            })
            &&& but_for_the_sidebar(AppView { chat: b.chat, sessions: b.sessions, ..a }, b)
        }),
{
    let c = AppView { chat: TranscriptView { running, ..a.chat }, ..a };
    session_laws::law_the_open_sessions_rows_are_kept(c, Seq::empty(), i);
}

/// A frame of the open session reaches the transcript, whatever it is; its rows take the title that
/// it carries and say whether the turn runs from then on; and no other row changes.
pub proof fn law_a_frame_reaches_the_transcript(a: AppView, sid: Seq<char>, frame: FrameView, i: int)
    requires
        a.sid == Some(sid),
    ensures
        ({
            let b = a.notified(BgView::Frame { session_id: sid, frame });
            let listed = 0 <= i < a.sessions.len();
            &&& b.chat == a.chat.framed(frame, a.debug_events)
            &&& b.sessions.len() == a.sessions.len()
            &&& listed && a.sessions[i].id != sid ==> b.sessions[i] == a.sessions[i]
            &&& listed && a.sessions[i].id == sid ==> b.sessions[i] == (RowView {
                title: match chat::frame_title(frame) {
                    Some(title) => chat::shown_title(Some(title)),
                    None => a.sessions[i].title,
                },
                running: if b.chat.running != a.chat.running {
                    b.chat.running
                } else {
                    a.sessions[i].running
                },
                ..a.sessions[i]
            })
            &&& but_for_the_sidebar(
                AppView {
                    chat: b.chat,
                    sessions: b.sessions,
                    effects: b.effects,
                    busy_count: b.busy_count,
                    ..a
                },
                b,
            )
            &&& b.chat.running || !a.chat.running ==> b.effects == a.effects && b.busy_count
                == a.busy_count
            &&& a.chat.running && !b.chat.running && a.busy_count <= u32::MAX - 2 ==> b.effects
                == a.effects.push(EffectView::RefreshSessions).push(
                EffectView::SessionUsage { sid, quiet: true },
            ) && b.busy_count == a.busy_count + 2
        }),
{
    reveal(AppView::framed);
    reveal(AppView::reduced);
    reveal(AppView::asking_again);
    let c = AppView { chat: a.chat.framed(frame, a.debug_events), ..a };
    let d = a.reduced(frame);
    if let Some(title) = chat::frame_title(frame) {
        session_laws::law_the_open_sessions_rows_are_kept(c, title, i);
    }
    assert(d.sid == a.sid && d.sessions.len() == a.sessions.len());
    session_laws::law_the_open_sessions_rows_are_kept(d, Seq::empty(), i);
}

/// Reports are taken in one after the other, none left out.
pub proof fn law_every_report_is_taken_in(a: AppView, events: Seq<BgView>, ev: BgView)
    ensures
        a.notified_all(Seq::empty()) == a,
        a.notified_all(events.push(ev)) == a.notified_all(events).notified(ev),
{
    assert(events.push(ev).drop_last() =~= events);
}

// ── Actions ────────────────────────────────────────────────────

/// The oldest action is taken off the queue and counted as a request before it is performed; the
/// others stay, in their order.
pub proof fn law_the_oldest_action_is_taken(a: AppView, project_ref: Seq<char>, agent_ref: Seq<char>)
    requires
        a.actions.len() > 0,
        a.busy_count < u32::MAX,
    ensures
        a.advanced(project_ref, agent_ref) == (AppView {
            actions: a.actions.subrange(1, a.actions.len() as int),
            busy_count: (a.busy_count + 1) as u32,
            ..a
        }).acted(a.actions[0], project_ref, agent_ref),
{
    assert(a.actions.skip(1) =~= a.actions.subrange(1, a.actions.len() as int));
}

/// The queue is worked off from its oldest action on, one after the other, as long as no request is in
/// flight; with one in flight, or with nothing queued, nothing happens.
pub proof fn law_the_queue_is_worked_off_in_order(
    a: AppView,
    project_ref: Seq<char>,
    agent_ref: Seq<char>,
)
    ensures
        a.busy_count > 0 || a.actions.len() == 0 ==> a.drained(project_ref, agent_ref) == a,
        a.busy_count == 0 && a.actions.len() > 0 ==> a.drained(project_ref, agent_ref) == (AppView {
            actions: a.actions.subrange(1, a.actions.len() as int),
            busy_count: 1,
            ..a
        }).acted(a.actions[0], project_ref, agent_ref).drained(project_ref, agent_ref),
{
    if a.busy_count == 0 && a.actions.len() > 0 {
        let b = AppView { actions: a.actions.skip(1), ..a }.busier();
        event::lemma_acting_queues_nothing(b, a.actions[0], project_ref, agent_ref);
        law_the_oldest_action_is_taken(a, project_ref, agent_ref);
    }
}

/// A message goes to the open session, as it was written; without one it goes with the session that
/// the references ask for. Nothing else is asked for.
pub proof fn law_sending_asks_for_the_message(
    a: AppView,
    said: Seq<char>,
    project_ref: Seq<char>,
    agent_ref: Seq<char>,
)
    ensures
        ({
            let b = a.acted(ActionView::Send(said), project_ref, agent_ref);
            &&& a.sid matches Some(sid) ==> b == (AppView {
                effects: a.effects.push(
                    EffectView::Send { text: said, sid: Some(sid), spec: None },
                ),
                ..a
            })
            &&& a.sid is None ==> b == (AppView {
                effects: a.effects.push(
                    EffectView::Send {
                        text: said,
                        sid: None,
                        spec: a.new_session(project_ref, agent_ref),
                    },
                ),
                ..a.diagnosed(project_ref, agent_ref)
            })
        }),
{
    reveal(AppView::acted);
    reveal(AppView::diagnosed);
}

/// Opening a session clears the chat but for a notice that names it, gives up the feed that ran,
/// follows the session, and asks quietly for its usage.
pub proof fn law_opening_follows_the_session(
    a: AppView,
    sid: Seq<char>,
    project_ref: Seq<char>,
    agent_ref: Seq<char>,
)
    ensures
        ({
            let b = a.acted(ActionView::Open(sid), project_ref, agent_ref);
            let line = "session "@ + (if sid.len() <= 8 {
                sid
            } else {
                sid.subrange(0, 8)
            });
            let stopped = if a.stream is Some {
                a.effects.push(EffectView::StopFeed)
            } else {
                a.effects
            };
            but_for_the_sidebar(
                AppView {
                    chat: TranscriptView { msgs: seq![notice(line)], cur: 0, running: false },
                    scroll: 0,
                    at_end: true,
                    sid: Some(sid),
                    stream: Some(sid),
                    effects: stopped.push(EffectView::StartFeed(sid)).push(
                        EffectView::SessionUsage { sid, quiet: true },
                    ),
                    current_project_name: b.current_project_name,
                    ..a
                },
                b,
            )
        }),
{
    reveal(AppView::acted);
    reveal(AppView::following);
    session_laws::law_an_opened_transcript_names_its_session(a, sid);
    session_laws::law_attaching_opens_the_session(a.cleared_for(sid), sid);
}

/// Asking for a new session leaves the open one: the chat is cleared but for a notice, the feed that
/// ran is given up, no session is open, and the session that the references ask for is asked for.
pub proof fn law_creating_leaves_the_open_session(
    a: AppView,
    project_ref: Seq<char>,
    agent_ref: Seq<char>,
)
    ensures
        ({
            let c = a.closed();
            let b = a.acted(ActionView::Create, project_ref, agent_ref);
            let stopped = if a.stream is Some {
                a.effects.push(EffectView::StopFeed)
            } else {
                a.effects
            };
            &&& but_for_the_sidebar(
                AppView {
                    chat: TranscriptView {
                        msgs: seq![notice("creating session…"@)],
                        cur: 0,
                        running: false,
                    },
                    scroll: 0,
                    at_end: true,
                    sid: None,
                    stream: None,
                    effects: stopped,
                    current_project_name: Seq::empty(),
                    ..a
                },
                c,
            )
            &&& c.sidebar_items == c.sidebar()
            &&& b == (AppView {
                effects: stopped.push(
                    EffectView::CreateSession(a.new_session(project_ref, agent_ref)),
                ),
                ..c.diagnosed(project_ref, agent_ref)
            })
        }),
{
    reveal(AppView::acted);
    reveal(AppView::closed);
    reveal(AppView::rebuilt);
    reveal(AppView::diagnosed);
    reveal(AppView::new_session);
    reveal_strlit("creating session…");
    let line = "creating session…"@;
    assert(line[0] == 'c');
    assert(!text::is_space(line[0]));
    assert(!text::is_blank(line));
    assert(Seq::<MsgView>::empty().push(notice(line)) =~= seq![notice(line)]);
    let d = AppView {
        sid: None,
        chat: TranscriptView::empty(),
        scroll: 0,
        at_end: true,
        ..a.feedless()
    }.told(line).project_synced();
    app_laws::lemma_same_sidebar(a.closed(), d);
}

/// Stopping a turn asks for that of the open session; without one that is said, and nothing stays
/// counted. Logging out and refreshing ask for just that.
pub proof fn law_cancel_logout_and_refresh(
    a: AppView,
    project_ref: Seq<char>,
    agent_ref: Seq<char>,
)
    ensures
        a.sid matches Some(sid) ==> a.acted(ActionView::Cancel, project_ref, agent_ref) == (AppView {
            effects: a.effects.push(EffectView::CancelTurn(sid)),
            ..a
        }),
        a.sid is None && a.busy_count > 0 ==> a.acted(ActionView::Cancel, project_ref, agent_ref) == noting(
            AppView { busy_count: (a.busy_count - 1) as u32, ..a },
            seq!["no session to cancel"@],
        ),
        a.acted(ActionView::Logout, project_ref, agent_ref) == (AppView {
            effects: a.effects.push(EffectView::Logout),
            ..a
        }),
        a.acted(ActionView::RefreshSessions, project_ref, agent_ref) == (AppView {
            effects: a.effects.push(EffectView::RefreshSessions),
            ..a
        }),
{
    reveal(AppView::acted);
    reveal_strlit("no session to cancel");
    lemma_told(a, "no session to cancel"@);
}

/// The lines that show an account: who, and the plan and the credits as far as they are known.
pub open spec fn account_lines(me: Option<MeView>) -> Seq<Seq<char>> {
    let head = seq!["── Account ───────────────────────────"@];
    match me {
        None => head.push("  not connected yet"@),
        Some(me) => {
            let who = head.push(
                "  User:     "@ + (me.display_name + " <"@ + me.email + ">"@),
            );
            let plan = match me.plan {
                Some(plan) => who.push("  Plan:     "@ + plan),
                None => who,
            };
            match me.credits {
                Some(credits) => plan.push("  Credits:  "@ + credits),
                None => plan,
            }
        },
    }
}

proof fn lemma_told_next(a: AppView, line: Seq<char>, lines: Seq<Seq<char>>, k: int)
    requires
        0 <= k < line.len(),
        !text::is_space(line[k]),
    ensures
        noting(a, lines).told(line) == noting(a, lines.push(line)),
{
    assert(!text::is_blank(line));
    let all = lines.push(line);
    assert(noting(a, lines).told(line).chat.msgs =~= noting(a, all).chat.msgs);
}

/// Showing the account lists what is known of it, line by line, and changes nothing else; the usage
/// of the open session is asked for by name, and that none is open is said.
pub proof fn law_the_account_is_shown(a: AppView, project_ref: Seq<char>, agent_ref: Seq<char>)
    ensures
        a.account_shown() == noting(a, account_lines(a.me)),
        a.sid matches Some(sid) ==> a.acted(ActionView::ShowInfo, project_ref, agent_ref)
            == noting(
            AppView {
                effects: a.effects.push(EffectView::SessionUsage { sid, quiet: false }),
                ..a
            },
            account_lines(a.me),
        ),
        a.sid is None && a.busy_count > 0 ==> a.acted(ActionView::ShowInfo, project_ref, agent_ref) == noting(
            AppView { busy_count: (a.busy_count - 1) as u32, ..a },
            account_lines(a.me).push("no session open"@),
        ),
{
    reveal(AppView::account_shown);
    reveal(AppView::acted);
    reveal_strlit("── Account ───────────────────────────");
    reveal_strlit("  User:     ");
    reveal_strlit("  Plan:     ");
    reveal_strlit("  Credits:  ");
    reveal_strlit("  not connected yet");
    reveal_strlit("no session open");
    let head = "── Account ───────────────────────────"@;
    assert(head[0] == '─');
    lemma_told(a, head);
    let first = seq![head];
    lemma_told_next(a, "  not connected yet"@, first, 2);
    if let Some(me) = a.me {
        let who = "  User:     "@ + (me.display_name + " <"@ + me.email + ">"@);
        assert(who[2] == 'U');
        lemma_told_next(a, who, first, 2);
        let second = first.push(who);
        if let Some(plan) = me.plan {
            let line = "  Plan:     "@ + plan;
            assert(line[2] == 'P');
            lemma_told_next(a, line, second, 2);
        }
        let third = match me.plan {
            Some(plan) => second.push("  Plan:     "@ + plan),
            None => second,
        };
        if let Some(credits) = me.credits {
            let line = "  Credits:  "@ + credits;
            assert(line[2] == 'C');
            lemma_told_next(a, line, third, 2);
        }
    }
    assert(a.account_shown() == noting(a, account_lines(a.me)));
    lemma_told_next(a, "no session open"@, account_lines(a.me), 0);
}

/// A login that went well is said, with the beginning of the credential, and a live connection is
/// asked to come back on it; one that failed is said, in its own words, and nothing is asked for.
pub proof fn law_a_login_is_reported(a: AppView, said: Seq<char>)
    ensures
        a.peer is Some ==> a.relogged(Ok(said)) == noting(
            AppView { effects: a.effects.push(EffectView::Reconnect), ..a },
            seq!["logged in — credential "@ + said + "…"@, "reconnecting…"@],
        ),
        a.peer is None ==> a.relogged(Ok(said)) == noting(
            a,
            seq!["logged in — credential "@ + said + "…"@],
        ),
        a.relogged(Err(said)) == noting(
            a,
            seq![
                "login failed: "@ + said,
                "still connected on the previous credential, if there was one"@,
            ],
        ),
{
    reveal_strlit("logged in — credential ");
    reveal_strlit("reconnecting…");
    reveal_strlit("login failed: ");
    reveal_strlit("still connected on the previous credential, if there was one");
    let ok = "logged in — credential "@ + said + "…"@;
    let back = "reconnecting…"@;
    let bad = "login failed: "@ + said;
    let still = "still connected on the previous credential, if there was one"@;
    assert(ok[0] == 'l');
    assert(bad[0] == 'l');
    assert(back[0] == 'r');
    assert(still[0] == 's');
    lemma_told(a, ok);
    lemma_told(noting(a, seq![ok]).asking(EffectView::Reconnect), back);
    lemma_noting_twice(a.asking(EffectView::Reconnect), seq![ok], seq![back]);
    assert(seq![ok] + seq![back] =~= seq![ok, back]);
    lemma_told(a, bad);
    lemma_told(noting(a, seq![bad]), still);
    lemma_noting_twice(a, seq![bad], seq![still]);
    assert(seq![bad] + seq![still] =~= seq![bad, still]);
}

// ── The loop ───────────────────────────────────────────────────

/// A key that is pressed or repeats is handled, and one that is released is not; the mouse is
/// handled; Ctrl+C and a terminal that cannot be read ask to leave and do nothing else.
pub proof fn law_input_reaches_its_handler(
    a: AppView,
    code: KeyCode,
    modifiers: KeyModifiers,
    kind: KeyKind,
    column: u16,
    row: u16,
    did: MouseEventKind,
)
    ensures
        ({
            let b = a.consumed(TermEvent::Key { code, modifiers, kind });
            let leave = code == KeyCode::Char('c') && modifiers.control;
            &&& leave ==> b == (AppView { exit_requested: true, ..a })
            &&& !leave && kind == KeyKind::Release ==> b == a
            &&& !leave && kind != KeyKind::Release ==> b == a.keyed(code, modifiers)
        }),
        a.consumed(TermEvent::Mouse { column, row, kind: did }) == a.moused(column, row, did),
        a.consumed(TermEvent::Other) == a,
        a.consumed(TermEvent::Failed) == (AppView { exit_requested: true, ..a }),
{
}

/// A round of the loop draws what is out of date, authorizes again where that was asked for, takes in
/// what arrived, performs what was queued, reads the input, and rests where nothing changed.
pub proof fn law_a_round_of_the_loop(
    dirty: bool,
    changed: bool,
    login: bool,
    stopped: bool,
    exit: bool,
)
    ensures
        event::step_after(true, LoopStep::Start, changed, exit, login, stopped) == (
            true,
            LoopStep::Draw,
        ),
        event::step_after(true, LoopStep::Sleep, changed, exit, login, stopped) == (
            true,
            LoopStep::Draw,
        ),
        !exit && login ==> event::step_after(dirty, LoopStep::Draw, true, exit, login, stopped) == (
            false,
            LoopStep::Relogin,
        ),
        !exit && !login ==> event::step_after(dirty, LoopStep::Draw, true, exit, login, stopped)
            == (false, LoopStep::DrainBackground),
        event::step_after(false, LoopStep::Sleep, changed, false, false, stopped) == (
            false,
            LoopStep::DrainBackground,
        ),
        event::step_after(false, LoopStep::Start, changed, false, false, stopped) == (
            false,
            LoopStep::DrainBackground,
        ),
        event::step_after(dirty, LoopStep::Relogin, changed, exit, login, stopped) == (
            true,
            LoopStep::DrainBackground,
        ),
        event::step_after(dirty, LoopStep::DrainBackground, changed, exit, login, stopped) == (
            dirty || changed,
            LoopStep::DrainActions,
        ),
        event::step_after(dirty, LoopStep::DrainActions, changed, exit, login, stopped) == (
            dirty || changed,
            LoopStep::ReadInput,
        ),
        event::step_after(dirty, LoopStep::ReadInput, changed, false, login, stopped) == (if dirty
            || changed {
            (true, LoopStep::Draw)
        } else {
            (false, LoopStep::Sleep)
        }),
        !stopped ==> event::step_after(dirty, LoopStep::ReadInput, changed, true, login, stopped) == (
            dirty || changed,
            LoopStep::Stop,
        ),
        event::step_after(dirty, LoopStep::ReadInput, changed, true, login, true) == (if dirty
            || changed {
            (true, LoopStep::Draw)
        } else {
            (false, LoopStep::Stop)
        }),
        event::step_after(dirty, LoopStep::Draw, true, true, login, stopped) == (
            false,
            LoopStep::Stop,
        ),
        event::step_after(dirty, LoopStep::Draw, false, exit, login, stopped) == (
            dirty,
            LoopStep::Stop,
        ),
        event::step_after(dirty, LoopStep::Stop, changed, exit, login, stopped).1 == LoopStep::Stop,
{
}

} // verus!
