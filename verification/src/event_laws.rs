//! What holds of the event loop.

use crate::app;
use crate::app::{ActionView, AppView, BgView, EffectView};
use crate::app_laws;
use crate::event;
use crate::event::{KeyKind, LoopStep, TermEvent};
use crate::handler::{KeyCode, KeyModifiers};
use crate::wire::{AgentView, FrameView, ProjectView, SessionView};
use vstd::prelude::*;

verus! {

/// Whether an effect is a request that reports when it is done.
pub open spec fn is_request(e: EffectView) -> bool {
    match e {
        EffectView::StopFeed => false,
        EffectView::StartFeed(_) => false,
        EffectView::Reconnect => false,
        _ => true,
    }
}

/// How many of the effects are requests.
pub open spec fn requests(effects: Seq<EffectView>) -> nat
    decreases effects.len(),
{
    if effects.len() == 0 {
        0
    } else if is_request(effects.last()) {
        requests(effects.drop_last()) + 1
    } else {
        requests(effects.drop_last())
    }
}

proof fn lemma_requests_push(effects: Seq<EffectView>, e: EffectView)
    ensures
        requests(effects.push(e)) == requests(effects) + (if is_request(e) {
            1nat
        } else {
            0nat
        }),
{
    assert(effects.push(e).drop_last() =~= effects);
}

// ── Counting requests ──────────────────────────────────────────

/// What an action leaves in the count is what it asks for: one request, counted once, or none, with
/// the count back where it was.
pub proof fn law_every_request_is_counted(
    a: AppView,
    action: ActionView,
    project_ref: Seq<char>,
    agent_ref: Seq<char>,
)
    requires
        a.busy_count < u32::MAX,
    ensures
        a.busier().acted(action, project_ref, agent_ref).busy_count - a.busy_count == requests(
            a.busier().acted(action, project_ref, agent_ref).effects,
        ) - requests(a.effects),
        a.busier().acted(action, project_ref, agent_ref).busy_count <= a.busy_count + 1,
{
    reveal(AppView::acted);
    reveal(AppView::following);
    reveal(AppView::attached);
    reveal(AppView::rebuilt);
    reveal(AppView::cleared_for);
    reveal(AppView::closed);
    reveal(AppView::diagnosed);
    reveal(AppView::account_shown);
    let e = a.effects;
    lemma_requests_push(e, EffectView::StopFeed);
    match action {
        ActionView::Open(sid) => {
            let f = if a.stream is Some {
                e.push(EffectView::StopFeed)
            } else {
                e
            };
            lemma_requests_push(f, EffectView::StartFeed(sid));
            lemma_requests_push(
                f.push(EffectView::StartFeed(sid)),
                EffectView::SessionUsage { sid, quiet: true },
            );
        },
        ActionView::Create => {
            let f = a.busier().closed().effects;
            let spec = a.busier().closed().new_session(project_ref, agent_ref);
            lemma_requests_push(f, EffectView::CreateSession(spec));
        },
        ActionView::Send(text) => {
            let spec = a.busier().new_session(project_ref, agent_ref);
            lemma_requests_push(e, EffectView::Send { text, sid: a.sid, spec: None });
            lemma_requests_push(e, EffectView::Send { text, sid: None, spec });
        },
        ActionView::Cancel => {
            if let Some(sid) = a.sid {
                lemma_requests_push(e, EffectView::CancelTurn(sid));
            }
        },
        ActionView::Logout => {
            lemma_requests_push(e, EffectView::Logout);
        },
        ActionView::RefreshSessions => {
            lemma_requests_push(e, EffectView::RefreshSessions);
        },
        ActionView::ShowInfo => {
            if let Some(sid) = a.sid {
                lemma_requests_push(e, EffectView::SessionUsage { sid, quiet: false });
            }
        },
    }
}

/// A frame that ends a turn asks for the session list and the usage, and counts both; a frame that
/// does not end one asks for nothing.
pub proof fn law_only_a_turn_that_ends_asks_again(a: AppView, frame: FrameView)
    requires
        a.busy_count <= u32::MAX - 2,
    ensures
        a.framed(frame).busy_count - a.busy_count == requests(a.framed(frame).effects) - requests(
            a.effects,
        ),
        a.sid matches Some(sid) ==> (a.chat.running && !a.framed(frame).chat.running
            ==> a.framed(frame).effects == a.effects.push(EffectView::RefreshSessions).push(
            EffectView::SessionUsage { sid, quiet: true },
        )),
        !(a.chat.running && !a.framed(frame).chat.running) ==> a.framed(frame).effects == a.effects,
{
    reveal(AppView::framed);
    reveal(AppView::reduced);
    reveal(AppView::retitled);
    reveal(AppView::row_synced);
    reveal(AppView::rebuilt);
    reveal(AppView::asking_again);
    lemma_requests_push(a.effects, EffectView::RefreshSessions);
    if let Some(sid) = a.sid {
        lemma_requests_push(
            a.effects.push(EffectView::RefreshSessions),
            EffectView::SessionUsage { sid, quiet: true },
        );
    }
}

/// A request that is done comes off the count, whatever else is going on.
pub proof fn law_done_takes_one_off_the_count(a: AppView)
    ensures
        a.notified(BgView::Done) == a.calmer(),
        a.busier().busy_count < u32::MAX ==> a.busier().notified(BgView::Done) == a,
{
}

// ── The queue ──────────────────────────────────────────────────

/// While a request is in flight the queue stands still; a running turn does not hold it up. The
/// drain stops only for a request in flight or for want of actions, and takes them in order.
pub proof fn law_the_queue_waits_for_requests_only(
    a: AppView,
    project_ref: Seq<char>,
    agent_ref: Seq<char>,
)
    ensures
        a.busy_count > 0 ==> a.drained(project_ref, agent_ref) == a,
        a.drained(project_ref, agent_ref).busy_count > 0 || a.drained(
            project_ref,
            agent_ref,
        ).actions.len() == 0,
        a.drained(project_ref, agent_ref).actions.len() <= a.actions.len(),
        a.drained(project_ref, agent_ref).actions == a.actions.skip(
            a.actions.len() - a.drained(project_ref, agent_ref).actions.len(),
        ),
        a.busy_count == 0 && a.actions.len() > 0 ==> a.drained(
            project_ref,
            agent_ref,
        ).actions.len() < a.actions.len(),
    decreases a.actions.len(),
{
    if a.busy_count > 0 || a.actions.len() == 0 {
        assert(a.actions.skip(0) =~= a.actions);
    } else {
        let b = AppView { actions: a.actions.skip(1), ..a }.busier();
        event::lemma_acting_queues_nothing(b, a.actions[0], project_ref, agent_ref);
        let next = a.advanced(project_ref, agent_ref);
        assert(next.actions == a.actions.skip(1));
        law_the_queue_waits_for_requests_only(next, project_ref, agent_ref);
        let k = next.drained(project_ref, agent_ref).actions.len();
        assert(next.actions.skip(next.actions.len() - k) =~= a.actions.skip(a.actions.len() - k));
    }
}

// ── Background events ──────────────────────────────────────────

/// What belongs to a session that is not open changes nothing.
pub proof fn law_another_sessions_frames_are_ignored(a: AppView, session_id: Seq<char>, frame: FrameView, running: bool)
    requires
        a.sid != Some(session_id),
    ensures
        a.notified(BgView::Frame { session_id, frame }) == a,
        a.notified(BgView::StreamHead { session_id, running }) == a,
{
}

/// What a new connection reports replaces what was known: projects, sessions and agents that are
/// reported again, as every reconnect does, change nothing.
pub proof fn law_a_reconnect_reports_nothing_new(
    a: AppView,
    projects: Seq<ProjectView>,
    sessions: Seq<SessionView>,
    agents: Seq<AgentView>,
)
    requires
        (AppView { sessions: app::rows_of(sessions), ..a }).sidebar_fits(),
        a.listing(sessions).row_synced().sidebar_fits(),
    ensures
        a.notified(BgView::Projects(projects)).notified(BgView::Projects(projects)) == a.notified(
            BgView::Projects(projects),
        ),
        a.notified(BgView::Agents(agents)).notified(BgView::Agents(agents)) == a.notified(
            BgView::Agents(agents),
        ),
        a.notified(BgView::Sessions(sessions)).notified(BgView::Sessions(sessions)).sessions
            == a.notified(BgView::Sessions(sessions)).sessions,
        a.notified(BgView::Sessions(sessions)).notified(BgView::Sessions(sessions)).sidebar_items
            == a.notified(BgView::Sessions(sessions)).sidebar_items,
{
    lemma_projects_again(a, projects);
    lemma_sessions_again(a, sessions);
}

proof fn lemma_projects_again(a: AppView, projects: Seq<ProjectView>)
    ensures
        a.projects_listed(projects).projects_listed(projects) == a.projects_listed(projects),
{
    reveal(AppView::projects_listed);
    reveal(AppView::rebuilt);
    let none = AppView { project_order: Seq::empty(), project_names: Seq::empty(), ..a };
    let b = none.with_projects(projects);
    let c = b.project_synced();
    let d = c.rebuilt();
    let again = AppView { project_order: Seq::empty(), project_names: Seq::empty(), ..d };
    lemma_with_projects(none, projects);
    lemma_with_projects(again, projects);
    lemma_with_projects_same(none, again, projects);
    assert(again.with_projects(projects).expanded_projects =~= b.expanded_projects) by {
        lemma_expanded(none, projects);
        lemma_expanded(again, projects);
    }
    let e = again.with_projects(projects);
    app_laws::lemma_same_sidebar(c, d);
    app_laws::lemma_same_sidebar(c, e.project_synced());
    assert(e.project_synced() == d);
}

/// Taking in projects touches what is known of projects and what is expanded, and nothing else.
pub proof fn lemma_with_projects(a: AppView, projects: Seq<ProjectView>)
    ensures
        a.with_projects(projects) == (AppView {
            expanded_projects: a.with_projects(projects).expanded_projects,
            project_order: a.with_projects(projects).project_order,
            project_names: a.with_projects(projects).project_names,
            ..a
        }),
    decreases projects.len(),
{
    if projects.len() > 0 {
        lemma_with_projects(a, projects.drop_last());
    }
}

proof fn lemma_with_projects_same(a: AppView, b: AppView, projects: Seq<ProjectView>)
    requires
        a.project_order == b.project_order,
        a.project_names == b.project_names,
    ensures
        a.with_projects(projects).project_order == b.with_projects(projects).project_order,
        a.with_projects(projects).project_names == b.with_projects(projects).project_names,
    decreases projects.len(),
{
    if projects.len() > 0 {
        lemma_with_projects_same(a, b, projects.drop_last());
    }
}

/// What is expanded once projects are taken in: what was, and the default projects.
pub proof fn lemma_expanded(a: AppView, projects: Seq<ProjectView>)
    ensures
        forall|id: Seq<char>| #[trigger]
            a.with_projects(projects).expanded_projects.contains(id) <==> (
            a.expanded_projects.contains(id) || default_among(projects, id)),
    decreases projects.len(),
{
    if projects.len() > 0 {
        let rest = projects.drop_last();
        lemma_expanded(a, rest);
        assert forall|id: Seq<char>|
            default_among(projects, id) <==> default_among(rest, id) || (projects.last().is_default
                && projects.last().id == id) by {
            if default_among(rest, id) {
                let i = choose|i: int|
                    0 <= i < rest.len() && (#[trigger] rest[i]).is_default && rest[i].id == id;
                assert(projects[i].is_default && projects[i].id == id);
            }
            if projects.last().is_default && projects.last().id == id {
                assert(projects[projects.len() - 1].is_default);
            }
            if default_among(projects, id) {
                let i = choose|i: int|
                    0 <= i < projects.len() && (#[trigger] projects[i]).is_default && projects[i].id
                        == id;
                if i < rest.len() {
                    assert(rest[i].is_default && rest[i].id == id);
                }
            }
        }
    }
}

/// One of the projects is the default and has that id.
pub open spec fn default_among(projects: Seq<ProjectView>, id: Seq<char>) -> bool {
    exists|i: int|
        0 <= i < projects.len() && (#[trigger] projects[i]).is_default && projects[i].id == id
}

proof fn lemma_sessions_again(a: AppView, sessions: Seq<SessionView>)
    requires
        (AppView { sessions: app::rows_of(sessions), ..a }).sidebar_fits(),
        a.listing(sessions).row_synced().sidebar_fits(),
    ensures
        a.listing(sessions).row_synced().listing(sessions).row_synced().sessions == a.listing(
            sessions,
        ).row_synced().sessions,
        a.listing(sessions).row_synced().listing(sessions).row_synced().sidebar_items == a.listing(
            sessions,
        ).row_synced().sidebar_items,
{
    reveal(AppView::listing);
    reveal(AppView::row_synced);
    reveal(AppView::rebuilt);
    app_laws::law_taking_over_a_list_is_idempotent(a, sessions);
    let b = a.listing(sessions);
    let c = b.row_synced();
    let d = c.listing(sessions);
    assert(d.sessions == b.sessions);
    assert(d.sid == b.sid && d.chat == b.chat);
    app_laws::lemma_same_sidebar(b, d);
    let e = d.row_synced();
    assert(e.sessions == c.sessions);
    app_laws::lemma_same_sidebar(c, e);
    match b.sid {
        None => {},
        Some(sid) => {
            let r = app::rows_running(b.sessions, sid, b.chat.running);
            if r != b.sessions {
                app_laws::lemma_same_sidebar(AppView { sessions: r, ..b }, c);
                app_laws::lemma_same_sidebar(AppView { sessions: r, ..d }, e);
            }
        },
    }
}

/// A node that stopped for good ends the program, disconnected, with its message kept.
pub proof fn law_a_stopped_node_ends_the_program(a: AppView, message: Seq<char>, needs_operator: bool)
    ensures
        a.notified(BgView::NodeStopped { message, needs_operator }).exit_requested,
        !a.notified(BgView::NodeStopped { message, needs_operator }).connected,
        a.notified(BgView::NodeStopped { message, needs_operator }).node_stopped == Some(message),
        a.notified(BgView::NodeStopped { message, needs_operator }).node_needs_operator
            == needs_operator,
{
    reveal(AppView::halted);
}

/// Following another session stops the feed that was running before it asks for the new one.
pub proof fn law_the_old_feed_stops_first(a: AppView, sid: Seq<char>)
    ensures
        a.following(sid).stream == Some(sid),
        a.stream is Some ==> a.following(sid).effects == a.effects.push(EffectView::StopFeed).push(
            EffectView::StartFeed(sid),
        ),
        a.stream is None ==> a.following(sid).effects == a.effects.push(EffectView::StartFeed(sid)),
        a.following(sid).chat.msgs == a.chat.msgs,
{
    reveal(AppView::following);
    reveal(AppView::attached);
    reveal(AppView::rebuilt);
}

/// A message that is sent with no session open asks for a session that is untitled and carries the
/// node brief; one that is sent in an open session asks for none.
pub proof fn law_a_message_creates_a_session_only_when_none_is_open(
    a: AppView,
    text: Seq<char>,
    project_ref: Seq<char>,
    agent_ref: Seq<char>,
)
    ensures
        a.sid is Some ==> a.acted(ActionView::Send(text), project_ref, agent_ref) == a.asking(
            EffectView::Send { text, sid: a.sid, spec: None },
        ),
        a.sid is None ==> a.acted(ActionView::Send(text), project_ref, agent_ref).effects
            == a.effects.push(
            EffectView::Send { text, sid: None, spec: a.new_session(project_ref, agent_ref) },
        ),
{
    reveal(AppView::acted);
    reveal(AppView::diagnosed);
}

// ── The loop ───────────────────────────────────────────────────

/// Ctrl+C leaves, whatever has the focus, and so does a terminal that cannot be read.
pub proof fn law_control_c_leaves(a: AppView, modifiers: KeyModifiers, kind: KeyKind)
    requires
        modifiers.control,
    ensures
        a.consumed(TermEvent::Key { code: KeyCode::Char('c'), modifiers, kind }).exit_requested,
        a.consumed(TermEvent::Failed).exit_requested,
{
}

/// The screen is drawn only when it is out of date and is then up to date; the loop sleeps only
/// when nothing changed; and a request to leave is followed no later than the draw after the input.
pub proof fn law_the_loop_draws_only_what_changed(
    dirty: bool,
    last: LoopStep,
    ok: bool,
    exit: bool,
    login: bool,
    stopped: bool,
)
    ensures
        ({
            let (left, next) = event::step_after(dirty, last, ok, exit, login, stopped);
            &&& next == LoopStep::Draw ==> left
            &&& last == LoopStep::Draw && ok ==> !left
            &&& next == LoopStep::Sleep ==> !left
            &&& exit && last == LoopStep::ReadInput ==> next == LoopStep::Stop || stopped && next
                == LoopStep::Draw
            &&& exit && last == LoopStep::Draw ==> next == LoopStep::Stop
            &&& ok && (last == LoopStep::DrainBackground || last == LoopStep::DrainActions || last
                == LoopStep::ReadInput) ==> left
        }),
{
}

/// A program whose node stopped draws once more, so that the screen says why, and then leaves.
pub proof fn law_a_stopped_node_is_shown(dirty: bool, login: bool, more: bool)
    ensures
        ({
            let (d1, s1) = event::step_after(
                dirty,
                LoopStep::DrainBackground,
                true,
                true,
                login,
                true,
            );
            let (d2, s2) = event::step_after(d1, s1, more, true, login, true);
            let (d3, s3) = event::step_after(d2, s2, more, true, login, true);
            let (d4, s4) = event::step_after(d3, s3, true, true, login, true);
            s1 == LoopStep::DrainActions && s2 == LoopStep::ReadInput && s3 == LoopStep::Draw && s4
                == LoopStep::Stop
        }),
{
}

} // verus!
