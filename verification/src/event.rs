//! The event loop's decisions: what a background event, a queued action or a terminal event does,
//! and in what order the loop goes about them.

use crate::app::{
    Action, ActionView, App, AppView, BgEvent, BgView, Effect, EffectView,
};
use crate::chat;
use crate::chat::{MsgKind, Transcript, TranscriptView};
use crate::handler;
use crate::handler::{KeyCode, KeyModifiers, MouseEventKind};
use crate::text;
use crate::util;
use crate::wire::{FrameView, MeView, ProjectView, ZMe, ZProject, ZTurnFrame};
use crate::zyris_client;
use vstd::prelude::*;

verus! {

broadcast use {text::lemma_views_push, text::lemma_views_empty};

// ── Specifications ─────────────────────────────────────────────

/// What is said when the account is known.
pub open spec fn connected_line(me: MeView) -> Seq<char> {
    "connected — "@ + handler::ident(me)
}

/// What is said of a grant that lacks scopes.
pub open spec fn missing_line(me: MeView) -> Seq<char> {
    "grant is missing "@ + text::joined(zyris_client::missing(me.scopes), ", "@)
        + " — run /login to re-authorize"@
}

impl AppView {
    /// Connected, and the account known.
    #[verifier::opaque]
    pub open spec fn met(self, me: MeView) -> AppView {
        let a = AppView { connected: true, ..self }.told(connected_line(me));
        let b = if zyris_client::missing(me.scopes).len() == 0 {
            a
        } else {
            a.told(missing_line(me))
        };
        AppView { me: Some(me), ..b }
    }

    /// With one more project known; a default project is expanded.
    pub open spec fn with_project(self, p: ProjectView) -> AppView {
        AppView {
            expanded_projects: if p.is_default {
                self.expanded_projects.insert(p.id)
            } else {
                self.expanded_projects
            },
            project_order: self.project_order.push(p.id),
            project_names: crate::refs::entered(self.project_names, p.id, p.name),
            ..self
        }
    }

    /// With several more projects known.
    pub open spec fn with_projects(self, projects: Seq<ProjectView>) -> AppView
        decreases projects.len(),
    {
        if projects.len() == 0 {
            self
        } else {
            self.with_projects(projects.drop_last()).with_project(projects.last())
        }
    }

    /// With another list of projects.
    #[verifier::opaque]
    pub open spec fn projects_listed(self, projects: Seq<ProjectView>) -> AppView {
        AppView {
            project_order: Seq::empty(),
            project_names: Seq::empty(),
            ..self
        }.with_projects(projects).project_synced().rebuilt()
    }

    /// With the view pointed at a session and its turn feed asked for.
    #[verifier::opaque]
    pub open spec fn following(self, sid: Seq<char>) -> AppView {
        AppView { stream: Some(sid), ..self.attached(sid) }.asking(EffectView::StartFeed(sid))
    }

    /// With a request asked for, and counted.
    pub open spec fn requesting(self, effect: EffectView) -> AppView {
        self.busier().asking(effect)
    }

    /// With the session list and the open session's usage asked for.
    #[verifier::opaque]
    pub open spec fn asking_again(self) -> AppView {
        let a = self.requesting(EffectView::RefreshSessions);
        match a.sid {
            Some(sid) => a.requesting(EffectView::SessionUsage { sid, quiet: true }),
            None => a,
        }
    }

    /// With the transcript reduced, and the row retitled where the frame names a title.
    #[verifier::opaque]
    pub open spec fn reduced(self, frame: FrameView) -> AppView {
        let a = AppView { chat: self.chat.framed(frame, self.debug_events), ..self };
        match chat::frame_title(frame) {
            Some(title) => a.retitled(title),
            None => a,
        }
    }

    /// With the open session's frame applied: where the turn started or ended, the row is marked,
    /// and where it ended, the session list and the usage are asked for again.
    #[verifier::opaque]
    pub open spec fn framed(self, frame: FrameView) -> AppView {
        let a = self.reduced(frame);
        if a.chat.running == self.chat.running {
            a
        } else if self.chat.running && !a.row_synced().chat.running {
            a.row_synced().asking_again()
        } else {
            a.row_synced()
        }
    }

    /// The node runtime gave up.
    #[verifier::opaque]
    pub open spec fn halted(self, message: Seq<char>, needs_operator: bool) -> AppView {
        let a = AppView { connected: false, ..self }.told("node stopped — "@ + message);
        let b = if needs_operator {
            a.told("this needs a person: try /login, or check ZYRIS_SERVER_URL"@)
        } else {
            a
        };
        AppView {
            node_stopped: Some(message),
            node_needs_operator: needs_operator,
            exit_requested: true,
            ..b
        }
    }

    /// What a background event does.
    pub open spec fn notified(self, ev: BgView) -> AppView {
        match ev {
            BgView::Connected(me) => self.met(me),
            BgView::Disconnected(reason) => AppView { connected: false, ..self }.told(
                "disconnected — "@ + reason,
            ),
            BgView::Projects(projects) => self.projects_listed(projects),
            BgView::Sessions(sessions) => self.listing(sessions).row_synced(),
            BgView::Agents(agents) => AppView { agents, ..self },
            BgView::SessionCreated(session) => self.told(
                "new session "@ + text::prefix(session.id, 8),
            ).with_session(session).following(session.id),
            BgView::StreamHead { session_id, running } => if self.sid == Some(session_id) {
                AppView {
                    chat: TranscriptView { running, ..self.chat },
                    ..self
                }.row_synced()
            } else {
                self
            },
            BgView::Frame { session_id, frame } => if self.sid == Some(session_id) {
                self.framed(frame)
            } else {
                self
            },
            BgView::Usage(usage) => self.with_usage(usage),
            BgView::NodeStopped { message, needs_operator } => self.halted(message, needs_operator),
            BgView::Notice(text) => self.told(text),
            BgView::Done => self.calmer(),
        }
    }

    /// What several background events do, in order.
    pub open spec fn notified_all(self, events: Seq<BgView>) -> AppView
        decreases events.len(),
    {
        if events.len() == 0 {
            self
        } else {
            self.notified_all(events.drop_last()).notified(events.last())
        }
    }

    /// The account half of `/usage`.
    #[verifier::opaque]
    pub open spec fn account_shown(self) -> AppView {
        let a = self.told("── Account ───────────────────────────"@);
        match self.me {
            Some(me) => {
                let b = a.told("  User:     "@ + handler::ident(me));
                let c = match me.plan {
                    Some(plan) => b.told("  Plan:     "@ + plan),
                    None => b,
                };
                match me.credits {
                    Some(credits) => c.told("  Credits:  "@ + credits),
                    None => c,
                }
            },
            None => a.told("  not connected yet"@),
        }
    }

    /// With nothing open and an empty transcript.
    #[verifier::opaque]
    pub open spec fn closed(self) -> AppView {
        AppView {
            sid: None,
            chat: TranscriptView::empty(),
            scroll: 0,
            at_end: true,
            ..self.feedless()
        }.told("creating session…"@).project_synced().rebuilt()
    }

    /// What an action does, its request already counted.
    #[verifier::opaque]
    pub open spec fn acted(
        self,
        action: ActionView,
        project_ref: Seq<char>,
        agent_ref: Seq<char>,
    ) -> AppView {
        match action {
            ActionView::Send(text) => match self.sid {
                Some(sid) => self.asking(EffectView::Send { text, sid: Some(sid), spec: None }),
                None => self.diagnosed(project_ref, agent_ref).asking(
                    EffectView::Send {
                        text,
                        sid: None,
                        spec: self.new_session(project_ref, agent_ref),
                    },
                ),
            },
            ActionView::Open(sid) => self.cleared_for(sid).following(sid).asking(
                EffectView::SessionUsage { sid, quiet: true },
            ),
            ActionView::Create => {
                let a = self.closed();
                a.diagnosed(project_ref, agent_ref).asking(
                    EffectView::CreateSession(a.new_session(project_ref, agent_ref)),
                )
            },
            ActionView::Cancel => match self.sid {
                Some(sid) => self.asking(EffectView::CancelTurn(sid)),
                None => self.told("no session to cancel"@).calmer(),
            },
            ActionView::Logout => self.asking(EffectView::Logout),
            ActionView::RefreshSessions => self.asking(EffectView::RefreshSessions),
            ActionView::ShowInfo => {
                let a = self.account_shown();
                match a.sid {
                    Some(sid) => a.asking(EffectView::SessionUsage { sid, quiet: false }),
                    None => a.told("no session open"@).calmer(),
                }
            },
        }
    }

    /// With the oldest action taken from the queue, counted and acted on.
    pub open spec fn advanced(self, project_ref: Seq<char>, agent_ref: Seq<char>) -> AppView {
        AppView { actions: self.actions.skip(1), ..self }.busier().acted(
            self.actions[0],
            project_ref,
            agent_ref,
        )
    }

    /// With actions taken from the queue one after the other, until a request is in flight or the
    /// queue is empty.
    pub open spec fn drained(self, project_ref: Seq<char>, agent_ref: Seq<char>) -> AppView
        decreases self.actions.len(),
    {
        if self.busy_count > 0 || self.actions.len() == 0 {
            self
        } else {
            let next = self.advanced(project_ref, agent_ref);
            if next.actions.len() < self.actions.len() {
                next.drained(project_ref, agent_ref)
            } else {
                next
            }
        }
    }

    /// What a re-login that ended in `outcome` does.
    pub open spec fn relogged(self, outcome: Result<Seq<char>, Seq<char>>) -> AppView {
        match outcome {
            Ok(prefix) => {
                let a = self.told("logged in — credential "@ + prefix + "…"@);
                if a.peer is Some {
                    a.asking(EffectView::Reconnect).told("reconnecting…"@)
                } else {
                    a
                }
            },
            Err(e) => self.told("login failed: "@ + e).told(
                "still connected on the previous credential, if there was one"@,
            ),
        }
    }
}

/// An action only ever leaves the queue: acting on one adds none.
pub proof fn lemma_acting_queues_nothing(
    a: AppView,
    action: ActionView,
    project_ref: Seq<char>,
    agent_ref: Seq<char>,
)
    ensures
        a.acted(action, project_ref, agent_ref).actions == a.actions,
{
    reveal(AppView::attached);
    reveal(AppView::rebuilt);
    reveal(AppView::diagnosed);
    reveal(AppView::cleared_for);
    reveal(AppView::acted);
    reveal(AppView::following);
    reveal(AppView::closed);
    reveal(AppView::account_shown);
}

// ── Background events ──────────────────────────────────────────

fn on_connected(app: &mut App, me: ZMe)
    ensures
        final(app)@ == old(app)@.met(me@),
{
    proof {
        reveal(AppView::met);
    }
    app.connected = true;
    let who = handler::identity(&me);
    let line = text::cat("connected — ", who.as_str());
    app.push_sys(line.as_str());
    let missing = zyris_client::missing_scopes(&me);
    if missing.len() > 0 {
        // Worth naming: without `events:read` there is no turn feed at all, and the only other
        // symptom is a chat that never produces anything.
        let names = join_static(&missing, ", ");
        let line = text::cat3("grant is missing ", names.as_str(), " — run /login to re-authorize");
        app.push_sys(line.as_str());
    }
    app.me = Some(me);
}

fn join_static(parts: &Vec<&'static str>, sep: &str) -> (r: String)
    ensures
        r@ == text::joined(text::views(parts@), sep@),
{
    let mut owned: Vec<String> = Vec::new();
    let mut i: usize = 0;
    let ghost all = text::views(parts@);
    assert(text::views(owned@) =~= all.take(0));
    while i < parts.len()
        invariant
            i <= parts@.len(),
            all == text::views(parts@),
            text::views(owned@) == all.take(i as int),
        decreases parts@.len() - i,
    {
        owned.push(parts[i].to_owned());
        assert(all.take(i + 1) =~= all.take(i as int).push(all[i as int]));
        i += 1;
    }
    assert(all.take(i as int) =~= all);
    text::join(&owned, sep)
}

fn on_projects(app: &mut App, projects: Vec<ZProject>)
    ensures
        final(app)@ == old(app)@.projects_listed(text::views(projects@)),
{
    proof {
        reveal(AppView::projects_listed);
    }
    app.project_names.clear();
    app.project_order.clear();
    let ghost all = text::views(projects@);
    let ghost start = app@;
    let mut i: usize = 0;
    assert(all.take(0) =~= Seq::empty());
    while i < projects.len()
        invariant
            i <= projects@.len(),
            all == text::views(projects@),
            app@ == start.with_projects(all.take(i as int)),
        decreases projects@.len() - i,
    {
        let ghost next = all.take(i + 1);
        assert(next.drop_last() =~= all.take(i as int));
        assert(next.last() == projects@[i as int]@);
        let p = &projects[i];
        if p.is_default {
            app.expanded_projects.insert(p.id.clone());
        }
        app.project_order.push(p.id.clone());
        app.project_names.insert(p.id.clone(), p.name.clone());
        i += 1;
    }
    assert(all.take(i as int) =~= all);
    app.sync_current_project();
    app.rebuild_sidebar();
}

/// Whether that session is the open one.
fn is_open(app: &App, session_id: &str) -> (r: bool)
    ensures
        r == (app@.sid == Some(session_id@)),
{
    match &app.sid {
        Some(sid) => text::same(sid.as_str(), session_id),
        None => false,
    }
}

fn on_frame(app: &mut App, frame: ZTurnFrame)
    ensures
        final(app)@ == old(app)@.framed(frame@),
{
    proof {
        reveal(AppView::framed);
    }
    let was_running = app.chat.running;
    reduce_frame(app, frame);
    if app.chat.running != was_running {
        app.sync_open_row();
        if was_running && !app.chat.running {
            // A turn ending is the moment a server-side auto-title lands, and the only push signal
            // available for "the session list may have moved on".
            ask_again(app);
        }
    }
}

fn reduce_frame(app: &mut App, frame: ZTurnFrame)
    ensures
        final(app)@ == old(app)@.reduced(frame@),
{
    proof {
        reveal(AppView::reduced);
    }
    // Read out of the frame before the reducer consumes it.
    let title = chat::title_in(&frame);
    app.chat.apply_frame(frame, app.debug_events);
    if let Some(title) = title {
        app.retitle_open_row(title.as_str());
    }
}

fn ask_again(app: &mut App)
    ensures
        final(app)@ == old(app)@.asking_again(),
{
    proof {
        reveal(AppView::asking_again);
    }
    app.inc_busy();
    app.effects.push(Effect::RefreshSessions);
    if let Some(sid) = text::dup_opt(&app.sid) {
        app.inc_busy();
        app.effects.push(Effect::SessionUsage { sid, quiet: true });
    }
}

fn on_node_stopped(app: &mut App, message: String, needs_operator: bool)
    ensures
        final(app)@ == old(app)@.halted(message@, needs_operator),
{
    proof {
        reveal(AppView::halted);
    }
    app.connected = false;
    let line = text::cat("node stopped — ", message.as_str());
    app.push_sys(line.as_str());
    if needs_operator {
        app.push_sys("this needs a person: try /login, or check ZYRIS_SERVER_URL");
    }
    app.node_stopped = Some(message);
    app.node_needs_operator = needs_operator;
    app.exit_requested = true;
}

/// Apply one background event.
#[verifier::rlimit(40)]
pub fn apply_bg_event(app: &mut App, ev: BgEvent)
    ensures
        final(app)@ == old(app)@.notified(ev@),
{
    match ev {
        BgEvent::Connected(me) => on_connected(app, *me),
        BgEvent::Disconnected(reason) => {
            app.connected = false;
            let line = text::cat("disconnected — ", reason.as_str());
            app.push_sys(line.as_str());
        },
        BgEvent::Projects(projects) => on_projects(app, projects),
        BgEvent::Sessions(sessions) => {
            app.replace_sessions(sessions);
            // The list replaces the rows wholesale, and its `running` is only true as of when the
            // request was made. The turn feed is more current, so it wins.
            app.sync_open_row();
        },
        BgEvent::Agents(agents) => {
            app.agents = agents;
        },
        BgEvent::SessionCreated(session) => {
            let name = util::short(session.id.as_str());
            let line = text::cat("new session ", name.as_str());
            app.push_sys(line.as_str());
            let id = session.id.clone();
            app.insert_session(*session);
            attach(app, id);
        },
        BgEvent::StreamHead { session_id, running } => {
            if is_open(app, session_id.as_str()) {
                app.chat.running = running;
                app.sync_open_row();
            }
        },
        BgEvent::Frame { session_id, frame } => {
            // A feed is stopped on session switch, but a frame already under way can outlive that,
            // so the session it belongs to is checked here too.
            if is_open(app, session_id.as_str()) {
                on_frame(app, frame);
            }
        },
        BgEvent::Usage(usage) => app.apply_usage(&usage),
        BgEvent::NodeStopped { message, needs_operator } => on_node_stopped(
            app,
            message,
            needs_operator,
        ),
        BgEvent::Notice(text) => app.push_sys(text.as_str()),
        BgEvent::Done => app.dec_busy(),
    }
}

/// Apply the background events that have arrived, and say whether there were any.
pub fn drain_bg_events(app: &mut App, events: Vec<BgEvent>) -> (any: bool)
    ensures
        final(app)@ == old(app)@.notified_all(text::views(events@)),
        any == (events@.len() > 0),
{
    let any = events.len() > 0;
    let ghost all = text::views(events@);
    let ghost start = app@;
    let mut rest = events;
    let ghost mut n: int = 0;
    assert(all.take(0) =~= Seq::empty());
    assert(text::views(rest@) =~= all.skip(0));
    while rest.len() > 0
        invariant
            0 <= n <= all.len(),
            n + rest@.len() == all.len(),
            text::views(rest@) == all.skip(n),
            app@ == start.notified_all(all.take(n)),
        decreases rest@.len(),
    {
        let ghost next = all.take(n + 1);
        assert(next.drop_last() =~= all.take(n));
        assert(text::views(rest@)[0] == all[n]);
        proof {
            text::lemma_views_remove_first(rest@);
        }
        let ev = rest.remove(0);
        apply_bg_event(app, ev);
        assert(all.skip(n).skip(1) =~= all.skip(n + 1));
        proof {
            n = n + 1;
        }
    }
    assert(all.take(n) =~= all);
    any
}

/// Point the UI at a session and ask for its turn feed.
pub fn attach(app: &mut App, sid: String)
    ensures
        final(app)@ == old(app)@.following(sid@),
{
    proof {
        reveal(AppView::following);
    }
    app.attach_session(sid.clone());
    app.stream = Some(sid.clone());
    app.effects.push(Effect::StartFeed(sid));
}

// ── Actions ────────────────────────────────────────────────────

fn act_send(app: &mut App, text: String, project_ref: &str, agent_ref: &str)
    ensures
        final(app)@ == old(app)@.acted(ActionView::Send(text@), project_ref@, agent_ref@),
{
    proof {
        reveal(AppView::acted);
    }
    let sid = text::dup_opt(&app.sid);
    // Resolved only when a session actually has to be created, so the project and agent diagnostics
    // are not reprinted on every message of an ongoing conversation.
    let spec = if sid.is_some() {
        None
    } else {
        app.new_session_spec(project_ref, agent_ref)
    };
    app.effects.push(Effect::Send { text, sid, spec });
}

fn act_open(app: &mut App, sid: String, project_ref: &str, agent_ref: &str)
    ensures
        final(app)@ == old(app)@.acted(ActionView::Open(sid@), project_ref@, agent_ref@),
{
    proof {
        reveal(AppView::acted);
    }
    app.reset_for_session(sid.as_str());
    attach(app, sid.clone());
    // Attaching asks for the feed, which is no request, so the drain's increment is spent on the
    // usage fetch instead: quietly, since the user asked to open a session, not to be told what this
    // deployment does not support.
    app.effects.push(Effect::SessionUsage { sid, quiet: true });
}

fn close_session(app: &mut App)
    ensures
        final(app)@ == old(app)@.closed(),
{
    proof {
        reveal(AppView::closed);
    }
    app.stop_stream();
    app.sid = None;
    app.chat = Transcript::new();
    app.scroll = 0;
    app.at_end = true;
    app.push_sys("creating session…");
    app.sync_current_project();
    app.rebuild_sidebar();
}

fn act_create(app: &mut App, project_ref: &str, agent_ref: &str)
    ensures
        final(app)@ == old(app)@.acted(ActionView::Create, project_ref@, agent_ref@),
{
    proof {
        reveal(AppView::acted);
    }
    // Clear before the request, and stop the old feed first: a feed still running for the previous
    // session would repopulate the transcript that was just emptied.
    close_session(app);
    let spec = app.new_session_spec(project_ref, agent_ref);
    app.effects.push(Effect::CreateSession(spec));
}

fn act_cancel(app: &mut App, project_ref: &str, agent_ref: &str)
    ensures
        final(app)@ == old(app)@.acted(ActionView::Cancel, project_ref@, agent_ref@),
{
    proof {
        reveal(AppView::acted);
    }
    match text::dup_opt(&app.sid) {
        Some(sid) => app.effects.push(Effect::CancelTurn(sid)),
        None => {
            app.push_sys("no session to cancel");
            app.dec_busy();
        },
    }
}

fn act_show_info(app: &mut App, project_ref: &str, agent_ref: &str)
    ensures
        final(app)@ == old(app)@.acted(ActionView::ShowInfo, project_ref@, agent_ref@),
{
    proof {
        reveal(AppView::acted);
    }
    show_account(app);
    match text::dup_opt(&app.sid) {
        Some(sid) => app.effects.push(Effect::SessionUsage { sid, quiet: false }),
        None => {
            app.push_sys("no session open");
            app.dec_busy();
        },
    }
}

fn act(app: &mut App, action: Action, project_ref: &str, agent_ref: &str)
    ensures
        final(app)@ == old(app)@.acted(action@, project_ref@, agent_ref@),
{
    proof {
        reveal(AppView::acted);
    }
    match action {
        Action::Send(text) => act_send(app, text, project_ref, agent_ref),
        Action::Open(sid) => act_open(app, sid, project_ref, agent_ref),
        Action::Create => act_create(app, project_ref, agent_ref),
        Action::Cancel => act_cancel(app, project_ref, agent_ref),
        Action::Logout => app.effects.push(Effect::Logout),
        Action::RefreshSessions => app.effects.push(Effect::RefreshSessions),
        Action::ShowInfo => act_show_info(app, project_ref, agent_ref),
    }
}

/// Take actions from the queue, and say whether any was taken.
///
/// Gated on one-shot requests only, not on `busy()`: with streaming, `busy()` stays true for the
/// whole of a turn, and a follow-up message would sit in the queue until it ended.
pub fn drain_actions(app: &mut App, project_ref: &str, agent_ref: &str) -> (any: bool)
    ensures
        final(app)@ == old(app)@.drained(project_ref@, agent_ref@),
        any == (old(app)@.busy_count == 0 && old(app)@.actions.len() > 0),
{
    let mut any = false;
    let ghost start = app@;
    while !app.requests_in_flight() && app.actions.len() > 0
        invariant
            app@.drained(project_ref@, agent_ref@) == start.drained(project_ref@, agent_ref@),
            !any ==> app@ == start,
            any ==> start.busy_count == 0 && start.actions.len() > 0,
        decreases app.actions@.len(),
    {
        any = true;
        let ghost now = app@;
        proof {
            text::lemma_views_remove_first(app.actions@);
        }
        let action = app.actions.remove(0);
        assert(action@ == now.actions[0]);
        app.inc_busy();
        proof {
            lemma_acting_queues_nothing(app@, action@, project_ref@, agent_ref@);
        }
        act(app, action, project_ref, agent_ref);
        assert(app@ == now.advanced(project_ref@, agent_ref@));
    }
    any
}

/// The account half of `/usage`, which is known and needs no request.
pub fn show_account(app: &mut App)
    ensures
        final(app)@ == old(app)@.account_shown(),
{
    proof {
        reveal(AppView::account_shown);
    }
    app.push_sys("── Account ───────────────────────────");
    let lines = match &app.me {
        Some(me) => {
            let who = handler::identity(me);
            let user = text::cat("  User:     ", who.as_str());
            let plan = match &me.plan {
                Some(plan) => Some(text::cat("  Plan:     ", plan.as_str())),
                None => None,
            };
            let credits = match &me.credits {
                Some(c) => Some(text::cat("  Credits:  ", c.as_str())),
                None => None,
            };
            Some((user, plan, credits))
        },
        None => None,
    };
    match lines {
        Some((user, plan, credits)) => {
            app.chat.push(MsgKind::Sys, user.as_str());
            if let Some(line) = plan {
                app.chat.push(MsgKind::Sys, line.as_str());
            }
            if let Some(line) = credits {
                app.chat.push(MsgKind::Sys, line.as_str());
            }
        },
        None => app.push_sys("  not connected yet"),
    }
}

/// Report a re-login that is over.
///
/// A credential is only read on dialling, so the live connection has to go for the new one to be
/// presented.
pub fn relogin(app: &mut App, outcome: Result<String, String>)
    ensures
        final(app)@ == old(app)@.relogged(
            match outcome {
                Ok(prefix) => Ok(prefix@),
                Err(e) => Err(e@),
            },
        ),
{
    match outcome {
        Ok(prefix) => {
            let line = text::cat3("logged in — credential ", prefix.as_str(), "…");
            app.push_sys(line.as_str());
            if app.peer.is_some() {
                app.effects.push(Effect::Reconnect);
                app.push_sys("reconnecting…");
            }
        },
        Err(e) => {
            let line = text::cat("login failed: ", e.as_str());
            app.push_sys(line.as_str());
            app.push_sys("still connected on the previous credential, if there was one");
        },
    }
}

// ── Terminal events ────────────────────────────────────────────

/// Whether a key went down, is held, or went up.
#[derive(Debug, Clone, Copy, PartialEq, Eq, Structural)]
pub enum KeyKind {
    Press,
    Repeat,
    Release,
}

/// What the terminal reports.
#[derive(Debug, Clone, Copy, PartialEq, Eq, Structural)]
#[allow(inconsistent_fields)]
pub enum TermEvent {
    Key { code: KeyCode, modifiers: KeyModifiers, kind: KeyKind },
    Mouse { column: u16, row: u16, kind: MouseEventKind },
    /// Anything else.
    Other,
    /// The terminal could not be read.
    Failed,
}

impl AppView {
    /// The state a terminal event can be handled in.
    pub open spec fn input_ok(self, ev: TermEvent) -> bool {
        match ev {
            TermEvent::Key { .. } => self.keys_ok(),
            TermEvent::Mouse { column, kind, .. } => self.mouse_ok(column, kind),
            _ => true,
        }
    }

    /// What a terminal event does.
    pub open spec fn consumed(self, ev: TermEvent) -> AppView {
        match ev {
            TermEvent::Key { code, modifiers, kind } => if code == KeyCode::Char('c')
                && modifiers.control {
                AppView { exit_requested: true, ..self }
            } else if kind == KeyKind::Release {
                self
            } else {
                self.keyed(code, modifiers)
            },
            TermEvent::Mouse { column, row, kind } => self.moused(column, row, kind),
            TermEvent::Other => self,
            TermEvent::Failed => AppView { exit_requested: true, ..self },
        }
    }
}

/// Handle one terminal event, and say whether to go on to the next.
pub fn consume_event(app: &mut App, ev: TermEvent) -> (go_on: bool)
    requires
        old(app)@.input_ok(ev),
    ensures
        final(app)@ == old(app)@.consumed(ev),
        go_on == !final(app)@.exit_requested,
        old(app)@.cursor_ok() ==> final(app)@.cursor_ok(),
{
    match ev {
        TermEvent::Key { code, modifiers, kind } => {
            if code == KeyCode::Char('c') && modifiers.control {
                app.exit_requested = true;
            } else if kind != KeyKind::Release {
                if !handler::handle_key(app, code, modifiers) {
                    app.exit_requested = true;
                }
            }
        },
        TermEvent::Mouse { column, row, kind } => handler::handle_mouse(app, column, row, kind),
        TermEvent::Other => {},
        TermEvent::Failed => {
            app.exit_requested = true;
        },
    }
    !app.exit_requested
}

// ── The loop ───────────────────────────────────────────────────

/// One step of the main loop.
#[derive(Debug, Clone, Copy, PartialEq, Eq, Structural)]
pub enum LoopStep {
    /// The loop has not begun.
    Start,
    Draw,
    /// Give the terminal back to a person, who authorizes this node anew.
    Relogin,
    DrainBackground,
    DrainActions,
    ReadInput,
    /// Nothing changed: wait a moment.
    Sleep,
    Stop,
}

/// What follows a draw, or takes its place: leave, log in, or see what arrived.
pub open spec fn after_draw(exit: bool, login: bool) -> LoopStep {
    if exit {
        LoopStep::Stop
    } else if login {
        LoopStep::Relogin
    } else {
        LoopStep::DrainBackground
    }
}

/// Whether the screen is out of date, and the next step, after a step that `ok` says changed
/// something (a draw: succeeded). A program that leaves because its node stopped draws once more,
/// so that the screen says why.
pub open spec fn step_after(
    dirty: bool,
    last: LoopStep,
    ok: bool,
    exit: bool,
    login: bool,
    stopped: bool,
) -> (bool, LoopStep) {
    match last {
        LoopStep::Start => if dirty {
            (true, LoopStep::Draw)
        } else {
            (false, after_draw(exit, login))
        },
        LoopStep::Sleep => if dirty {
            (true, LoopStep::Draw)
        } else {
            (false, after_draw(exit, login))
        },
        LoopStep::Draw => if ok {
            (false, after_draw(exit, login))
        } else {
            (dirty, LoopStep::Stop)
        },
        LoopStep::Relogin => (true, LoopStep::DrainBackground),
        LoopStep::DrainBackground => (dirty || ok, LoopStep::DrainActions),
        LoopStep::DrainActions => (dirty || ok, LoopStep::ReadInput),
        LoopStep::ReadInput => if exit && !stopped {
            (dirty || ok, LoopStep::Stop)
        } else if dirty || ok {
            (true, LoopStep::Draw)
        } else if exit {
            (false, LoopStep::Stop)
        } else {
            (false, LoopStep::Sleep)
        },
        LoopStep::Stop => (dirty, LoopStep::Stop),
    }
}

/// The state in which the loop begins: a greeting, and a sidebar.
pub fn start(app: &mut App)
    ensures
        final(app)@ == old(app)@.told(
            "── attacca ── enter:send  shift+enter:newline  tab:autocomplete  /help ──"@,
        ).rebuilt(),
{
    app.push_sys("── attacca ── enter:send  shift+enter:newline  tab:autocomplete  /help ──");
    app.rebuild_sidebar();
}

/// The next step of the main loop: draw, see what arrived, act, read input, and wait when idle.
///
/// The screen is drawn only when something actually changed: drawing on every tick would wrap the
/// whole transcript over and over while sitting idle. `dirty` starts `true` so the initial frame
/// still paints.
pub fn run(app: &mut App, dirty: &mut bool, last: LoopStep, ok: bool) -> (next: LoopStep)
    ensures
        (*final(dirty), next) == step_after(
            *old(dirty),
            last,
            ok,
            old(app)@.exit_requested,
            old(app)@.login_requested,
            old(app)@.node_stopped is Some,
        ),
        final(app)@ == (if next == LoopStep::Relogin {
            AppView { login_requested: false, ..old(app)@ }
        } else {
            old(app)@
        }),
{
    match last {
        LoopStep::Stop => LoopStep::Stop,
        LoopStep::Relogin => {
            *dirty = true;
            LoopStep::DrainBackground
        },
        LoopStep::DrainBackground => {
            *dirty = *dirty || ok;
            LoopStep::DrainActions
        },
        LoopStep::DrainActions => {
            *dirty = *dirty || ok;
            LoopStep::ReadInput
        },
        LoopStep::ReadInput => {
            *dirty = *dirty || ok;
            if app.exit_requested && app.node_stopped.is_none() {
                LoopStep::Stop
            } else if *dirty {
                LoopStep::Draw
            } else if app.exit_requested {
                LoopStep::Stop
            } else {
                LoopStep::Sleep
            }
        },
        LoopStep::Draw => {
            if ok {
                *dirty = false;
                past_draw(app)
            } else {
                LoopStep::Stop
            }
        },
        LoopStep::Start => {
            if *dirty {
                LoopStep::Draw
            } else {
                past_draw(app)
            }
        },
        LoopStep::Sleep => {
            if *dirty {
                LoopStep::Draw
            } else {
                past_draw(app)
            }
        },
    }
}

fn past_draw(app: &mut App) -> (next: LoopStep)
    ensures
        next == after_draw(old(app)@.exit_requested, old(app)@.login_requested),
        final(app)@ == (if next == LoopStep::Relogin {
            AppView { login_requested: false, ..old(app)@ }
        } else {
            old(app)@
        }),
{
    if app.exit_requested {
        LoopStep::Stop
    } else if app.login_requested {
        app.login_requested = false;
        LoopStep::Relogin
    } else {
        LoopStep::DrainBackground
    }
}

} // verus!
