//! Application state: structured data, and the operations on a session list.
//!
//! No I/O, no rendering, no task spawning. What the surrounding program has to do is left in
//! [`App::effects`], in order; the event loop's decisions live in [`event`](crate::event), input
//! handling in [`handler`](crate::handler).

use crate::brief::{BriefView, NodeBrief};
use crate::chat;
use crate::chat::TranscriptView;
use crate::refs;
use crate::refs::{ChoiceView, IdMap, IdSet};
use crate::text;
use crate::util;
use crate::wire::{
    AgentView, Capability, CapabilityView, MeView, NewSessionView, ProjectView, SessionView,
    UsageView, ZAgent, ZMe, ZNewSession, ZProject, ZSession, ZTurnFrame, ZUsage, FrameView,
};
use vstd::prelude::*;

pub use crate::chat::{title_in, Msg, MsgKind, Transcript};
pub use crate::refs::{resolve_ref, RefChoice};

verus! {

broadcast use {text::lemma_views_push, text::lemma_views_empty};

// ── Sidebar items ──────────────────────────────────────────────

/// One line of the sidebar.
#[derive(Clone, Debug)]
pub enum SidebarItem {
    ProjectHeader { id: String, name: String, expanded: bool, session_count: usize },
    Session { title: String, id: String, active: bool, running: bool },
    NewSession,
}

#[verifier::ext_equal]
pub enum ItemView {
    ProjectHeader { id: Seq<char>, name: Seq<char>, expanded: bool, session_count: nat },
    Session { title: Seq<char>, id: Seq<char>, active: bool, running: bool },
    NewSession,
}

impl View for SidebarItem {
    type V = ItemView;

    open spec fn view(&self) -> ItemView {
        match self {
            SidebarItem::ProjectHeader { id, name, expanded, session_count } => {
                ItemView::ProjectHeader {
                    id: id@,
                    name: name@,
                    expanded: *expanded,
                    session_count: *session_count as nat,
                }
            },
            SidebarItem::Session { title, id, active, running } => ItemView::Session {
                title: title@,
                id: id@,
                active: *active,
                running: *running,
            },
            SidebarItem::NewSession => ItemView::NewSession,
        }
    }
}

/// One row of the session list, flattened from [`ZSession`].
#[derive(Clone, Debug)]
pub struct SessionRow {
    pub project_id: String,
    pub title: String,
    pub id: String,
    pub running: bool,
}

#[verifier::ext_equal]
pub struct RowView {
    pub project_id: Seq<char>,
    pub title: Seq<char>,
    pub id: Seq<char>,
    pub running: bool,
}

impl View for SessionRow {
    type V = RowView;

    open spec fn view(&self) -> RowView {
        RowView {
            project_id: self.project_id@,
            title: self.title@,
            id: self.id@,
            running: self.running,
        }
    }
}

// ── Background events (background → state) ─────────────────────

/// What the background tasks report.
pub enum BgEvent {
    Connected(Box<ZMe>),
    Disconnected(String),
    Projects(Vec<ZProject>),
    Sessions(Vec<ZSession>),
    Agents(Vec<ZAgent>),
    SessionCreated(Box<ZSession>),
    /// The head of a turn feed: the session's state at subscribe time.
    StreamHead { session_id: String, running: bool },
    Frame { session_id: String, frame: ZTurnFrame },
    Usage(Box<ZUsage>),
    /// The node runtime gave up for good. Distinct from `Disconnected`, which is transient.
    NodeStopped { message: String, needs_operator: bool },
    Notice(String),
    /// One in-flight request finished, whatever its outcome.
    Done,
}

#[verifier::ext_equal]
pub enum BgView {
    Connected(MeView),
    Disconnected(Seq<char>),
    Projects(Seq<ProjectView>),
    Sessions(Seq<SessionView>),
    Agents(Seq<AgentView>),
    SessionCreated(SessionView),
    StreamHead { session_id: Seq<char>, running: bool },
    Frame { session_id: Seq<char>, frame: FrameView },
    Usage(UsageView),
    NodeStopped { message: Seq<char>, needs_operator: bool },
    Notice(Seq<char>),
    Done,
}

impl View for BgEvent {
    type V = BgView;

    open spec fn view(&self) -> BgView {
        match self {
            BgEvent::Connected(me) => BgView::Connected((**me)@),
            BgEvent::Disconnected(s) => BgView::Disconnected(s@),
            BgEvent::Projects(v) => BgView::Projects(text::views(v@)),
            BgEvent::Sessions(v) => BgView::Sessions(text::views(v@)),
            BgEvent::Agents(v) => BgView::Agents(text::views(v@)),
            BgEvent::SessionCreated(s) => BgView::SessionCreated((**s)@),
            BgEvent::StreamHead { session_id, running } => BgView::StreamHead {
                session_id: session_id@,
                running: *running,
            },
            BgEvent::Frame { session_id, frame } => BgView::Frame {
                session_id: session_id@,
                frame: frame@,
            },
            BgEvent::Usage(u) => BgView::Usage((**u)@),
            BgEvent::NodeStopped { message, needs_operator } => BgView::NodeStopped {
                message: message@,
                needs_operator: *needs_operator,
            },
            BgEvent::Notice(s) => BgView::Notice(s@),
            BgEvent::Done => BgView::Done,
        }
    }
}

// ── Actions (input → event loop) ───────────────────────────────

/// What the user asked for, waiting for its turn.
pub enum Action {
    Send(String),
    Open(String),
    Create,
    Cancel,
    Logout,
    ShowInfo,
    RefreshSessions,
}

#[verifier::ext_equal]
pub enum ActionView {
    Send(Seq<char>),
    Open(Seq<char>),
    Create,
    Cancel,
    Logout,
    ShowInfo,
    RefreshSessions,
}

impl View for Action {
    type V = ActionView;

    open spec fn view(&self) -> ActionView {
        match self {
            Action::Send(s) => ActionView::Send(s@),
            Action::Open(s) => ActionView::Open(s@),
            Action::Create => ActionView::Create,
            Action::Cancel => ActionView::Cancel,
            Action::Logout => ActionView::Logout,
            Action::ShowInfo => ActionView::ShowInfo,
            Action::RefreshSessions => ActionView::RefreshSessions,
        }
    }
}

// ── Effects (state → surrounding program) ──────────────────────

/// What the surrounding program is asked to do.
#[allow(inconsistent_fields)]
pub enum Effect {
    /// Abort the turn feed that is running.
    StopFeed,
    /// Start the turn feed of a session.
    StartFeed(String),
    Send { text: String, sid: Option<String>, spec: Option<ZNewSession> },
    CreateSession(Option<ZNewSession>),
    CancelTurn(String),
    RefreshSessions,
    /// `quiet` is for a fetch the user did not ask for by name.
    SessionUsage { sid: String, quiet: bool },
    Logout,
    /// Close the live connection, so that the next dial presents the new credential.
    Reconnect,
}

#[verifier::ext_equal]
#[allow(inconsistent_fields)]
pub enum EffectView {
    StopFeed,
    StartFeed(Seq<char>),
    Send { text: Seq<char>, sid: Option<Seq<char>>, spec: Option<NewSessionView> },
    CreateSession(Option<NewSessionView>),
    CancelTurn(Seq<char>),
    RefreshSessions,
    SessionUsage { sid: Seq<char>, quiet: bool },
    Logout,
    Reconnect,
}

impl View for Effect {
    type V = EffectView;

    open spec fn view(&self) -> EffectView {
        match self {
            Effect::StopFeed => EffectView::StopFeed,
            Effect::StartFeed(s) => EffectView::StartFeed(s@),
            Effect::Send { text, sid, spec } => EffectView::Send {
                text: text@,
                sid: text::opt_view(*sid),
                spec: text::opt_view(*spec),
            },
            Effect::CreateSession(spec) => EffectView::CreateSession(text::opt_view(*spec)),
            Effect::CancelTurn(s) => EffectView::CancelTurn(s@),
            Effect::RefreshSessions => EffectView::RefreshSessions,
            Effect::SessionUsage { sid, quiet } => EffectView::SessionUsage {
                sid: sid@,
                quiet: *quiet,
            },
            Effect::Logout => EffectView::Logout,
            Effect::Reconnect => EffectView::Reconnect,
        }
    }
}

// ── State persistence ──────────────────────────────────────────

/// Snapshot of the state that is kept between restarts.
#[derive(Debug, Clone)]
pub struct SavedState {
    pub sessions: Vec<SavedSession>,
    pub last_sid: Option<String>,
    pub last_project_name: String,
    pub sidebar_sel: usize,
    pub sidebar_scroll: usize,
}

#[derive(Debug, Clone)]
pub struct SavedSession {
    pub project_id: String,
    pub title: String,
    pub id: String,
}

#[verifier::ext_equal]
pub struct SavedStateView {
    pub sessions: Seq<SavedSessionView>,
    pub last_sid: Option<Seq<char>>,
    pub last_project_name: Seq<char>,
    pub sidebar_sel: usize,
    pub sidebar_scroll: usize,
}

#[verifier::ext_equal]
pub struct SavedSessionView {
    pub project_id: Seq<char>,
    pub title: Seq<char>,
    pub id: Seq<char>,
}

impl View for SavedSession {
    type V = SavedSessionView;

    open spec fn view(&self) -> SavedSessionView {
        SavedSessionView { project_id: self.project_id@, title: self.title@, id: self.id@ }
    }
}

impl View for SavedState {
    type V = SavedStateView;

    open spec fn view(&self) -> SavedStateView {
        SavedStateView {
            sessions: text::views(self.sessions@),
            last_sid: text::opt_view(self.last_sid),
            last_project_name: self.last_project_name@,
            sidebar_sel: self.sidebar_sel,
            sidebar_scroll: self.sidebar_scroll,
        }
    }
}

// ── Focus ──────────────────────────────────────────────────────

/// Which pane the keyboard goes to.
#[derive(Debug, Clone, Copy, PartialEq, Eq, Structural)]
pub enum Focus {
    Chat,
    Sidebar,
}

// ── Main application state ─────────────────────────────────────

/// Everything the client knows.
pub struct App {
    /// The chat transcript and its reducer.
    pub chat: Transcript,
    // Session
    pub sid: Option<String>,
    /// Session ID to restore on next server sessions list.
    pub pending_restore_sid: Option<String>,
    // Input
    pub input: String,
    /// Byte offset of the insertion point in `input`. Always a char boundary.
    pub input_cursor: usize,
    pub autocomplete_suggestions: Vec<String>,
    pub autocomplete_idx: Option<usize>,
    // Scrolling
    pub scroll: usize,
    pub at_end: bool,
    pub input_scroll: usize,
    /// Max top-row offset for the input box, in wrapped *visual* rows. Recomputed each frame in
    /// [`ui`](crate::ui) and read by the input scroll handler so Ctrl+↑/↓ clamps against wrapped
    /// lines, not just `\n` lines.
    pub input_max_scroll: usize,
    /// Screen coordinate for the hardware cursor, set each frame.
    pub cursor_screen: Option<(u16, u16)>,
    // Sidebar
    pub sidebar_items: Vec<SidebarItem>,
    pub sidebar_sel: usize,
    pub sidebar_scroll: usize,
    pub expanded_projects: IdSet,
    pub sessions: Vec<SessionRow>,
    // Data caches
    pub project_names: IdMap,
    pub project_order: Vec<String>,
    pub agents: Vec<ZAgent>,
    pub me: Option<ZMe>,
    pub connected: bool,
    /// What the far end of the live connection announces, while there is a live connection.
    pub peer: Option<Vec<Capability>>,
    pub current_project_name: String,
    pub usage_model: String,
    pub usage_credits_used: String,
    pub usage_context_tokens: String,
    pub usage_input_tokens: String,
    pub usage_output_tokens: String,
    pub usage_total_tokens: String,
    // State
    pub exit_requested: bool,
    pub focus: Focus,
    pub busy_count: u32,
    pub debug_events: bool,
    /// Reasoning cards carry two rows of chrome each and reasoning is frequent, so a long chat can
    /// become mostly "thinking". This drops them from the view.
    pub hide_reasoning: bool,
    /// Set by `/login`. Handled in the main loop rather than in the handler, because it has to
    /// suspend the terminal and await a person.
    pub login_requested: bool,
    /// The node runtime stopped for good; the loop draws once more and exits.
    pub node_stopped: Option<String>,
    /// Whether that stop is something a person has to fix, which decides the process exit code.
    pub node_needs_operator: bool,
    pub node_brief: NodeBrief,
    /// The session whose turn feed has been asked for and not stopped since.
    pub stream: Option<String>,
    // Queues
    pub actions: Vec<Action>,
    /// What the surrounding program still has to do, oldest first.
    pub effects: Vec<Effect>,
}

/// An [`App`] in the abstract.
pub struct AppView {
    pub chat: TranscriptView,
    pub sid: Option<Seq<char>>,
    pub pending_restore_sid: Option<Seq<char>>,
    pub input: Seq<char>,
    pub input_cursor: usize,
    pub autocomplete_suggestions: Seq<Seq<char>>,
    pub autocomplete_idx: Option<usize>,
    pub scroll: usize,
    pub at_end: bool,
    pub input_scroll: usize,
    pub input_max_scroll: usize,
    pub cursor_screen: Option<(u16, u16)>,
    pub sidebar_items: Seq<ItemView>,
    pub sidebar_sel: usize,
    pub sidebar_scroll: usize,
    pub expanded_projects: Set<Seq<char>>,
    pub sessions: Seq<RowView>,
    pub project_names: Seq<(Seq<char>, Seq<char>)>,
    pub project_order: Seq<Seq<char>>,
    pub agents: Seq<AgentView>,
    pub me: Option<MeView>,
    pub connected: bool,
    pub peer: Option<Seq<CapabilityView>>,
    pub current_project_name: Seq<char>,
    pub usage_model: Seq<char>,
    pub usage_credits_used: Seq<char>,
    pub usage_context_tokens: Seq<char>,
    pub usage_input_tokens: Seq<char>,
    pub usage_output_tokens: Seq<char>,
    pub usage_total_tokens: Seq<char>,
    pub exit_requested: bool,
    pub focus: Focus,
    pub busy_count: u32,
    pub debug_events: bool,
    pub hide_reasoning: bool,
    pub login_requested: bool,
    pub node_stopped: Option<Seq<char>>,
    pub node_needs_operator: bool,
    pub node_brief: BriefView,
    pub stream: Option<Seq<char>>,
    pub actions: Seq<ActionView>,
    pub effects: Seq<EffectView>,
}

impl View for App {
    type V = AppView;

    open spec fn view(&self) -> AppView {
        AppView {
            chat: self.chat@,
            sid: text::opt_view(self.sid),
            pending_restore_sid: text::opt_view(self.pending_restore_sid),
            input: self.input@,
            input_cursor: self.input_cursor,
            autocomplete_suggestions: text::views(self.autocomplete_suggestions@),
            autocomplete_idx: self.autocomplete_idx,
            scroll: self.scroll,
            at_end: self.at_end,
            input_scroll: self.input_scroll,
            input_max_scroll: self.input_max_scroll,
            cursor_screen: self.cursor_screen,
            sidebar_items: text::views(self.sidebar_items@),
            sidebar_sel: self.sidebar_sel,
            sidebar_scroll: self.sidebar_scroll,
            expanded_projects: self.expanded_projects@,
            sessions: text::views(self.sessions@),
            project_names: self.project_names@,
            project_order: text::views(self.project_order@),
            agents: text::views(self.agents@),
            me: text::opt_view(self.me),
            connected: self.connected,
            peer: match self.peer {
                Some(v) => Some(text::views(v@)),
                None => None,
            },
            current_project_name: self.current_project_name@,
            usage_model: self.usage_model@,
            usage_credits_used: self.usage_credits_used@,
            usage_context_tokens: self.usage_context_tokens@,
            usage_input_tokens: self.usage_input_tokens@,
            usage_output_tokens: self.usage_output_tokens@,
            usage_total_tokens: self.usage_total_tokens@,
            exit_requested: self.exit_requested,
            focus: self.focus,
            busy_count: self.busy_count,
            debug_events: self.debug_events,
            hide_reasoning: self.hide_reasoning,
            login_requested: self.login_requested,
            node_stopped: text::opt_view(self.node_stopped),
            node_needs_operator: self.node_needs_operator,
            node_brief: self.node_brief@,
            stream: text::opt_view(self.stream),
            actions: text::views(self.actions@),
            effects: text::views(self.effects@),
        }
    }
}

/// The text of an optional string, or nothing.
pub open spec fn or_empty(o: Option<Seq<char>>) -> Seq<char> {
    match o {
        Some(s) => s,
        None => Seq::empty(),
    }
}

/// A number as text, or nothing.
pub open spec fn shown_number(o: Option<i64>) -> Seq<char> {
    match o {
        Some(n) => text::decimal_int(n as int),
        None => Seq::empty(),
    }
}

/// The row of a session.
pub open spec fn row_of(s: SessionView) -> RowView {
    RowView {
        project_id: or_empty(s.project_id),
        title: chat::shown_title(s.title),
        id: s.id,
        running: s.running,
    }
}

/// The rows of a list of sessions.
pub open spec fn rows_of(sessions: Seq<SessionView>) -> Seq<RowView> {
    Seq::new(sessions.len(), |i: int| row_of(sessions[i]))
}

/// The first row at or after `i` with that id.
pub open spec fn row_from(rows: Seq<RowView>, id: Seq<char>, i: int) -> Option<RowView>
    decreases rows.len() - i,
{
    if i < 0 || i >= rows.len() {
        None
    } else if rows[i].id == id {
        Some(rows[i])
    } else {
        row_from(rows, id, i + 1)
    }
}

/// The projects in the order in which the sidebar lists them: the known order, then those that
/// only a session mentions.
pub open spec fn order_with(order: Seq<Seq<char>>, rows: Seq<RowView>) -> Seq<Seq<char>>
    decreases rows.len(),
{
    if rows.len() == 0 {
        order
    } else {
        let before = order_with(order, rows.drop_last());
        if before.contains(rows.last().project_id) {
            before
        } else {
            before.push(rows.last().project_id)
        }
    }
}

/// The rows that belong to a project.
pub open spec fn rows_in(rows: Seq<RowView>, pid: Seq<char>) -> Seq<RowView>
    decreases rows.len(),
{
    if rows.len() == 0 {
        rows
    } else {
        let before = rows_in(rows.drop_last(), pid);
        if rows.last().project_id == pid {
            before.push(rows.last())
        } else {
            before
        }
    }
}

/// How the sidebar names a project.
pub open spec fn project_label(names: Seq<(Seq<char>, Seq<char>)>, pid: Seq<char>) -> Seq<char> {
    match refs::lookup(names, pid) {
        Some(name) => "📁 "@ + name,
        None => if pid.len() == 0 {
            "📁 (no project)"@
        } else {
            "📁 "@ + text::prefix(pid, 8)
        },
    }
}

/// A row as a sidebar line.
pub open spec fn session_item(row: RowView, active_id: Seq<char>) -> ItemView {
    ItemView::Session {
        title: row.title,
        id: row.id,
        active: row.id == active_id,
        running: row.running,
    }
}

/// Rows as sidebar lines.
pub open spec fn session_items(rows: Seq<RowView>, active_id: Seq<char>) -> Seq<ItemView> {
    Seq::new(rows.len(), |i: int| session_item(rows[i], active_id))
}

impl AppView {
    /// The lines of one project: none for a project nobody knows and nothing is in, its header
    /// otherwise, and its sessions where it is expanded.
    pub open spec fn section(self, pid: Seq<char>) -> Seq<ItemView> {
        let rows = rows_in(self.sessions, pid);
        if rows.len() == 0 && refs::lookup(self.project_names, pid) is None {
            Seq::empty()
        } else {
            let expanded = self.expanded_projects.contains(pid);
            let header = ItemView::ProjectHeader {
                id: pid,
                name: project_label(self.project_names, pid),
                expanded,
                session_count: rows.len(),
            };
            if expanded {
                seq![header] + session_items(rows, or_empty(self.sid))
            } else {
                seq![header]
            }
        }
    }

    /// The lines of several projects.
    pub open spec fn sections(self, order: Seq<Seq<char>>) -> Seq<ItemView>
        decreases order.len(),
    {
        if order.len() == 0 {
            Seq::empty()
        } else {
            self.sections(order.drop_last()) + self.section(order.last())
        }
    }

    /// The sidebar that the session list, the projects and what is expanded amount to.
    pub open spec fn sidebar(self) -> Seq<ItemView> {
        self.sections(order_with(self.project_order, self.sessions)).push(ItemView::NewSession)
    }

    /// With the sidebar brought up to date, and the selection and the scroll offset inside it.
    #[verifier::opaque]
    pub open spec fn rebuilt(self) -> AppView {
        let items = self.sidebar();
        let max = items.len() - 1;
        let max_scroll: int = if max >= 1 {
            max - 1
        } else {
            0
        };
        AppView {
            sidebar_items: items,
            sidebar_sel: if self.sidebar_sel > max {
                max as usize
            } else {
                self.sidebar_sel
            },
            sidebar_scroll: if self.sidebar_scroll > max_scroll {
                max_scroll as usize
            } else {
                self.sidebar_scroll
            },
            ..self
        }
    }

    /// With a system line.
    pub open spec fn told(self, line: Seq<char>) -> AppView {
        AppView { chat: self.chat.pushed(MsgKind::Sys, line), ..self }
    }

    /// With something left for the surrounding program to do.
    pub open spec fn asking(self, effect: EffectView) -> AppView {
        AppView { effects: self.effects.push(effect), ..self }
    }

    /// With an action queued.
    pub open spec fn queued(self, action: ActionView) -> AppView {
        AppView { actions: self.actions.push(action), ..self }
    }

    /// With no turn feed.
    pub open spec fn feedless(self) -> AppView {
        if self.stream is Some {
            AppView { stream: None, ..self }.asking(EffectView::StopFeed)
        } else {
            self
        }
    }

    /// What the info bar calls the open session's project.
    pub open spec fn open_project(self) -> Seq<char> {
        match self.sid {
            None => Seq::empty(),
            Some(sid) => match row_from(self.sessions, sid, 0) {
                None => Seq::empty(),
                Some(row) => if row.project_id.len() == 0 {
                    Seq::empty()
                } else {
                    match refs::lookup(self.project_names, row.project_id) {
                        Some(name) => name,
                        None => text::prefix(row.project_id, 8),
                    }
                },
            },
        }
    }

    /// With the info bar naming the open session's project.
    pub open spec fn project_synced(self) -> AppView {
        AppView { current_project_name: self.open_project(), ..self }
    }

    /// With the view pointed at a session.
    #[verifier::opaque]
    pub open spec fn attached(self, sid: Seq<char>) -> AppView {
        let a = self.feedless();
        AppView {
            sid: Some(sid),
            chat: TranscriptView { cur: 0, ..a.chat },
            ..a
        }.project_synced().rebuilt()
    }

    /// With an empty transcript that names a session.
    #[verifier::opaque]
    pub open spec fn cleared_for(self, sid: Seq<char>) -> AppView {
        AppView { chat: TranscriptView::empty(), scroll: 0, at_end: true, ..self }.told(
            "session "@ + text::prefix(sid, 8),
        )
    }

    /// With the open session's rows marked as running or not.
    #[verifier::opaque]
    pub open spec fn row_synced(self) -> AppView {
        match self.sid {
            None => self,
            Some(sid) => if rows_running(self.sessions, sid, self.chat.running) == self.sessions {
                self
            } else {
                AppView {
                    sessions: rows_running(self.sessions, sid, self.chat.running),
                    ..self
                }.rebuilt()
            },
        }
    }

    /// With the open session's rows under another title.
    #[verifier::opaque]
    pub open spec fn retitled(self, title: Seq<char>) -> AppView {
        let shown = chat::shown_title(Some(title));
        match self.sid {
            None => self,
            Some(sid) => if rows_titled(self.sessions, sid, shown) == self.sessions {
                self
            } else {
                AppView { sessions: rows_titled(self.sessions, sid, shown), ..self }.rebuilt()
            },
        }
    }

    /// With another session list.
    #[verifier::opaque]
    pub open spec fn listing(self, sessions: Seq<SessionView>) -> AppView {
        AppView { sessions: rows_of(sessions), ..self }.project_synced().rebuilt()
    }

    /// With one more session, at the top.
    #[verifier::opaque]
    pub open spec fn with_session(self, session: SessionView) -> AppView {
        AppView {
            sessions: seq![row_of(session)] + self.sessions,
            ..self
        }.project_synced().rebuilt()
    }

    /// With a session's usage on display.
    #[verifier::opaque]
    pub open spec fn with_usage(self, usage: UsageView) -> AppView {
        AppView {
            usage_model: or_empty(usage.model),
            usage_credits_used: or_empty(usage.credits_used),
            usage_context_tokens: shown_number(usage.context_tokens),
            usage_input_tokens: shown_number(usage.input_tokens),
            usage_output_tokens: shown_number(usage.output_tokens),
            usage_total_tokens: shown_number(usage.total_tokens),
            ..self
        }
    }

    /// With one more request in flight.
    pub open spec fn busier(self) -> AppView {
        AppView {
            busy_count: if self.busy_count == u32::MAX {
                u32::MAX
            } else {
                (self.busy_count + 1) as u32
            },
            ..self
        }
    }

    /// With one request less in flight.
    pub open spec fn calmer(self) -> AppView {
        AppView {
            busy_count: if self.busy_count == 0 {
                0
            } else {
                (self.busy_count - 1) as u32
            },
            ..self
        }
    }

    /// What is kept between restarts.
    pub open spec fn saved(self) -> SavedStateView {
        SavedStateView {
            sessions: Seq::new(
                self.sessions.len(),
                |i: int|
                    SavedSessionView {
                        project_id: self.sessions[i].project_id,
                        title: self.sessions[i].title,
                        id: self.sessions[i].id,
                    },
            ),
            last_sid: self.sid,
            last_project_name: self.current_project_name,
            sidebar_sel: self.sidebar_sel,
            sidebar_scroll: self.sidebar_scroll,
        }
    }
}

/// Rebuilding the sidebar touches the sidebar alone.
pub proof fn lemma_rebuilt(a: AppView)
    ensures
        a.rebuilt() == (AppView {
            sidebar_items: a.rebuilt().sidebar_items,
            sidebar_sel: a.rebuilt().sidebar_sel,
            sidebar_scroll: a.rebuilt().sidebar_scroll,
            ..a
        }),
{
    reveal(AppView::rebuilt);
}

/// The rows with every row of that id marked as running or not.
pub open spec fn rows_running(rows: Seq<RowView>, id: Seq<char>, running: bool) -> Seq<RowView> {
    Seq::new(
        rows.len(),
        |i: int|
            if rows[i].id == id {
                RowView { running, ..rows[i] }
            } else {
                rows[i]
            },
    )
}

/// The rows with every row of that id under another title.
pub open spec fn rows_titled(rows: Seq<RowView>, id: Seq<char>, title: Seq<char>) -> Seq<RowView> {
    Seq::new(
        rows.len(),
        |i: int|
            if rows[i].id == id {
                RowView { title, ..rows[i] }
            } else {
                rows[i]
            },
    )
}

/// The ids and names that a reference to an agent resolves against.
pub open spec fn agent_pairs(agents: Seq<AgentView>) -> Seq<(Seq<char>, Seq<char>)> {
    Seq::new(agents.len(), |i: int| (agents[i].id, agents[i].name))
}

/// What is said of a reference that matches nothing.
pub open spec fn no_project(wanted: Seq<char>) -> Seq<char> {
    "ATTACCA_PROJECT \""@ + wanted + "\" matched no project — using the account default"@
}

/// What is said of a reference that matches nothing.
pub open spec fn no_agent(wanted: Seq<char>) -> Seq<char> {
    "ATTACCA_AGENT \""@ + wanted + "\" matched no agent — using the first one"@
}

impl AppView {
    /// With the diagnostics that the references of a new session give rise to.
    #[verifier::opaque]
    pub open spec fn diagnosed(self, project_ref: Seq<char>, agent_ref: Seq<char>) -> AppView {
        let a = match refs::choice(project_ref, self.project_names) {
            ChoiceView::Unresolved(wanted) => self.told(no_project(wanted)),
            _ => self,
        };
        match refs::choice(agent_ref, agent_pairs(self.agents)) {
            ChoiceView::Unresolved(wanted) => a.told(no_agent(wanted)),
            _ => a,
        }
    }

    /// The session that the references ask for: untitled, with the node brief as its preamble, in
    /// the project that was asked for where there is one, and with the agent that was asked for or
    /// else the first one. None where there is no agent.
    #[verifier::opaque]
    pub open spec fn new_session(self, project_ref: Seq<char>, agent_ref: Seq<char>) -> Option<
        NewSessionView,
    > {
        let agent_id = match refs::choice(agent_ref, agent_pairs(self.agents)) {
            ChoiceView::Resolved(id) => Some(id),
            _ => if self.agents.len() > 0 {
                Some(self.agents[0].id)
            } else {
                None
            },
        };
        match agent_id {
            None => None,
            Some(agent_id) => Some(
                NewSessionView {
                    agent_id,
                    title: None,
                    project_id: match refs::choice(project_ref, self.project_names) {
                        ChoiceView::Resolved(id) => Some(id),
                        _ => None,
                    },
                    preamble: Some(self.node_brief.preamble()),
                },
            ),
        }
    }

    /// A client that has just started.
    pub open spec fn fresh(node_brief: BriefView, debug_events: bool, hide_reasoning: bool) -> AppView {
        AppView {
            chat: TranscriptView::empty(),
            sid: None,
            pending_restore_sid: None,
            input: Seq::empty(),
            input_cursor: 0,
            autocomplete_suggestions: Seq::empty(),
            autocomplete_idx: None,
            scroll: 0,
            at_end: true,
            input_scroll: 0,
            input_max_scroll: 0,
            cursor_screen: None,
            sidebar_items: Seq::empty(),
            sidebar_sel: 0,
            sidebar_scroll: 0,
            expanded_projects: Set::empty(),
            sessions: Seq::empty(),
            project_names: Seq::empty(),
            project_order: Seq::empty(),
            agents: Seq::empty(),
            me: None,
            connected: false,
            peer: None,
            current_project_name: Seq::empty(),
            usage_model: Seq::empty(),
            usage_credits_used: Seq::empty(),
            usage_context_tokens: Seq::empty(),
            usage_input_tokens: Seq::empty(),
            usage_output_tokens: Seq::empty(),
            usage_total_tokens: Seq::empty(),
            exit_requested: false,
            focus: Focus::Chat,
            busy_count: 0,
            debug_events,
            hide_reasoning,
            login_requested: false,
            node_stopped: None,
            node_needs_operator: false,
            node_brief,
            stream: None,
            actions: Seq::empty(),
            effects: Seq::empty(),
        }
    }
}

// ── Operations ─────────────────────────────────────────────────

fn own(o: &Option<String>) -> (s: String)
    ensures
        s@ == or_empty(text::opt_view(*o)),
{
    match o {
        Some(s) => s.clone(),
        None => String::new(),
    }
}

fn show_number(o: Option<i64>) -> (s: String)
    ensures
        s@ == shown_number(o),
{
    match o {
        Some(n) => text::show_i64(n),
        None => String::new(),
    }
}

fn row(session: ZSession) -> (r: SessionRow)
    ensures
        r@ == row_of(session@),
{
    let project_id = match session.project_id {
        Some(p) => p,
        None => String::new(),
    };
    SessionRow {
        project_id,
        title: chat::display_title(session.title),
        id: session.id,
        running: session.running,
    }
}

/// Whether a string is in a list.
pub fn listed(v: &Vec<String>, s: &str) -> (r: bool)
    ensures
        r == text::views(v@).contains(s@),
{
    let mut i: usize = 0;
    while i < v.len()
        invariant
            i <= v@.len(),
            forall|j: int| 0 <= j < i ==> (#[trigger] text::views(v@)[j]) != s@,
        decreases v@.len() - i,
    {
        if text::same(v[i].as_str(), s) {
            assert(text::views(v@)[i as int] == s@);
            return true;
        }
        i += 1;
    }
    false
}

impl App {
    /// A client that has just started.
    pub fn new(node_brief: NodeBrief, debug_events: bool, hide_reasoning: bool) -> (app: App)
        ensures
            app@ == AppView::fresh(node_brief@, debug_events, hide_reasoning),
    {
        let app = App {
            chat: Transcript::new(),
            sid: None,
            pending_restore_sid: None,
            input: String::new(),
            input_cursor: 0,
            autocomplete_suggestions: Vec::new(),
            autocomplete_idx: None,
            scroll: 0,
            at_end: true,
            input_scroll: 0,
            input_max_scroll: 0,
            cursor_screen: None,
            sidebar_items: Vec::new(),
            sidebar_sel: 0,
            sidebar_scroll: 0,
            expanded_projects: IdSet::new(),
            sessions: Vec::new(),
            project_names: IdMap::new(),
            project_order: Vec::new(),
            agents: Vec::new(),
            me: None,
            connected: false,
            peer: None,
            current_project_name: String::new(),
            usage_model: String::new(),
            usage_credits_used: String::new(),
            usage_context_tokens: String::new(),
            usage_input_tokens: String::new(),
            usage_output_tokens: String::new(),
            usage_total_tokens: String::new(),
            exit_requested: false,
            focus: Focus::Chat,
            busy_count: 0,
            debug_events,
            hide_reasoning,
            login_requested: false,
            node_stopped: None,
            node_needs_operator: false,
            node_brief,
            stream: None,
            actions: Vec::new(),
            effects: Vec::new(),
        };
        app
    }

    /// Something is happening: a one-shot request, or a turn producing tokens. Drives the spinner.
    pub fn busy(&self) -> (r: bool)
        ensures
            r == (self@.busy_count > 0 || self@.chat.running),
    {
        self.busy_count > 0 || self.chat.running
    }

    /// One-shot requests only. The action queue gates on this rather than on [`busy`](Self::busy),
    /// or a follow-up message would be held back for the whole of a streaming turn.
    pub fn requests_in_flight(&self) -> (r: bool)
        ensures
            r == (self@.busy_count > 0),
    {
        self.busy_count > 0
    }

    pub fn inc_busy(&mut self)
        ensures
            final(self)@ == old(self)@.busier(),
    {
        if self.busy_count < u32::MAX {
            self.busy_count = self.busy_count + 1;
        }
    }

    pub fn dec_busy(&mut self)
        ensures
            final(self)@ == old(self)@.calmer(),
    {
        if self.busy_count > 0 {
            self.busy_count = self.busy_count - 1;
        }
    }

    /// Append a system line to the transcript.
    pub fn push_sys(&mut self, text: &str)
        ensures
            final(self)@ == old(self)@.told(text@),
    {
        self.chat.push(MsgKind::Sys, text);
    }

    // ── Session state ──────────────────────────────────────────

    /// Point the UI at a session, keeping whatever is already on screen.
    ///
    /// Used for a session this process just created: the optimistic user echo must survive, and the
    /// replay from cursor 0 is empty anyway. The caller starts the feed.
    pub fn attach_session(&mut self, sid: String)
        ensures
            final(self)@ == old(self)@.attached(sid@),
    {
        proof {
            reveal(AppView::attached);
        }
        self.stop_stream();
        self.sid = Some(sid);
        self.chat.cur = 0;
        self.sync_current_project();
        self.rebuild_sidebar();
    }

    /// Switch to an existing session, clearing the view first.
    pub fn reset_for_session(&mut self, sid: &str)
        ensures
            final(self)@ == old(self)@.cleared_for(sid@),
    {
        proof {
            reveal(AppView::cleared_for);
        }
        self.chat = Transcript::new();
        self.scroll = 0;
        self.at_end = true;
        let id = util::short(sid);
        let line = text::cat("session ", id.as_str());
        self.push_sys(line.as_str());
    }

    /// Ask for the running turn feed to be stopped, so that nothing is produced for a session nobody
    /// is looking at any more.
    pub fn stop_stream(&mut self)
        ensures
            final(self)@ == old(self)@.feedless(),
    {
        if self.stream.is_some() {
            self.stream = None;
            self.effects.push(Effect::StopFeed);
        }
    }

    /// Push the open session's live state onto its sidebar row.
    ///
    /// A session list reports `running` only as of the moment it was asked for; the turn feed knows
    /// in real time, and this is the row it knows about.
    pub fn sync_open_row(&mut self)
        ensures
            final(self)@ == old(self)@.row_synced(),
    {
        proof {
            reveal(AppView::row_synced);
        }
        let sid = match &self.sid {
            Some(sid) => sid.clone(),
            None => {
                return ;
            },
        };
        let running = self.chat.running;
        let mut changed = false;
        let mut i: usize = 0;
        let ghost start = *self;
        let ghost want = rows_running(start@.sessions, sid@, running);
        while i < self.sessions.len()
            invariant
                i <= self.sessions@.len(),
                self.sessions@.len() == start.sessions@.len(),
                want == rows_running(start@.sessions, sid@, running),
                *self == (App { sessions: self.sessions, ..start }),
                forall|j: int| 0 <= j < i ==> (#[trigger] self.sessions@[j])@ == want[j],
                forall|j: int|
                    i <= j < self.sessions@.len() ==> #[trigger] self.sessions@[j]
                        == start.sessions@[j],
                changed == exists|j: int| 0 <= j < i && #[trigger] want[j] != start@.sessions[j],
            decreases self.sessions@.len() - i,
        {
            let ghost was = changed;
            assert(start@.sessions[i as int] == self.sessions@[i as int]@);
            if text::same(self.sessions[i].id.as_str(), sid.as_str()) && self.sessions[i].running
                != running {
                let row = &self.sessions[i];
                let updated = SessionRow {
                    project_id: row.project_id.clone(),
                    title: row.title.clone(),
                    id: row.id.clone(),
                    running,
                };
                self.sessions.set(i, updated);
                changed = true;
                assert(want[i as int] != start@.sessions[i as int]);
            } else {
                assert(want[i as int] == start@.sessions[i as int]);
            }
            assert(self.sessions@[i as int]@ == want[i as int]);
            i += 1;
        }
        assert(self@.sessions =~= want);
        if changed {
            assert(want != start@.sessions);
            self.rebuild_sidebar();
        } else {
            assert(want =~= start@.sessions) by {
                assert forall|j: int| 0 <= j < want.len() implies want[j] == start@.sessions[j] by {
                    let x = want[j];
                }
            }
        }
    }

    /// Give the open session's row another title.
    pub fn retitle_open_row(&mut self, title: &str)
        ensures
            final(self)@ == old(self)@.retitled(title@),
    {
        proof {
            reveal(AppView::retitled);
        }
        let sid = match &self.sid {
            Some(sid) => sid.clone(),
            None => {
                return ;
            },
        };
        let shown = chat::display_title(Some(title.to_owned()));
        let mut changed = false;
        let mut i: usize = 0;
        let ghost start = *self;
        let ghost want = rows_titled(start@.sessions, sid@, shown@);
        while i < self.sessions.len()
            invariant
                i <= self.sessions@.len(),
                self.sessions@.len() == start.sessions@.len(),
                want == rows_titled(start@.sessions, sid@, shown@),
                *self == (App { sessions: self.sessions, ..start }),
                forall|j: int| 0 <= j < i ==> (#[trigger] self.sessions@[j])@ == want[j],
                forall|j: int|
                    i <= j < self.sessions@.len() ==> #[trigger] self.sessions@[j]
                        == start.sessions@[j],
                changed == exists|j: int| 0 <= j < i && #[trigger] want[j] != start@.sessions[j],
            decreases self.sessions@.len() - i,
        {
            assert(start@.sessions[i as int] == self.sessions@[i as int]@);
            if text::same(self.sessions[i].id.as_str(), sid.as_str()) && !text::same(
                self.sessions[i].title.as_str(),
                shown.as_str(),
            ) {
                let row = &self.sessions[i];
                let updated = SessionRow {
                    project_id: row.project_id.clone(),
                    title: shown.clone(),
                    id: row.id.clone(),
                    running: row.running,
                };
                self.sessions.set(i, updated);
                changed = true;
                assert(want[i as int] != start@.sessions[i as int]);
            } else {
                assert(want[i as int] == start@.sessions[i as int]);
            }
            assert(self.sessions@[i as int]@ == want[i as int]);
            i += 1;
        }
        assert(self@.sessions =~= want);
        if changed {
            assert(want != start@.sessions);
            self.rebuild_sidebar();
        } else {
            assert(want =~= start@.sessions) by {
                assert forall|j: int| 0 <= j < want.len() implies want[j] == start@.sessions[j] by {
                    let x = want[j];
                }
            }
        }
    }

    /// The project label in the input-box info bar, for whichever session is open.
    pub fn sync_current_project(&mut self)
        ensures
            final(self)@ == old(self)@.project_synced(),
    {
        let name = match &self.sid {
            None => String::new(),
            Some(sid) => self.project_of(sid.as_str()),
        };
        self.current_project_name = name;
        assert(self@.current_project_name == old(self)@.open_project());
    }

    fn project_of(&self, sid: &str) -> (name: String)
        requires
            self@.sid == Some(sid@),
        ensures
            name@ == self@.open_project(),
    {
        let mut i: usize = 0;
        while i < self.sessions.len()
            invariant
                i <= self.sessions@.len(),
                self@.sid == Some(sid@),
                row_from(self@.sessions, sid@, 0) == row_from(self@.sessions, sid@, i as int),
            decreases self.sessions@.len() - i,
        {
            assert(self@.sessions[i as int] == self.sessions@[i as int]@);
            if text::same(self.sessions[i].id.as_str(), sid) {
                let row = &self.sessions[i];
                if row.project_id.unicode_len() == 0 {
                    return String::new();
                }
                return match self.project_names.get(row.project_id.as_str()) {
                    Some(name) => name.clone(),
                    None => util::short(row.project_id.as_str()),
                };
            }
            i += 1;
        }
        String::new()
    }

    /// Take over a session list.
    pub fn replace_sessions(&mut self, sessions: Vec<ZSession>)
        ensures
            final(self)@ == old(self)@.listing(text::views(sessions@)),
    {
        proof {
            reveal(AppView::listing);
        }
        let ghost all = text::views(sessions@);
        let mut rest = sessions;
        let mut rows: Vec<SessionRow> = Vec::new();
        assert(text::views(rows@) =~= rows_of(all).take(0));
        assert(text::views(rest@) =~= all.skip(0));
        while rest.len() > 0
            invariant
                rows@.len() + rest@.len() == all.len(),
                text::views(rows@) == rows_of(all).take(rows@.len() as int),
                text::views(rest@) == all.skip(rows@.len() as int),
            decreases rest@.len(),
        {
            let ghost n = rows@.len() as int;
            let ghost before = text::views(rest@);
            assert(before[0] == all[n]);
            proof {
                text::lemma_views_remove_first(rest@);
            }
            let s = rest.remove(0);
            assert(s@ == before[0]);
            rows.push(row(s));
            assert(rows_of(all).take(n + 1) =~= rows_of(all).take(n).push(rows_of(all)[n]));
            assert(all.skip(n).skip(1) =~= all.skip(n + 1));
        }
        assert(rows_of(all).take(rows@.len() as int) =~= rows_of(all));
        self.sessions = rows;
        self.sync_current_project();
        self.rebuild_sidebar();
    }

    /// Put a session at the top of the list.
    pub fn insert_session(&mut self, session: ZSession)
        ensures
            final(self)@ == old(self)@.with_session(session@),
    {
        proof {
            reveal(AppView::with_session);
        }
        let ghost before = self@.sessions;
        let r = row(session);
        self.sessions.insert(0, r);
        assert(self@.sessions =~= seq![row_of(session@)] + before);
        self.sync_current_project();
        self.rebuild_sidebar();
    }

    /// Show a session's usage.
    pub fn apply_usage(&mut self, usage: &ZUsage)
        ensures
            final(self)@ == old(self)@.with_usage(usage@),
    {
        proof {
            reveal(AppView::with_usage);
        }
        self.usage_model = own(&usage.model);
        self.usage_credits_used = own(&usage.credits_used);
        self.usage_context_tokens = show_number(usage.context_tokens);
        self.usage_input_tokens = show_number(usage.input_tokens);
        self.usage_output_tokens = show_number(usage.output_tokens);
        self.usage_total_tokens = show_number(usage.total_tokens);
    }

    // ── Session creation ───────────────────────────────────────

    /// The `(id, name)` pairs a project reference resolves against.
    fn project_refs(&self) -> (r: Vec<(String, String)>)
        ensures
            text::views(r@) == self@.project_names,
    {
        self.project_names.pairs()
    }

    fn agent_refs(&self) -> (r: Vec<(String, String)>)
        ensures
            text::views(r@) == agent_pairs(self@.agents),
    {
        let mut r: Vec<(String, String)> = Vec::new();
        let mut i: usize = 0;
        let ghost want = agent_pairs(self@.agents);
        assert(text::views(r@) =~= want.take(0));
        while i < self.agents.len()
            invariant
                i <= self.agents@.len(),
                want == agent_pairs(self@.agents),
                text::views(r@) == want.take(i as int),
            decreases self.agents@.len() - i,
        {
            r.push((self.agents[i].id.clone(), self.agents[i].name.clone()));
            assert(want.take(i + 1) =~= want.take(i as int).push(want[i as int]));
            i += 1;
        }
        assert(want.take(want.len() as int) =~= want);
        r
    }

    fn first_agent(&self) -> (r: Option<String>)
        ensures
            text::opt_view(r) == (if self@.agents.len() > 0 {
                Some(self@.agents[0].id)
            } else {
                None
            }),
    {
        if self.agents.len() > 0 {
            Some(self.agents[0].id.clone())
        } else {
            None
        }
    }

    /// The session about to be created, with any diagnostics posted, or `None` when there is no
    /// agent to create it against.
    ///
    /// A reference the user asked for but that resolves to nothing is called out rather than
    /// swallowed: silently substituting a default is how a typo puts a session somewhere surprising
    /// with nothing to explain it. Resolution runs only when a session is actually being created,
    /// so an ongoing conversation does not reprint the diagnostic on every message.
    pub fn new_session_spec(&mut self, project_ref: &str, agent_ref: &str) -> (r: Option<
        ZNewSession,
    >)
        ensures
            final(self)@ == old(self)@.diagnosed(project_ref@, agent_ref@),
            text::opt_view(r) == old(self)@.new_session(project_ref@, agent_ref@),
    {
        proof {
            reveal(AppView::diagnosed);
            reveal(AppView::new_session);
        }
        let projects = self.project_refs();
        let project_id = match refs::resolve_ref(project_ref, projects.as_slice()) {
            RefChoice::Resolved(id) => Some(id),
            RefChoice::Unset => None,
            RefChoice::Unresolved(wanted) => {
                let line = text::cat3(
                    "ATTACCA_PROJECT \"",
                    wanted.as_str(),
                    "\" matched no project — using the account default",
                );
                self.push_sys(line.as_str());
                None
            },
        };
        let agents = self.agent_refs();
        let agent_id = match refs::resolve_ref(agent_ref, agents.as_slice()) {
            RefChoice::Resolved(id) => Some(id),
            RefChoice::Unset => self.first_agent(),
            RefChoice::Unresolved(wanted) => {
                let line = text::cat3(
                    "ATTACCA_AGENT \"",
                    wanted.as_str(),
                    "\" matched no agent — using the first one",
                );
                self.push_sys(line.as_str());
                self.first_agent()
            },
        };
        match agent_id {
            None => None,
            Some(agent_id) => Some(
                ZNewSession {
                    agent_id,
                    // Deliberately unset. Attacca names a session from its first message, in that
                    // message's own language, and a title supplied here would be permanent.
                    title: None,
                    project_id,
                    preamble: Some(self.node_brief.preamble()),
                },
            ),
        }
    }

    // ── Sidebar ────────────────────────────────────────────────

    fn listed_projects(&self) -> (order: Vec<String>)
        ensures
            text::views(order@) == order_with(self@.project_order, self@.sessions),
    {
        let mut order: Vec<String> = text::dup_strings(&self.project_order);
        let mut i: usize = 0;
        assert(self@.sessions.take(0) =~= Seq::empty());
        while i < self.sessions.len()
            invariant
                i <= self.sessions@.len(),
                text::views(order@) == order_with(
                    self@.project_order,
                    self@.sessions.take(i as int),
                ),
            decreases self.sessions@.len() - i,
        {
            let ghost next = self@.sessions.take(i + 1);
            assert(next.drop_last() =~= self@.sessions.take(i as int));
            assert(next.last() == self.sessions@[i as int]@);
            if !listed(&order, self.sessions[i].project_id.as_str()) {
                order.push(self.sessions[i].project_id.clone());
            }
            i += 1;
        }
        assert(self@.sessions.take(i as int) =~= self@.sessions);
        order
    }

    fn project_header(&self, pid: &str) -> (name: String)
        ensures
            name@ == project_label(self@.project_names, pid@),
    {
        match self.project_names.get(pid) {
            Some(name) => text::cat("📁 ", name.as_str()),
            None => if pid.unicode_len() == 0 {
                "📁 (no project)".to_owned()
            } else {
                let id = util::short(pid);
                text::cat("📁 ", id.as_str())
            },
        }
    }

    /// The places in the session list of a project's rows.
    fn rows_of_project(&self, pid: &str) -> (r: Vec<usize>)
        ensures
            forall|k: int| 0 <= k < r@.len() ==> #[trigger] r@[k] < self.sessions@.len(),
            Seq::new(r@.len(), |k: int| self@.sessions[r@[k] as int]) == rows_in(
                self@.sessions,
                pid@,
            ),
    {
        let mut r: Vec<usize> = Vec::new();
        let mut i: usize = 0;
        assert(self@.sessions.take(0) =~= Seq::empty());
        assert(Seq::new(r@.len(), |k: int| self@.sessions[r@[k] as int]) =~= Seq::empty());
        while i < self.sessions.len()
            invariant
                i <= self.sessions@.len(),
                forall|k: int| 0 <= k < r@.len() ==> #[trigger] r@[k] < self.sessions@.len(),
                Seq::new(r@.len(), |k: int| self@.sessions[r@[k] as int]) == rows_in(
                    self@.sessions.take(i as int),
                    pid@,
                ),
            decreases self.sessions@.len() - i,
        {
            let ghost next = self@.sessions.take(i + 1);
            let ghost before = Seq::new(r@.len(), |k: int| self@.sessions[r@[k] as int]);
            assert(next.drop_last() =~= self@.sessions.take(i as int));
            assert(next.last() == self.sessions@[i as int]@);
            if text::same(self.sessions[i].project_id.as_str(), pid) {
                r.push(i);
                assert(Seq::new(r@.len(), |k: int| self@.sessions[r@[k] as int]) =~= before.push(
                    next.last(),
                ));
            }
            i += 1;
        }
        assert(self@.sessions.take(i as int) =~= self@.sessions);
        r
    }

    fn push_section(&self, pid: &str, items: &mut Vec<SidebarItem>)
        ensures
            text::views(final(items)@) == text::views(old(items)@) + self@.section(pid@),
    {
        let rows = self.rows_of_project(pid);
        let ghost mine = rows_in(self@.sessions, pid@);
        let ghost start = text::views(items@);
        assert(rows@.len() == mine.len());
        if rows.len() == 0 && self.project_names.get(pid).is_none() {
            assert(start + self@.section(pid@) =~= start);
            return ;
        }
        let name = self.project_header(pid);
        let expanded = self.expanded_projects.contains(pid);
        items.push(
            SidebarItem::ProjectHeader {
                id: pid.to_owned(),
                name,
                expanded,
                session_count: rows.len(),
            },
        );
        let ghost head = text::views(items@);
        let ghost header = head.last();
        assert(head =~= start + seq![header]);
        if expanded {
            let active_id = own(&self.sid);
            let ghost all = session_items(mine, active_id@);
            let mut k: usize = 0;
            assert(head =~= head + all.take(0));
            while k < rows.len()
                invariant
                    k <= rows@.len(),
                    rows@.len() == mine.len(),
                    mine == Seq::new(rows@.len(), |k: int| self@.sessions[rows@[k] as int]),
                    forall|k: int| 0 <= k < rows@.len() ==> #[trigger] rows@[k]
                        < self.sessions@.len(),
                    all == session_items(mine, active_id@),
                    text::views(items@) == head + all.take(k as int),
                decreases rows@.len() - k,
            {
                let s = &self.sessions[rows[k]];
                assert(mine[k as int] == s@);
                let active = text::same(s.id.as_str(), active_id.as_str());
                items.push(
                    SidebarItem::Session {
                        title: s.title.clone(),
                        id: s.id.clone(),
                        active,
                        running: s.running,
                    },
                );
                assert(all.take(k + 1) =~= all.take(k as int).push(all[k as int]));
                assert(text::views(items@) =~= head + all.take(k + 1));
                k += 1;
            }
            assert(all.take(k as int) =~= all);
            assert(text::views(items@) =~= start + (seq![header] + all));
        }
    }

    /// Bring the sidebar up to date with the session list, the projects and what is expanded.
    pub fn rebuild_sidebar(&mut self)
        ensures
            final(self)@ == old(self)@.rebuilt(),
    {
        proof {
            reveal(AppView::rebuilt);
        }
        let order = self.listed_projects();
        let ghost all = text::views(order@);
        let ghost start = self@;
        let mut items: Vec<SidebarItem> = Vec::new();
        let mut i: usize = 0;
        assert(all.take(0) =~= Seq::empty());
        assert(text::views(items@) =~= self@.sections(all.take(0)));
        while i < order.len()
            invariant
                i <= order@.len(),
                all == text::views(order@),
                start == self@,
                text::views(items@) == self@.sections(all.take(i as int)),
            decreases order@.len() - i,
        {
            let ghost next = all.take(i + 1);
            assert(next.drop_last() =~= all.take(i as int));
            assert(next.last() == order@[i as int]@);
            self.push_section(order[i].as_str(), &mut items);
            i += 1;
        }
        assert(all.take(i as int) =~= all);
        items.push(SidebarItem::NewSession);
        let n: usize = items.len();
        let max: usize = n - 1;
        let max_scroll: usize = if max >= 1 {
            max - 1
        } else {
            0
        };
        self.sidebar_items = items;
        if self.sidebar_sel > max {
            self.sidebar_sel = max;
        }
        if self.sidebar_scroll > max_scroll {
            self.sidebar_scroll = max_scroll;
        }
    }

    // ── Persistence ────────────────────────────────────────────

    /// What is kept between restarts.
    pub fn saved_state(&self) -> (r: SavedState)
        ensures
            r@ == self@.saved(),
    {
        let mut sessions: Vec<SavedSession> = Vec::new();
        let ghost want = self@.saved().sessions;
        let mut i: usize = 0;
        assert(text::views(sessions@) =~= want.take(0));
        while i < self.sessions.len()
            invariant
                i <= self.sessions@.len(),
                want == self@.saved().sessions,
                text::views(sessions@) == want.take(i as int),
            decreases self.sessions@.len() - i,
        {
            let s = &self.sessions[i];
            sessions.push(
                SavedSession {
                    project_id: s.project_id.clone(),
                    title: s.title.clone(),
                    id: s.id.clone(),
                },
            );
            assert(want.take(i + 1) =~= want.take(i as int).push(want[i as int]));
            i += 1;
        }
        assert(want.take(i as int) =~= want);
        SavedState {
            sessions,
            last_sid: text::dup_opt(&self.sid),
            last_project_name: self.current_project_name.clone(),
            sidebar_sel: self.sidebar_sel,
            sidebar_scroll: self.sidebar_scroll,
        }
    }
}

} // verus!
