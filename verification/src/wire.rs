//! What the deployment sends: account, agents, projects, sessions, usage and turn frames.

use crate::json::{Json, Tree};
use crate::text;
use vstd::prelude::*;

verus! {

/// Who the node is connected as.
#[derive(Debug, Clone)]
pub struct ZMe {
    pub user_id: String,
    pub email: String,
    pub display_name: String,
    pub scopes: Vec<String>,
    pub plan: Option<String>,
    pub credits: Option<String>,
}

#[verifier::ext_equal]
pub struct MeView {
    pub user_id: Seq<char>,
    pub email: Seq<char>,
    pub display_name: Seq<char>,
    pub scopes: Seq<Seq<char>>,
    pub plan: Option<Seq<char>>,
    pub credits: Option<Seq<char>>,
}

impl View for ZMe {
    type V = MeView;

    open spec fn view(&self) -> MeView {
        MeView {
            user_id: self.user_id@,
            email: self.email@,
            display_name: self.display_name@,
            scopes: text::views(self.scopes@),
            plan: text::opt_view(self.plan),
            credits: text::opt_view(self.credits),
        }
    }
}

/// An agent on the account.
#[derive(Debug, Clone)]
pub struct ZAgent {
    pub id: String,
    pub name: String,
}

#[verifier::ext_equal]
pub struct AgentView {
    pub id: Seq<char>,
    pub name: Seq<char>,
}

impl View for ZAgent {
    type V = AgentView;

    open spec fn view(&self) -> AgentView {
        AgentView { id: self.id@, name: self.name@ }
    }
}

/// A project on the account.
#[derive(Debug, Clone)]
pub struct ZProject {
    pub id: String,
    pub name: String,
    pub is_default: bool,
}

#[verifier::ext_equal]
pub struct ProjectView {
    pub id: Seq<char>,
    pub name: Seq<char>,
    pub is_default: bool,
}

impl View for ZProject {
    type V = ProjectView;

    open spec fn view(&self) -> ProjectView {
        ProjectView { id: self.id@, name: self.name@, is_default: self.is_default }
    }
}

/// A session as the deployment lists it.
#[derive(Debug, Clone)]
pub struct ZSession {
    pub id: String,
    pub title: Option<String>,
    pub project_id: Option<String>,
    pub running: bool,
}

#[verifier::ext_equal]
pub struct SessionView {
    pub id: Seq<char>,
    pub title: Option<Seq<char>>,
    pub project_id: Option<Seq<char>>,
    pub running: bool,
}

impl View for ZSession {
    type V = SessionView;

    open spec fn view(&self) -> SessionView {
        SessionView {
            id: self.id@,
            title: text::opt_view(self.title),
            project_id: text::opt_view(self.project_id),
            running: self.running,
        }
    }
}

/// A session to be created.
#[derive(Debug, Clone)]
pub struct ZNewSession {
    pub agent_id: String,
    pub title: Option<String>,
    pub project_id: Option<String>,
    pub preamble: Option<String>,
}

#[verifier::ext_equal]
pub struct NewSessionView {
    pub agent_id: Seq<char>,
    pub title: Option<Seq<char>>,
    pub project_id: Option<Seq<char>>,
    pub preamble: Option<Seq<char>>,
}

impl View for ZNewSession {
    type V = NewSessionView;

    open spec fn view(&self) -> NewSessionView {
        NewSessionView {
            agent_id: self.agent_id@,
            title: text::opt_view(self.title),
            project_id: text::opt_view(self.project_id),
            preamble: text::opt_view(self.preamble),
        }
    }
}

/// What a session has cost.
#[derive(Debug, Clone)]
pub struct ZUsage {
    pub model: Option<String>,
    pub context_tokens: Option<i64>,
    pub input_tokens: Option<i64>,
    pub output_tokens: Option<i64>,
    pub total_tokens: Option<i64>,
    pub credits_used: Option<String>,
}

#[verifier::ext_equal]
pub struct UsageView {
    pub model: Option<Seq<char>>,
    pub context_tokens: Option<i64>,
    pub input_tokens: Option<i64>,
    pub output_tokens: Option<i64>,
    pub total_tokens: Option<i64>,
    pub credits_used: Option<Seq<char>>,
}

impl View for ZUsage {
    type V = UsageView;

    open spec fn view(&self) -> UsageView {
        UsageView {
            model: text::opt_view(self.model),
            context_tokens: self.context_tokens,
            input_tokens: self.input_tokens,
            output_tokens: self.output_tokens,
            total_tokens: self.total_tokens,
            credits_used: text::opt_view(self.credits_used),
        }
    }
}

/// Which of its two voices a turn is streaming in.
#[derive(Debug, Clone, Copy, PartialEq, Eq, Structural)]
pub enum ZDeltaKind {
    Assistant,
    Reasoning,
}

/// A durable event of a session. Its kind and the shape of its payload are the deployment's.
pub struct ZSessionEvent {
    pub seq: i64,
    pub cursor: i64,
    pub kind: String,
    pub payload: Json,
}

#[verifier::ext_equal]
pub struct EventView {
    pub seq: i64,
    pub cursor: i64,
    pub kind: Seq<char>,
    pub payload: Tree,
}

impl View for ZSessionEvent {
    type V = EventView;

    open spec fn view(&self) -> EventView {
        EventView { seq: self.seq, cursor: self.cursor, kind: self.kind@, payload: self.payload@ }
    }
}

/// One item of a turn feed.
pub enum ZTurnFrame {
    Event { cursor: i64, event: ZSessionEvent },
    Delta { kind: ZDeltaKind, text: String },
    Status { running: bool },
}

#[verifier::ext_equal]
pub enum FrameView {
    Event { cursor: i64, event: EventView },
    Delta { kind: ZDeltaKind, text: Seq<char> },
    Status { running: bool },
}

impl View for ZTurnFrame {
    type V = FrameView;

    open spec fn view(&self) -> FrameView {
        match self {
            ZTurnFrame::Event { cursor, event } => FrameView::Event {
                cursor: *cursor,
                event: event@,
            },
            ZTurnFrame::Delta { kind, text } => FrameView::Delta { kind: *kind, text: text@ },
            ZTurnFrame::Status { running } => FrameView::Status { running: *running },
        }
    }
}

/// A tool that the far end of the connection announces.
#[derive(Debug, Clone)]
pub struct Tool {
    pub name: String,
    /// How the tool hands its data over, as the protocol names it.
    pub transfer: String,
}

#[verifier::ext_equal]
pub struct ToolView {
    pub name: Seq<char>,
    pub transfer: Seq<char>,
}

impl View for Tool {
    type V = ToolView;

    open spec fn view(&self) -> ToolView {
        ToolView { name: self.name@, transfer: self.transfer@ }
    }
}

/// A capability that the far end of the connection announces.
#[derive(Debug, Clone)]
pub struct Capability {
    pub name: String,
    pub version: u32,
    pub tools: Vec<Tool>,
}

#[verifier::ext_equal]
pub struct CapabilityView {
    pub name: Seq<char>,
    pub version: u32,
    pub tools: Seq<ToolView>,
}

impl View for Capability {
    type V = CapabilityView;

    open spec fn view(&self) -> CapabilityView {
        CapabilityView { name: self.name@, version: self.version, tools: text::views(self.tools@) }
    }
}

} // verus!
