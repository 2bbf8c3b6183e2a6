//! The live connection: what is published about it, and what a new one reports.
//!
//! This is the layer between "there is a connection" and "a background task can make a call". It
//! holds no application state. The type parameter is whatever the surrounding program keeps per
//! connection (a socket, a client).

use crate::app::{BgEvent, BgView};
use crate::text;
use crate::wire::{
    AgentView, MeView, ProjectView, SessionView, ZAgent, ZMe, ZProject, ZSession,
};
use vstd::prelude::*;

verus! {

broadcast use {text::lemma_views_push, text::lemma_views_empty};

/// How many seconds to wait for the server's API to be announced. The server announces it
/// immediately after the handshake; this is generous headroom.
pub const CONSUME_WAIT: u64 = 5;

/// How many sessions the sidebar asks for. Shared by the fetch on connect and every later refresh,
/// so the two can never disagree about how much of the list they are looking at.
pub const SESSION_LIMIT: u32 = 200;

/// What this node asks for at enrollment. `events:read` is the one that matters most and is the
/// easiest to miss: without it a turn feed is refused and the chat produces nothing at all.
pub const DEFAULT_SCOPES: [&'static str; 5] = [
    "agents:read",
    "projects:read",
    "sessions:read",
    "sessions:write",
    "events:read",
];

// ── The slot ───────────────────────────────────────────────────

/// One live connection.
pub struct Live<C> {
    pub conn_id: String,
    pub conn: C,
}

/// The current connection, republished on every reconnect.
pub struct ApiSlot<C> {
    pub current: Option<Live<C>>,
}

impl<C> Default for ApiSlot<C> {
    fn default() -> (slot: ApiSlot<C>)
        ensures
            slot.current is None,
    {
        ApiSlot::new()
    }
}

impl<C> ApiSlot<C> {
    /// The id of the connection that is published.
    pub open spec fn id(self) -> Option<Seq<char>> {
        match self.current {
            Some(live) => Some(live.conn_id@),
            None => None,
        }
    }

    pub fn new() -> (slot: ApiSlot<C>)
        ensures
            slot.current is None,
    {
        ApiSlot { current: None }
    }

    /// Publish a connection.
    pub fn set(&mut self, live: Live<C>)
        ensures
            final(self).current == Some(live),
    {
        self.current = Some(live);
    }

    /// Clear only if the slot still holds *this* connection, and say whether it did.
    ///
    /// A blind clear would race a reconnect: the outgoing connection's close handler and the
    /// runner's dial loop wake on the same event, so a late clear could erase the connection the
    /// new one just published and leave every stream parked until the connection after it.
    pub fn clear_if(&mut self, conn_id: &str) -> (cleared: bool)
        ensures
            cleared == (old(self).id() == Some(conn_id@)),
            cleared ==> final(self).current is None,
            !cleared ==> *final(self) == *old(self),
    {
        let mine = match &self.current {
            Some(live) => text::same(live.conn_id.as_str(), conn_id),
            None => false,
        };
        if mine {
            self.current = None;
        }
        mine
    }

    /// The connection that is published.
    pub fn get(&self) -> (r: Option<&Live<C>>)
        ensures
            match r {
                Some(live) => self.current == Some(*live),
                None => self.current is None,
            },
    {
        match &self.current {
            Some(live) => Some(live),
            None => None,
        }
    }
}

// ── On connect ─────────────────────────────────────────────────

/// What became of the four requests that a new connection makes.
pub struct Fetched {
    pub me: Result<ZMe, String>,
    pub projects: Result<Vec<ZProject>, String>,
    pub sessions: Result<Vec<ZSession>, String>,
    pub agents: Result<Vec<ZAgent>, String>,
}

#[verifier::ext_equal]
pub struct FetchedView {
    pub me: Result<MeView, Seq<char>>,
    pub projects: Result<Seq<ProjectView>, Seq<char>>,
    pub sessions: Result<Seq<SessionView>, Seq<char>>,
    pub agents: Result<Seq<AgentView>, Seq<char>>,
}

impl View for Fetched {
    type V = FetchedView;

    open spec fn view(&self) -> FetchedView {
        FetchedView {
            me: match self.me {
                Ok(x) => Ok(x@),
                Err(e) => Err(e@),
            },
            projects: match self.projects {
                Ok(x) => Ok(text::views(x@)),
                Err(e) => Err(e@),
            },
            sessions: match self.sessions {
                Ok(x) => Ok(text::views(x@)),
                Err(e) => Err(e@),
            },
            agents: match self.agents {
                Ok(x) => Ok(text::views(x@)),
                Err(e) => Err(e@),
            },
        }
    }
}

/// What happens to a connection.
pub enum ConnEvent<C> {
    /// The server announced its API, or did not.
    Announced(Result<C, String>),
    Fetched(Fetched),
    Closed(String),
}

/// What a connection has to do next.
#[derive(Debug, Clone, Copy, PartialEq, Eq, Structural)]
pub enum ConnStep {
    /// Ask for the account, the projects, that many sessions and the agents, all at once.
    Fetch { session_limit: u32 },
    AwaitClose,
    Finished,
}

/// What the four requests have to report: each what it got, or that it failed.
pub open spec fn reports(f: FetchedView) -> Seq<BgView> {
    seq![
        match f.me {
            Ok(me) => BgView::Connected(me),
            Err(e) => BgView::Notice("me: "@ + e),
        },
        match f.projects {
            Ok(projects) => BgView::Projects(projects),
            Err(e) => BgView::Notice("list_projects: "@ + e),
        },
        match f.sessions {
            Ok(sessions) => BgView::Sessions(sessions),
            Err(e) => BgView::Notice("list_sessions: "@ + e),
        },
        match f.agents {
            Ok(agents) => BgView::Agents(agents),
            Err(e) => BgView::Notice("list_agents: "@ + e),
        },
    ]
}

/// What a connection's event gives to report.
pub open spec fn conn_reports<C>(event: ConnEvent<C>) -> Seq<BgView> {
    match event {
        ConnEvent::Announced(Ok(_)) => Seq::empty(),
        ConnEvent::Announced(Err(e)) => seq![
            BgView::Notice("server did not announce attacca_api: "@ + e@),
        ],
        ConnEvent::Fetched(f) => reports(f@),
        ConnEvent::Closed(reason) => seq![BgView::Disconnected(reason@)],
    }
}

/// What follows a connection's event.
pub open spec fn conn_next<C>(event: ConnEvent<C>) -> ConnStep {
    match event {
        ConnEvent::Announced(Ok(_)) => ConnStep::Fetch { session_limit: SESSION_LIMIT },
        ConnEvent::Announced(Err(_)) => ConnStep::Finished,
        ConnEvent::Fetched(_) => ConnStep::AwaitClose,
        ConnEvent::Closed(_) => ConnStep::Finished,
    }
}

fn notice(head: &str, e: &str) -> (r: BgEvent)
    ensures
        r@ == BgView::Notice(head@ + e@),
{
    BgEvent::Notice(text::cat(head, e))
}

fn report(f: Fetched) -> (events: Vec<BgEvent>)
    ensures
        text::views(events@) == reports(f@),
{
    let mut events: Vec<BgEvent> = Vec::new();
    events.push(
        match f.me {
            Ok(me) => BgEvent::Connected(Box::new(me)),
            Err(e) => notice("me: ", e.as_str()),
        },
    );
    events.push(
        match f.projects {
            Ok(projects) => BgEvent::Projects(projects),
            Err(e) => notice("list_projects: ", e.as_str()),
        },
    );
    events.push(
        match f.sessions {
            Ok(sessions) => BgEvent::Sessions(sessions),
            Err(e) => notice("list_sessions: ", e.as_str()),
        },
    );
    events.push(
        match f.agents {
            Ok(agents) => BgEvent::Agents(agents),
            Err(e) => notice("list_agents: ", e.as_str()),
        },
    );
    assert(text::views(events@) =~= reports(f@));
    events
}

/// Follow one connection from its establishment to its end.
///
/// Idempotent by construction: everything it reports *replaces* state rather than appending to it,
/// which is what a reconnect needs since this runs anew for every connection. The connection is
/// published before the fetch, so parked session streams resume immediately rather than waiting on
/// four round trips they do not depend on; it is withdrawn when it closes.
///
/// A session's usage is deliberately absent from the fetch: a server that predates it refuses it.
pub fn on_connect<C>(slot: &mut ApiSlot<C>, conn_id: &str, event: ConnEvent<C>) -> (r: (
    Vec<BgEvent>,
    ConnStep,
))
    ensures
        text::views(r.0@) == conn_reports(event),
        r.1 == conn_next(event),
        event matches ConnEvent::Announced(Ok(conn)) ==> final(slot).id() == Some(conn_id@)
            && final(slot).current->0.conn == conn,
        event is Closed && old(slot).id() == Some(conn_id@) ==> final(slot).current is None,
        event is Closed && old(slot).id() != Some(conn_id@) ==> *final(slot) == *old(slot),
        event matches ConnEvent::Announced(Err(_)) ==> *final(slot) == *old(slot),
        event is Fetched ==> *final(slot) == *old(slot),
{
    let mut events: Vec<BgEvent> = Vec::new();
    match event {
        ConnEvent::Announced(Ok(conn)) => {
            slot.set(Live { conn_id: conn_id.to_owned(), conn });
            (events, ConnStep::Fetch { session_limit: SESSION_LIMIT })
        },
        ConnEvent::Announced(Err(e)) => {
            events.push(notice("server did not announce attacca_api: ", e.as_str()));
            assert(text::views(events@) =~= conn_reports(event));
            (events, ConnStep::Finished)
        },
        ConnEvent::Fetched(f) => (report(f), ConnStep::AwaitClose),
        ConnEvent::Closed(reason) => {
            slot.clear_if(conn_id);
            events.push(BgEvent::Disconnected(reason));
            assert(text::views(events@) =~= conn_reports(event));
            (events, ConnStep::Finished)
        },
    }
}

// ── Scopes ─────────────────────────────────────────────────────

/// Those of the wanted scopes that were not granted, in order.
pub open spec fn lacking(wanted: Seq<Seq<char>>, granted: Seq<Seq<char>>) -> Seq<Seq<char>>
    decreases wanted.len(),
{
    if wanted.len() == 0 {
        wanted
    } else {
        let before = lacking(wanted.drop_last(), granted);
        if granted.contains(wanted.last()) {
            before
        } else {
            before.push(wanted.last())
        }
    }
}

/// The scopes that a grant is missing.
pub open spec fn missing(granted: Seq<Seq<char>>) -> Seq<Seq<char>> {
    lacking(text::views(DEFAULT_SCOPES@), granted)
}

/// The scopes in [`DEFAULT_SCOPES`] a grant is missing.
///
/// A credential enrolled by another node is reused as-is, and a refresh never re-requests scopes.
/// Without `events:read` there is no turn feed and therefore no output at all, so the gap is worth
/// naming rather than leaving to be discovered.
pub fn missing_scopes(me: &ZMe) -> (r: Vec<&'static str>)
    ensures
        text::views(r@) == missing(me@.scopes),
{
    let wanted = DEFAULT_SCOPES;
    let ghost all = text::views(wanted@);
    let mut r: Vec<&'static str> = Vec::new();
    let mut i: usize = 0;
    assert(all.take(0) =~= Seq::empty());
    while i < 5
        invariant
            i <= 5,
            all == text::views(wanted@),
            text::views(r@) == lacking(all.take(i as int), me@.scopes),
        decreases 5 - i,
    {
        let ghost next = all.take(i + 1);
        assert(next.drop_last() =~= all.take(i as int));
        assert(next.last() == wanted@[i as int]@);
        if !crate::app::listed(&me.scopes, wanted[i]) {
            r.push(wanted[i]);
        }
        i += 1;
    }
    assert(all.take(5) =~= all);
    r
}

// ── Laws ───────────────────────────────────────────────────────

/// A scope is missing exactly when it is one of the defaults and was not granted.
pub proof fn law_a_missing_scope_was_wanted_and_not_granted(granted: Seq<Seq<char>>, scope: Seq<char>)
    ensures
        missing(granted).contains(scope) <==> text::views(DEFAULT_SCOPES@).contains(scope)
            && !granted.contains(scope),
{
    lemma_lacking(text::views(DEFAULT_SCOPES@), granted, scope);
}

proof fn lemma_lacking(wanted: Seq<Seq<char>>, granted: Seq<Seq<char>>, scope: Seq<char>)
    ensures
        lacking(wanted, granted).contains(scope) <==> wanted.contains(scope) && !granted.contains(
            scope,
        ),
    decreases wanted.len(),
{
    if wanted.len() > 0 {
        let rest = wanted.drop_last();
        let last = wanted.last();
        lemma_lacking(rest, granted, scope);
        let before = lacking(rest, granted);
        assert(wanted =~= rest.push(last));
        text::lemma_push_contains(rest, last, scope);
        text::lemma_push_contains(before, last, scope);
    }
}

} // verus!
