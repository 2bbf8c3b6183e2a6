//! Background work, one reply at a time.
//!
//! A request begins with a [`Step`]: what to report at once, and the call to make, if any. The
//! surrounding program makes the call and hands the reply to the function that goes with it, which
//! gives the next step. A session feed is a [`Feed`]: the surrounding program reads the history,
//! subscribes and forwards, and the feed says from where, what to report and how long to wait.

use crate::app::{BgEvent, BgView};
use crate::text;
use crate::wire::{
    EventView, FrameView, NewSessionView, SessionView, ZNewSession, ZSession,
    ZSessionEvent, ZTurnFrame, ZUsage,
};
use crate::zyris_client::SESSION_LIMIT;
use vstd::prelude::*;

verus! {

broadcast use {text::lemma_views_push, text::lemma_views_empty};

// ── Requests ───────────────────────────────────────────────────

/// A call on the server's API, or on the credential store.
pub enum Call {
    /// Answered to [`session_created`], with `then_send`.
    CreateSession { spec: ZNewSession, then_send: Option<String> },
    /// Answered to [`message_sent`].
    SendMessage { sid: String, text: String },
    /// Answered to [`turn_cancelled`].
    CancelTurn { sid: String },
    /// Answered to [`sessions_listed`].
    ListSessions { limit: u32 },
    /// Answered to [`usage_read`], with `quiet`.
    SessionUsage { sid: String, quiet: bool },
    /// Answered to [`logged_out`].
    Logout,
}

#[verifier::ext_equal]
pub enum CallView {
    CreateSession { spec: NewSessionView, then_send: Option<Seq<char>> },
    SendMessage { sid: Seq<char>, text: Seq<char> },
    CancelTurn { sid: Seq<char> },
    ListSessions { limit: u32 },
    SessionUsage { sid: Seq<char>, quiet: bool },
    Logout,
}

impl View for Call {
    type V = CallView;

    open spec fn view(&self) -> CallView {
        match self {
            Call::CreateSession { spec, then_send } => CallView::CreateSession {
                spec: spec@,
                then_send: text::opt_view(*then_send),
            },
            Call::SendMessage { sid, text } => CallView::SendMessage { sid: sid@, text: text@ },
            Call::CancelTurn { sid } => CallView::CancelTurn { sid: sid@ },
            Call::ListSessions { limit } => CallView::ListSessions { limit: *limit },
            Call::SessionUsage { sid, quiet } => CallView::SessionUsage {
                sid: sid@,
                quiet: *quiet,
            },
            Call::Logout => CallView::Logout,
        }
    }
}

/// One step of a request.
pub enum Step {
    /// Report these, then make the call.
    Waiting { events: Vec<BgEvent>, call: Call },
    /// Report these, and that is all.
    Finished(Vec<BgEvent>),
}

#[verifier::ext_equal]
pub enum StepView {
    Waiting { events: Seq<BgView>, call: CallView },
    Finished(Seq<BgView>),
}

impl View for Step {
    type V = StepView;

    open spec fn view(&self) -> StepView {
        match self {
            Step::Waiting { events, call } => StepView::Waiting {
                events: text::views(events@),
                call: call@,
            },
            Step::Finished(events) => StepView::Finished(text::views(events@)),
        }
    }
}

/// Nothing to report yet.
pub open spec fn waiting(call: CallView) -> StepView {
    StepView::Waiting { events: Seq::empty(), call }
}

/// Over, with nothing to say.
pub open spec fn silent() -> StepView {
    StepView::Finished(seq![BgView::Done])
}

/// Over, with one thing to report.
pub open spec fn over(event: BgView) -> StepView {
    StepView::Finished(seq![event, BgView::Done])
}

/// Over, with a notice.
pub open spec fn noticed(line: Seq<char>) -> StepView {
    over(BgView::Notice(line))
}

/// A request that goes out at once where there is a connection.
pub open spec fn when_connected(connected: bool, call: CallView) -> StepView {
    if connected {
        waiting(call)
    } else {
        noticed("not connected yet"@)
    }
}

/// What is said where there is no agent to create a session against.
pub open spec fn no_agent_line() -> Seq<char> {
    "no agent available — set ATTACCA_AGENT or create one in Attacca"@
}

fn wait_for(call: Call) -> (s: Step)
    ensures
        s@ == waiting(call@),
{
    Step::Waiting { events: Vec::new(), call }
}

fn end() -> (s: Step)
    ensures
        s@ == silent(),
{
    let mut events: Vec<BgEvent> = Vec::new();
    events.push(BgEvent::Done);
    assert(text::views(events@) =~= seq![BgView::Done]);
    Step::Finished(events)
}

fn end_with(event: BgEvent) -> (s: Step)
    ensures
        s@ == over(event@),
{
    let mut events: Vec<BgEvent> = Vec::new();
    events.push(event);
    events.push(BgEvent::Done);
    assert(text::views(events@) =~= seq![event@, BgView::Done]);
    Step::Finished(events)
}

fn end_saying(line: &str) -> (s: Step)
    ensures
        s@ == noticed(line@),
{
    end_with(BgEvent::Notice(line.to_owned()))
}

/// Make a call against the live connection, guaranteeing exactly one [`BgEvent::Done`] in the end.
///
/// The single `Done` is what keeps the caller's busy count honest across every early return,
/// including the not-connected path, which has no call to make at all.
fn rpc(connected: bool, call: Call) -> (s: Step)
    ensures
        s@ == when_connected(connected, call@),
{
    if connected {
        wait_for(call)
    } else {
        end_saying("not connected yet")
    }
}

/// What a message to send begins with.
pub open spec fn sending(
    connected: bool,
    text: Seq<char>,
    sid: Option<Seq<char>>,
    spec: Option<NewSessionView>,
) -> StepView {
    if !connected {
        noticed("not connected yet"@)
    } else {
        match sid {
            Some(sid) => waiting(CallView::SendMessage { sid, text }),
            None => match spec {
                Some(spec) => waiting(CallView::CreateSession { spec, then_send: Some(text) }),
                None => noticed(no_agent_line()),
            },
        }
    }
}

/// Send a message, creating the session first when there is not one yet.
pub fn send(
    connected: bool,
    text: String,
    sid: Option<String>,
    spec: Option<ZNewSession>,
) -> (s: Step)
    ensures
        s@ == sending(connected, text@, text::opt_view(sid), text::opt_view(spec)),
{
    if !connected {
        return end_saying("not connected yet");
    }
    match sid {
        Some(sid) => wait_for(Call::SendMessage { sid, text }),
        None => match spec {
            Some(spec) => wait_for(Call::CreateSession { spec, then_send: Some(text) }),
            None => end_saying("no agent available — set ATTACCA_AGENT or create one in Attacca"),
        },
    }
}

/// What a session to create begins with.
pub open spec fn creating(connected: bool, spec: Option<NewSessionView>) -> StepView {
    if !connected {
        noticed("not connected yet"@)
    } else {
        match spec {
            Some(spec) => waiting(CallView::CreateSession { spec, then_send: None }),
            None => noticed(no_agent_line()),
        }
    }
}

/// Create a session.
pub fn create_session(connected: bool, spec: Option<ZNewSession>) -> (s: Step)
    ensures
        s@ == creating(connected, text::opt_view(spec)),
{
    if !connected {
        return end_saying("not connected yet");
    }
    match spec {
        Some(spec) => wait_for(Call::CreateSession { spec, then_send: None }),
        None => end_saying("no agent available — set ATTACCA_AGENT or create one in Attacca"),
    }
}

/// Stop the turn of a session.
pub fn cancel_turn(connected: bool, sid: String) -> (s: Step)
    ensures
        s@ == when_connected(connected, CallView::CancelTurn { sid: sid@ }),
{
    rpc(connected, Call::CancelTurn { sid })
}

/// Re-read the session list. Event-driven, never on a timer.
///
/// Quiet on failure: this runs off a turn ending, and a failure costs a slightly stale sidebar,
/// which is not worth a line in the transcript every turn.
pub fn refresh_sessions(connected: bool) -> (s: Step)
    ensures
        s@ == when_connected(connected, CallView::ListSessions { limit: SESSION_LIMIT }),
{
    rpc(connected, Call::ListSessions { limit: SESSION_LIMIT })
}

/// Fetch what a session has cost.
///
/// `quiet` separates the two callers. `/usage` asked, so it deserves an answer either way; the
/// refresh at the end of every turn did not, and on a deployment without the tool it would
/// otherwise print the same apology after every single reply.
pub fn session_usage(connected: bool, sid: String, quiet: bool) -> (s: Step)
    ensures
        s@ == when_connected(connected, CallView::SessionUsage { sid: sid@, quiet }),
{
    rpc(connected, Call::SessionUsage { sid, quiet })
}

/// Forget the credential. This needs no connection.
pub fn logout() -> (s: Step)
    ensures
        s@ == waiting(CallView::Logout),
{
    wait_for(Call::Logout)
}

// ── Replies ────────────────────────────────────────────────────

/// What follows the reply to a session to create.
pub open spec fn after_created(
    then_send: Option<Seq<char>>,
    reply: Result<SessionView, Seq<char>>,
) -> StepView {
    match reply {
        Err(e) => noticed("create_session: "@ + e),
        Ok(session) => match then_send {
            None => over(BgView::SessionCreated(session)),
            Some(text) => StepView::Waiting {
                events: seq![BgView::SessionCreated(session)],
                call: CallView::SendMessage { sid: session.id, text },
            },
        },
    }
}

/// The server answered a session to create: report it, and send the message that waits for it.
pub fn session_created(then_send: Option<String>, reply: Result<ZSession, String>) -> (s: Step)
    ensures
        s@ == after_created(
            text::opt_view(then_send),
            match reply {
                Ok(session) => Ok(session@),
                Err(e) => Err(e@),
            },
        ),
{
    match reply {
        Err(e) => {
            let line = text::cat("create_session: ", e.as_str());
            end_saying(line.as_str())
        },
        Ok(session) => match then_send {
            None => end_with(BgEvent::SessionCreated(Box::new(session))),
            Some(text) => {
                let sid = session.id.clone();
                let mut events: Vec<BgEvent> = Vec::new();
                events.push(BgEvent::SessionCreated(Box::new(session)));
                assert(text::views(events@) =~= seq![BgView::SessionCreated(session@)]);
                Step::Waiting { events, call: Call::SendMessage { sid, text } }
            },
        },
    }
}

/// The server answered a message: nothing to say unless it failed.
pub fn message_sent(reply: Result<(), String>) -> (s: Step)
    ensures
        s@ == (match reply {
            Ok(_) => silent(),
            Err(e) => noticed("send_message: "@ + e@),
        }),
{
    match reply {
        Ok(_) => end(),
        Err(e) => {
            let line = text::cat("send_message: ", e.as_str());
            end_saying(line.as_str())
        },
    }
}

/// The server answered a turn to stop.
pub fn turn_cancelled(reply: Result<(), String>) -> (s: Step)
    ensures
        s@ == (match reply {
            Ok(_) => noticed("turn cancelled"@),
            Err(e) => noticed("cancel_turn: "@ + e@),
        }),
{
    match reply {
        Ok(_) => end_saying("turn cancelled"),
        Err(e) => {
            let line = text::cat("cancel_turn: ", e.as_str());
            end_saying(line.as_str())
        },
    }
}

/// The server answered with the session list, or failed, which goes unsaid.
pub fn sessions_listed(reply: Result<Vec<ZSession>, String>) -> (s: Step)
    ensures
        s@ == (match reply {
            Ok(sessions) => over(BgView::Sessions(text::views(sessions@))),
            Err(_) => silent(),
        }),
{
    match reply {
        Ok(sessions) => end_with(BgEvent::Sessions(sessions)),
        Err(_) => end(),
    }
}

/// The server answered with a session's usage, or cannot, which is said once to a user who asked.
pub fn usage_read(quiet: bool, reply: Result<ZUsage, String>) -> (s: Step)
    ensures
        s@ == (match reply {
            Ok(usage) => over(BgView::Usage(usage@)),
            Err(_) => if quiet {
                silent()
            } else {
                noticed("usage is not available on this deployment yet"@)
            },
        }),
{
    match reply {
        Ok(usage) => end_with(BgEvent::Usage(Box::new(usage))),
        Err(_) => if quiet {
            end()
        } else {
            end_saying("usage is not available on this deployment yet")
        },
    }
}

/// The credential store answered.
pub fn logged_out(reply: Result<(), String>) -> (s: Step)
    ensures
        s@ == (match reply {
            Ok(_) => noticed("credential cleared — /login now, or restart"@),
            Err(e) => noticed("logout: "@ + e@),
        }),
{
    match reply {
        Ok(_) => end_saying("credential cleared — /login now, or restart"),
        Err(e) => {
            let line = text::cat("logout: ", e.as_str());
            end_saying(line.as_str())
        },
    }
}

// ── Laws of requests ───────────────────────────────────────────

/// A step is honest about being done: a step that waits reports no `Done`, and a step that is over
/// reports one, as its last event and nowhere else.
pub open spec fn honest(step: StepView) -> bool {
    match step {
        StepView::Waiting { events, .. } => forall|i: int|
            0 <= i < events.len() ==> #[trigger] events[i] != BgView::Done,
        StepView::Finished(events) => events.len() > 0 && events.last() == BgView::Done
            && forall|i: int| 0 <= i < events.len() - 1 ==> #[trigger] events[i] != BgView::Done,
    }
}

/// Every request reports `Done` exactly once, at its end, on every path: with no connection, with
/// nothing to ask for, and whatever the server answers.
pub proof fn law_every_request_is_done_exactly_once(
    connected: bool,
    call: CallView,
    text: Seq<char>,
    sid: Option<Seq<char>>,
    spec: Option<NewSessionView>,
    created: Result<SessionView, Seq<char>>,
    then_send: Option<Seq<char>>,
    event: BgView,
)
    requires
        event != BgView::Done,
    ensures
        honest(when_connected(connected, call)),
        honest(sending(connected, text, sid, spec)),
        honest(creating(connected, spec)),
        honest(after_created(then_send, created)),
        honest(silent()),
        honest(over(event)),
{
}

/// Without a connection a request makes no call: it says so and is done.
pub proof fn law_no_connection_no_call(
    call: CallView,
    text: Seq<char>,
    sid: Option<Seq<char>>,
    spec: Option<NewSessionView>,
)
    ensures
        when_connected(false, call) == noticed("not connected yet"@),
        sending(false, text, sid, spec) == noticed("not connected yet"@),
        creating(false, spec) == noticed("not connected yet"@),
{
}

/// A message waits for at most one session: once the session is there, the message goes to it.
pub proof fn law_a_message_follows_its_session(text: Seq<char>, session: SessionView)
    ensures
        after_created(Some(text), Ok(session)) == (StepView::Waiting {
            events: seq![BgView::SessionCreated(session)],
            call: CallView::SendMessage { sid: session.id, text },
        }),
{
}

// ── The session feed ───────────────────────────────────────────

/// How many milliseconds to wait before subscribing again after a subscription that delivered
/// something.
pub const RESUBSCRIBE_MIN: u64 = 500;

/// Ceiling for the same wait when subscriptions keep coming back empty. A deployment that closes
/// the stream immediately on an idle session would otherwise have this re-dialling twice a second
/// forever.
pub const RESUBSCRIBE_MAX: u64 = 15_000;

/// A feed that follows a session: it reads what has already happened, then stays subscribed to what
/// happens next, and starts over when the subscription ends.
pub struct Feed {
    pub session_id: String,
    /// The highest cursor delivered.
    pub last_cursor: i64,
    /// Whether the current run of failures has been reported. A failure that will not clear would
    /// otherwise post a chat line every retry forever.
    pub reported: bool,
    /// How many milliseconds to wait before the next round.
    pub backoff: u64,
}

/// What one subscription delivered.
pub struct Drained {
    pub events: usize,
    pub max_cursor: i64,
}

#[verifier::ext_equal]
pub struct FeedView {
    pub session_id: Seq<char>,
    pub last_cursor: i64,
    pub reported: bool,
    pub backoff: u64,
}

impl View for Feed {
    type V = FeedView;

    open spec fn view(&self) -> FeedView {
        FeedView {
            session_id: self.session_id@,
            last_cursor: self.last_cursor,
            reported: self.reported,
            backoff: self.backoff,
        }
    }
}

/// The larger of two cursors.
pub open spec fn later(a: i64, b: i64) -> i64 {
    if a < b {
        b
    } else {
        a
    }
}

/// The largest of a cursor and those of some events.
pub open spec fn latest(start: i64, events: Seq<EventView>) -> i64
    decreases events.len(),
{
    if events.len() == 0 {
        start
    } else {
        later(latest(start, events.drop_last()), events.last().cursor)
    }
}

/// Events of the history as frames of the session.
pub open spec fn replayed(session_id: Seq<char>, events: Seq<EventView>) -> Seq<BgView> {
    Seq::new(
        events.len(),
        |i: int|
            BgView::Frame {
                session_id,
                frame: FrameView::Event { cursor: events[i].cursor, event: events[i] },
            },
    )
}

/// The wait after a round that delivered nothing.
pub open spec fn longer(backoff: u64) -> u64 {
    if backoff * 2 < RESUBSCRIBE_MAX {
        (backoff * 2) as u64
    } else {
        RESUBSCRIBE_MAX
    }
}

impl FeedView {
    /// A feed that has delivered nothing yet.
    pub open spec fn fresh(session_id: Seq<char>) -> FeedView {
        FeedView { session_id, last_cursor: 0, reported: false, backoff: RESUBSCRIBE_MIN }
    }

    /// The cursor after which to read the history: none, that is all of it, until something has
    /// been delivered.
    pub open spec fn history_after(self) -> Option<i64> {
        if self.last_cursor > 0 {
            Some(self.last_cursor)
        } else {
            None
        }
    }

    /// With a failure reported.
    pub open spec fn complained(self) -> FeedView {
        FeedView { reported: true, ..self }
    }

    /// What is said of a failure: nothing where the run of failures was reported before.
    pub open spec fn complaint(self, line: Seq<char>) -> Seq<BgView> {
        if self.reported {
            Seq::empty()
        } else {
            seq![BgView::Notice(line)]
        }
    }

    /// With the history read, or not.
    pub open spec fn caught_up(self, history: Result<Seq<EventView>, Seq<char>>) -> FeedView {
        match history {
            Ok(events) => FeedView { last_cursor: latest(self.last_cursor, events), ..self },
            Err(_) => self.complained(),
        }
    }

    /// What the history gives to report.
    pub open spec fn catch_up_reports(self, history: Result<Seq<EventView>, Seq<char>>) -> Seq<
        BgView,
    > {
        match history {
            Ok(events) => replayed(self.session_id, events),
            Err(e) => self.complaint("history: "@ + e),
        }
    }

    /// Subscribed, or not. The head of a subscription says whether a turn is running.
    pub open spec fn subscribed(self, head: Result<bool, Seq<char>>) -> FeedView {
        match head {
            Ok(_) => FeedView { reported: false, ..self },
            Err(_) => FeedView { backoff: longer(self.backoff), ..self.complained() },
        }
    }

    /// What a subscription gives to report.
    pub open spec fn subscribe_reports(self, head: Result<bool, Seq<char>>) -> Seq<BgView> {
        match head {
            Ok(running) => seq![BgView::StreamHead { session_id: self.session_id, running }],
            Err(e) => self.complaint("stream: "@ + e),
        }
    }

    /// With a subscription over.
    pub open spec fn ended(self, events: usize, max_cursor: i64) -> FeedView {
        FeedView {
            last_cursor: later(self.last_cursor, max_cursor),
            backoff: if events > 0 {
                RESUBSCRIBE_MIN
            } else {
                longer(self.backoff)
            },
            ..self
        }
    }
}

fn max_cursor(a: i64, b: i64) -> (r: i64)
    ensures
        r == later(a, b),
{
    if a < b {
        b
    } else {
        a
    }
}

impl Feed {
    /// A feed that has delivered nothing yet.
    pub fn new(session_id: String) -> (f: Feed)
        ensures
            f@ == FeedView::fresh(session_id@),
    {
        Feed { session_id, last_cursor: 0, reported: false, backoff: RESUBSCRIBE_MIN }
    }

    /// The cursor after which to read the history: everything up to now, or everything missed since
    /// the last cursor seen.
    pub fn history_after(&self) -> (r: Option<i64>)
        ensures
            r == self@.history_after(),
    {
        if self.last_cursor > 0 {
            Some(self.last_cursor)
        } else {
            None
        }
    }

    /// The cursor after which to subscribe.
    pub fn subscribe_after(&self) -> (r: Option<i64>)
        ensures
            r == Some(self@.last_cursor),
    {
        Some(self.last_cursor)
    }

    fn complain(&mut self, line: &str) -> (events: Vec<BgEvent>)
        ensures
            final(self)@ == old(self)@.complained(),
            text::views(events@) == old(self)@.complaint(line@),
    {
        let mut events: Vec<BgEvent> = Vec::new();
        if !self.reported {
            self.reported = true;
            events.push(BgEvent::Notice(line.to_owned()));
            assert(text::views(events@) =~= seq![BgView::Notice(line@)]);
        }
        events
    }

    /// The history was read, or could not be.
    pub fn history(&mut self, history: Result<Vec<ZSessionEvent>, String>) -> (events: Vec<BgEvent>)
        ensures
            final(self)@ == old(self)@.caught_up(
                match history {
                    Ok(v) => Ok(text::views(v@)),
                    Err(e) => Err(e@),
                },
            ),
            text::views(events@) == old(self)@.catch_up_reports(
                match history {
                    Ok(v) => Ok(text::views(v@)),
                    Err(e) => Err(e@),
                },
            ),
    {
        match history {
            Ok(v) => self.replay(v),
            Err(e) => {
                let line = text::cat("history: ", e.as_str());
                self.complain(line.as_str())
            },
        }
    }

    fn replay(&mut self, history: Vec<ZSessionEvent>) -> (events: Vec<BgEvent>)
        ensures
            final(self)@ == (FeedView {
                last_cursor: latest(old(self)@.last_cursor, text::views(history@)),
                ..old(self)@
            }),
            text::views(events@) == replayed(old(self)@.session_id, text::views(history@)),
    {
        let ghost all = text::views(history@);
        let ghost want = replayed(self@.session_id, all);
        let ghost start = self@;
        let ghost mut n: int = 0;
        let mut rest = history;
        let mut events: Vec<BgEvent> = Vec::new();
        assert(all.take(0) =~= Seq::empty());
        assert(text::views(rest@) =~= all.skip(0));
        assert(text::views(events@) =~= want.take(0));
        while rest.len() > 0
            invariant
                0 <= n <= all.len(),
                n + rest@.len() == all.len(),
                want == replayed(start.session_id, all),
                text::views(rest@) == all.skip(n),
                text::views(events@) == want.take(n),
                self@ == (FeedView { last_cursor: latest(start.last_cursor, all.take(n)), ..start }),
            decreases rest@.len(),
        {
            let ghost next = all.take(n + 1);
            assert(next.drop_last() =~= all.take(n));
            assert(text::views(rest@)[0] == all[n]);
            proof {
                text::lemma_views_remove_first(rest@);
            }
            let event = rest.remove(0);
            self.last_cursor = max_cursor(self.last_cursor, event.cursor);
            events.push(
                BgEvent::Frame {
                    session_id: self.session_id.clone(),
                    frame: ZTurnFrame::Event { cursor: event.cursor, event },
                },
            );
            assert(want.take(n + 1) =~= want.take(n).push(want[n]));
            assert(all.skip(n).skip(1) =~= all.skip(n + 1));
            proof {
                n = n + 1;
            }
        }
        assert(all.take(n) =~= all);
        assert(want.take(n) =~= want);
        events
    }

    /// The subscription was accepted, with a turn running or not, or was refused.
    pub fn subscribed(&mut self, head: Result<bool, String>) -> (events: Vec<BgEvent>)
        requires
            old(self)@.backoff <= RESUBSCRIBE_MAX,
        ensures
            final(self)@ == old(self)@.subscribed(
                match head {
                    Ok(running) => Ok(running),
                    Err(e) => Err(e@),
                },
            ),
            text::views(events@) == old(self)@.subscribe_reports(
                match head {
                    Ok(running) => Ok(running),
                    Err(e) => Err(e@),
                },
            ),
    {
        match head {
            Ok(running) => {
                self.reported = false;
                let mut events: Vec<BgEvent> = Vec::new();
                events.push(
                    BgEvent::StreamHead { session_id: self.session_id.clone(), running },
                );
                assert(text::views(events@) =~= seq![
                    BgView::StreamHead { session_id: self@.session_id, running },
                ]);
                events
            },
            Err(e) => {
                let line = text::cat("stream: ", e.as_str());
                let events = self.complain(line.as_str());
                self.wait_longer();
                events
            },
        }
    }

    fn wait_longer(&mut self)
        requires
            old(self)@.backoff <= RESUBSCRIBE_MAX,
        ensures
            final(self)@ == (FeedView { backoff: longer(old(self)@.backoff), ..old(self)@ }),
    {
        self.backoff =
        if self.backoff * 2 < RESUBSCRIBE_MAX {
            self.backoff * 2
        } else {
            RESUBSCRIBE_MAX
        };
    }

    /// A frame arrived: report it, and count it where it is durable.
    pub fn item(&self, drained: &mut Drained, frame: ZTurnFrame) -> (event: BgEvent)
        requires
            old(drained).events < usize::MAX,
        ensures
            event@ == (BgView::Frame { session_id: self@.session_id, frame: frame@ }),
            match frame@ {
                FrameView::Event { cursor, .. } => final(drained).events == old(drained).events + 1
                    && final(drained).max_cursor == later(old(drained).max_cursor, cursor),
                _ => *final(drained) == *old(drained),
            },
    {
        if let ZTurnFrame::Event { cursor, .. } = &frame {
            drained.events = drained.events + 1;
            drained.max_cursor = max_cursor(drained.max_cursor, *cursor);
        }
        BgEvent::Frame { session_id: self.session_id.clone(), frame }
    }

    /// The subscription is over.
    pub fn ended(&mut self, drained: &Drained)
        requires
            old(self)@.backoff <= RESUBSCRIBE_MAX,
        ensures
            final(self)@ == old(self)@.ended(drained.events, drained.max_cursor),
    {
        self.last_cursor = max_cursor(self.last_cursor, drained.max_cursor);
        if drained.events > 0 {
            self.backoff = RESUBSCRIBE_MIN;
        } else {
            self.wait_longer();
        }
    }
}

impl Drained {
    /// Nothing delivered yet.
    pub fn new() -> (d: Drained)
        ensures
            d.events == 0,
            d.max_cursor == 0,
    {
        Drained { events: 0, max_cursor: 0 }
    }
}

// ── The supervisor of a feed ───────────────────────────────────

/// A session that is followed: its feed, and what the subscription at hand has delivered.
pub struct SessionStream {
    pub feed: Feed,
    pub drained: Drained,
}

#[verifier::ext_equal]
pub struct StreamView {
    pub feed: FeedView,
    pub events: usize,
    pub max_cursor: i64,
}

impl View for SessionStream {
    type V = StreamView;

    open spec fn view(&self) -> StreamView {
        StreamView {
            feed: self.feed@,
            events: self.drained.events,
            max_cursor: self.drained.max_cursor,
        }
    }
}

/// What became of the last step.
pub enum StreamEvent {
    Started,
    /// A connection is live.
    Connected,
    History(Result<Vec<ZSessionEvent>, String>),
    /// The subscription was accepted, with a turn running or not, or was refused.
    Subscribed(Result<bool, String>),
    Item(ZTurnFrame),
    /// The subscription is over, or broke.
    Ended,
    Slept,
}

#[verifier::ext_equal]
pub enum StreamEventView {
    Started,
    Connected,
    History(Result<Seq<EventView>, Seq<char>>),
    Subscribed(Result<bool, Seq<char>>),
    Item(FrameView),
    Ended,
    Slept,
}

impl View for StreamEvent {
    type V = StreamEventView;

    open spec fn view(&self) -> StreamEventView {
        match self {
            StreamEvent::Started => StreamEventView::Started,
            StreamEvent::Connected => StreamEventView::Connected,
            StreamEvent::History(h) => StreamEventView::History(
                match h {
                    Ok(v) => Ok(text::views(v@)),
                    Err(e) => Err(e@),
                },
            ),
            StreamEvent::Subscribed(head) => StreamEventView::Subscribed(
                match head {
                    Ok(running) => Ok(*running),
                    Err(e) => Err(e@),
                },
            ),
            StreamEvent::Item(frame) => StreamEventView::Item(frame@),
            StreamEvent::Ended => StreamEventView::Ended,
            StreamEvent::Slept => StreamEventView::Slept,
        }
    }
}

/// The next thing to do for a session that is followed.
#[derive(Debug, Clone, Copy, PartialEq, Eq, Structural)]
pub enum StreamStep {
    /// Park until a connection is live.
    AwaitConnection,
    ReadHistory { after: Option<i64> },
    Subscribe { after: Option<i64> },
    AwaitItem,
    /// Wait so many milliseconds.
    Sleep { millis: u64 },
}

impl StreamView {
    /// The waits are within their bounds.
    pub open spec fn bounded(self) -> bool {
        RESUBSCRIBE_MIN <= self.feed.backoff <= RESUBSCRIBE_MAX
    }

    /// With what became of a step taken in.
    pub open spec fn after(self, ev: StreamEventView) -> StreamView {
        match ev {
            StreamEventView::History(h) => StreamView { feed: self.feed.caught_up(h), ..self },
            StreamEventView::Subscribed(head) => StreamView {
                feed: self.feed.subscribed(head),
                events: 0,
                max_cursor: 0,
            },
            StreamEventView::Item(FrameView::Event { cursor, .. }) => StreamView {
                events: (self.events + 1) as usize,
                max_cursor: later(self.max_cursor, cursor),
                ..self
            },
            StreamEventView::Ended => StreamView {
                feed: self.feed.ended(self.events, self.max_cursor),
                ..self
            },
            _ => self,
        }
    }

    /// What there is to report of it.
    pub open spec fn reports(self, ev: StreamEventView) -> Seq<BgView> {
        match ev {
            StreamEventView::History(h) => self.feed.catch_up_reports(h),
            StreamEventView::Subscribed(head) => self.feed.subscribe_reports(head),
            StreamEventView::Item(frame) => seq![
                BgView::Frame { session_id: self.feed.session_id, frame },
            ],
            _ => Seq::empty(),
        }
    }

    /// What follows it, in the state it left: a connection, the history, a subscription, its items
    /// until it ends, and a wait before the next round.
    pub open spec fn next(self, ev: StreamEventView) -> StreamStep {
        match ev {
            StreamEventView::Started => StreamStep::AwaitConnection,
            StreamEventView::Slept => StreamStep::AwaitConnection,
            StreamEventView::Connected => StreamStep::ReadHistory {
                after: self.feed.history_after(),
            },
            StreamEventView::History(_) => StreamStep::Subscribe {
                after: Some(self.feed.last_cursor),
            },
            StreamEventView::Subscribed(Ok(_)) => StreamStep::AwaitItem,
            StreamEventView::Item(_) => StreamStep::AwaitItem,
            _ => StreamStep::Sleep { millis: self.feed.backoff },
        }
    }
}

impl SessionStream {
    /// A session to follow.
    pub fn new(session_id: String) -> (s: SessionStream)
        ensures
            s@ == (StreamView { feed: FeedView::fresh(session_id@), events: 0, max_cursor: 0 }),
            s@.bounded(),
    {
        SessionStream { feed: Feed::new(session_id), drained: Drained::new() }
    }
}

/// Follow a session: read what has already happened, then stay subscribed to what happens next.
///
/// The two calls divide cleanly, and the difference in how they read `after` is the whole reason to
/// use both. The history with no `after` is the entire timeline, which is how a session opens; a
/// subscription carries what happens from now on. So history catches up and the stream takes over,
/// and each reconnect repeats the pair: the catch-up closes whatever gap the disconnection left.
///
/// Takes in what became of the last step, and says what to report and what to do next. The caller
/// performs it, on whatever connection is then live.
pub fn spawn_session_stream(stream: &mut SessionStream, ev: StreamEvent) -> (r: (
    Vec<BgEvent>,
    StreamStep,
))
    requires
        old(stream)@.bounded(),
        ev is Item ==> old(stream)@.events < usize::MAX,
    ensures
        final(stream)@ == old(stream)@.after(ev@),
        final(stream)@.bounded(),
        text::views(r.0@) == old(stream)@.reports(ev@),
        r.1 == old(stream)@.after(ev@).next(ev@),
{
    match ev {
        StreamEvent::Started | StreamEvent::Slept => (Vec::new(), StreamStep::AwaitConnection),
        StreamEvent::Connected => {
            (Vec::new(), StreamStep::ReadHistory { after: stream.feed.history_after() })
        },
        StreamEvent::History(history) => {
            let events = stream.feed.history(history);
            (events, StreamStep::Subscribe { after: stream.feed.subscribe_after() })
        },
        StreamEvent::Subscribed(head) => {
            let accepted = head.is_ok();
            let events = stream.feed.subscribed(head);
            stream.drained = Drained::new();
            if accepted {
                (events, StreamStep::AwaitItem)
            } else {
                (events, StreamStep::Sleep { millis: stream.feed.backoff })
            }
        },
        StreamEvent::Item(frame) => {
            let event = stream.feed.item(&mut stream.drained, frame);
            let mut events: Vec<BgEvent> = Vec::new();
            events.push(event);
            assert(text::views(events@) =~= seq![event@]);
            (events, StreamStep::AwaitItem)
        },
        StreamEvent::Ended => {
            stream.feed.ended(&stream.drained);
            (Vec::new(), StreamStep::Sleep { millis: stream.feed.backoff })
        },
    }
}

/// A session that is followed catches up before it subscribes, and subscribes after everything that
/// the catch-up delivered.
pub proof fn law_a_stream_catches_up_before_it_subscribes(
    s: StreamView,
    history: Result<Seq<EventView>, Seq<char>>,
)
    ensures
        s.next(StreamEventView::Connected) == (StreamStep::ReadHistory {
            after: s.feed.history_after(),
        }),
        ({
            let ev = StreamEventView::History(history);
            let cursor = s.after(ev).feed.last_cursor;
            &&& s.after(ev).next(ev) == (StreamStep::Subscribe { after: Some(cursor) })
            &&& cursor >= s.feed.last_cursor
            &&& history matches Ok(read) ==> forall|i: int|
                0 <= i < read.len() ==> cursor >= #[trigger] read[i].cursor
        }),
{
    if let Ok(read) = history {
        lemma_latest(s.feed.last_cursor, read);
    }
}

/// A subscription's durable events are never asked for again: once it is over, the next round reads
/// the history after the latest of them.
pub proof fn law_a_stream_resumes_after_what_it_delivered(s: StreamView, cursor: i64, event: EventView)
    requires
        cursor > 0,
        s.events < usize::MAX,
    ensures
        ({
            let heard = s.after(StreamEventView::Item(FrameView::Event { cursor, event }));
            let over = heard.after(StreamEventView::Ended);
            &&& over.next(StreamEventView::Connected) == (StreamStep::ReadHistory {
                after: Some(over.feed.last_cursor),
            })
            &&& over.feed.last_cursor >= cursor
            &&& over.feed.backoff == RESUBSCRIBE_MIN
        }),
{
}

// ── Laws of the feed ───────────────────────────────────────────

/// The cursor a feed resumes from never goes back.
pub proof fn law_a_feed_never_goes_back(
    f: FeedView,
    history: Result<Seq<EventView>, Seq<char>>,
    head: Result<bool, Seq<char>>,
    events: usize,
    max_cursor: i64,
)
    ensures
        f.caught_up(history).last_cursor >= f.last_cursor,
        f.subscribed(head).last_cursor == f.last_cursor,
        f.ended(events, max_cursor).last_cursor >= f.last_cursor,
        f.ended(events, max_cursor).last_cursor >= max_cursor,
        history matches Ok(read) ==> forall|i: int|
            0 <= i < read.len() ==> f.caught_up(history).last_cursor >= #[trigger] read[i].cursor,
{
    if let Ok(read) = history {
        lemma_latest(f.last_cursor, read);
    }
}

proof fn lemma_latest(start: i64, events: Seq<EventView>)
    ensures
        latest(start, events) >= start,
        forall|i: int| 0 <= i < events.len() ==> latest(start, events) >= #[trigger] events[i].cursor,
    decreases events.len(),
{
    if events.len() > 0 {
        let rest = events.drop_last();
        lemma_latest(start, rest);
        assert forall|i: int| 0 <= i < events.len() implies latest(start, events)
            >= #[trigger] events[i].cursor by {
            if i < rest.len() {
                assert(rest[i] == events[i]);
            }
        }
    }
}

/// A feed reads the whole history until it has delivered something, and from then on only what came
/// after the last cursor; it subscribes after that same cursor.
pub proof fn law_a_feed_resumes_where_it_stopped(f: FeedView, events: Seq<EventView>)
    ensures
        FeedView::fresh(f.session_id).history_after() is None,
        f.caught_up(Ok(events)).last_cursor > 0 ==> f.caught_up(Ok(events)).history_after() == Some(
            latest(f.last_cursor, events),
        ),
        f.catch_up_reports(Ok(events)).len() == events.len(),
{
}

/// The wait between rounds stays between the floor and the ceiling, grows while rounds come back
/// empty, and is back at the floor after a round that delivered something.
pub proof fn law_the_wait_is_bounded(
    f: FeedView,
    history: Result<Seq<EventView>, Seq<char>>,
    head: Result<bool, Seq<char>>,
    events: usize,
    max_cursor: i64,
)
    requires
        RESUBSCRIBE_MIN <= f.backoff <= RESUBSCRIBE_MAX,
    ensures
        RESUBSCRIBE_MIN <= FeedView::fresh(f.session_id).backoff <= RESUBSCRIBE_MAX,
        f.caught_up(history).backoff == f.backoff,
        RESUBSCRIBE_MIN <= f.subscribed(head).backoff <= RESUBSCRIBE_MAX,
        RESUBSCRIBE_MIN <= f.ended(events, max_cursor).backoff <= RESUBSCRIBE_MAX,
        events > 0 ==> f.ended(events, max_cursor).backoff == RESUBSCRIBE_MIN,
        events == 0 ==> f.ended(events, max_cursor).backoff >= f.backoff,
        events == 0 && f.backoff < RESUBSCRIBE_MAX ==> f.ended(events, max_cursor).backoff
            > f.backoff,
{
}

/// A run of failures is reported once: a failure after a reported failure says nothing, and only a
/// subscription that is accepted ends the run.
pub proof fn law_a_run_of_failures_is_reported_once(f: FeedView, e: Seq<char>, running: bool)
    ensures
        f.caught_up(Err(e)).reported,
        f.subscribed(Err(e)).reported,
        f.reported ==> f.catch_up_reports(Err(e)).len() == 0 && f.subscribe_reports(Err(e)).len()
            == 0,
        !f.reported ==> f.catch_up_reports(Err(e)).len() == 1 && f.subscribe_reports(Err(e)).len()
            == 1,
        !f.subscribed(Ok(running)).reported,
{
}

} // verus!
