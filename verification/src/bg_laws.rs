//! Laws of requests and of the session feed: what is called, what is reported, and in what order.

use crate::app::BgView;
use crate::bg::{self, CallView, FeedView, StepView, StreamEventView, StreamStep, StreamView};
use crate::wire::{EventView, FrameView, NewSessionView, SessionView};
use vstd::prelude::*;

verus! {

// ── Requests ───────────────────────────────────────────────────

/// With a connection, a message goes to the session it is meant for, as it was written, and nothing
/// is reported before the server answers.
pub proof fn law_a_message_goes_out_as_written(
    text: Seq<char>,
    sid: Seq<char>,
    spec: Option<NewSessionView>,
)
    ensures
        bg::sending(true, text, Some(sid), spec) == (StepView::Waiting {
            events: Seq::empty(),
            call: CallView::SendMessage { sid, text },
        }),
{
}

/// A message without a session asks for one, by the spec at hand, and waits with it, word for word.
/// Creating a session alone asks for the same one, with nothing to send.
pub proof fn law_a_session_is_asked_for_by_its_spec(text: Seq<char>, spec: NewSessionView)
    ensures
        bg::sending(true, text, None, Some(spec)) == (StepView::Waiting {
            events: Seq::empty(),
            call: CallView::CreateSession { spec, then_send: Some(text) },
        }),
        bg::creating(true, Some(spec)) == (StepView::Waiting {
            events: Seq::empty(),
            call: CallView::CreateSession { spec, then_send: None },
        }),
{
}

/// Where there is no agent to ask for a session, that is said, nothing is called, and the request is
/// done.
pub proof fn law_no_agent_is_called_out(text: Seq<char>)
    ensures
        ({
            let said = StepView::Finished(
                seq![
                    BgView::Notice(
                        "no agent available — set ATTACCA_AGENT or create one in Attacca"@,
                    ),
                    BgView::Done,
                ],
            );
            &&& bg::sending(true, text, None, None) == said
            &&& bg::creating(true, None) == said
        }),
{
}

/// A request that needs a connection makes its own call where there is one, and says so and is done
/// where there is none.
pub proof fn law_a_call_needs_a_connection(
    call: CallView,
    text: Seq<char>,
    sid: Option<Seq<char>>,
    spec: Option<NewSessionView>,
)
    ensures
        bg::when_connected(true, call) == (StepView::Waiting { events: Seq::empty(), call }),
        bg::waiting(call) == (StepView::Waiting { events: Seq::empty(), call }),
        ({
            let said = StepView::Finished(
                seq![BgView::Notice("not connected yet"@), BgView::Done],
            );
            &&& bg::when_connected(false, call) == said
            &&& bg::sending(false, text, sid, spec) == said
            &&& bg::creating(false, spec) == said
        }),
{
}

/// A reply that ends a request is reported once, followed by the end of the request and by nothing
/// else.
pub proof fn law_a_reply_is_reported_once(event: BgView, line: Seq<char>)
    ensures
        bg::over(event) == StepView::Finished(seq![event, BgView::Done]),
        bg::noticed(line) == StepView::Finished(seq![BgView::Notice(line), BgView::Done]),
        bg::silent() == StepView::Finished(seq![BgView::Done]),
{
}

/// A session that was created is reported, and a session that could not be is called out with the
/// server's own words: the message that waited for it is then not sent.
pub proof fn law_a_created_session_is_reported(
    session: SessionView,
    e: Seq<char>,
    then_send: Option<Seq<char>>,
)
    ensures
        bg::after_created(None, Ok(session)) == StepView::Finished(
            seq![BgView::SessionCreated(session), BgView::Done],
        ),
        bg::after_created(then_send, Err(e)) == StepView::Finished(
            seq![BgView::Notice("create_session: "@ + e), BgView::Done],
        ),
{
}

// ── The feed ───────────────────────────────────────────────────

/// Each item of a subscription is forwarded once, unchanged, whatever it is, under the session that
/// is followed; and the stream goes on listening.
pub proof fn law_every_item_is_forwarded(s: StreamView, frame: FrameView)
    ensures
        ({
            let ev = StreamEventView::Item(frame);
            &&& s.reports(ev) == seq![
                BgView::Frame { session_id: s.feed.session_id, frame },
            ]
            &&& s.after(ev).feed == s.feed
            &&& s.after(ev).next(ev) == StreamStep::AwaitItem
        }),
{
}

/// The history is replayed event by event, in its order, each one once and unchanged, under its own
/// cursor; and of the feed only the cursor moves, to that of some event.
pub proof fn law_the_history_is_replayed(s: StreamView, events: Seq<EventView>)
    ensures
        ({
            let ev = StreamEventView::History(Ok(events));
            let u = s.after(ev);
            &&& s.reports(ev).len() == events.len()
            &&& forall|i: int|
                0 <= i < events.len() ==> #[trigger] s.reports(ev)[i] == (BgView::Frame {
                    session_id: s.feed.session_id,
                    frame: FrameView::Event { cursor: events[i].cursor, event: events[i] },
                })
            &&& u.feed == (FeedView { last_cursor: u.feed.last_cursor, ..s.feed })
            &&& u.feed.last_cursor == s.feed.last_cursor || exists|i: int|
                0 <= i < events.len() && u.feed.last_cursor == #[trigger] events[i].cursor
            &&& u.feed.last_cursor >= s.feed.last_cursor
            &&& forall|i: int|
                0 <= i < events.len() ==> u.feed.last_cursor >= #[trigger] events[i].cursor
        }),
{
    lemma_latest_is_reached(s.feed.last_cursor, events);
}

proof fn lemma_latest_is_reached(start: i64, events: Seq<EventView>)
    ensures
        bg::latest(start, events) >= start,
        bg::latest(start, events) == start || exists|i: int|
            0 <= i < events.len() && bg::latest(start, events) == #[trigger] events[i].cursor,
        forall|i: int|
            0 <= i < events.len() ==> bg::latest(start, events) >= #[trigger] events[i].cursor,
    decreases events.len(),
{
    if events.len() > 0 {
        let rest = events.drop_last();
        let last = events.len() - 1;
        lemma_latest_is_reached(start, rest);
        assert(events[last].cursor == events.last().cursor);
        assert forall|i: int| 0 <= i < events.len() implies bg::latest(start, events)
            >= #[trigger] events[i].cursor by {
            if i < last {
                assert(rest[i] == events[i]);
            }
        }
        if bg::latest(start, events) != start && bg::latest(start, events) != events[last].cursor {
            let i = choose|i: int|
                0 <= i < rest.len() && bg::latest(start, rest) == #[trigger] rest[i].cursor;
            assert(events[i].cursor == rest[i].cursor);
        }
    }
}

/// The head of a subscription is reported for the session that is followed, with what it says of the
/// turn; a subscription starts with nothing heard, and clears the run of failures.
pub proof fn law_the_head_is_reported(s: StreamView, running: bool)
    ensures
        ({
            let ev = StreamEventView::Subscribed(Ok(running));
            &&& s.reports(ev) == seq![
                BgView::StreamHead { session_id: s.feed.session_id, running },
            ]
            &&& s.after(ev) == (StreamView {
                feed: FeedView { reported: false, ..s.feed },
                events: 0,
                max_cursor: 0,
            })
            &&& s.after(ev).next(ev) == StreamStep::AwaitItem
        }),
{
}

/// A history that cannot be read is called out with the server's own words, unless the run of
/// failures was called out before, and the stream subscribes all the same; a subscription that is
/// refused is called out likewise, and the stream waits, twice as long as before up to the ceiling.
pub proof fn law_a_failure_is_called_out(s: StreamView, e: Seq<char>)
    requires
        s.bounded(),
    ensures
        ({
            let read = StreamEventView::History(Err(e));
            let joined = StreamEventView::Subscribed(Err(e));
            let wait = if s.feed.backoff >= 7_500 {
                15_000
            } else {
                2 * s.feed.backoff
            };
            &&& s.reports(read) == (if s.feed.reported {
                Seq::empty()
            } else {
                seq![BgView::Notice("history: "@ + e)]
            })
            &&& s.reports(joined) == (if s.feed.reported {
                Seq::empty()
            } else {
                seq![BgView::Notice("stream: "@ + e)]
            })
            &&& s.after(read).feed == (FeedView { reported: true, ..s.feed })
            &&& s.after(read).next(read) == (StreamStep::Subscribe {
                after: Some(s.feed.last_cursor),
            })
            &&& s.after(joined).feed == (FeedView {
                reported: true,
                backoff: wait as u64,
                ..s.feed
            })
            &&& s.after(joined).next(joined) == (StreamStep::Sleep { millis: wait as u64 })
        }),
{
}

/// A stream with a subscription's items taken in, one after the other.
pub open spec fn heard(s: StreamView, frames: Seq<FrameView>) -> StreamView
    decreases frames.len(),
{
    if frames.len() == 0 {
        s
    } else {
        heard(s, frames.drop_last()).after(StreamEventView::Item(frames.last()))
    }
}

/// What there is to report of a subscription's items, one after the other.
pub open spec fn told(s: StreamView, frames: Seq<FrameView>) -> Seq<BgView>
    decreases frames.len(),
{
    if frames.len() == 0 {
        Seq::empty()
    } else {
        told(s, frames.drop_last()) + heard(s, frames.drop_last()).reports(
            StreamEventView::Item(frames.last()),
        )
    }
}

/// How many of a subscription's items are durable.
pub open spec fn durable(frames: Seq<FrameView>) -> nat {
    frames.filter(|f: FrameView| f is Event).len()
}

/// A whole subscription is forwarded: one report for each item, in the order they came, none lost,
/// none added, none changed.
pub proof fn law_a_subscription_is_forwarded_in_order(s: StreamView, frames: Seq<FrameView>)
    ensures
        told(s, frames).len() == frames.len(),
        forall|i: int|
            0 <= i < frames.len() ==> #[trigger] told(s, frames)[i] == (BgView::Frame {
                session_id: s.feed.session_id,
                frame: frames[i],
            }),
        heard(s, frames).feed == s.feed,
    decreases frames.len(),
{
    if frames.len() > 0 {
        let rest = frames.drop_last();
        law_a_subscription_is_forwarded_in_order(s, rest);
        assert forall|i: int| 0 <= i < frames.len() implies #[trigger] told(s, frames)[i]
            == (BgView::Frame { session_id: s.feed.session_id, frame: frames[i] }) by {
            if i < rest.len() {
                assert(told(s, frames)[i] == told(s, rest)[i]);
                assert(rest[i] == frames[i]);
            }
        }
    }
}

/// A subscription counts its durable items and no others, and knows the highest cursor among them.
pub proof fn law_a_subscription_counts_what_is_durable(s: StreamView, frames: Seq<FrameView>)
    requires
        s.events + frames.len() <= usize::MAX,
    ensures
        heard(s, frames).events == s.events + durable(frames),
        durable(frames) <= frames.len(),
        heard(s, frames).max_cursor >= s.max_cursor,
        forall|i: int|
            0 <= i < frames.len() && #[trigger] frames[i] is Event ==> heard(s, frames).max_cursor
                >= frames[i]->cursor,
        heard(s, frames).max_cursor == s.max_cursor || exists|i: int|
            0 <= i < frames.len() && #[trigger] frames[i] is Event && heard(s, frames).max_cursor
                == frames[i]->cursor,
    decreases frames.len(),
{
    let p = |f: FrameView| f is Event;
    if frames.len() == 0 {
        assert(frames.filter(p) =~= Seq::empty()) by {
            reveal(Seq::filter);
        }
    } else {
        let rest = frames.drop_last();
        let n = rest.len() as int;
        law_a_subscription_counts_what_is_durable(s, rest);
        assert(durable(frames) == durable(rest) + (if frames.last() is Event {
            1nat
        } else {
            0nat
        })) by {
            reveal(Seq::filter);
        }
        assert(frames[n] == frames.last());
        assert forall|i: int| 0 <= i < frames.len() && #[trigger] frames[i] is Event implies heard(
            s,
            frames,
        ).max_cursor >= frames[i]->cursor by {
            if i < n {
                assert(rest[i] == frames[i]);
            }
        }
        let max = heard(s, frames).max_cursor;
        if max != s.max_cursor && !(frames[n] is Event && max == frames[n]->cursor) {
            let i = choose|i: int|
                0 <= i < rest.len() && #[trigger] rest[i] is Event && heard(s, rest).max_cursor
                    == rest[i]->cursor;
            assert(frames[i] == rest[i]);
        }
    }
}

/// When a subscription is over, the feed resumes from the highest cursor delivered, before or in it,
/// and waits: shortly where it brought something durable, otherwise twice as long as before, up to
/// the ceiling. Nothing is reported of it.
pub proof fn law_a_subscription_that_ends_waits(s: StreamView)
    requires
        s.bounded(),
    ensures
        ({
            let u = s.after(StreamEventView::Ended);
            let wait = if s.events > 0 {
                500
            } else if s.feed.backoff >= 7_500 {
                15_000
            } else {
                2 * s.feed.backoff
            };
            &&& s.reports(StreamEventView::Ended) == Seq::<BgView>::empty()
            &&& u.feed.session_id == s.feed.session_id
            &&& u.feed.reported == s.feed.reported
            &&& u.feed.last_cursor >= s.feed.last_cursor
            &&& u.feed.last_cursor >= s.max_cursor
            &&& u.feed.last_cursor == s.feed.last_cursor || u.feed.last_cursor == s.max_cursor
            &&& u.feed.backoff == wait
            &&& u.next(StreamEventView::Ended) == (StreamStep::Sleep { millis: wait as u64 })
        }),
{
}

/// A stream waits for a connection when it starts and after every wait; on a connection it reads the
/// history, all of it until something was delivered and then what came after. None of these steps
/// changes the stream or reports anything.
pub proof fn law_a_round_begins_with_the_history(s: StreamView)
    ensures
        s.next(StreamEventView::Started) == StreamStep::AwaitConnection,
        s.next(StreamEventView::Slept) == StreamStep::AwaitConnection,
        s.next(StreamEventView::Connected) == (StreamStep::ReadHistory {
            after: if s.feed.last_cursor > 0 {
                Some(s.feed.last_cursor)
            } else {
                None
            },
        }),
        s.after(StreamEventView::Started) == s,
        s.after(StreamEventView::Slept) == s,
        s.after(StreamEventView::Connected) == s,
        s.reports(StreamEventView::Started) == Seq::<BgView>::empty(),
        s.reports(StreamEventView::Slept) == Seq::<BgView>::empty(),
        s.reports(StreamEventView::Connected) == Seq::<BgView>::empty(),
{
}

/// A session that was never followed has delivered nothing: the whole of its history is read first,
/// and a first failure is called out.
pub proof fn law_a_new_feed_starts_at_the_beginning(session_id: Seq<char>)
    ensures
        ({
            let f = FeedView::fresh(session_id);
            &&& f.session_id == session_id
            &&& f.last_cursor == 0
            &&& !f.reported
            &&& f.backoff == 500
            &&& f.history_after() is None
        }),
{
}

} // verus!
