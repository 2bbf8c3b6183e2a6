//! Laws of the transcript: what holds of every sequence of frames.

use crate::brief;
use crate::chat::{self, MsgKind, MsgView, TranscriptView};
use crate::json::{self, Tree};
use crate::text;
use crate::wire::{EventView, FrameView, ZDeltaKind};
use vstd::prelude::*;

verus! {

/// The cursor only moves forward, and an event that is applied carries it at least to its own.
pub proof fn law_the_cursor_only_moves_forward(t: TranscriptView, frame: FrameView, debug: bool)
    ensures
        t.framed(frame, debug).cur >= t.cur,
        frame matches FrameView::Event { cursor, .. } ==> t.framed(frame, debug).cur >= cursor,
{
}

/// Replay is idempotent: an event applied once is skipped when it comes again. The one event that
/// is not recognised is one at a cursor that is not positive, on a transcript that has seen none.
pub proof fn law_replay_is_idempotent(
    t: TranscriptView,
    cursor: i64,
    event: EventView,
    debug: bool,
)
    requires
        cursor > 0 || t.cur > 0,
    ensures
        ({
            let frame = FrameView::Event { cursor, event };
            t.framed(frame, debug).framed(frame, debug) == t.framed(frame, debug)
        }),
{
}

/// After an event has been applied, everything at or before its cursor is skipped, whatever it
/// holds.
pub proof fn law_what_the_cursor_passed_is_skipped(
    t: TranscriptView,
    cursor: i64,
    event: EventView,
    earlier: i64,
    other: EventView,
    debug: bool,
)
    requires
        cursor > 0,
        earlier <= cursor,
    ensures
        ({
            let u = t.framed(FrameView::Event { cursor, event }, debug);
            u.framed(FrameView::Event { cursor: earlier, event: other }, debug) == u
        }),
{
}

/// A turn's deltas, one after the other.
pub open spec fn streamed(t: TranscriptView, kind: ZDeltaKind, texts: Seq<Seq<char>>) -> TranscriptView
    decreases texts.len(),
{
    if texts.len() == 0 {
        t
    } else {
        streamed(t, kind, texts.drop_last()).framed(
            FrameView::Delta { kind, text: texts.last() },
            false,
        )
    }
}

/// Texts end to end.
pub open spec fn end_to_end(texts: Seq<Seq<char>>) -> Seq<char> {
    text::joined(texts, Seq::empty())
}

proof fn lemma_end_to_end(texts: Seq<Seq<char>>)
    requires
        texts.len() > 0,
    ensures
        end_to_end(texts) == end_to_end(texts.drop_last()) + texts.last(),
{
    if texts.len() == 1 {
        assert(end_to_end(texts) =~= end_to_end(texts.drop_last()) + texts.last());
    } else {
        assert(end_to_end(texts.drop_last()) + Seq::<char>::empty() =~= end_to_end(
            texts.drop_last(),
        ));
    }
}

/// Deltas in one voice grow a single card, which holds their texts end to end, blank ones included.
pub proof fn law_deltas_grow_a_single_card(
    t: TranscriptView,
    kind: ZDeltaKind,
    texts: Seq<Seq<char>>,
)
    requires
        texts.len() > 0,
        !t.open_card(chat::voice(kind)),
    ensures
        streamed(t, kind, texts) == t.with_card(chat::voice(kind), end_to_end(texts), true),
    decreases texts.len(),
{
    lemma_end_to_end(texts);
    if texts.len() == 1 {
        assert(texts.drop_last().len() == 0);
        assert(streamed(t, kind, texts.drop_last()) == t);
        assert(end_to_end(texts.drop_last()) =~= Seq::<char>::empty());
        assert(end_to_end(texts) =~= texts.last());
    } else {
        law_deltas_grow_a_single_card(t, kind, texts.drop_last());
        let before = streamed(t, kind, texts.drop_last());
        assert(before.open_card(chat::voice(kind)));
        assert(streamed(t, kind, texts).msgs =~= t.with_card(
            chat::voice(kind),
            end_to_end(texts),
            true,
        ).msgs);
    }
}

/// The durable message settles the card that its deltas streamed: the turn leaves one card, with
/// the message's own text.
pub proof fn law_a_durable_message_settles_the_streamed_card(
    t: TranscriptView,
    kind: ZDeltaKind,
    texts: Seq<Seq<char>>,
    cursor: i64,
    event: EventView,
    message: Seq<char>,
    debug: bool,
)
    requires
        texts.len() > 0,
        !t.open_card(chat::voice(kind)),
        !t.seen(cursor),
        chat::kind_of(event.kind) == Some(chat::voice(kind)),
        chat::display_text(event.payload) == Some(message),
    ensures
        ({
            let u = streamed(t, kind, texts).framed(FrameView::Event { cursor, event }, debug);
            u.msgs == t.msgs.push(
                MsgView { kind: chat::voice(kind), text: message, streaming: false },
            )
        }),
{
    law_deltas_grow_a_single_card(t, kind, texts);
    let u = streamed(t, kind, texts).framed(FrameView::Event { cursor, event }, debug);
    assert(u.msgs =~= t.msgs.push(
        MsgView { kind: chat::voice(kind), text: message, streaming: false },
    ));
}

/// The two voices never share a card: a delta in one leaves the card of the other as it is and
/// lands in a card of its own.
pub proof fn law_the_voices_do_not_merge(
    t: TranscriptView,
    kind: ZDeltaKind,
    a: Seq<char>,
    other: ZDeltaKind,
    b: Seq<char>,
)
    requires
        kind != other,
    ensures
        t.grown(chat::voice(kind), a).grown(chat::voice(other), b) == t.grown(
            chat::voice(kind),
            a,
        ).with_card(chat::voice(other), b, true),
{
}

/// A stopped turn leaves no card growing, and changes nothing else of any card.
pub proof fn law_a_stopped_turn_settles_every_card(t: TranscriptView, debug: bool)
    ensures
        ({
            let u = t.framed(FrameView::Status { running: false }, debug);
            &&& !u.running
            &&& u.cur == t.cur
            &&& u.msgs.len() == t.msgs.len()
            &&& forall|i: int|
                0 <= i < u.msgs.len() ==> (#[trigger] u.msgs[i]) == (MsgView {
                    streaming: false,
                    ..t.msgs[i]
                })
        }),
{
}

/// The optimistic echo of a message is not duplicated by the durable event that brings it back.
pub proof fn law_the_echo_is_not_duplicated(
    t: TranscriptView,
    message: Seq<char>,
    cursor: i64,
    event: EventView,
    said: Seq<char>,
    debug: bool,
)
    requires
        !text::is_blank(message),
        chat::kind_of(event.kind) == Some(MsgKind::User),
        chat::display_text(event.payload) == Some(said),
        text::trimmed(brief::stripped(said)) == text::trimmed(message),
    ensures
        t.pushed(MsgKind::User, message).framed(FrameView::Event { cursor, event }, debug).msgs
            == t.pushed(MsgKind::User, message).msgs,
{
    let u = t.pushed(MsgKind::User, message);
    let i = u.msgs.len() - 1;
    assert(u.msgs[i].kind == MsgKind::User);
    let v = TranscriptView {
        cur: if cursor > u.cur {
            cursor
        } else {
            u.cur
        },
        ..u
    };
    assert(v.msgs[i].kind == MsgKind::User && text::trimmed(v.msgs[i].text) == text::trimmed(
        message,
    ));
    assert(v.echoed(brief::stripped(said)));
}

/// Nothing that was said is lost: a frame never removes or reorders cards, never changes what a card
/// is, and never touches the text of any card but the last.
pub proof fn law_nothing_said_is_lost(t: TranscriptView, frame: FrameView, debug: bool)
    ensures
        ({
            let u = t.framed(frame, debug);
            &&& t.msgs.len() <= u.msgs.len() <= t.msgs.len() + 1
            &&& forall|i: int|
                0 <= i < t.msgs.len() ==> (#[trigger] u.msgs[i]).kind == t.msgs[i].kind
            &&& forall|i: int|
                0 <= i < t.msgs.len() - 1 ==> (#[trigger] u.msgs[i]).text == t.msgs[i].text
            &&& u.msgs.len() == t.msgs.len() + 1 ==> forall|i: int|
                0 <= i < t.msgs.len() ==> #[trigger] u.msgs[i] == t.msgs[i]
        }),
{
}

/// An event of an unrecognised kind is ignored unless debugging.
pub proof fn law_an_unknown_kind_is_ignored(t: TranscriptView, cursor: i64, event: EventView)
    requires
        chat::kind_of(event.kind) is None,
    ensures
        t.framed(FrameView::Event { cursor, event }, false).msgs == t.msgs,
{
}

/// Only a status frame starts or stops the turn.
pub proof fn law_only_status_changes_running(t: TranscriptView, frame: FrameView, debug: bool)
    requires
        !(frame is Status),
    ensures
        t.framed(frame, debug).running == t.running,
{
}

/// What the sidebar shows for a title is never blank and never the old placeholder, and showing it
/// again changes nothing.
pub proof fn law_a_shown_title_is_presentable(title: Option<Seq<char>>)
    ensures
        !text::is_blank(chat::shown_title(title)),
        chat::shown_title(title) != "attacca-cli"@,
        chat::shown_title(Some(chat::shown_title(title))) == chat::shown_title(title),
{
    reveal_strlit("untitled");
    reveal_strlit("attacca-cli");
    assert("untitled"@.len() != "attacca-cli"@.len());
    assert(!text::is_space("untitled"@[0]));
    assert(!text::is_blank("untitled"@));
}

/// A title that a frame carries is never blank.
pub proof fn law_a_frame_title_is_not_blank(frame: FrameView)
    ensures
        chat::frame_title(frame) matches Some(t) ==> !text::is_blank(t) && text::trimmed(t) == t,
{
    if let FrameView::Event { event, .. } = frame {
        if let Some(s) = event.payload.text_at("title"@) {
            text::lemma_blank(s);
            text::lemma_trimmed_twice(s);
            text::lemma_blank(text::trimmed(s));
        }
    }
}

// ── What a frame leaves ────────────────────────────────────────

/// The last card is growing in that voice.
pub open spec fn growing(msgs: Seq<MsgView>, kind: MsgKind) -> bool {
    msgs.len() > 0 && msgs.last().streaming && msgs.last().kind == kind
}

/// A durable reply or thought that was not seen before is always shown, whatever the last card is:
/// it follows what is there as a settled card with its own text, unless the last card is one that
/// grows in its voice.
pub proof fn law_a_durable_message_is_shown(
    t: TranscriptView,
    cursor: i64,
    event: EventView,
    kind: MsgKind,
    message: Seq<char>,
    debug: bool,
)
    requires
        t.cur <= 0 || cursor > t.cur,
        kind == MsgKind::Agent || kind == MsgKind::Reasoning,
        chat::kind_of(event.kind) == Some(kind),
        chat::display_text(event.payload) == Some(message),
        t.msgs.len() == 0 || !t.msgs.last().streaming || t.msgs.last().kind != kind,
    ensures
        ({
            let u = t.framed(FrameView::Event { cursor, event }, debug);
            &&& u.msgs == t.msgs.push(MsgView { kind, text: message, streaming: false })
            &&& u.running == t.running
            &&& !text::is_blank(message)
        }),
{
    law_a_display_text_says_something(event.payload);
}

/// A durable reply or thought takes the place of the card that grows in its voice: the card keeps
/// its place, holds the durable text and nothing of what was streamed, and grows no more.
pub proof fn law_a_durable_message_replaces_what_was_streamed(
    t: TranscriptView,
    cursor: i64,
    event: EventView,
    kind: MsgKind,
    message: Seq<char>,
    debug: bool,
)
    requires
        t.cur <= 0 || cursor > t.cur,
        kind == MsgKind::Agent || kind == MsgKind::Reasoning,
        chat::kind_of(event.kind) == Some(kind),
        chat::display_text(event.payload) == Some(message),
        t.msgs.len() > 0,
        t.msgs.last().streaming,
        t.msgs.last().kind == kind,
    ensures
        t.framed(FrameView::Event { cursor, event }, debug).msgs == t.msgs.drop_last().push(
            MsgView { kind, text: message, streaming: false },
        ),
{
    let u = t.framed(FrameView::Event { cursor, event }, debug);
    assert(u.msgs =~= t.msgs.drop_last().push(MsgView { kind, text: message, streaming: false }));
}

/// A message of the user's own that was not seen before is shown without the brief in front of it,
/// unless one of the last four cards already is the user's and says the same; no older card and no
/// card of another kind hides it.
pub proof fn law_a_users_message_is_shown_once(
    t: TranscriptView,
    cursor: i64,
    event: EventView,
    said: Seq<char>,
    debug: bool,
)
    requires
        t.cur <= 0 || cursor > t.cur,
        chat::kind_of(event.kind) == Some(MsgKind::User),
        chat::display_text(event.payload) == Some(said),
    ensures
        ({
            let u = t.framed(FrameView::Event { cursor, event }, debug);
            let shown = brief::stripped(said);
            let there = exists|i: int|
                0 <= i < t.msgs.len() && t.msgs.len() - 4 <= i && #[trigger] t.msgs[i].kind
                    == MsgKind::User && text::trimmed(t.msgs[i].text) == text::trimmed(shown);
            &&& there ==> u.msgs == t.msgs
            &&& !there && !text::is_blank(shown) ==> u.msgs == t.msgs.push(
                MsgView { kind: MsgKind::User, text: shown, streaming: false },
            )
            &&& text::is_blank(shown) ==> u.msgs == t.msgs
            &&& u.running == t.running
        }),
{
    let shown = brief::stripped(said);
    let cur = if cursor > t.cur {
        cursor
    } else {
        t.cur
    };
    let v = TranscriptView { cur, ..t };
    assert(v.msgs == t.msgs);
    assert(t.framed(FrameView::Event { cursor, event }, debug) == v.settled_user(shown));
}

/// A tool call that was not seen before is shown after everything else, with the tool's name.
pub proof fn law_a_tool_call_is_shown(
    t: TranscriptView,
    cursor: i64,
    event: EventView,
    debug: bool,
)
    requires
        t.cur <= 0 || cursor > t.cur,
        chat::kind_of(event.kind) == Some(MsgKind::Tool),
    ensures
        ({
            let u = t.framed(FrameView::Event { cursor, event }, debug);
            let name = match chat::tool_name(event.payload) {
                Some(name) => name,
                None => "tool"@,
            };
            u.msgs == t.msgs.push(
                MsgView {
                    kind: MsgKind::Tool,
                    text: "◆ "@ + name + chat::args_text(event.payload),
                    streaming: false,
                },
            ) && u.running == t.running
        }),
{
    let name = match chat::tool_name(event.payload) {
        Some(name) => name,
        None => "tool"@,
    };
    let card = "◆ "@ + name + chat::args_text(event.payload);
    reveal_strlit("◆ ");
    assert(card[0] == '◆');
    assert(!text::is_space(card[0]));
}

/// A tool's result that was not seen before is shown after everything else: what it says, or that it
/// went well where it says nothing.
pub proof fn law_a_tools_result_is_shown(
    t: TranscriptView,
    cursor: i64,
    event: EventView,
    debug: bool,
)
    requires
        t.cur <= 0 || cursor > t.cur,
        chat::kind_of(event.kind) == Some(MsgKind::Result),
    ensures
        t.framed(FrameView::Event { cursor, event }, debug).msgs == t.msgs.push(
            MsgView {
                kind: MsgKind::Result,
                text: match chat::display_text(event.payload) {
                    Some(said) => said,
                    None => "ok"@,
                },
                streaming: false,
            },
        ),
{
    law_a_display_text_says_something(event.payload);
    reveal_strlit("ok");
    assert(!text::is_space("ok"@[0]));
}

/// While debugging, an event of an unrecognised kind is shown with its kind and its payload.
pub proof fn law_an_unknown_kind_is_shown_while_debugging(
    t: TranscriptView,
    cursor: i64,
    event: EventView,
)
    requires
        t.cur <= 0 || cursor > t.cur,
        chat::kind_of(event.kind) is None,
    ensures
        ({
            let u = t.framed(FrameView::Event { cursor, event }, true);
            let payload = json::written(event.payload.in_order());
            let shown = if payload.len() <= 120 {
                payload
            } else {
                payload.take(120) + "…"@
            };
            u.msgs == t.msgs.push(
                MsgView {
                    kind: MsgKind::Sys,
                    text: "· "@ + event.kind + " "@ + shown,
                    streaming: false,
                },
            )
        }),
{
    let card = chat::unknown_card(event);
    reveal_strlit("· ");
    assert(card[0] == '·');
    assert(!text::is_space(card[0]));
}

/// A token of a turn is never dropped: it is appended to the card that grows in its voice, or else
/// opens one after everything else, even where it is blank. Nothing but the last card changes.
pub proof fn law_a_token_is_never_dropped(
    t: TranscriptView,
    kind: ZDeltaKind,
    token: Seq<char>,
    debug: bool,
)
    ensures
        ({
            let u = t.framed(FrameView::Delta { kind, text: token }, debug);
            let card = match kind {
                ZDeltaKind::Assistant => MsgKind::Agent,
                ZDeltaKind::Reasoning => MsgKind::Reasoning,
            };
            &&& growing(t.msgs, card) ==> u.msgs == t.msgs.drop_last().push(
                MsgView { kind: card, text: t.msgs.last().text + token, streaming: true },
            )
            &&& !growing(t.msgs, card) ==> u.msgs == t.msgs.push(
                MsgView { kind: card, text: token, streaming: true },
            )
            &&& u.cur == t.cur
            &&& u.running == t.running
        }),
{
    let u = t.framed(FrameView::Delta { kind, text: token }, debug);
    if growing(t.msgs, chat::voice(kind)) {
        assert(u.msgs =~= t.msgs.drop_last().push(
            MsgView { kind: chat::voice(kind), text: t.msgs.last().text + token, streaming: true },
        ));
    }
}

/// A turn that starts changes nothing but that it runs.
pub proof fn law_a_turn_that_starts_only_runs(t: TranscriptView, debug: bool)
    ensures
        ({
            let u = t.framed(FrameView::Status { running: true }, debug);
            u.running && u.msgs == t.msgs && u.cur == t.cur
        }),
{
}

/// An event that was seen before changes nothing; one that was not moves the cursor to its own where
/// that is ahead, and otherwise leaves it.
pub proof fn law_an_event_moves_the_cursor_to_its_own(
    t: TranscriptView,
    cursor: i64,
    event: EventView,
    debug: bool,
)
    ensures
        ({
            let u = t.framed(FrameView::Event { cursor, event }, debug);
            &&& t.cur > 0 && cursor <= t.cur ==> u == t
            &&& cursor > t.cur ==> u.cur == cursor
            &&& cursor <= t.cur ==> u.cur == t.cur
        }),
{
}

/// A card is appended as it is, settled and last, unless it would be blank.
pub proof fn law_a_pushed_card_comes_last(t: TranscriptView, kind: MsgKind, said: Seq<char>)
    ensures
        text::is_blank(said) ==> t.pushed(kind, said) == t,
        !text::is_blank(said) ==> t.pushed(kind, said) == (TranscriptView {
            msgs: t.msgs.push(MsgView { kind, text: said, streaming: false }),
            cur: t.cur,
            running: t.running,
        }),
        TranscriptView::empty().msgs.len() == 0,
        TranscriptView::empty().cur == 0,
        !TranscriptView::empty().running,
{
}

// ── Reading events ─────────────────────────────────────────────

/// The card of an event goes by what its kind holds, in any case: a tool's result or call wherever a
/// tool is named, then a thought, then a reply, then the user's own; a kind that holds none of these
/// words has no card.
pub proof fn law_a_kind_is_read_by_its_words(kind: Seq<char>)
    ensures
        ({
            let k = text::lowered(kind);
            let tool = text::holds(k, "tool"@);
            let back = text::holds(k, "result"@) || text::holds(k, "output"@) || text::holds(
                k,
                "return"@,
            );
            let thought = text::holds(k, "reasoning"@) || text::holds(k, "thinking"@);
            let reply = text::holds(k, "assistant"@);
            let user = text::holds(k, "user"@);
            &&& chat::kind_of(kind) == Some(MsgKind::Result) <==> tool && back
            &&& chat::kind_of(kind) == Some(MsgKind::Tool) <==> tool && !back
            &&& chat::kind_of(kind) == Some(MsgKind::Reasoning) <==> !tool && thought
            &&& chat::kind_of(kind) == Some(MsgKind::Agent) <==> !tool && !thought && reply
            &&& chat::kind_of(kind) == Some(MsgKind::User) <==> !tool && !thought && !reply && user
            &&& chat::kind_of(kind) is None <==> !tool && !thought && !reply && !user
            &&& chat::kind_of(kind) != Some(MsgKind::Sys)
        }),
{
}

/// What the text of a payload can stand under, the first choice first.
pub open spec fn spellings() -> Seq<Seq<char>> {
    seq!["text"@, "message"@, "content"@, "output"@, "result"@]
}

/// A field says something: it is a string that is not blank, or content blocks whose texts are not
/// all blank.
pub open spec fn says_something(field: Option<Tree>) -> bool {
    match field {
        Some(Tree::Text(s)) => !text::is_blank(s),
        Some(Tree::Array(parts)) => !text::is_blank(chat::blocks_text(parts)),
        _ => false,
    }
}

/// The text of a payload is that of the first field, in the order of the spellings, that says
/// something, whole and unchanged: the string itself, or the texts of its content blocks.
pub proof fn law_the_first_field_that_speaks_is_shown(payload: Tree, i: int)
    requires
        0 <= i < 5,
        says_something(payload.at(spellings()[i])),
        forall|j: int| 0 <= j < i ==> !says_something(payload.at(#[trigger] spellings()[j])),
    ensures
        chat::display_text(payload) == Some(
            match payload.at(spellings()[i]) {
                Some(Tree::Text(s)) => s,
                Some(Tree::Array(parts)) => chat::blocks_text(parts),
                _ => Seq::empty(),
            },
        ),
{
    let k = spellings();
    assert(k[0] == "text"@ && k[1] == "message"@ && k[2] == "content"@ && k[3] == "output"@ && k[4]
        == "result"@);
    assert(i > 0 ==> !says_something(payload.at(k[0])));
    assert(i > 1 ==> !says_something(payload.at(k[1])));
    assert(i > 2 ==> !says_something(payload.at(k[2])));
    assert(i > 3 ==> !says_something(payload.at(k[3])));
}

/// A payload that is itself a string is shown as it is, unless blank; one in which no field says
/// anything, and which is no string, has no text.
pub proof fn law_a_payload_that_says_nothing_has_no_text(payload: Tree, s: Seq<char>)
    ensures
        !text::is_blank(s) ==> chat::display_text(Tree::Text(s)) == Some(s),
        text::is_blank(s) ==> chat::display_text(Tree::Text(s)) is None,
        !(payload is Text) && (forall|j: int|
            0 <= j < 5 ==> !says_something(payload.at(#[trigger] spellings()[j])))
            ==> chat::display_text(payload) is None,
{
    let k = spellings();
    assert(k[0] == "text"@ && k[1] == "message"@ && k[2] == "content"@ && k[3] == "output"@ && k[4]
        == "result"@);
    if forall|j: int| 0 <= j < 5 ==> !says_something(payload.at(#[trigger] spellings()[j])) {
        assert(!says_something(payload.at(k[0])));
        assert(!says_something(payload.at(k[1])));
        assert(!says_something(payload.at(k[2])));
        assert(!says_something(payload.at(k[3])));
        assert(!says_something(payload.at(k[4])));
    }
}

/// The text of a payload is never blank.
pub proof fn law_a_display_text_says_something(payload: Tree)
    ensures
        chat::display_text(payload) matches Some(s) ==> !text::is_blank(s),
{
}

/// Content blocks are read end to end, each in its place: a string as it is, a block with a string
/// under `text` as that string, any other as nothing.
pub proof fn law_content_blocks_are_read_end_to_end(parts: Seq<Tree>, part: Tree)
    ensures
        chat::blocks_text(Seq::empty()) == Seq::<char>::empty(),
        chat::blocks_text(parts.push(part)) == chat::blocks_text(parts) + (match part {
            Tree::Text(s) => s,
            Tree::Object(_) => match part.at("text"@) {
                Some(Tree::Text(s)) => s,
                _ => Seq::empty(),
            },
            _ => Seq::empty(),
        }),
{
    assert(parts.push(part).drop_last() =~= parts);
}

/// A tool is called by the first of `name`, `tool` and `tool_name` that is a string and not blank.
pub proof fn law_a_tool_is_called_by_its_name(payload: Tree)
    ensures
        ({
            let a = payload.text_at("name"@);
            let b = payload.text_at("tool"@);
            let c = payload.text_at("tool_name"@);
            let none = |o: Option<Seq<char>>| o is None || text::is_blank(o->0);
            &&& !none(a) ==> chat::tool_name(payload) == a
            &&& none(a) && !none(b) ==> chat::tool_name(payload) == b
            &&& none(a) && none(b) && !none(c) ==> chat::tool_name(payload) == c
            &&& none(a) && none(b) && none(c) ==> chat::tool_name(payload) is None
        }),
{
}

/// The arguments of a tool call are the object under the first of `args`, `input`, `arguments` and
/// `params` that is one, and are shown in its order as `key=value`, with a space between, strings
/// without their quotes, cut after 160 characters. Without arguments nothing is shown.
pub proof fn law_a_tools_arguments_are_shown(payload: Tree, fields: Seq<(Seq<char>, Tree)>)
    requires
        ({
            let a = payload.at("args"@);
            let b = payload.at("input"@);
            let c = payload.at("arguments"@);
            let d = payload.at("params"@);
            let o = Some(Tree::Object(fields));
            let named = |t: Option<Tree>| t is Some && t->0 is Object;
            ||| a == o
            ||| !named(a) && b == o
            ||| !named(a) && !named(b) && c == o
            ||| !named(a) && !named(b) && !named(c) && d == o
        }),
    ensures
        fields.len() == 0 ==> chat::args_text(payload) == Seq::<char>::empty(),
        fields.len() > 0 ==> exists|shown: Seq<Seq<char>>| #![trigger text::joined(shown, " "@)]
            {
                let all = text::joined(shown, " "@);
                &&& shown.len() == fields.len()
                &&& forall|i: int|
                    0 <= i < fields.len() ==> #[trigger] shown[i] == fields[i].0 + "="@ + (
                    match fields[i].1 {
                        Tree::Text(s) => s,
                        other => json::written(other.in_order()),
                    })
                &&& chat::args_text(payload) == " "@ + (if all.len() <= 160 {
                    all
                } else {
                    all.take(160) + "…"@
                })
            },
{
    if fields.len() > 0 {
        let shown = chat::arg_texts(fields);
        let all = text::joined(shown, " "@);
        assert(shown.len() == fields.len());
        assert(chat::call_args(payload) == Some(fields));
        assert(chat::args_text(payload) == " "@ + chat::ellipsized(all, 160));
    }
}

/// Without an object of arguments nothing is shown of them.
pub proof fn law_no_arguments_nothing_shown(payload: Tree)
    requires
        !(payload.at("args"@) matches Some(Tree::Object(_))),
        !(payload.at("input"@) matches Some(Tree::Object(_))),
        !(payload.at("arguments"@) matches Some(Tree::Object(_))),
        !(payload.at("params"@) matches Some(Tree::Object(_))),
    ensures
        chat::args_text(payload) == Seq::<char>::empty(),
{
}

/// A short text is left as it is; a long one keeps its beginning, with an ellipsis for the rest.
pub proof fn law_only_a_long_text_is_cut(s: Seq<char>, max: nat)
    ensures
        s.len() <= max ==> chat::ellipsized(s, max) == s,
        s.len() > max ==> chat::ellipsized(s, max) == s.subrange(0, max as int) + "…"@,
{
}

/// A durable event with a title that is not blank renames the session to it, trimmed, whatever its
/// kind; no other frame does.
pub proof fn law_a_title_renames_the_session(frame: FrameView)
    ensures
        chat::frame_title(frame) == (match frame {
            FrameView::Event { event, .. } => match event.payload.at("title"@) {
                Some(Tree::Text(s)) => if text::trimmed(s).len() == 0 {
                    None
                } else {
                    Some(text::trimmed(s))
                },
                _ => None,
            },
            _ => None,
        }),
{
    if let FrameView::Event { event, .. } = frame {
        if let Some(Tree::Text(s)) = event.payload.at("title"@) {
            text::lemma_blank(s);
        }
    }
}

/// A title that says something is shown as it is, but for the old placeholder.
pub proof fn law_a_title_is_shown_as_it_is(title: Seq<char>)
    ensures
        !text::is_blank(title) && title != "attacca-cli"@ ==> chat::shown_title(Some(title))
            == title,
        text::is_blank(title) ==> chat::shown_title(Some(title)) == "untitled"@,
        chat::shown_title(Some("attacca-cli"@)) == "untitled"@,
        chat::shown_title(None) == "untitled"@,
{
}

/// A message, a thought or the user's own without any text leaves the cards as they are.
pub proof fn law_nothing_to_say_shows_nothing(
    t: TranscriptView,
    cursor: i64,
    event: EventView,
    debug: bool,
)
    requires
        chat::kind_of(event.kind) matches Some(kind) && kind != MsgKind::Tool && kind
            != MsgKind::Result,
        chat::display_text(event.payload) is None,
    ensures
        t.framed(FrameView::Event { cursor, event }, debug).msgs == t.msgs,
        t.framed(FrameView::Event { cursor, event }, debug).running == t.running,
{
}

/// Settling a card puts the text in place of the one that grows in that voice, whatever the text is;
/// where none grows, the text follows as a card of its own, unless it is blank.
pub proof fn law_settling_replaces_or_follows(t: TranscriptView, kind: MsgKind, said: Seq<char>)
    ensures
        growing(t.msgs, kind) ==> t.settled(kind, said) == (TranscriptView {
            msgs: t.msgs.drop_last().push(MsgView { kind, text: said, streaming: false }),
            ..t
        }),
        !growing(t.msgs, kind) && !text::is_blank(said) ==> t.settled(kind, said)
            == (TranscriptView {
            msgs: t.msgs.push(MsgView { kind, text: said, streaming: false }),
            ..t
        }),
        !growing(t.msgs, kind) && text::is_blank(said) ==> t.settled(kind, said) == t,
{
    if growing(t.msgs, kind) {
        assert(t.settled(kind, said).msgs =~= t.msgs.drop_last().push(
            MsgView { kind, text: said, streaming: false },
        ));
    }
}

/// Growing a card appends to the one that grows in that voice; where none does, it opens one behind
/// everything else, even with nothing in it.
pub proof fn law_growing_appends_or_opens(t: TranscriptView, kind: MsgKind, said: Seq<char>)
    ensures
        growing(t.msgs, kind) ==> t.grown(kind, said) == (TranscriptView {
            msgs: t.msgs.drop_last().push(
                MsgView { kind, text: t.msgs.last().text + said, streaming: true },
            ),
            ..t
        }),
        !growing(t.msgs, kind) ==> t.grown(kind, said) == (TranscriptView {
            msgs: t.msgs.push(MsgView { kind, text: said, streaming: true }),
            ..t
        }),
{
    if growing(t.msgs, kind) {
        assert(t.grown(kind, said).msgs =~= t.msgs.drop_last().push(
            MsgView { kind, text: t.msgs.last().text + said, streaming: true },
        ));
    }
}

/// The user's own text is left out where one of the last four cards is the user's and says it,
/// whatever white space is around either, and shown otherwise, unless it is blank.
pub proof fn law_the_users_text_is_shown_once(t: TranscriptView, said: Seq<char>)
    ensures
        ({
            let there = exists|i: int|
                0 <= i < t.msgs.len() && t.msgs.len() - 4 <= i && #[trigger] t.msgs[i].kind
                    == MsgKind::User && text::trimmed(t.msgs[i].text) == text::trimmed(said);
            &&& there || text::is_blank(said) ==> t.settled_user(said) == t
            &&& !there && !text::is_blank(said) ==> t.settled_user(said) == (TranscriptView {
                msgs: t.msgs.push(
                    MsgView { kind: MsgKind::User, text: said, streaming: false },
                ),
                ..t
            })
        }),
{
}

/// When a turn is over every card keeps its kind and its text, and none grows.
pub proof fn law_finishing_only_settles(t: TranscriptView, i: int)
    ensures
        t.finished().msgs.len() == t.msgs.len(),
        t.finished().cur == t.cur,
        t.finished().running == t.running,
        0 <= i < t.msgs.len() ==> t.finished().msgs[i] == (MsgView {
            kind: t.msgs[i].kind,
            text: t.msgs[i].text,
            streaming: false,
        }),
{
}

} // verus!
