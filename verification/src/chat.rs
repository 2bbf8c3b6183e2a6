//! The chat transcript and the turn-frame reducer that maintains it.
//!
//! Every interesting decision about deltas, durable events and deduplication lives here, as a
//! function from one [`TranscriptView`] to the next.

use crate::brief;
use crate::json::{self, Json, Tree};
use crate::text;
use crate::wire::{EventView, FrameView, ZDeltaKind, ZSessionEvent, ZTurnFrame};
use vstd::prelude::*;

verus! {

broadcast use text::lemma_views_push;

// ── Cards ──────────────────────────────────────────────────────

/// What a card is.
#[derive(Clone, Copy, PartialEq, Eq, Debug, Structural)]
pub enum MsgKind {
    Sys,
    User,
    Agent,
    Reasoning,
    Tool,
    Result,
}

/// A single card in the chat view.
#[derive(Clone, Debug)]
pub struct Msg {
    pub kind: MsgKind,
    pub text: String,
    /// Still growing from token deltas. Rendered with a cursor and settled by the durable event.
    pub streaming: bool,
}

/// A [`Msg`] in the abstract.
#[verifier::ext_equal]
pub struct MsgView {
    pub kind: MsgKind,
    pub text: Seq<char>,
    pub streaming: bool,
}

impl View for Msg {
    type V = MsgView;

    open spec fn view(&self) -> MsgView {
        MsgView { kind: self.kind, text: self.text@, streaming: self.streaming }
    }
}

// ── The transcript in the abstract ─────────────────────────────

/// A [`Transcript`] in the abstract.
#[verifier::ext_equal]
pub struct TranscriptView {
    pub msgs: Seq<MsgView>,
    pub cur: i64,
    pub running: bool,
}

impl TranscriptView {
    /// Nothing said, nothing seen, nothing running.
    pub open spec fn empty() -> TranscriptView {
        TranscriptView { msgs: Seq::empty(), cur: 0, running: false }
    }

    /// One more card at the end.
    pub open spec fn with_card(self, kind: MsgKind, text: Seq<char>, streaming: bool) -> TranscriptView {
        TranscriptView { msgs: self.msgs.push(MsgView { kind, text, streaming }), ..self }
    }

    /// One more settled card at the end, unless it would be blank.
    pub open spec fn pushed(self, kind: MsgKind, text: Seq<char>) -> TranscriptView {
        if text::is_blank(text) {
            self
        } else {
            self.with_card(kind, text, false)
        }
    }

    /// The last card is still growing, in the voice `kind`.
    pub open spec fn open_card(self, kind: MsgKind) -> bool {
        self.msgs.len() > 0 && self.msgs.last().streaming && self.msgs.last().kind == kind
    }

    /// The last card with that text.
    pub open spec fn with_last(self, text: Seq<char>, streaming: bool) -> TranscriptView {
        let last = MsgView { text, streaming, ..self.msgs.last() };
        TranscriptView { msgs: self.msgs.update(self.msgs.len() - 1, last), ..self }
    }

    /// A delta grows the open card in its voice, or opens one.
    pub open spec fn grown(self, kind: MsgKind, text: Seq<char>) -> TranscriptView {
        if self.open_card(kind) {
            self.with_last(self.msgs.last().text + text, true)
        } else {
            self.with_card(kind, text, true)
        }
    }

    /// A durable message replaces the open card in its voice, or follows what is there.
    pub open spec fn settled(self, kind: MsgKind, text: Seq<char>) -> TranscriptView {
        if self.open_card(kind) {
            self.with_last(text, false)
        } else {
            self.pushed(kind, text)
        }
    }

    /// One of the last four cards is the user's and says `text`, up to surrounding white space.
    pub open spec fn echoed(self, text: Seq<char>) -> bool {
        exists|i: int|
            self.msgs.len() - 4 <= i < self.msgs.len() && 0 <= i && #[trigger] self.msgs[i].kind
                == MsgKind::User && text::trimmed(self.msgs[i].text) == text::trimmed(text)
    }

    /// A durable message of the user's own is shown unless its echo already is.
    pub open spec fn settled_user(self, text: Seq<char>) -> TranscriptView {
        if self.echoed(text) {
            self
        } else {
            self.pushed(MsgKind::User, text)
        }
    }

    /// No card grows any more.
    pub open spec fn finished(self) -> TranscriptView {
        TranscriptView {
            msgs: Seq::new(
                self.msgs.len(),
                |i: int| MsgView { streaming: false, ..self.msgs[i] },
            ),
            ..self
        }
    }

    /// A durable event, by the card that its kind calls for.
    pub open spec fn evented(self, event: EventView, debug_events: bool) -> TranscriptView {
        match kind_of(event.kind) {
            Some(MsgKind::Tool) => self.pushed(MsgKind::Tool, tool_card(event.payload)),
            Some(MsgKind::Result) => self.pushed(
                MsgKind::Result,
                match display_text(event.payload) {
                    Some(text) => text,
                    None => "ok"@,
                },
            ),
            Some(MsgKind::User) => match display_text(event.payload) {
                Some(text) => self.settled_user(brief::stripped(text)),
                None => self,
            },
            Some(kind) => match display_text(event.payload) {
                Some(text) => self.settled(kind, text),
                None => self,
            },
            None => if debug_events {
                self.pushed(MsgKind::Sys, unknown_card(event))
            } else {
                self
            },
        }
    }

    /// An event at `cursor` has been applied before.
    pub open spec fn seen(self, cursor: i64) -> bool {
        self.cur > 0 && cursor <= self.cur
    }

    /// One frame of a turn feed.
    pub open spec fn framed(self, frame: FrameView, debug_events: bool) -> TranscriptView {
        match frame {
            FrameView::Delta { kind, text } => self.grown(voice(kind), text),
            FrameView::Status { running } => {
                let t = TranscriptView { running, ..self };
                if running {
                    t
                } else {
                    t.finished()
                }
            },
            FrameView::Event { cursor, event } => if self.seen(cursor) {
                self
            } else {
                let cur = if cursor > self.cur {
                    cursor
                } else {
                    self.cur
                };
                TranscriptView { cur, ..self }.evented(event, debug_events)
            },
        }
    }
}

/// The card that a voice streams into.
pub open spec fn voice(kind: ZDeltaKind) -> MsgKind {
    match kind {
        ZDeltaKind::Assistant => MsgKind::Agent,
        ZDeltaKind::Reasoning => MsgKind::Reasoning,
    }
}

/// What a tool event shows: the tool's name and its arguments.
pub open spec fn tool_card(payload: Tree) -> Seq<char> {
    let name = match tool_name(payload) {
        Some(name) => name,
        None => "tool"@,
    };
    "◆ "@ + name + args_text(payload)
}

/// What an event of an unrecognised kind shows while debugging.
pub open spec fn unknown_card(event: EventView) -> Seq<char> {
    "· "@ + event.kind + " "@ + ellipsized(json::written(event.payload.in_order()), 120)
}

// ── The transcript ─────────────────────────────────────────────

/// The chat transcript.
pub struct Transcript {
    pub msgs: Vec<Msg>,
    /// Highest durable cursor seen, which is what a re-subscribe resumes from.
    pub cur: i64,
    pub running: bool,
}

impl View for Transcript {
    type V = TranscriptView;

    open spec fn view(&self) -> TranscriptView {
        TranscriptView { msgs: text::views(self.msgs@), cur: self.cur, running: self.running }
    }
}

impl Transcript {
    pub fn new() -> (t: Transcript)
        ensures
            t@ == TranscriptView::empty(),
    {
        let t = Transcript { msgs: Vec::new(), cur: 0, running: false };
        assert(t@.msgs =~= Seq::empty());
        t
    }

    /// Append a settled card, unless it would be blank.
    pub fn push(&mut self, kind: MsgKind, text: &str)
        ensures
            final(self)@ == old(self)@.pushed(kind, text@),
    {
        if text::blank(text) {
            return ;
        }
        self.msgs.push(Msg { kind, text: text.to_owned(), streaming: false });
    }

    fn tail_is_open(&self, kind: MsgKind) -> (b: bool)
        ensures
            b == self@.open_card(kind),
    {
        let n: usize = self.msgs.len();
        n > 0 && self.msgs[n - 1].streaming && self.msgs[n - 1].kind == kind
    }

    /// Grow the tail card in place, or open a new one.
    ///
    /// Unlike [`push`](Self::push) this accepts whitespace: the first chunk of a turn is often
    /// empty, and dropping it would leave the card unopened so the rest of the turn arrived with
    /// nowhere to land.
    pub fn push_delta(&mut self, kind: MsgKind, text: &str)
        ensures
            final(self)@ == old(self)@.grown(kind, text@),
    {
        if self.tail_is_open(kind) {
            let n: usize = self.msgs.len();
            let mut grown = self.msgs[n - 1].text.clone();
            grown.append(text);
            self.msgs.set(n - 1, Msg { kind, text: grown, streaming: true });
            assert(final(self)@.msgs =~= old(self)@.grown(kind, text@).msgs);
        } else {
            self.msgs.push(Msg { kind, text: text.to_owned(), streaming: true });
        }
    }

    /// Reconcile a durable message with whatever the deltas already streamed.
    ///
    /// The event is the canonical text for content the deltas showed progressively, so it replaces
    /// the streaming card rather than following it. Appending instead would duplicate every reply.
    pub fn settle(&mut self, kind: MsgKind, text: &str)
        ensures
            final(self)@ == old(self)@.settled(kind, text@),
    {
        if self.tail_is_open(kind) {
            let n: usize = self.msgs.len();
            self.msgs.set(n - 1, Msg { kind, text: text.to_owned(), streaming: false });
            assert(final(self)@.msgs =~= old(self)@.settled(kind, text@).msgs);
        } else {
            self.push(kind, text);
        }
    }

    /// The user's own message is echoed optimistically on send and then arrives again as a durable
    /// event. Matching on text over the recent tail keeps one copy without needing an id the event
    /// payload is not guaranteed to carry.
    pub fn settle_user(&mut self, text: &str)
        ensures
            final(self)@ == old(self)@.settled_user(text@),
    {
        let wanted = text::trim(text);
        let n: usize = self.msgs.len();
        let low: usize = if n > 4 {
            n - 4
        } else {
            0
        };
        let mut i: usize = n;
        while i > low
            invariant
                low <= i <= n,
                n == self.msgs@.len(),
                n - 4 <= low,
                *self == *old(self),
                wanted@ == text::trimmed(text@),
                low == 0 || low == n - 4,
                forall|j: int|
                    i <= j < n ==> !(#[trigger] self@.msgs[j].kind == MsgKind::User
                        && text::trimmed(self@.msgs[j].text) == text::trimmed(text@)),
            decreases i,
        {
            i -= 1;
            if self.msgs[i].kind == MsgKind::User {
                let said = text::trim(self.msgs[i].text.as_str());
                if text::same(said, wanted) {
                    assert(self@.msgs[i as int].kind == MsgKind::User);
                    return ;
                }
            }
        }
        self.push(MsgKind::User, text);
    }

    /// Settle every card.
    pub fn finish_streaming(&mut self)
        ensures
            final(self)@ == old(self)@.finished(),
    {
        let n: usize = self.msgs.len();
        let mut i: usize = 0;
        while i < n
            invariant
                i <= n,
                n == self.msgs@.len(),
                n == old(self).msgs@.len(),
                self.cur == old(self).cur,
                self.running == old(self).running,
                forall|j: int|
                    0 <= j < i ==> (#[trigger] self.msgs@[j])@ == (MsgView {
                        streaming: false,
                        ..old(self).msgs@[j]@
                    }),
                forall|j: int| i <= j < n ==> #[trigger] self.msgs@[j] == old(self).msgs@[j],
            decreases n - i,
        {
            let m = Msg {
                kind: self.msgs[i].kind,
                text: self.msgs[i].text.clone(),
                streaming: false,
            };
            self.msgs.set(i, m);
            i += 1;
        }
        assert(self@.msgs =~= old(self)@.finished().msgs);
    }

    /// Apply one frame of the session's turn feed.
    pub fn apply_frame(&mut self, frame: ZTurnFrame, debug_events: bool)
        ensures
            final(self)@ == old(self)@.framed(frame@, debug_events),
    {
        match frame {
            ZTurnFrame::Delta { kind, text } => {
                let kind = match kind {
                    ZDeltaKind::Assistant => MsgKind::Agent,
                    ZDeltaKind::Reasoning => MsgKind::Reasoning,
                };
                self.push_delta(kind, text.as_str());
            },
            ZTurnFrame::Status { running } => {
                self.running = running;
                if !running {
                    self.finish_streaming();
                }
            },
            ZTurnFrame::Event { cursor, event } => {
                // A re-subscribe resumes from the last cursor seen, and every turn boundary is a
                // re-subscribe. Skipping what has already been applied makes replay idempotent
                // whether the server treats `after` as exclusive or inclusive.
                if self.cur > 0 && cursor <= self.cur {
                    return ;
                }
                if cursor > self.cur {
                    self.cur = cursor;
                }
                self.apply_event(event, debug_events);
            },
        }
    }

    fn apply_event(&mut self, event: ZSessionEvent, debug_events: bool)
        ensures
            final(self)@ == old(self)@.evented(event@, debug_events),
    {
        match classify(event.kind.as_str()) {
            Some(MsgKind::Tool) => {
                let name = match string_field(&event.payload) {
                    Some(name) => name,
                    None => "tool".to_owned(),
                };
                let args = tool_args(&event.payload);
                let card = text::cat3("◆ ", name.as_str(), args.as_str());
                self.push(MsgKind::Tool, card.as_str());
            },
            Some(MsgKind::Result) => {
                let text = match text_of(&event.payload) {
                    Some(text) => text,
                    None => "ok".to_owned(),
                };
                self.push(MsgKind::Result, text.as_str());
            },
            Some(MsgKind::User) => {
                if let Some(text) = text_of(&event.payload) {
                    // A session an older client started carries the node brief in front of its
                    // first message.
                    self.settle_user(brief::strip(text.as_str()));
                }
            },
            Some(kind) => {
                if let Some(text) = text_of(&event.payload) {
                    self.settle(kind, text.as_str());
                }
            },
            // The kind vocabulary is the server's, so an unrecognised kind is skipped rather than
            // guessed at.
            None => {
                if debug_events {
                    let body = compact(&event.payload);
                    let card = text::cat4("· ", event.kind.as_str(), " ", body.as_str());
                    self.push(MsgKind::Sys, card.as_str());
                }
            },
        }
    }
}

impl Default for Transcript {
    fn default() -> (t: Transcript)
        ensures
            t@ == TranscriptView::empty(),
    {
        Transcript::new()
    }
}

// ── Reading events ─────────────────────────────────────────────

/// The card that an event kind calls for, by what its name holds.
pub open spec fn kind_of(kind: Seq<char>) -> Option<MsgKind> {
    let k = text::lowered(kind);
    if text::holds(k, "tool"@) {
        if text::holds(k, "result"@) || text::holds(k, "output"@) || text::holds(k, "return"@) {
            Some(MsgKind::Result)
        } else {
            Some(MsgKind::Tool)
        }
    } else if text::holds(k, "reasoning"@) || text::holds(k, "thinking"@) {
        Some(MsgKind::Reasoning)
    } else if text::holds(k, "assistant"@) {
        Some(MsgKind::Agent)
    } else if text::holds(k, "user"@) {
        Some(MsgKind::User)
    } else {
        None
    }
}

/// Map a durable event kind onto a card. Substring matching on purpose: the vocabulary lives
/// server-side, and a deployment that renames `assistant_message` to `assistant_text` should keep
/// rendering rather than fall silent.
pub fn classify(kind: &str) -> (r: Option<MsgKind>)
    ensures
        r == kind_of(kind@),
{
    let low = text::to_lower(kind);
    let k = low.as_str();
    if text::contains(k, "tool") {
        // Checked before the rest so `assistant_tool_call` reads as a tool, not as prose.
        if text::contains(k, "result") || text::contains(k, "output") || text::contains(k, "return") {
            return Some(MsgKind::Result);
        }
        return Some(MsgKind::Tool);
    }
    if text::contains(k, "reasoning") || text::contains(k, "thinking") {
        return Some(MsgKind::Reasoning);
    }
    if text::contains(k, "assistant") {
        return Some(MsgKind::Agent);
    }
    if text::contains(k, "user") {
        return Some(MsgKind::User);
    }
    None
}

/// The text of a content block: a string, or the string under `text`.
pub open spec fn block_text(part: Tree) -> Seq<char> {
    match part {
        Tree::Text(s) => s,
        _ => match part.text_at("text"@) {
            Some(s) => s,
            None => Seq::empty(),
        },
    }
}

/// The text of content blocks, end to end.
pub open spec fn blocks_text(parts: Seq<Tree>) -> Seq<char>
    decreases parts.len(),
{
    if parts.len() == 0 {
        Seq::empty()
    } else {
        blocks_text(parts.drop_last()) + block_text(parts.last())
    }
}

/// The text that a field holds: a string, or content blocks, unless blank.
pub open spec fn field_text(field: Option<Tree>) -> Option<Seq<char>> {
    match field {
        Some(Tree::Text(s)) => if text::is_blank(s) {
            None
        } else {
            Some(s)
        },
        Some(Tree::Array(parts)) => if text::is_blank(blocks_text(parts)) {
            None
        } else {
            Some(blocks_text(parts))
        },
        _ => None,
    }
}

/// The first choice, or else the second.
pub open spec fn or_else(a: Option<Seq<char>>, b: Option<Seq<char>>) -> Option<Seq<char>> {
    match a {
        Some(s) => Some(s),
        None => b,
    }
}

/// The text of a payload: that of the first field, among the spellings a message event plausibly
/// uses, that has one, or the payload itself where it is a string.
pub open spec fn display_text(payload: Tree) -> Option<Seq<char>> {
    or_else(
        field_text(payload.at("text"@)),
        or_else(
            field_text(payload.at("message"@)),
            or_else(
                field_text(payload.at("content"@)),
                or_else(
                    field_text(payload.at("output"@)),
                    or_else(
                        field_text(payload.at("result"@)),
                        match payload {
                            Tree::Text(s) => field_text(Some(payload)),
                            _ => None,
                        },
                    ),
                ),
            ),
        ),
    )
}

fn text_of_blocks(parts: &Vec<Json>) -> (r: String)
    ensures
        r@ == blocks_text(text::views(parts@)),
{
    let mut r = String::new();
    let mut i: usize = 0;
    let ghost all = text::views(parts@);
    while i < parts.len()
        invariant
            i <= parts@.len(),
            all == text::views(parts@),
            r@ == blocks_text(all.take(i as int)),
        decreases parts@.len() - i,
    {
        let ghost before = r@;
        assert(all.take(i + 1).drop_last() =~= all.take(i as int));
        assert(all[i as int] == parts@[i as int]@);
        match &parts[i] {
            Json::Text(s) => r.append(s.as_str()),
            other => {
                if let Some(s) = other.get_text("text") {
                    r.append(s.as_str());
                }
            },
        }
        assert(r@ =~= before + block_text(all[i as int]));
        i += 1;
    }
    assert(all.take(all.len() as int) =~= all);
    r
}

fn text_of_field(field: Option<&Json>) -> (r: Option<String>)
    ensures
        text::opt_view(r) == field_text(
            match field {
                Some(j) => Some(j@),
                None => None,
            },
        ),
{
    match field {
        Some(Json::Text(s)) => {
            if text::blank(s.as_str()) {
                None
            } else {
                Some(s.clone())
            }
        },
        Some(Json::Array(parts)) => {
            let joined = text_of_blocks(parts);
            assert(field->0@->Array_0 =~= text::views(parts@));
            if text::blank(joined.as_str()) {
                None
            } else {
                Some(joined)
            }
        },
        _ => None,
    }
}

/// Pull display text out of an event payload, trying the spellings a message event plausibly uses.
pub fn text_of(payload: &Json) -> (r: Option<String>)
    ensures
        text::opt_view(r) == display_text(payload@),
{
    if let Some(s) = text_of_field(payload.get("text")) {
        return Some(s);
    }
    if let Some(s) = text_of_field(payload.get("message")) {
        return Some(s);
    }
    if let Some(s) = text_of_field(payload.get("content")) {
        return Some(s);
    }
    if let Some(s) = text_of_field(payload.get("output")) {
        return Some(s);
    }
    if let Some(s) = text_of_field(payload.get("result")) {
        return Some(s);
    }
    match payload {
        Json::Text(s) => text_of_field(Some(payload)),
        _ => None,
    }
}

/// The string under a key, unless blank.
pub open spec fn filled(payload: Tree, key: Seq<char>) -> Option<Seq<char>> {
    match payload.text_at(key) {
        Some(s) => if text::is_blank(s) {
            None
        } else {
            Some(s)
        },
        None => None,
    }
}

/// The name of the tool that an event is about.
pub open spec fn tool_name(payload: Tree) -> Option<Seq<char>> {
    or_else(
        filled(payload, "name"@),
        or_else(filled(payload, "tool"@), filled(payload, "tool_name"@)),
    )
}

fn filled_field(payload: &Json, key: &str) -> (r: Option<String>)
    ensures
        text::opt_view(r) == filled(payload@, key@),
{
    match payload.get_text(key) {
        Some(s) => {
            if text::blank(s.as_str()) {
                None
            } else {
                Some(s.clone())
            }
        },
        None => None,
    }
}

fn string_field(payload: &Json) -> (r: Option<String>)
    ensures
        text::opt_view(r) == tool_name(payload@),
{
    if let Some(s) = filled_field(payload, "name") {
        return Some(s);
    }
    if let Some(s) = filled_field(payload, "tool") {
        return Some(s);
    }
    filled_field(payload, "tool_name")
}

/// The fields of the object under a key.
pub open spec fn object_at(payload: Tree, key: Seq<char>) -> Option<Seq<(Seq<char>, Tree)>> {
    match payload.at(key) {
        Some(Tree::Object(fields)) => Some(fields),
        _ => None,
    }
}

/// The arguments of the tool call that an event is about.
pub open spec fn call_args(payload: Tree) -> Option<Seq<(Seq<char>, Tree)>> {
    if object_at(payload, "args"@) is Some {
        object_at(payload, "args"@)
    } else if object_at(payload, "input"@) is Some {
        object_at(payload, "input"@)
    } else if object_at(payload, "arguments"@) is Some {
        object_at(payload, "arguments"@)
    } else {
        object_at(payload, "params"@)
    }
}

/// One argument, as `key=value`.
pub open spec fn arg_text(field: (Seq<char>, Tree)) -> Seq<char> {
    field.0 + "="@ + match field.1 {
        Tree::Text(s) => s,
        other => json::written(other.in_order()),
    }
}

/// Each argument, as `key=value`.
pub open spec fn arg_texts(fields: Seq<(Seq<char>, Tree)>) -> Seq<Seq<char>> {
    Seq::new(fields.len(), |i: int| arg_text(fields[i]))
}

/// What a tool card says of the arguments.
pub open spec fn args_text(payload: Tree) -> Seq<char> {
    match call_args(payload) {
        Some(fields) => if fields.len() > 0 {
            " "@ + ellipsized(text::joined(arg_texts(fields), " "@), 160)
        } else {
            Seq::empty()
        },
        None => Seq::empty(),
    }
}

fn object_field<'a>(payload: &'a Json, key: &str) -> (r: Option<&'a Json>)
    ensures
        match r {
            Some(j) => j is Object && payload@.at(key@) == Some(j@) && object_at(payload@, key@)
                == Some(j@->Object_0),
            None => object_at(payload@, key@) is None,
        },
{
    match payload.get(key) {
        Some(j) => match j {
            Json::Object(_) => Some(j),
            _ => None,
        },
        None => None,
    }
}

fn tool_args(payload: &Json) -> (r: String)
    ensures
        r@ == args_text(payload@),
{
    let mut found = object_field(payload, "args");
    if found.is_none() {
        found = object_field(payload, "input");
    }
    if found.is_none() {
        found = object_field(payload, "arguments");
    }
    if found.is_none() {
        found = object_field(payload, "params");
    }
    match found {
        Some(Json::Object(fields)) => {
            if fields.len() == 0 {
                return String::new();
            }
            let ghost all = found->0@->Object_0;
            let mut parts: Vec<String> = Vec::new();
            let mut i: usize = 0;
            while i < fields.len()
                invariant
                    i <= fields@.len(),
                    all.len() == fields@.len(),
                    forall|j: int|
                        0 <= j < all.len() ==> #[trigger] all[j] == (
                            fields@[j].0@,
                            fields@[j].1@,
                        ),
                    text::views(parts@) == arg_texts(all).take(i as int),
                decreases fields@.len() - i,
            {
                let value = match &fields[i].1 {
                    Json::Text(s) => s.clone(),
                    other => other.to_text(),
                };
                let part = text::cat3(fields[i].0.as_str(), "=", value.as_str());
                assert(all[i as int] == (fields@[i as int].0@, fields@[i as int].1@));
                assert(part@ == arg_text(all[i as int]));
                parts.push(part);
                assert(arg_texts(all).take(i + 1) =~= arg_texts(all).take(i as int).push(part@));
                i += 1;
            }
            assert(arg_texts(all).take(all.len() as int) =~= arg_texts(all));
            let rendered = text::join(&parts, " ");
            let cut = ellipsize(rendered.as_str(), 160);
            text::cat(" ", cut.as_str())
        },
        _ => String::new(),
    }
}

fn compact(payload: &Json) -> (r: String)
    ensures
        r@ == ellipsized(json::written(payload@.in_order()), 120),
{
    let t = payload.to_text();
    ellipsize(t.as_str(), 120)
}

/// At most `max` characters, with an ellipsis where some were cut.
pub open spec fn ellipsized(s: Seq<char>, max: nat) -> Seq<char> {
    if s.len() <= max {
        s
    } else {
        s.take(max as int) + "…"@
    }
}

/// At most `max` characters of `s`, with an ellipsis where some were cut.
pub fn ellipsize(s: &str, max: usize) -> (r: String)
    ensures
        r@ == ellipsized(s@, max as nat),
{
    if s.unicode_len() <= max {
        return s.to_owned();
    }
    let head = text::first_chars(s, max);
    text::cat(head.as_str(), "…")
}

/// The title that a frame carries.
pub open spec fn frame_title(frame: FrameView) -> Option<Seq<char>> {
    match frame {
        FrameView::Event { event, .. } => match event.payload.text_at("title"@) {
            Some(s) => if text::is_blank(s) {
                None
            } else {
                Some(text::trimmed(s))
            },
            None => None,
        },
        _ => None,
    }
}

/// A session title carried by a durable event, if one is.
///
/// The kind vocabulary is the server's, so this goes by payload shape instead: any event carrying a
/// non-empty `title` is taken to be renaming the session.
pub fn title_in(frame: &ZTurnFrame) -> (r: Option<String>)
    ensures
        text::opt_view(r) == frame_title(frame@),
{
    match frame {
        ZTurnFrame::Event { event, .. } => match event.payload.get_text("title") {
            Some(s) => {
                if text::blank(s.as_str()) {
                    None
                } else {
                    Some(text::trim(s.as_str()).to_owned())
                }
            },
            None => None,
        },
        _ => None,
    }
}

/// What the sidebar shows for a session title: the title, unless it is missing, blank, or the
/// placeholder that older clients set.
pub open spec fn shown_title(title: Option<Seq<char>>) -> Seq<char> {
    match title {
        Some(t) => if !text::is_blank(t) && t != "attacca-cli"@ {
            t
        } else {
            "untitled"@
        },
        None => "untitled"@,
    }
}

/// What the sidebar shows for a session title.
pub fn display_title(title: Option<String>) -> (r: String)
    ensures
        r@ == shown_title(text::opt_view(title)),
{
    match title {
        Some(t) => {
            if !text::blank(t.as_str()) && !text::same(t.as_str(), "attacca-cli") {
                t
            } else {
                "untitled".to_owned()
            }
        },
        None => "untitled".to_owned(),
    }
}

} // verus!
