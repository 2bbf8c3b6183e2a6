//! The chat pane: cards, rows, and the window of rows that is shown.

use crate::app::{App, AppView};
use crate::chat::{Msg, MsgKind, MsgView};
use crate::palette::{BG, DESTRUCTIVE, DIM, GREEN, P, TEXT, YELLOW};
use crate::screen;
use crate::screen::{Line, Rect, SpanView, Style, Widget, WidgetView};
use crate::text;
use crate::wrap;
use vstd::prelude::*;

verus! {

broadcast use {text::lemma_views_push, text::lemma_views_empty};

/// Trailing block drawn on a card that is still receiving token deltas.
pub const CURSOR: &'static str = "▌";

/// Subtraction that stops at zero.
pub open spec fn down(a: nat, b: nat) -> nat {
    if a < b {
        0
    } else {
        (a - b) as nat
    }
}

// ── Cards ──────────────────────────────────────────────────────

/// How the three parts of a card look.
#[derive(Debug, Clone, Copy)]
pub struct CardStyle {
    pub head: Style,
    pub rail: Style,
    pub body: Style,
}

/// The header rule of a card.
pub open spec fn header(label: Seq<char>, w: nat, style: Style) -> Seq<SpanView> {
    let head = "┌─ "@ + label + " "@;
    seq![screen::run(head + text::repeated('─', down(w, head.len())), style)]
}

/// The footer rule of a card.
pub open spec fn footer(w: nat, rail: Style) -> Seq<SpanView> {
    seq![screen::run("└"@ + text::repeated('─', down(w, 2)), rail.dim())]
}

/// One row of a card's body: a rail, the text, and a cursor where the card is still growing there.
pub open spec fn body_row(chunk: Seq<char>, style: CardStyle, growing: bool) -> Seq<SpanView> {
    let row = seq![screen::run("│ "@, style.rail), screen::run(chunk, style.body)];
    if growing {
        row.push(screen::run(CURSOR@, screen::ink(P)))
    } else {
        row
    }
}

/// The rows that lines of text wrap to.
pub open spec fn wrapped_all(lines: Seq<Seq<char>>, width: nat) -> Seq<Seq<char>>
    decreases lines.len(),
{
    if lines.len() == 0 {
        Seq::empty()
    } else {
        wrapped_all(lines.drop_last(), width) + wrap::wrapped(lines.last(), width)
    }
}

/// The body of a card.
pub open spec fn body(rows: Seq<Seq<char>>, style: CardStyle, streaming: bool) -> Seq<
    Seq<SpanView>,
> {
    Seq::new(
        rows.len(),
        |i: int| body_row(rows[i], style, streaming && i == rows.len() - 1),
    )
}

/// A card: its header, its wrapped body, its footer.
pub open spec fn card_rows(
    label: Seq<char>,
    w: nat,
    width: nat,
    style: CardStyle,
    text: Seq<char>,
    streaming: bool,
) -> Seq<Seq<SpanView>> {
    seq![header(label, w, style.head)] + body(
        wrapped_all(text::lines_of(text), width),
        style,
        streaming,
    ) + seq![footer(w, style.rail)]
}

fn wrap_all(lines: &Vec<String>, width: usize) -> (rows: Vec<String>)
    ensures
        text::views(rows@) == wrapped_all(text::views(lines@), width as nat),
{
    let mut rows: Vec<String> = Vec::new();
    let ghost all = text::views(lines@);
    let mut i: usize = 0;
    assert(all.take(0) =~= Seq::empty());
    while i < lines.len()
        invariant
            i <= lines@.len(),
            all == text::views(lines@),
            text::views(rows@) == wrapped_all(all.take(i as int), width as nat),
        decreases lines@.len() - i,
    {
        let ghost next = all.take(i + 1);
        assert(next.drop_last() =~= all.take(i as int));
        assert(next.last() == lines@[i as int]@);
        let mut more = wrap::wrap_chars(lines[i].as_str(), width);
        let ghost before = rows@;
        let ghost added = more@;
        rows.append(&mut more);
        assert(text::views(rows@) =~= text::views(before) + text::views(added));
        i += 1;
    }
    assert(all.take(i as int) =~= all);
    rows
}

/// One bordered message card: a header rule, the hard-wrapped body behind a `│ ` rail, and a footer
/// rule.
///
/// This is the only place message bodies are wrapped. Wrapping is width-aware, so double-width
/// characters cannot overflow the panel, and the streaming cursor is appended as its own span rather
/// than a character, so it never enters the wrap and never changes the row count.
pub fn card(
    lines: &mut Vec<Line>,
    label: &str,
    w: usize,
    content_width: usize,
    style: CardStyle,
    text: &str,
    streaming: bool,
)
    ensures
        text::views(final(lines)@) == text::views(old(lines)@) + card_rows(
            label@,
            w as nat,
            content_width as nat,
            style,
            text@,
            streaming,
        ),
{
    let ghost start = text::views(lines@);
    let mut head = text::cat3("┌─ ", label, " ");
    let n: usize = head.as_str().unicode_len();
    let fill = text::repeat_char(
        '─',
        if w < n {
            0
        } else {
            w - n
        },
    );
    head.append(fill.as_str());
    lines.push(screen::line1(screen::span_of(head, style.head)));
    let ghost top = header(label@, w as nat, style.head);
    assert(text::views(lines@) =~= start + seq![top]);
    let parts = text::lines(text);
    let rows = wrap_all(&parts, content_width);
    let ghost all = text::views(rows@);
    let ghost want = body(all, style, streaming);
    let mut i: usize = 0;
    assert(text::views(lines@) =~= start + seq![top] + want.take(0));
    while i < rows.len()
        invariant
            i <= rows@.len(),
            all == text::views(rows@),
            want == body(all, style, streaming),
            text::views(lines@) == start + seq![top] + want.take(i as int),
        decreases rows@.len() - i,
    {
        let rail = screen::span("│ ", style.rail);
        let chunk = screen::span(rows[i].as_str(), style.body);
        let line = if streaming && i == rows.len() - 1 {
            screen::line3(rail, chunk, screen::span(CURSOR, screen::ink(P)))
        } else {
            screen::line2(rail, chunk)
        };
        assert(all[i as int] == rows@[i as int]@);
        assert(line@ =~= want[i as int]);
        lines.push(line);
        assert(want.take(i + 1) =~= want.take(i as int).push(want[i as int]));
        assert(text::views(lines@) =~= start + seq![top] + want.take(i + 1));
        i += 1;
    }
    assert(want.take(i as int) =~= want);
    let dashes = text::repeat_char(
        '─',
        if w < 2 {
            0
        } else {
            w - 2
        },
    );
    let foot = text::cat("└", dashes.as_str());
    lines.push(screen::line1(screen::span_of(foot, style.rail.dim())));
    assert(text::views(lines@) =~= start + (seq![top] + want + seq![footer(w as nat, style.rail)]));
}

// ── Messages ───────────────────────────────────────────────────

/// How the card of a kind of message looks.
pub open spec fn look(kind: MsgKind) -> CardStyle {
    match kind {
        MsgKind::Agent => CardStyle {
            head: screen::ink(TEXT).bold(),
            rail: screen::ink(DIM),
            body: screen::plain(),
        },
        MsgKind::Reasoning => CardStyle {
            head: screen::ink(DIM).dim(),
            rail: screen::ink(DIM),
            body: screen::ink(DIM).italic(),
        },
        MsgKind::Tool => CardStyle {
            head: screen::ink(YELLOW).bold(),
            rail: screen::ink(YELLOW),
            body: screen::ink(TEXT),
        },
        _ => CardStyle {
            head: screen::ink(P).bold(),
            rail: screen::ink(P),
            body: screen::plain(),
        },
    }
}

/// The row of a tool's result: whether it failed, and the beginning of its first line.
pub open spec fn result_row(text: Seq<char>) -> Seq<SpanView> {
    let first = text::prefix(text::lines_of(text)[0], 58);
    if text::begins_with(text, "err"@) {
        seq![screen::run("  ✘ "@ + first, screen::ink(DESTRUCTIVE))]
    } else {
        seq![screen::run("  ok "@ + first, screen::ink(GREEN))]
    }
}

/// The rows of a message.
pub open spec fn msg_rows(m: MsgView, w: nat, width: nat) -> Seq<Seq<SpanView>> {
    match m.kind {
        MsgKind::Sys => seq![
            seq![screen::run(" ── "@, screen::ink(DIM)), screen::run(m.text, screen::ink(DIM))],
        ],
        MsgKind::Agent => card_rows(
            "assistant"@,
            w,
            width,
            look(MsgKind::Agent),
            m.text,
            m.streaming,
        ),
        MsgKind::Reasoning => card_rows(
            "thinking"@,
            w,
            width,
            look(MsgKind::Reasoning),
            m.text,
            m.streaming,
        ),
        MsgKind::User => card_rows("you"@, w, width, look(MsgKind::User), m.text, false),
        MsgKind::Tool => card_rows("tool"@, w, width, look(MsgKind::Tool), m.text, false),
        MsgKind::Result => if text::lines_of(m.text).len() == 0 {
            Seq::empty()
        } else {
            seq![result_row(m.text)]
        },
    }
}

/// The rows of a transcript.
pub open spec fn rows_of(msgs: Seq<MsgView>, w: nat, width: nat) -> Seq<Seq<SpanView>>
    decreases msgs.len(),
{
    if msgs.len() == 0 {
        Seq::empty()
    } else {
        rows_of(msgs.drop_last(), w, width) + msg_rows(msgs.last(), w, width)
    }
}

fn style_of(kind: MsgKind) -> (s: CardStyle)
    ensures
        s == look(kind),
{
    match kind {
        MsgKind::Agent => CardStyle {
            head: screen::ink(TEXT).bold(),
            rail: screen::ink(DIM),
            body: screen::plain(),
        },
        MsgKind::Reasoning => CardStyle {
            head: screen::ink(DIM).dim(),
            rail: screen::ink(DIM),
            body: screen::ink(DIM).italic(),
        },
        MsgKind::Tool => CardStyle {
            head: screen::ink(YELLOW).bold(),
            rail: screen::ink(YELLOW),
            body: screen::ink(TEXT),
        },
        _ => CardStyle {
            head: screen::ink(P).bold(),
            rail: screen::ink(P),
            body: screen::plain(),
        },
    }
}

fn push_result(lines: &mut Vec<Line>, text: &str)
    ensures
        text::views(final(lines)@) == text::views(old(lines)@) + (if text::lines_of(text@).len()
            == 0 {
            Seq::empty()
        } else {
            seq![result_row(text@)]
        }),
{
    let ghost start = text::views(lines@);
    let parts = text::lines(text);
    if parts.len() == 0 {
        assert(start + Seq::empty() =~= start);
        return ;
    }
    assert(text::views(parts@)[0] == parts@[0]@);
    let first = text::first_chars(parts[0].as_str(), 58);
    let line = if text::starts_with(text, "err") {
        screen::line1(
            screen::span_of(text::cat("  ✘ ", first.as_str()), screen::ink(DESTRUCTIVE)),
        )
    } else {
        screen::line1(screen::span_of(text::cat("  ok ", first.as_str()), screen::ink(GREEN)))
    };
    lines.push(line);
    assert(text::views(lines@) =~= start + seq![result_row(text@)]);
}

fn push_msg(lines: &mut Vec<Line>, m: &Msg, w: usize, content_width: usize)
    ensures
        text::views(final(lines)@) == text::views(old(lines)@) + msg_rows(
            m@,
            w as nat,
            content_width as nat,
        ),
{
    let style = style_of(m.kind);
    let text = m.text.as_str();
    match m.kind {
        MsgKind::Sys => {
            let ghost start = text::views(lines@);
            lines.push(
                screen::line2(
                    screen::span(" ── ", screen::ink(DIM)),
                    screen::span(text, screen::ink(DIM)),
                ),
            );
            assert(text::views(lines@) =~= start + msg_rows(m@, w as nat, content_width as nat));
        },
        MsgKind::Agent => card(lines, "assistant", w, content_width, style, text, m.streaming),
        MsgKind::Reasoning => card(lines, "thinking", w, content_width, style, text, m.streaming),
        MsgKind::User => card(lines, "you", w, content_width, style, text, false),
        MsgKind::Tool => card(lines, "tool", w, content_width, style, text, false),
        MsgKind::Result => push_result(lines, text),
    }
}

/// Turn the transcript into visual rows.
pub fn chat_lines(msgs: &[Msg], w: usize, content_width: usize) -> (lines: Vec<Line>)
    ensures
        text::views(lines@) == rows_of(text::views(msgs@), w as nat, content_width as nat),
{
    let mut lines: Vec<Line> = Vec::new();
    let ghost all = text::views(msgs@);
    let mut i: usize = 0;
    assert(all.take(0) =~= Seq::empty());
    while i < msgs.len()
        invariant
            i <= msgs@.len(),
            all == text::views(msgs@),
            text::views(lines@) == rows_of(all.take(i as int), w as nat, content_width as nat),
        decreases msgs@.len() - i,
    {
        let ghost next = all.take(i + 1);
        assert(next.drop_last() =~= all.take(i as int));
        assert(next.last() == msgs@[i as int]@);
        push_msg(&mut lines, &msgs[i], w, content_width);
        i += 1;
    }
    assert(all.take(i as int) =~= all);
    lines
}

// ── The window ─────────────────────────────────────────────────

/// The messages that are shown: all, or all but the reasoning.
pub open spec fn shown(msgs: Seq<MsgView>, hide_reasoning: bool) -> Seq<MsgView>
    decreases msgs.len(),
{
    if msgs.len() == 0 {
        msgs
    } else {
        let before = shown(msgs.drop_last(), hide_reasoning);
        if hide_reasoning && msgs.last().kind == MsgKind::Reasoning {
            before
        } else {
            before.push(msgs.last())
        }
    }
}

/// What stands in place of an empty transcript.
pub open spec fn placeholder() -> Seq<SpanView> {
    seq![
        screen::run("  ◆ "@, screen::ink(P)),
        screen::run("type something —  enter:send  /help"@, screen::ink(DIM)),
    ]
}

/// What stands below a transcript while something is going on and nothing is growing.
pub open spec fn thinking() -> Seq<SpanView> {
    seq![screen::run(" ◉ thinking…"@, screen::ink(P))]
}

/// The rows with the placeholder or the note that something is going on.
pub open spec fn annotated(rows: Seq<Seq<SpanView>>, busy: bool, growing: bool) -> Seq<
    Seq<SpanView>,
> {
    if rows.len() == 0 {
        seq![placeholder()]
    } else if busy && !growing {
        rows.push(thinking())
    } else {
        rows
    }
}

/// Where the window of rows starts: `scroll` rows above the last one that fills the window, or at
/// the top.
pub open spec fn window_start(total: nat, max_rows: nat, at_end: bool, scroll: nat) -> nat {
    if at_end || total <= max_rows {
        down(total, max_rows)
    } else {
        down(down(total, max_rows), scroll)
    }
}

/// The rows in the window.
pub open spec fn window(
    rows: Seq<Seq<SpanView>>,
    max_rows: nat,
    at_end: bool,
    scroll: nat,
) -> Seq<Seq<SpanView>> {
    let start = window_start(rows.len(), max_rows, at_end, scroll);
    let end = if start + max_rows < rows.len() {
        start + max_rows
    } else {
        rows.len()
    };
    rows.subrange(start as int, end as int)
}

/// The last message is still growing.
pub open spec fn growing(msgs: Seq<MsgView>) -> bool {
    msgs.len() > 0 && msgs.last().streaming
}

/// The rows that the chat pane shows: those of the whole transcript, cut down to the window.
pub open spec fn visible(
    msgs: Seq<MsgView>,
    w: nat,
    width: nat,
    max_rows: nat,
    at_end: bool,
    scroll: nat,
    hide_reasoning: bool,
    busy: bool,
) -> Seq<Seq<SpanView>> {
    window(
        annotated(rows_of(shown(msgs, hide_reasoning), w, width), busy, growing(msgs)),
        max_rows,
        at_end,
        scroll,
    )
}

/// Wrap the last `k` messages into visual rows, and report whether `k` reached the start of the
/// transcript.
pub fn wrap_tail(
    msgs: &Vec<Msg>,
    k: usize,
    w: usize,
    content_width: usize,
    hide_reasoning: bool,
) -> (r: (Vec<Line>, bool))
    ensures
        text::views(r.0@) == rows_of(
            shown(
                text::views(msgs@).skip(down(msgs@.len(), k as nat) as int),
                hide_reasoning,
            ),
            w as nat,
            content_width as nat,
        ),
        r.1 == (k >= msgs@.len()),
{
    let n: usize = msgs.len();
    let start: usize = if n < k {
        0
    } else {
        n - k
    };
    let ghost all = text::views(msgs@).skip(start as int);
    let mut lines: Vec<Line> = Vec::new();
    let mut i: usize = start;
    assert(all.take(0) =~= Seq::empty());
    while i < n
        invariant
            start <= i <= n == msgs@.len(),
            all == text::views(msgs@).skip(start as int),
            text::views(lines@) == rows_of(
                shown(all.take(i - start), hide_reasoning),
                w as nat,
                content_width as nat,
            ),
        decreases n - i,
    {
        let ghost next = all.take(i - start + 1);
        assert(next.drop_last() =~= all.take(i - start));
        assert(next.last() == msgs@[i as int]@);
        let ghost before = shown(all.take(i - start), hide_reasoning);
        if !hide_reasoning || msgs[i].kind != MsgKind::Reasoning {
            push_msg(&mut lines, &msgs[i], w, content_width);
            assert(before.push(next.last()).drop_last() =~= before);
        }
        i += 1;
    }
    assert(all.take(n - start) =~= all);
    (lines, start == 0)
}

/// The rows actually shown in the chat viewport: the placeholder/"thinking" line applied, and
/// scrolled to the current position.
///
/// Only the rows that actually fit on screen (plus however far back a manual scroll has gone) are
/// ever shown, so wrapping the whole transcript from scratch on every call is wasted work that
/// grows without bound as a chat gets longer. Instead, wrap just enough of the tail to cover the
/// visible window, doubling the slice until it does (or the transcript runs out).
pub fn visible_chat_rows(
    msgs: &Vec<Msg>,
    w: usize,
    content_width: usize,
    max_rows: usize,
    at_end: bool,
    scroll: usize,
    hide_reasoning: bool,
    busy: bool,
) -> (rows: Vec<Line>)
    requires
        !at_end ==> max_rows + scroll <= usize::MAX,
    ensures
        text::views(rows@) == visible(
            text::views(msgs@),
            w as nat,
            content_width as nat,
            max_rows as nat,
            at_end,
            scroll as nat,
            hide_reasoning,
            busy,
        ),
{
    let needed: usize = if at_end {
        max_rows
    } else {
        max_rows + scroll
    };
    let mut k: usize = if needed < 8 {
        8
    } else {
        needed
    };
    let (mut lines, mut exhausted) = wrap_tail(msgs, k, w, content_width, hide_reasoning);
    while lines.len() < needed && !exhausted
        invariant
            exhausted == (k >= msgs@.len()),
            text::views(lines@) == rows_of(
                shown(
                    text::views(msgs@).skip(down(msgs@.len(), k as nat) as int),
                    hide_reasoning,
                ),
                w as nat,
                content_width as nat,
            ),
            k >= 8,
        decreases msgs@.len() - k,
    {
        let n: usize = msgs.len();
        k = if k < n - k {
            k * 2
        } else {
            n
        };
        let (more, all) = wrap_tail(msgs, k, w, content_width, hide_reasoning);
        lines = more;
        exhausted = all;
    }
    let ghost tail = text::views(lines@);
    let ghost all = text::views(msgs@);
    let ghost start = down(msgs@.len(), k as nat) as int;
    proof {
        lemma_tail(all, start, w as nat, content_width as nat, hide_reasoning);
        assert(exhausted ==> all.skip(start) =~= all);
        assert(exhausted ==> all.take(start) =~= Seq::empty());
    }
    let live = if msgs.len() > 0 {
        msgs[msgs.len() - 1].streaming
    } else {
        false
    };
    assert(live == growing(all));
    annotate(&mut lines, busy, live);
    proof {
        lemma_window(
            rows_of(shown(all.take(start), hide_reasoning), w as nat, content_width as nat),
            tail,
            max_rows as nat,
            at_end,
            scroll as nat,
            busy,
            live,
        );
    }
    cut(&lines, max_rows, at_end, scroll)
}

fn annotate(lines: &mut Vec<Line>, busy: bool, live: bool)
    ensures
        text::views(final(lines)@) == annotated(text::views(old(lines)@), busy, live),
{
    if lines.len() == 0 {
        lines.push(
            screen::line2(
                screen::span("  ◆ ", screen::ink(P)),
                screen::span("type something —  enter:send  /help", screen::ink(DIM)),
            ),
        );
        assert(text::views(lines@) =~= seq![placeholder()]);
    } else if busy && !live {
        lines.push(screen::line1(screen::span(" ◉ thinking…", screen::ink(P))));
    }
}

fn cut(lines: &Vec<Line>, max_rows: usize, at_end: bool, scroll: usize) -> (r: Vec<Line>)
    ensures
        text::views(r@) == window(text::views(lines@), max_rows as nat, at_end, scroll as nat),
{
    let total: usize = lines.len();
    let past: usize = if total < max_rows {
        0
    } else {
        total - max_rows
    };
    let from: usize = if at_end || total <= max_rows {
        past
    } else if past < scroll {
        0
    } else {
        past - scroll
    };
    let to: usize = if max_rows < total - from {
        from + max_rows
    } else {
        total
    };
    screen::rows_between(lines, from, to)
}

proof fn lemma_shown_concat(a: Seq<MsgView>, b: Seq<MsgView>, hide: bool)
    ensures
        shown(a + b, hide) == shown(a, hide) + shown(b, hide),
    decreases b.len(),
{
    if b.len() == 0 {
        assert(a + b =~= a);
        assert(shown(a, hide) + shown(b, hide) =~= shown(a, hide));
    } else {
        assert((a + b).drop_last() =~= a + b.drop_last());
        lemma_shown_concat(a, b.drop_last(), hide);
        assert(shown(a + b, hide) =~= shown(a, hide) + shown(b, hide));
    }
}

proof fn lemma_rows_concat(a: Seq<MsgView>, b: Seq<MsgView>, w: nat, width: nat)
    ensures
        rows_of(a + b, w, width) == rows_of(a, w, width) + rows_of(b, w, width),
    decreases b.len(),
{
    if b.len() == 0 {
        assert(a + b =~= a);
        assert(rows_of(a, w, width) + rows_of(b, w, width) =~= rows_of(a, w, width));
    } else {
        assert((a + b).drop_last() =~= a + b.drop_last());
        lemma_rows_concat(a, b.drop_last(), w, width);
        assert(rows_of(a + b, w, width) =~= rows_of(a, w, width) + rows_of(b, w, width));
    }
}

/// The rows of the last messages are the last rows.
proof fn lemma_tail(msgs: Seq<MsgView>, start: int, w: nat, width: nat, hide: bool)
    requires
        0 <= start <= msgs.len(),
    ensures
        rows_of(shown(msgs, hide), w, width) == rows_of(shown(msgs.take(start), hide), w, width)
            + rows_of(shown(msgs.skip(start), hide), w, width),
{
    assert(msgs.take(start) + msgs.skip(start) =~= msgs);
    lemma_shown_concat(msgs.take(start), msgs.skip(start), hide);
    lemma_rows_concat(shown(msgs.take(start), hide), shown(msgs.skip(start), hide), w, width);
}

/// A tail that covers the window shows in it what the whole would.
proof fn lemma_window(
    before: Seq<Seq<SpanView>>,
    tail: Seq<Seq<SpanView>>,
    max_rows: nat,
    at_end: bool,
    scroll: nat,
    busy: bool,
    live: bool,
)
    requires
        before.len() == 0 || tail.len() >= max_rows + (if at_end {
            0nat
        } else {
            scroll
        }),
    ensures
        window(annotated(tail, busy, live), max_rows, at_end, scroll) == window(
            annotated(before + tail, busy, live),
            max_rows,
            at_end,
            scroll,
        ),
{
    let t = annotated(tail, busy, live);
    let f = annotated(before + tail, busy, live);
    if before.len() == 0 {
        assert(before + tail =~= tail);
    } else if tail.len() == 0 {
        assert(window(t, max_rows, at_end, scroll) =~= window(f, max_rows, at_end, scroll));
    } else {
        assert(f =~= before + t);
        assert(window(t, max_rows, at_end, scroll) =~= window(f, max_rows, at_end, scroll));
    }
}

// ── The pane ───────────────────────────────────────────────────

impl AppView {
    /// Something is happening: a one-shot request, or a turn producing tokens.
    pub open spec fn is_busy(self) -> bool {
        self.busy_count > 0 || self.chat.running
    }

    /// How far back the chat is scrolled can be counted on from a pane's rows.
    pub open spec fn scroll_ok(self, rows: nat) -> bool {
        !self.at_end ==> rows + self.scroll <= usize::MAX
    }
}

/// The chat pane.
pub open spec fn chat_pane(a: AppView, area: Rect) -> WidgetView {
    let w = screen::less(area.width, 1) as nat;
    let width = if w < 3 {
        1nat
    } else {
        (w - 2) as nat
    };
    WidgetView::Paragraph {
        lines: visible(
            a.chat.msgs,
            w,
            width,
            screen::less(area.height, 1) as nat,
            a.at_end,
            a.scroll as nat,
            a.hide_reasoning,
            a.is_busy(),
        ),
        bg: BG,
        area,
    }
}

/// Draw the chat pane.
pub fn draw_chat(app: &App, area: Rect) -> (w: Widget)
    requires
        app@.scroll_ok(screen::less(area.height, 1) as nat),
    ensures
        w@ == chat_pane(app@, area),
{
    let w: usize = screen::less(area.width, 1) as usize;
    // Content width inside the "│ " gutter, used to hard-wrap message bodies so long lines flow to
    // the next row instead of overflowing the panel.
    let content_width: usize = if w < 3 {
        1
    } else {
        w - 2
    };
    let max_rows: usize = screen::less(area.height, 1) as usize;
    let lines = visible_chat_rows(
        &app.chat.msgs,
        w,
        content_width,
        max_rows,
        app.at_end,
        app.scroll,
        app.hide_reasoning,
        app.busy(),
    );
    Widget::Paragraph { lines, bg: BG, area }
}

// ── Laws ───────────────────────────────────────────────────────

/// A card takes as many rows while it is growing as when it has settled, so the view does not jump
/// at the moment the cursor disappears.
pub proof fn law_a_growing_card_takes_no_more_rows(
    label: Seq<char>,
    w: nat,
    width: nat,
    style: CardStyle,
    text: Seq<char>,
)
    ensures
        card_rows(label, w, width, style, text, true).len() == card_rows(
            label,
            w,
            width,
            style,
            text,
            false,
        ).len(),
        card_rows(label, w, width, style, text, false).len() == wrapped_all(
            text::lines_of(text),
            width,
        ).len() + 2,
{
}

/// The window never holds more rows than fit, and is full wherever there are rows to fill it with.
pub proof fn law_the_window_is_as_full_as_it_can_be(
    rows: Seq<Seq<SpanView>>,
    max_rows: nat,
    at_end: bool,
    scroll: nat,
)
    ensures
        window(rows, max_rows, at_end, scroll).len() == if rows.len() < max_rows {
            rows.len()
        } else {
            max_rows
        },
        rows.len() > 0 && max_rows > 0 && at_end ==> window(rows, max_rows, at_end, scroll).last()
            == rows.last(),
{
}

/// The last rows of the transcript are the rows of its last messages: what is shown can be computed
/// from as much of the end of the transcript as fills the window.
pub proof fn law_a_tail_that_covers_the_window_is_enough(
    msgs: Seq<MsgView>,
    start: int,
    w: nat,
    width: nat,
    max_rows: nat,
    at_end: bool,
    scroll: nat,
    hide_reasoning: bool,
    busy: bool,
)
    requires
        0 <= start <= msgs.len(),
        start == 0 || rows_of(shown(msgs.skip(start), hide_reasoning), w, width).len() >= max_rows
            + (if at_end {
            0nat
        } else {
            scroll
        }),
    ensures
        visible(msgs, w, width, max_rows, at_end, scroll, hide_reasoning, busy) == window(
            annotated(
                rows_of(shown(msgs.skip(start), hide_reasoning), w, width),
                busy,
                growing(msgs),
            ),
            max_rows,
            at_end,
            scroll,
        ),
{
    lemma_tail(msgs, start, w, width, hide_reasoning);
    assert(start == 0 ==> msgs.take(start) =~= Seq::empty());
    lemma_window(
        rows_of(shown(msgs.take(start), hide_reasoning), w, width),
        rows_of(shown(msgs.skip(start), hide_reasoning), w, width),
        max_rows,
        at_end,
        scroll,
        busy,
        growing(msgs),
    );
}

} // verus!
