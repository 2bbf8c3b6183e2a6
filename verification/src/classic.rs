//! The classic layout: a chat with `y/n` tool prompts over the HTTP API.
//!
//! The same panes as [`ui`](crate::ui) in an older dress: a purple palette, plain rows instead of
//! cards, and a one-line input.

use crate::app;
use crate::app::{ItemView, SidebarItem};
use crate::chat_view;
use crate::palette::Color;
use crate::screen;
use crate::screen::{Line, Rect, Span, SpanView, Style, Widget, WidgetView};
use crate::text;
use crate::ui;
use crate::util;
use vstd::prelude::*;

verus! {

broadcast use {text::lemma_views_push, text::lemma_views_empty};

// ── Palette ────────────────────────────────────────────────────

pub const BG: Color = (10, 10, 18);

pub const SURFACE: Color = (16, 16, 28);

pub const BORDER: Color = (30, 30, 48);

pub const ACCENT: Color = (139, 92, 246);

pub const ACCENT_DIM: Color = (100, 60, 200);

pub const TEXT: Color = (220, 220, 240);

pub const DIM: Color = (100, 100, 130);

pub const USER: Color = (251, 191, 36);

pub const AGENT: Color = (96, 165, 250);

pub const TOOL: Color = (250, 204, 21);

pub const GREEN: Color = (52, 211, 153);

pub const RED: Color = (239, 68, 68);

pub const STATUS_BAR: Color = (20, 20, 35);

// ── State ──────────────────────────────────────────────────────

/// A message, by the role that said it.
#[derive(Debug, Clone)]
pub struct ClassicMsg {
    pub role: String,
    pub text: String,
    /// A tool call that was answered.
    pub done: bool,
}

#[verifier::ext_equal]
pub struct ClassicMsgView {
    pub role: Seq<char>,
    pub text: Seq<char>,
    pub done: bool,
}

impl View for ClassicMsg {
    type V = ClassicMsgView;

    open spec fn view(&self) -> ClassicMsgView {
        ClassicMsgView { role: self.role@, text: self.text@, done: self.done }
    }
}

/// What the classic layout shows.
pub struct ClassicApp {
    pub msgs: Vec<ClassicMsg>,
    pub busy: bool,
    pub sid: Option<String>,
    /// The API key.
    pub key: String,
    pub sidebar_items: Vec<SidebarItem>,
    pub sel: usize,
    pub sidebar_scroll: usize,
    /// The row the chat starts at; the largest number stands for its end.
    pub scroll: usize,
    pub input: String,
}

/// A [`ClassicApp`] in the abstract.
pub struct ClassicView {
    pub msgs: Seq<ClassicMsgView>,
    pub busy: bool,
    pub sid: Option<Seq<char>>,
    pub key: Seq<char>,
    pub sidebar_items: Seq<ItemView>,
    pub sel: usize,
    pub sidebar_scroll: usize,
    pub scroll: usize,
    pub input: Seq<char>,
}

impl View for ClassicApp {
    type V = ClassicView;

    open spec fn view(&self) -> ClassicView {
        ClassicView {
            msgs: text::views(self.msgs@),
            busy: self.busy,
            sid: text::opt_view(self.sid),
            key: self.key@,
            sidebar_items: text::views(self.sidebar_items@),
            sel: self.sel,
            sidebar_scroll: self.sidebar_scroll,
            scroll: self.scroll,
            input: self.input@,
        }
    }
}

// ── Status bar ─────────────────────────────────────────────────

/// The status bar's row.
pub open spec fn status_row(a: ClassicView) -> Seq<SpanView> {
    let sid = text::prefix(app::or_empty(a.sid), 8);
    seq![
        screen::run(" ◆ "@, screen::ink(ACCENT).bold()),
        screen::run("attacca"@, screen::ink(TEXT).bold()),
        if a.busy {
            screen::run(" ◉ running"@, screen::ink(TOOL))
        } else {
            screen::run(" ● ready"@, screen::ink(GREEN))
        },
        screen::run(
            if sid.len() == 0 {
                Seq::empty()
            } else {
                "  "@ + sid
            },
            screen::ink(DIM),
        ),
        if a.key.len() == 0 {
            screen::run("  ✗ no key"@, screen::ink(RED))
        } else {
            screen::run("  ✓ connected"@, screen::ink(GREEN))
        },
    ]
}

/// Draw the status bar.
pub fn draw_status(app: &ClassicApp, area: Rect) -> (w: Widget)
    ensures
        w@ == screen::row_of(status_row(app@), STATUS_BAR, area),
{
    let mut spans: Vec<Span> = Vec::new();
    spans.push(screen::span(" ◆ ", screen::ink(ACCENT).bold()));
    spans.push(screen::span("attacca", screen::ink(TEXT).bold()));
    spans.push(
        if app.busy {
            screen::span(" ◉ running", screen::ink(TOOL))
        } else {
            screen::span(" ● ready", screen::ink(GREEN))
        },
    );
    let sid = match &app.sid {
        Some(s) => util::short(s.as_str()),
        None => String::new(),
    };
    assert(sid@ =~= text::prefix(app::or_empty(app@.sid), 8));
    spans.push(
        screen::span_of(
            if sid.as_str().unicode_len() == 0 {
                String::new()
            } else {
                text::cat("  ", sid.as_str())
            },
            screen::ink(DIM),
        ),
    );
    spans.push(
        if app.key.as_str().unicode_len() == 0 {
            screen::span("  ✗ no key", screen::ink(RED))
        } else {
            screen::span("  ✓ connected", screen::ink(GREEN))
        },
    );
    let line = Line { spans };
    assert(line@ =~= status_row(app@));
    screen::row(line, STATUS_BAR, area)
}

// ── Sidebar ────────────────────────────────────────────────────

/// A name cut to `max` characters, the last of them an ellipsis.
pub open spec fn shortened(s: Seq<char>, max: nat) -> Seq<char> {
    if s.len() > max {
        text::prefix(s, chat_view::down(max, 1)) + "…"@
    } else {
        s
    }
}

/// A name cut to `max` characters.
pub fn short_name(s: &str, max: usize) -> (r: String)
    ensures
        r@ == shortened(s@, max as nat),
{
    if s.unicode_len() > max {
        let head = text::first_chars(
            s,
            if max < 1 {
                0
            } else {
                max - 1
            },
        );
        text::cat(head.as_str(), "…")
    } else {
        s.to_owned()
    }
}

/// The background of a line.
#[verifier::allow_in_spec]
pub fn ground(highlight: bool) -> (c: Color)
    returns
        (if highlight {
            BORDER
        } else {
            SURFACE
        }),
{
    if highlight {
        BORDER
    } else {
        SURFACE
    }
}

/// How a project's header looks.
#[verifier::allow_in_spec]
pub fn header_style(highlight: bool) -> (s: Style)
    returns
        (if highlight {
            screen::ink(ACCENT).bold().on(BORDER)
        } else {
            screen::ink(ACCENT_DIM).on(SURFACE)
        }),
{
    if highlight {
        screen::ink(ACCENT).bold().on(BORDER)
    } else {
        screen::ink(ACCENT_DIM).on(SURFACE)
    }
}

/// How a session's line looks.
#[verifier::allow_in_spec]
pub fn session_style(active: bool, highlight: bool) -> (s: Style)
    returns
        (if active {
            screen::ink(AGENT).bold().on(ground(highlight))
        } else if highlight {
            screen::ink(TEXT).bold().on(BORDER)
        } else {
            screen::ink(DIM).on(SURFACE)
        }),
{
    if active {
        screen::ink(AGENT).bold().on(ground(highlight))
    } else if highlight {
        screen::ink(TEXT).bold().on(BORDER)
    } else {
        screen::ink(DIM).on(SURFACE)
    }
}

/// The row of a sidebar line.
pub open spec fn item_row(item: ItemView, highlight: bool) -> Seq<SpanView> {
    match item {
        ItemView::ProjectHeader { name, expanded, session_count, .. } => seq![
            screen::run(
                if expanded {
                    " ▾ "@
                } else {
                    " ▸ "@
                },
                header_style(highlight),
            ),
            screen::run(shortened(name, 18), header_style(highlight)),
            screen::run(
                " "@ + text::decimal(session_count),
                screen::ink(DIM).on(ground(highlight)),
            ),
        ],
        ItemView::Session { title, active, .. } => seq![
            screen::run(
                if active {
                    "  ● "@
                } else {
                    "  ○ "@
                },
                session_style(active, highlight),
            ),
            screen::run(shortened(title, 18), session_style(active, highlight)),
        ],
        ItemView::NewSession => seq![
            if highlight {
                screen::run(" ▸ + new"@, screen::ink(GREEN).on(BORDER))
            } else {
                screen::run("   + new"@, screen::ink(DIM).on(SURFACE))
            },
        ],
    }
}

/// The rows of the sidebar that fit, from the scroll offset on.
pub open spec fn item_rows(a: ClassicView, max: nat) -> Seq<Seq<SpanView>> {
    let n = a.sidebar_items.len();
    let from = if a.sidebar_scroll < n {
        a.sidebar_scroll as int
    } else {
        n as int
    };
    let count = if n - from < max {
        (n - from) as nat
    } else {
        max
    };
    Seq::new(count, |i: int| item_row(a.sidebar_items[from + i], from + i == a.sel))
}

/// The sidebar.
pub open spec fn sidebar_widgets(a: ClassicView, area: Rect) -> Seq<WidgetView> {
    seq![
        screen::filled(SURFACE, area),
        screen::filled(
            ACCENT,
            screen::rect(area.x, (area.y + 1) as u16, 2, screen::less(area.height, 3)),
        ),
        screen::row_of(
            seq![
                screen::run(" ◆ "@, screen::ink(ACCENT).bold().on(SURFACE)),
                screen::run("sessions"@, screen::ink(TEXT).bold().on(SURFACE)),
            ],
            SURFACE,
            screen::rect((area.x + 3) as u16, area.y, area.width, 1),
        ),
        WidgetView::List {
            items: item_rows(a, screen::less(area.height, 4) as nat),
            bg: SURFACE,
            area: screen::rect(
                (area.x + 3) as u16,
                (area.y + 1) as u16,
                screen::less(area.width, 3),
                screen::less(area.height, 4),
            ),
        },
        screen::row_of(
            seq![screen::run("  ↑↓ scroll · enter open"@, screen::ink(DIM).on(SURFACE))],
            SURFACE,
            screen::rect(area.x, (area.y + screen::less(area.height, 1)) as u16, area.width, 1),
        ),
    ]
}

fn item_line(item: &SidebarItem, highlight: bool) -> (l: Line)
    ensures
        l@ == item_row(item@, highlight),
{
    match item {
        SidebarItem::ProjectHeader { name, expanded, session_count, .. } => {
            let style = header_style(highlight);
            let label = short_name(name.as_str(), 18);
            let count = text::show_usize(*session_count);
            screen::line3(
                screen::span(
                    if *expanded {
                        " ▾ "
                    } else {
                        " ▸ "
                    },
                    style,
                ),
                screen::span_of(label, style),
                screen::span_of(
                    text::cat(" ", count.as_str()),
                    screen::ink(DIM).on(ground(highlight)),
                ),
            )
        },
        SidebarItem::Session { title, active, .. } => {
            let style = session_style(*active, highlight);
            let label = short_name(title.as_str(), 18);
            screen::line2(
                screen::span(
                    if *active {
                        "  ● "
                    } else {
                        "  ○ "
                    },
                    style,
                ),
                screen::span_of(label, style),
            )
        },
        SidebarItem::NewSession => {
            if highlight {
                screen::line1(screen::span(" ▸ + new", screen::ink(GREEN).on(BORDER)))
            } else {
                screen::line1(screen::span("   + new", screen::ink(DIM).on(SURFACE)))
            }
        },
    }
}

fn item_lines(app: &ClassicApp, max: usize) -> (rows: Vec<Line>)
    ensures
        text::views(rows@) == item_rows(app@, max as nat),
{
    let n: usize = app.sidebar_items.len();
    let from: usize = if app.sidebar_scroll < n {
        app.sidebar_scroll
    } else {
        n
    };
    let count: usize = if n - from < max {
        n - from
    } else {
        max
    };
    let ghost want = item_rows(app@, max as nat);
    let mut rows: Vec<Line> = Vec::new();
    let mut i: usize = 0;
    assert(text::views(rows@) =~= want.take(0));
    while i < count
        invariant
            i <= count <= n - from,
            from <= n == app.sidebar_items@.len(),
            from == (if app.sidebar_scroll < n {
                app.sidebar_scroll
            } else {
                n
            }),
            count == want.len(),
            want == item_rows(app@, max as nat),
            text::views(rows@) == want.take(i as int),
        decreases count - i,
    {
        let item = &app.sidebar_items[from + i];
        assert(app@.sidebar_items[from + i] == item@);
        let line = item_line(item, from + i == app.sel);
        assert(line@ == want[i as int]);
        rows.push(line);
        assert(want.take(i + 1) =~= want.take(i as int).push(want[i as int]));
        i += 1;
    }
    assert(want.take(count as int) =~= want);
    rows
}

/// Draw the sidebar.
pub fn draw_sidebar(app: &ClassicApp, area: Rect) -> (out: Vec<Widget>)
    requires
        area.x + 3 <= u16::MAX,
        area.y + 1 <= u16::MAX,
        area.y + area.height <= u16::MAX,
    ensures
        text::views(out@) == sidebar_widgets(app@, area),
{
    let mut out: Vec<Widget> = Vec::new();
    out.push(screen::fill(SURFACE, area));
    out.push(
        screen::fill(
            ACCENT,
            screen::rect(area.x, area.y + 1, 2, screen::less(area.height, 3)),
        ),
    );
    out.push(
        screen::row(
            screen::line2(
                screen::span(" ◆ ", screen::ink(ACCENT).bold().on(SURFACE)),
                screen::span("sessions", screen::ink(TEXT).bold().on(SURFACE)),
            ),
            SURFACE,
            screen::rect(area.x + 3, area.y, area.width, 1),
        ),
    );
    let max: u16 = screen::less(area.height, 4);
    let items = item_lines(app, max as usize);
    out.push(
        Widget::List {
            items,
            bg: SURFACE,
            area: screen::rect(area.x + 3, area.y + 1, screen::less(area.width, 3), max),
        },
    );
    out.push(
        screen::row(
            screen::line1(
                screen::span("  ↑↓ scroll · enter open", screen::ink(DIM).on(SURFACE)),
            ),
            SURFACE,
            screen::rect(area.x, area.y + screen::less(area.height, 1), area.width, 1),
        ),
    );
    assert(text::views(out@) =~= sidebar_widgets(app@, area));
    out
}

// ── Chat ───────────────────────────────────────────────────────

/// The lines of a user's message, behind a rail.
pub open spec fn railed(lines: Seq<Seq<char>>) -> Seq<Seq<SpanView>> {
    Seq::new(
        lines.len(),
        |i: int|
            seq![screen::run(" │ "@, screen::ink(DIM)), screen::run(lines[i], screen::plain())],
    )
}

/// The lines of an agent's message, indented.
pub open spec fn indented(lines: Seq<Seq<char>>) -> Seq<Seq<SpanView>> {
    Seq::new(lines.len(), |i: int| seq![screen::run(" "@ + lines[i], screen::plain())])
}

/// The row of a tool's result.
pub open spec fn result_row(text: Seq<char>) -> Seq<SpanView> {
    let label = text::prefix(text::lines_of(text)[0], 60);
    if text::begins_with(text, "err"@) || text::begins_with(text, "skipped"@) {
        seq![screen::run("   ✖ "@ + label, screen::ink(RED))]
    } else {
        seq![screen::run("   ✔ "@ + label, screen::ink(GREEN))]
    }
}

/// The rows of a tool call that waits for an answer.
pub open spec fn question(text: Seq<char>) -> Seq<Seq<SpanView>> {
    seq![
        seq![screen::run(" ◆ "@, screen::ink(TOOL).bold()), screen::run(text, screen::ink(TOOL))],
        seq![
            screen::run("    ["@, screen::ink(DIM)),
            screen::run("y"@, screen::ink(GREEN).bold()),
            screen::run("] run  ["@, screen::ink(DIM)),
            screen::run("n"@, screen::ink(RED).bold()),
            screen::run("] skip"@, screen::ink(DIM)),
        ],
    ]
}

/// The rows of a message.
pub open spec fn msg_rows(m: ClassicMsgView) -> Seq<Seq<SpanView>> {
    let lines = text::lines_of(m.text);
    if m.role == "sys"@ {
        seq![seq![screen::run(" ── "@, screen::ink(DIM)), screen::run(m.text, screen::ink(DIM))]]
    } else if m.role == "user"@ {
        seq![
            seq![
                screen::run(" ── "@, screen::ink(USER).bold()),
                screen::run("you"@, screen::ink(USER).bold()),
            ],
        ] + railed(lines)
    } else if m.role == "agent"@ {
        if lines.len() == 0 {
            Seq::empty()
        } else {
            seq![
                seq![
                    screen::run(" "@, screen::ink(AGENT)),
                    screen::run("assistant"@, screen::ink(AGENT).bold()),
                ],
            ] + indented(lines)
        }
    } else if m.role == "tool"@ {
        if m.done {
            Seq::empty()
        } else {
            question(m.text)
        }
    } else if m.role == "result"@ {
        if lines.len() == 0 {
            Seq::empty()
        } else {
            seq![result_row(m.text)]
        }
    } else {
        Seq::empty()
    }
}

/// The rows of the messages.
pub open spec fn rows_of(msgs: Seq<ClassicMsgView>) -> Seq<Seq<SpanView>>
    decreases msgs.len(),
{
    if msgs.len() == 0 {
        Seq::empty()
    } else {
        rows_of(msgs.drop_last()) + msg_rows(msgs.last())
    }
}

/// The rows of the chat: a hint where there are none, and a note while the agent thinks.
pub open spec fn chat_rows(a: ClassicView) -> Seq<Seq<SpanView>> {
    let rows = rows_of(a.msgs);
    if rows.len() == 0 {
        seq![seq![screen::run("  ◆  enter:send · y/n:tool · /exit\n"@, screen::ink(DIM))]]
    } else if a.busy && a.msgs.len() > 0 && a.msgs.last().role == "user"@ {
        rows.push(
            seq![
                screen::run(" ◉ "@, screen::ink(ACCENT)),
                screen::run("thinking…"@, screen::ink(DIM)),
            ],
        )
    } else {
        rows
    }
}

/// The row that the chat starts at.
pub open spec fn chat_offset(a: ClassicView, total: nat, max: nat) -> nat {
    let last = chat_view::down(total, max);
    if a.scroll == usize::MAX || total <= max || a.scroll > last {
        last
    } else {
        a.scroll as nat
    }
}

/// The chat.
pub open spec fn chat_pane(a: ClassicView, area: Rect) -> WidgetView {
    let rows = chat_rows(a);
    WidgetView::Scrolled {
        lines: rows,
        bg: BG,
        area,
        offset: (chat_offset(a, rows.len(), screen::less(area.height, 1) as nat)
            % 0x10000) as u16,
    }
}

fn push_user(out: &mut Vec<Line>, lines: &Vec<String>)
    ensures
        text::views(final(out)@) == text::views(old(out)@) + (seq![
            seq![
                screen::run(" ── "@, screen::ink(USER).bold()),
                screen::run("you"@, screen::ink(USER).bold()),
            ],
        ] + railed(text::views(lines@))),
{
    let ghost start = text::views(out@);
    out.push(
        screen::line2(
            screen::span(" ── ", screen::ink(USER).bold()),
            screen::span("you", screen::ink(USER).bold()),
        ),
    );
    let ghost head = text::views(out@);
    let ghost want = railed(text::views(lines@));
    let mut i: usize = 0;
    assert(head =~= head + want.take(0));
    while i < lines.len()
        invariant
            i <= lines@.len(),
            want == railed(text::views(lines@)),
            text::views(out@) == head + want.take(i as int),
        decreases lines@.len() - i,
    {
        let line = screen::line2(
            screen::span(" │ ", screen::ink(DIM)),
            screen::span(lines[i].as_str(), screen::plain()),
        );
        assert(text::views(lines@)[i as int] == lines@[i as int]@);
        assert(line@ =~= want[i as int]);
        out.push(line);
        assert(want.take(i + 1) =~= want.take(i as int).push(want[i as int]));
        assert(text::views(out@) =~= head + want.take(i + 1));
        i += 1;
    }
    assert(want.take(i as int) =~= want);
    assert(text::views(out@) =~= start + (seq![head.last()] + want));
}

fn push_agent(out: &mut Vec<Line>, lines: &Vec<String>)
    requires
        lines@.len() > 0,
    ensures
        text::views(final(out)@) == text::views(old(out)@) + (seq![
            seq![
                screen::run(" "@, screen::ink(AGENT)),
                screen::run("assistant"@, screen::ink(AGENT).bold()),
            ],
        ] + indented(text::views(lines@))),
{
    let ghost start = text::views(out@);
    out.push(
        screen::line2(
            screen::span(" ", screen::ink(AGENT)),
            screen::span("assistant", screen::ink(AGENT).bold()),
        ),
    );
    let ghost head = text::views(out@);
    let ghost want = indented(text::views(lines@));
    let mut i: usize = 0;
    assert(head =~= head + want.take(0));
    while i < lines.len()
        invariant
            i <= lines@.len(),
            want == indented(text::views(lines@)),
            text::views(out@) == head + want.take(i as int),
        decreases lines@.len() - i,
    {
        let line = screen::line1(
            screen::span_of(text::cat(" ", lines[i].as_str()), screen::plain()),
        );
        assert(text::views(lines@)[i as int] == lines@[i as int]@);
        assert(line@ =~= want[i as int]);
        out.push(line);
        assert(want.take(i + 1) =~= want.take(i as int).push(want[i as int]));
        assert(text::views(out@) =~= head + want.take(i + 1));
        i += 1;
    }
    assert(want.take(i as int) =~= want);
    assert(text::views(out@) =~= start + (seq![head.last()] + want));
}

fn push_question(out: &mut Vec<Line>, text: &str)
    ensures
        text::views(final(out)@) == text::views(old(out)@) + question(text@),
{
    let ghost start = text::views(out@);
    out.push(
        screen::line2(
            screen::span(" ◆ ", screen::ink(TOOL).bold()),
            screen::span(text, screen::ink(TOOL)),
        ),
    );
    let mut spans: Vec<Span> = Vec::new();
    spans.push(screen::span("    [", screen::ink(DIM)));
    spans.push(screen::span("y", screen::ink(GREEN).bold()));
    spans.push(screen::span("] run  [", screen::ink(DIM)));
    spans.push(screen::span("n", screen::ink(RED).bold()));
    spans.push(screen::span("] skip", screen::ink(DIM)));
    let line = Line { spans };
    assert(line@ =~= question(text@)[1]);
    out.push(line);
    assert(text::views(out@) =~= start + question(text@));
}

fn push_result(out: &mut Vec<Line>, text: &str, lines: &Vec<String>)
    requires
        lines@.len() > 0,
        text::views(lines@) == text::lines_of(text@),
    ensures
        text::views(final(out)@) == text::views(old(out)@) + seq![result_row(text@)],
{
    let ghost start = text::views(out@);
    assert(text::views(lines@)[0] == lines@[0]@);
    let label = text::first_chars(lines[0].as_str(), 60);
    let line = if text::starts_with(text, "err") || text::starts_with(text, "skipped") {
        screen::line1(screen::span_of(text::cat("   ✖ ", label.as_str()), screen::ink(RED)))
    } else {
        screen::line1(screen::span_of(text::cat("   ✔ ", label.as_str()), screen::ink(GREEN)))
    };
    out.push(line);
    assert(text::views(out@) =~= start + seq![result_row(text@)]);
}

fn push_msg(out: &mut Vec<Line>, m: &ClassicMsg)
    ensures
        text::views(final(out)@) == text::views(old(out)@) + msg_rows(m@),
{
    let ghost start = text::views(out@);
    let role = m.role.as_str();
    let text = m.text.as_str();
    let lines = text::lines(text);
    if text::same(role, "sys") {
        out.push(
            screen::line2(
                screen::span(" ── ", screen::ink(DIM)),
                screen::span(text, screen::ink(DIM)),
            ),
        );
        assert(text::views(out@) =~= start + msg_rows(m@));
    } else if text::same(role, "user") {
        push_user(out, &lines);
    } else if text::same(role, "agent") {
        if lines.len() > 0 {
            push_agent(out, &lines);
        } else {
            assert(start + msg_rows(m@) =~= start);
        }
    } else if text::same(role, "tool") {
        if !m.done {
            push_question(out, text);
        } else {
            assert(start + msg_rows(m@) =~= start);
        }
    } else if text::same(role, "result") {
        if lines.len() > 0 {
            push_result(out, text, &lines);
        } else {
            assert(start + msg_rows(m@) =~= start);
        }
    } else {
        assert(start + msg_rows(m@) =~= start);
    }
}

fn chat_lines(app: &ClassicApp) -> (out: Vec<Line>)
    ensures
        text::views(out@) == chat_rows(app@),
{
    let mut out: Vec<Line> = Vec::new();
    let ghost all = app@.msgs;
    let mut i: usize = 0;
    assert(all.take(0) =~= Seq::empty());
    while i < app.msgs.len()
        invariant
            i <= app.msgs@.len(),
            all == app@.msgs,
            text::views(out@) == rows_of(all.take(i as int)),
        decreases app.msgs@.len() - i,
    {
        let ghost next = all.take(i + 1);
        assert(next.drop_last() =~= all.take(i as int));
        assert(next.last() == app.msgs@[i as int]@);
        push_msg(&mut out, &app.msgs[i]);
        i += 1;
    }
    assert(all.take(i as int) =~= all);
    let waiting = if app.msgs.len() > 0 {
        assert(all.last() == app.msgs@[app.msgs@.len() - 1]@);
        text::same(app.msgs[app.msgs.len() - 1].role.as_str(), "user")
    } else {
        false
    };
    if out.len() == 0 {
        out.push(
            screen::line1(
                screen::span("  ◆  enter:send · y/n:tool · /exit\n", screen::ink(DIM)),
            ),
        );
        assert(text::views(out@) =~= chat_rows(app@));
    } else if app.busy && waiting {
        out.push(
            screen::line2(
                screen::span(" ◉ ", screen::ink(ACCENT)),
                screen::span("thinking…", screen::ink(DIM)),
            ),
        );
    }
    out
}

/// Draw the chat.
pub fn draw_chat(app: &ClassicApp, area: Rect) -> (w: Widget)
    ensures
        w@ == chat_pane(app@, area),
{
    let lines = chat_lines(app);
    let max: usize = screen::less(area.height, 1) as usize;
    let total: usize = lines.len();
    let last: usize = if total < max {
        0
    } else {
        total - max
    };
    let off: usize = if app.scroll == usize::MAX || total <= max || app.scroll > last {
        last
    } else {
        app.scroll
    };
    Widget::Scrolled { lines, bg: BG, area, offset: (off % 0x10000) as u16 }
}

// ── Input bar ──────────────────────────────────────────────────

/// The input's row.
pub open spec fn input_row(a: ClassicView) -> Seq<SpanView> {
    let prompt = if a.busy {
        screen::run(" ◉ "@, screen::ink(ACCENT))
    } else {
        screen::run(" > "@, screen::ink(ACCENT_DIM))
    };
    if a.input.len() == 0 {
        if a.busy {
            seq![prompt, screen::run("waiting…"@, screen::ink(DIM))]
        } else {
            seq![prompt, screen::run("type a message…"@, screen::ink(DIM))]
        }
    } else {
        seq![
            prompt,
            screen::run(a.input, screen::plain()),
            screen::run("█"@, screen::ink(ACCENT_DIM)),
        ]
    }
}

/// The input bar: a separator, and the input below it.
pub open spec fn input_widgets(a: ClassicView, area: Rect) -> Seq<WidgetView> {
    seq![
        screen::row_of(
            seq![screen::run(text::repeated('─', area.width as nat), screen::ink(BORDER))],
            SURFACE,
            screen::rect(area.x, area.y, area.width, 1),
        ),
        screen::row_of(
            input_row(a),
            BG,
            screen::rect(
                (area.x + 1) as u16,
                (area.y + 1) as u16,
                screen::less(area.width, 2),
                1,
            ),
        ),
    ]
}

/// Draw the input bar.
pub fn draw_input(app: &ClassicApp, area: Rect) -> (out: Vec<Widget>)
    requires
        area.x + 1 <= u16::MAX,
        area.y + 1 <= u16::MAX,
    ensures
        text::views(out@) == input_widgets(app@, area),
{
    let mut out: Vec<Widget> = Vec::new();
    let rule = text::repeat_char('─', area.width as usize);
    out.push(
        screen::row(
            screen::line1(screen::span_of(rule, screen::ink(BORDER))),
            SURFACE,
            screen::rect(area.x, area.y, area.width, 1),
        ),
    );
    let prompt = if app.busy {
        screen::span(" ◉ ", screen::ink(ACCENT))
    } else {
        screen::span(" > ", screen::ink(ACCENT_DIM))
    };
    let line = if app.input.as_str().unicode_len() == 0 {
        screen::line2(
            prompt,
            screen::span(
                if app.busy {
                    "waiting…"
                } else {
                    "type a message…"
                },
                screen::ink(DIM),
            ),
        )
    } else {
        screen::line3(
            prompt,
            screen::span(app.input.as_str(), screen::plain()),
            screen::span("█", screen::ink(ACCENT_DIM)),
        )
    };
    out.push(
        screen::row(
            line,
            BG,
            screen::rect(area.x + 1, area.y + 1, screen::less(area.width, 2), 1),
        ),
    );
    assert(text::views(out@) =~= input_widgets(app@, area));
    out
}

// ── The screen ─────────────────────────────────────────────────

/// Everything on the screen, in the order in which it is drawn. A screen that is too small stays
/// empty.
pub open spec fn screen_widgets(a: ClassicView, area: Rect) -> Seq<WidgetView> {
    if ui::roomy(area) {
        let left = ui::sidebar_width(area.width);
        let y = (area.y + 1) as u16;
        let h = (area.height - 3) as u16;
        seq![
            screen::filled(BG, area),
            screen::row_of(
                status_row(a),
                STATUS_BAR,
                screen::rect(area.x, area.y, area.width, 1),
            ),
        ] + sidebar_widgets(a, screen::rect(area.x, y, left, h)) + seq![
            chat_pane(
                a,
                screen::rect((area.x + left) as u16, y, (area.width - left) as u16, h),
            ),
        ] + input_widgets(
            a,
            screen::rect(area.x, (area.y + area.height - 2) as u16, area.width, 2),
        )
    } else {
        Seq::empty()
    }
}

/// Draw the screen.
pub fn draw(app: &ClassicApp, area: Rect) -> (out: Vec<Widget>)
    requires
        ui::roomy(area) ==> area.on_screen(),
    ensures
        text::views(out@) == screen_widgets(app@, area),
{
    let mut out: Vec<Widget> = Vec::new();
    if area.width < 50 || area.height < 10 {
        return out;
    }
    let (top, middle, bottom) = ui::three_rows(area, 2);
    let (left, right) = ui::two_columns(middle);
    out.push(screen::fill(BG, area));
    out.push(draw_status(app, top));
    let sidebar = draw_sidebar(app, left);
    ui::take_all(&mut out, sidebar);
    out.push(draw_chat(app, right));
    let input = draw_input(app, bottom);
    ui::take_all(&mut out, input);
    assert(text::views(out@) =~= screen_widgets(app@, area));
    out
}

// ── Laws ───────────────────────────────────────────────────────

/// The chat shows its last rows unless it was scrolled to a row before them.
pub proof fn law_the_chat_follows_its_end(a: ClassicView, total: nat, max: nat)
    ensures
        chat_offset(a, total, max) <= chat_view::down(total, max),
        a.scroll == usize::MAX ==> chat_offset(a, total, max) == chat_view::down(total, max),
        total <= max ==> chat_offset(a, total, max) == 0,
{
}

/// A tool call shows until it is answered.
pub proof fn law_an_answered_call_is_gone(text: Seq<char>)
    ensures
        msg_rows(ClassicMsgView { role: "tool"@, text, done: true }).len() == 0,
        msg_rows(ClassicMsgView { role: "tool"@, text, done: false }) == question(text),
{
    reveal_strlit("sys");
    reveal_strlit("user");
    reveal_strlit("agent");
    reveal_strlit("tool");
    assert("tool"@[0] == 't' && "sys"@[0] == 's' && "user"@[0] == 'u' && "agent"@[0] == 'a');
}

} // verus!
