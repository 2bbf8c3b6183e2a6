//! What is on the screen: the layout, the status bar and the sidebar.
//!
//! Every function here says which widgets go where; putting them on a terminal is the surrounding
//! program's work.

use crate::app;
use crate::app::{App, AppView, Focus, ItemView, SidebarItem};
use crate::chat_view;
use crate::input_view;
use crate::palette::{
    ACCENT_BG, BG, BORDER, CARD, DESTRUCTIVE, DIM, GREEN, P, POPOVER, P_DIM, SIDEW, TEXT, YELLOW,
};
use crate::screen;
use crate::screen::{
    Constraint, Direction, Line, Rect, Span, SpanView, Style, Widget, WidgetView,
};
use crate::text;
use crate::util;
use vstd::prelude::*;

verus! {

broadcast use {text::lemma_views_push, text::lemma_views_empty};

// ── Layout ─────────────────────────────────────────────────────

/// The least screen that anything is drawn on.
pub open spec fn roomy(area: Rect) -> bool {
    area.width >= 50 && area.height >= 10
}

/// The status bar: the first row.
pub open spec fn status_area(a: Rect) -> Rect {
    screen::rect(a.x, a.y, a.width, 1)
}

/// The input box: the last four rows.
pub open spec fn input_area(a: Rect) -> Rect {
    screen::rect(a.x, (a.y + a.height - 4) as u16, a.width, 4)
}

/// How many columns the sidebar gets: its own, or fewer where the chat would have less than its
/// least.
pub open spec fn sidebar_width(width: u16) -> u16 {
    if width >= SIDEW + CHATW {
        SIDEW
    } else {
        (width - CHATW) as u16
    }
}

/// The sidebar: the left columns between the two.
pub open spec fn sidebar_area(a: Rect) -> Rect {
    screen::rect(a.x, (a.y + 1) as u16, sidebar_width(a.width), (a.height - 5) as u16)
}

/// The chat: the rest.
pub open spec fn chat_area(a: Rect) -> Rect {
    let left = sidebar_width(a.width);
    screen::rect(
        (a.x + left) as u16,
        (a.y + 1) as u16,
        (a.width - left) as u16,
        (a.height - 5) as u16,
    )
}

/// The least columns the chat gets.
pub const CHATW: u16 = 30;

/// Divide an area into its first row, its last `bottom` rows and what lies between.
pub fn three_rows(area: Rect, bottom: u16) -> (r: (Rect, Rect, Rect))
    requires
        area.on_screen(),
        area.height >= bottom + 4,
    ensures
        r.0 == screen::rect(area.x, area.y, area.width, 1),
        r.1 == screen::rect(
            area.x,
            (area.y + 1) as u16,
            area.width,
            (area.height - 1 - bottom) as u16,
        ),
        r.2 == screen::rect(
            area.x,
            (area.y + area.height - bottom) as u16,
            area.width,
            bottom,
        ),
{
    let mut parts: Vec<Constraint> = Vec::new();
    parts.push(Constraint::Length(1));
    parts.push(Constraint::Min(3));
    parts.push(Constraint::Length(bottom));
    proof {
        lemma_three(parts@, bottom, area.height as int);
    }
    let chunks = screen::split(Direction::Vertical, &parts, area);
    (chunks[0], chunks[1], chunks[2])
}

proof fn lemma_three(p: Seq<Constraint>, bottom: u16, extent: int)
    requires
        p.len() == 3,
        p[0] == Constraint::Length(1),
        p[1] == Constraint::Min(3),
        p[2] == Constraint::Length(bottom),
        extent >= bottom + 4,
    ensures
        screen::fixed(p) == 1 + bottom,
        screen::least(p) == 3,
        screen::divides(p, extent),
        screen::offset(p, 0, extent) == 0,
        screen::offset(p, 1, extent) == 1,
        screen::offset(p, 2, extent) == extent - bottom,
{
    reveal_with_fuel(screen::fixed, 4);
    reveal_with_fuel(screen::least, 4);
    reveal_with_fuel(screen::offset, 3);
    assert(p[1] matches Constraint::Min(n) && n == 3);
}

/// Divide an area into the sidebar's columns and the rest.
pub fn two_columns(area: Rect) -> (r: (Rect, Rect))
    requires
        area.on_screen(),
        area.width >= CHATW,
    ensures
        r.0 == screen::rect(area.x, area.y, sidebar_width(area.width), area.height),
        r.1 == screen::rect(
            (area.x + sidebar_width(area.width)) as u16,
            area.y,
            (area.width - sidebar_width(area.width)) as u16,
            area.height,
        ),
{
    let mut parts: Vec<Constraint> = Vec::new();
    parts.push(Constraint::Length(SIDEW));
    parts.push(Constraint::Min(CHATW));
    proof {
        let p = parts@;
        lemma_two(p, area.width as int);
    }
    let main = screen::split(Direction::Horizontal, &parts, area);
    (main[0], main[1])
}

proof fn lemma_two(p: Seq<Constraint>, extent: int)
    requires
        p.len() == 2,
        p[0] == Constraint::Length(SIDEW),
        p[1] == Constraint::Min(CHATW),
        CHATW <= extent <= u16::MAX,
    ensures
        screen::fixed(p) == SIDEW,
        screen::least(p) == CHATW,
        screen::divides(p, extent),
        screen::offset(p, 0, extent) == 0,
        screen::offset(p, 1, extent) == sidebar_width(extent as u16),
{
    reveal_with_fuel(screen::fixed, 3);
    reveal_with_fuel(screen::least, 3);
    reveal_with_fuel(screen::offset, 2);
    assert(p[1] matches Constraint::Min(n) && n == 30);
}

// ── Status bar ─────────────────────────────────────────────────

/// The status bar's row.
pub open spec fn status_row(a: AppView) -> Seq<SpanView> {
    let base = seq![
        screen::run(" ◆ "@, screen::ink(P).bold()),
        screen::run("Attacca"@, screen::ink(TEXT).bold()),
        screen::run(" "@, screen::ink(BORDER)),
        if a.is_busy() {
            screen::run("running"@, screen::ink(YELLOW).bold())
        } else {
            screen::run("ready"@, screen::ink(GREEN).bold())
        },
        if a.connected {
            screen::run("  ◉ online"@, screen::ink(GREEN))
        } else {
            screen::run("  offline"@, screen::ink(DESTRUCTIVE))
        },
    ];
    let named = match a.me {
        Some(me) => base.push(screen::run("  "@ + me.display_name, screen::ink(TEXT))),
        None => base,
    };
    let sid = text::prefix(app::or_empty(a.sid), 8);
    if sid.len() == 0 {
        named
    } else {
        named.push(screen::run("  "@ + sid, screen::ink(DIM)))
    }
}

/// The status bar: its row, and a border over the last row of its area.
pub open spec fn status_widgets(a: AppView, area: Rect) -> Seq<WidgetView> {
    seq![
        screen::row_of(status_row(a), CARD, area),
        screen::filled(
            BORDER,
            screen::rect(area.x, (area.y + area.height - 1) as u16, area.width, 1),
        ),
    ]
}

fn status_spans(app: &App) -> (l: Line)
    ensures
        l@ == status_row(app@),
{
    let mut spans: Vec<Span> = Vec::new();
    spans.push(screen::span(" ◆ ", screen::ink(P).bold()));
    spans.push(screen::span("Attacca", screen::ink(TEXT).bold()));
    spans.push(screen::span(" ", screen::ink(BORDER)));
    spans.push(
        if app.busy() {
            screen::span("running", screen::ink(YELLOW).bold())
        } else {
            screen::span("ready", screen::ink(GREEN).bold())
        },
    );
    spans.push(
        if app.connected {
            screen::span("  ◉ online", screen::ink(GREEN))
        } else {
            screen::span("  offline", screen::ink(DESTRUCTIVE))
        },
    );
    if let Some(me) = &app.me {
        spans.push(
            screen::span_of(text::cat("  ", me.display_name.as_str()), screen::ink(TEXT)),
        );
    }
    let sid = match &app.sid {
        Some(s) => util::short(s.as_str()),
        None => String::new(),
    };
    assert(sid@ =~= text::prefix(app::or_empty(app@.sid), 8));
    if sid.as_str().unicode_len() > 0 {
        spans.push(screen::span_of(text::cat("  ", sid.as_str()), screen::ink(DIM)));
    }
    let l = Line { spans };
    assert(l@ =~= status_row(app@));
    l
}

/// Draw the status bar.
pub fn draw_status(app: &App, area: Rect) -> (out: Vec<Widget>)
    requires
        1 <= area.y + area.height <= u16::MAX,
    ensures
        text::views(out@) == status_widgets(app@, area),
{
    let mut out: Vec<Widget> = Vec::new();
    out.push(screen::row(status_spans(app), CARD, area));
    out.push(
        screen::fill(BORDER, screen::rect(area.x, area.y + area.height - 1, area.width, 1)),
    );
    assert(text::views(out@) =~= status_widgets(app@, area));
    out
}

// ── Sidebar ────────────────────────────────────────────────────

/// A name cut to `max` characters, the last two of them dots.
pub open spec fn shortened(s: Seq<char>, max: nat) -> Seq<char> {
    if s.len() > max {
        text::prefix(s, chat_view::down(max, 2)) + ".."@
    } else {
        s
    }
}

/// A name cut to `max` characters.
pub fn short_name(s: &str, max: usize) -> (r: String)
    ensures
        r@ == shortened(s@, max as nat),
{
    if s.unicode_len() > max {
        let head = text::first_chars(
            s,
            if max < 2 {
                0
            } else {
                max - 2
            },
        );
        text::cat(head.as_str(), "..")
    } else {
        s.to_owned()
    }
}

/// How a project's header looks.
pub open spec fn header_style(hl: bool, focused: bool) -> Style {
    if hl && focused {
        screen::ink(P).bold().on(ACCENT_BG)
    } else if hl {
        screen::ink(P_DIM).on(BORDER)
    } else if !focused {
        screen::ink(DIM).on(POPOVER)
    } else {
        screen::ink(P_DIM).on(POPOVER)
    }
}

/// How a session's line looks.
pub open spec fn session_style(active: bool, hl: bool, focused: bool) -> Style {
    if active && focused {
        screen::ink(P).bold().on(
            if hl {
                ACCENT_BG
            } else {
                POPOVER
            },
        )
    } else if active {
        screen::ink(P_DIM).bold().on(
            if hl {
                BORDER
            } else {
                POPOVER
            },
        )
    } else if hl && focused {
        screen::ink(TEXT).bold().on(ACCENT_BG)
    } else if hl {
        screen::ink(DIM).on(BORDER)
    } else {
        screen::ink(DIM).on(POPOVER)
    }
}

/// How the line that offers a new session looks.
pub open spec fn new_style(hl: bool, focused: bool) -> Style {
    if hl && focused {
        screen::ink(GREEN).on(ACCENT_BG)
    } else if hl {
        screen::ink(GREEN).on(BORDER)
    } else {
        screen::ink(DIM).on(POPOVER)
    }
}

/// The row of a sidebar line.
pub open spec fn item_row(item: ItemView, hl: bool, focused: bool) -> Seq<SpanView> {
    match item {
        ItemView::ProjectHeader { name, expanded, session_count, .. } => {
            let icon = if expanded {
                "▾"@
            } else {
                "▸"@
            };
            seq![
                screen::run(
                    " "@ + icon + " "@ + shortened(name, 16) + " "@ + text::decimal(session_count),
                    header_style(hl, focused),
                ),
            ]
        },
        ItemView::Session { title, active, running, .. } => {
            let dot = if running {
                "◉"@
            } else if active {
                "●"@
            } else {
                "○"@
            };
            seq![
                screen::run(
                    "   "@ + dot + " "@ + shortened(title, 17),
                    session_style(active, hl, focused),
                ),
            ]
        },
        ItemView::NewSession => seq![
            screen::run(
                if hl {
                    " ▸ + new"@
                } else {
                    "   + new"@
                },
                new_style(hl, focused),
            ),
        ],
    }
}

/// The rows of the sidebar that fit, from the scroll offset on.
pub open spec fn item_rows(
    items: Seq<ItemView>,
    sel: usize,
    scroll: usize,
    max: nat,
    focused: bool,
) -> Seq<Seq<SpanView>> {
    let from = if scroll < items.len() {
        scroll as int
    } else {
        items.len() as int
    };
    let count = if items.len() - from < max {
        (items.len() - from) as nat
    } else {
        max
    };
    Seq::new(count, |i: int| item_row(items[from + i], from + i == sel, focused))
}

/// The sidebar.
pub open spec fn sidebar_widgets(a: AppView, area: Rect) -> Seq<WidgetView> {
    let focused = a.focus == Focus::Sidebar;
    let fg = if focused {
        P
    } else {
        DIM
    };
    let text_fg = if focused {
        TEXT
    } else {
        DIM
    };
    seq![
        screen::filled(POPOVER, area),
        screen::row_of(
            seq![
                screen::run(" ◆ "@, screen::ink(fg).bold().on(POPOVER)),
                screen::run("sessions"@, screen::ink(text_fg).bold().on(POPOVER)),
            ],
            POPOVER,
            screen::rect((area.x + 2) as u16, area.y, area.width, 1),
        ),
        WidgetView::List {
            items: item_rows(
                a.sidebar_items,
                a.sidebar_sel,
                a.sidebar_scroll,
                screen::less(area.height, 4) as nat,
                focused,
            ),
            bg: POPOVER,
            area: screen::rect(
                (area.x + 2) as u16,
                (area.y + 1) as u16,
                screen::less(area.width, 3),
                screen::less(area.height, 4),
            ),
        },
        screen::row_of(
            seq![
                screen::run("  ↑↓·enter  "@, screen::ink(fg).on(POPOVER)),
                screen::run("+new"@, screen::ink(GREEN).bold().on(POPOVER)),
            ],
            POPOVER,
            screen::rect(area.x, (area.y + screen::less(area.height, 1)) as u16, area.width, 1),
        ),
    ]
}

fn item_line(item: &SidebarItem, hl: bool, focused: bool) -> (l: Line)
    ensures
        l@ == item_row(item@, hl, focused),
{
    match item {
        SidebarItem::ProjectHeader { name, expanded, session_count, .. } => {
            let icon = if *expanded {
                "▾"
            } else {
                "▸"
            };
            let label = short_name(name.as_str(), 16);
            let count = text::show_usize(*session_count);
            let mut s = text::cat5(" ", icon, " ", label.as_str(), " ");
            s.append(count.as_str());
            let style = if hl && focused {
                screen::ink(P).bold().on(ACCENT_BG)
            } else if hl {
                screen::ink(P_DIM).on(BORDER)
            } else if !focused {
                screen::ink(DIM).on(POPOVER)
            } else {
                screen::ink(P_DIM).on(POPOVER)
            };
            screen::line1(screen::span_of(s, style))
        },
        SidebarItem::Session { title, active, running, .. } => {
            let dot = if *running {
                "◉"
            } else if *active {
                "●"
            } else {
                "○"
            };
            let label = short_name(title.as_str(), 17);
            let s = text::cat4("   ", dot, " ", label.as_str());
            let style = if *active && focused {
                screen::ink(P).bold().on(
                    if hl {
                        ACCENT_BG
                    } else {
                        POPOVER
                    },
                )
            } else if *active {
                screen::ink(P_DIM).bold().on(
                    if hl {
                        BORDER
                    } else {
                        POPOVER
                    },
                )
            } else if hl && focused {
                screen::ink(TEXT).bold().on(ACCENT_BG)
            } else if hl {
                screen::ink(DIM).on(BORDER)
            } else {
                screen::ink(DIM).on(POPOVER)
            };
            screen::line1(screen::span_of(s, style))
        },
        SidebarItem::NewSession => {
            let label = if hl {
                " ▸ + new"
            } else {
                "   + new"
            };
            let style = if hl && focused {
                screen::ink(GREEN).on(ACCENT_BG)
            } else if hl {
                screen::ink(GREEN).on(BORDER)
            } else {
                screen::ink(DIM).on(POPOVER)
            };
            screen::line1(screen::span(label, style))
        },
    }
}

fn item_lines(app: &App, max: usize, focused: bool) -> (rows: Vec<Line>)
    ensures
        text::views(rows@) == item_rows(
            app@.sidebar_items,
            app@.sidebar_sel,
            app@.sidebar_scroll,
            max as nat,
            focused,
        ),
{
    let n: usize = app.sidebar_items.len();
    let from: usize = if app.sidebar_scroll < n {
        app.sidebar_scroll
    } else {
        n
    };
    let count: usize = if n - from < max {
        n - from
    } else {
        max
    };
    let ghost want = item_rows(
        app@.sidebar_items,
        app@.sidebar_sel,
        app@.sidebar_scroll,
        max as nat,
        focused,
    );
    let mut rows: Vec<Line> = Vec::new();
    let mut i: usize = 0;
    assert(text::views(rows@) =~= want.take(0));
    while i < count
        invariant
            i <= count <= n - from,
            from <= n == app.sidebar_items@.len(),
            from == (if app.sidebar_scroll < n {
                app.sidebar_scroll
            } else {
                n
            }),
            count == want.len(),
            want == item_rows(
                app@.sidebar_items,
                app@.sidebar_sel,
                app@.sidebar_scroll,
                max as nat,
                focused,
            ),
            text::views(rows@) == want.take(i as int),
        decreases count - i,
    {
        let item = &app.sidebar_items[from + i];
        assert(app@.sidebar_items[from + i] == item@);
        let line = item_line(item, from + i == app.sidebar_sel, focused);
        assert(line@ == want[i as int]);
        rows.push(line);
        assert(want.take(i + 1) =~= want.take(i as int).push(want[i as int]));
        i += 1;
    }
    assert(want.take(count as int) =~= want);
    rows
}

/// Draw the sidebar.
pub fn draw_sidebar(app: &App, area: Rect) -> (out: Vec<Widget>)
    requires
        area.x + 2 <= u16::MAX,
        area.y + 1 <= u16::MAX,
        area.y + area.height <= u16::MAX,
    ensures
        text::views(out@) == sidebar_widgets(app@, area),
{
    let focused = app.focus == Focus::Sidebar;
    let fg = if focused {
        P
    } else {
        DIM
    };
    let text_fg = if focused {
        TEXT
    } else {
        DIM
    };
    let mut out: Vec<Widget> = Vec::new();
    out.push(screen::fill(POPOVER, area));
    out.push(
        screen::row(
            screen::line2(
                screen::span(" ◆ ", screen::ink(fg).bold().on(POPOVER)),
                screen::span("sessions", screen::ink(text_fg).bold().on(POPOVER)),
            ),
            POPOVER,
            screen::rect(area.x + 2, area.y, area.width, 1),
        ),
    );
    let max: u16 = screen::less(area.height, 4);
    let items = item_lines(app, max as usize, focused);
    out.push(
        Widget::List {
            items,
            bg: POPOVER,
            area: screen::rect(area.x + 2, area.y + 1, screen::less(area.width, 3), max),
        },
    );
    out.push(
        screen::row(
            screen::line2(
                screen::span("  ↑↓·enter  ", screen::ink(fg).on(POPOVER)),
                screen::span("+new", screen::ink(GREEN).bold().on(POPOVER)),
            ),
            POPOVER,
            screen::rect(area.x, area.y + screen::less(area.height, 1), area.width, 1),
        ),
    );
    assert(text::views(out@) =~= sidebar_widgets(app@, area));
    out
}

// ── The screen ─────────────────────────────────────────────────

/// Everything on the screen, in the order in which it is drawn. A screen that is too small stays
/// empty.
pub open spec fn screen_widgets(a: AppView, area: Rect) -> Seq<WidgetView> {
    if roomy(area) {
        seq![screen::filled(BG, area)] + status_widgets(a, status_area(area)) + sidebar_widgets(
            a,
            sidebar_area(area),
        ) + seq![chat_view::chat_pane(a, chat_area(area))] + input_view::box_widgets(
            a,
            input_area(area),
        )
    } else {
        Seq::empty()
    }
}

/// The state once the screen has been drawn.
pub open spec fn drawn(a: AppView, area: Rect) -> AppView {
    if roomy(area) {
        input_view::box_state(a, input_area(area))
    } else {
        a
    }
}

impl AppView {
    /// The screen can be drawn. One that is too small always can.
    pub open spec fn drawable(self, area: Rect) -> bool {
        roomy(area) ==> {
            &&& area.on_screen()
            &&& self.box_drawable()
            &&& self.scroll_ok(screen::less(area.height, 6) as nat)
        }
    }
}

/// Append widgets.
pub fn take_all(out: &mut Vec<Widget>, more: Vec<Widget>)
    ensures
        text::views(final(out)@) == text::views(old(out)@) + text::views(more@),
{
    let ghost before = out@;
    let mut rest = more;
    out.append(&mut rest);
    assert(text::views(out@) =~= text::views(before) + text::views(more@));
}

/// Top-level draw entry point, called once per frame.
pub fn draw(app: &mut App, area: Rect) -> (out: Vec<Widget>)
    requires
        old(app)@.drawable(area),
    ensures
        text::views(out@) == screen_widgets(old(app)@, area),
        final(app)@ == drawn(old(app)@, area),
{
    let mut out: Vec<Widget> = Vec::new();
    if area.width < 50 || area.height < 10 {
        return out;
    }
    let ghost a = app@;
    out.push(screen::fill(BG, area));
    let (top, middle, bottom) = three_rows(area, 4);
    let (left, right) = two_columns(middle);
    assert(left == sidebar_area(area));
    assert(right == chat_area(area));
    let status = draw_status(app, top);
    take_all(&mut out, status);
    let sidebar = draw_sidebar(app, left);
    take_all(&mut out, sidebar);
    out.push(chat_view::draw_chat(app, right));
    let input = input_view::draw_input_box(app, bottom);
    take_all(&mut out, input);
    assert(text::views(out@) =~= screen_widgets(a, area));
    out
}

} // verus!
