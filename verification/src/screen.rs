//! What a screen is made of: rectangles, styled text, and the widgets placed on it.

use crate::palette::Color;
use crate::text;
use vstd::prelude::*;

verus! {

broadcast use {text::lemma_views_push, text::lemma_views_empty};

// ── Rectangles ─────────────────────────────────────────────────

/// A rectangle of terminal cells.
#[derive(Debug, Clone, Copy, PartialEq, Eq, Structural)]
pub struct Rect {
    pub x: u16,
    pub y: u16,
    pub width: u16,
    pub height: u16,
}

impl Rect {
    /// Every cell of it has coordinates.
    pub open spec fn on_screen(self) -> bool {
        self.x + self.width <= u16::MAX && self.y + self.height <= u16::MAX
    }
}

/// A rectangle.
#[verifier::allow_in_spec]
pub fn rect(x: u16, y: u16, width: u16, height: u16) -> (r: Rect)
    returns
        (Rect { x, y, width, height }),
{
    Rect { x, y, width, height }
}

/// How much of a direction a part of a layout takes.
#[derive(Debug, Clone, Copy, PartialEq, Eq, Structural)]
pub enum Constraint {
    /// Exactly so much.
    Length(u16),
    /// So much or more.
    Min(u16),
}

/// Which way a layout divides its area.
#[derive(Debug, Clone, Copy, PartialEq, Eq, Structural)]
pub enum Direction {
    Horizontal,
    Vertical,
}

/// How much the fixed parts of a layout take together.
pub open spec fn fixed(parts: Seq<Constraint>) -> int
    decreases parts.len(),
{
    if parts.len() == 0 {
        0
    } else {
        fixed(parts.drop_last()) + (match parts.last() {
            Constraint::Length(n) => n as int,
            Constraint::Min(_) => 0,
        })
    }
}

/// How much the parts that may grow ask for together.
pub open spec fn least(parts: Seq<Constraint>) -> int
    decreases parts.len(),
{
    if parts.len() == 0 {
        0
    } else {
        least(parts.drop_last()) + (match parts.last() {
            Constraint::Length(_) => 0,
            Constraint::Min(n) => n as int,
        })
    }
}

/// There is room for every part.
pub open spec fn ample(parts: Seq<Constraint>, extent: int) -> bool {
    fixed(parts) + least(parts) <= extent
}

/// How much of `extent` a part takes. Where there is room, a fixed part takes what it says and the
/// part that may grow all that the others leave; where there is not, the latter takes what it asks
/// for and the fixed part the rest.
pub open spec fn share(parts: Seq<Constraint>, i: int, extent: int) -> int {
    match parts[i] {
        Constraint::Length(n) => if ample(parts, extent) {
            n as int
        } else {
            extent - least(parts)
        },
        Constraint::Min(n) => if ample(parts, extent) {
            extent - fixed(parts)
        } else {
            n as int
        },
    }
}

/// How much of `extent` the parts before `i` take.
pub open spec fn offset(parts: Seq<Constraint>, i: int, extent: int) -> int
    decreases i,
{
    if i <= 0 {
        0
    } else {
        offset(parts, i - 1, extent) + share(parts, i - 1, extent)
    }
}

/// Of two or three parts, one may grow and the others are fixed; and there is room for all of them,
/// or there are two and there is room for the one that may grow.
pub open spec fn divides(parts: Seq<Constraint>, extent: int) -> bool {
    &&& 2 <= parts.len() <= 3
    &&& exists|g: int|
        0 <= g < parts.len() && (#[trigger] parts[g] matches Constraint::Min(n) && n <= i16::MAX)
            && forall|i: int| 0 <= i < parts.len() && i != g ==> #[trigger] parts[i] is Length
    &&& ample(parts, extent) || (parts.len() == 2 && least(parts) <= extent)
}

/// The part `i` of a divided area.
pub open spec fn part(direction: Direction, parts: Seq<Constraint>, area: Rect, i: int) -> Rect {
    match direction {
        Direction::Vertical => Rect {
            x: area.x,
            y: (area.y + offset(parts, i, area.height as int)) as u16,
            width: area.width,
            height: share(parts, i, area.height as int) as u16,
        },
        Direction::Horizontal => Rect {
            x: (area.x + offset(parts, i, area.width as int)) as u16,
            y: area.y,
            width: share(parts, i, area.width as int) as u16,
            height: area.height,
        },
    }
}

/// The extent that a direction divides.
pub open spec fn extent(direction: Direction, area: Rect) -> int {
    match direction {
        Direction::Vertical => area.height as int,
        Direction::Horizontal => area.width as int,
    }
}

/// `ratatui::layout::Layout::split`, on a layout with no margin and no spacing, of one minimum beside
/// one or two fixed lengths. Where there is room for all of them, the fixed parts get their lengths and the
/// minimum gets the rest; where there is not, the minimum outweighs the one length beside it. The
/// parts stand side by side in order and fill the area.
#[verifier::external_body]
pub(crate) fn split(direction: Direction, parts: &Vec<Constraint>, area: Rect) -> (r: Vec<Rect>)
    requires
        area.on_screen(),
        divides(parts@, extent(direction, area)),
    ensures
        r@ == Seq::new(parts@.len(), |i: int| part(direction, parts@, area, i)),
{
    let direction = match direction {
        Direction::Horizontal => ratatui::layout::Direction::Horizontal,
        Direction::Vertical => ratatui::layout::Direction::Vertical,
    };
    let parts = parts.iter().map(|p| match p {
        Constraint::Length(n) => ratatui::layout::Constraint::Length(*n),
        Constraint::Min(n) => ratatui::layout::Constraint::Min(*n),
    });
    let area = ratatui::layout::Rect::new(area.x, area.y, area.width, area.height);
    let layout = ratatui::layout::Layout::default().direction(direction).constraints(parts);
    let rects = layout.split(area);
    rects.iter().map(|r| Rect { x: r.x, y: r.y, width: r.width, height: r.height }).collect()
}

// ── Styled text ────────────────────────────────────────────────

/// How text looks.
#[derive(Debug, Clone, Copy, PartialEq, Eq)]
pub struct Style {
    pub fg: Option<Color>,
    pub bg: Option<Color>,
    pub bold: bool,
    pub dim: bool,
    pub italic: bool,
}

/// No particular look.
#[verifier::allow_in_spec]
pub fn plain() -> (s: Style)
    returns
        (Style { fg: None, bg: None, bold: false, dim: false, italic: false }),
{
    Style { fg: None, bg: None, bold: false, dim: false, italic: false }
}

/// In a color.
#[verifier::allow_in_spec]
pub fn ink(color: Color) -> (s: Style)
    returns
        (Style { fg: Some(color), bg: None, bold: false, dim: false, italic: false }),
{
    Style { fg: Some(color), bg: None, bold: false, dim: false, italic: false }
}

impl Style {
    /// On a background.
    #[verifier::allow_in_spec]
    pub fn on(self, color: Color) -> (s: Style)
        returns
            (Style { bg: Some(color), ..self }),
    {
        Style { bg: Some(color), ..self }
    }

    #[verifier::allow_in_spec]
    pub fn bold(self) -> (s: Style)
        returns
            (Style { bold: true, ..self }),
    {
        Style { bold: true, ..self }
    }

    #[verifier::allow_in_spec]
    pub fn dim(self) -> (s: Style)
        returns
            (Style { dim: true, ..self }),
    {
        Style { dim: true, ..self }
    }

    #[verifier::allow_in_spec]
    pub fn italic(self) -> (s: Style)
        returns
            (Style { italic: true, ..self }),
    {
        Style { italic: true, ..self }
    }
}

/// A run of text in one style.
#[derive(Debug, Clone, PartialEq, Eq)]
pub struct Span {
    pub text: String,
    pub style: Style,
}

#[verifier::ext_equal]
pub struct SpanView {
    pub text: Seq<char>,
    pub style: Style,
}

impl View for Span {
    type V = SpanView;

    open spec fn view(&self) -> SpanView {
        SpanView { text: self.text@, style: self.style }
    }
}

/// One row of text.
#[derive(Debug, Clone, PartialEq, Eq)]
pub struct Line {
    pub spans: Vec<Span>,
}

impl View for Line {
    type V = Seq<SpanView>;

    open spec fn view(&self) -> Seq<SpanView> {
        text::views(self.spans@)
    }
}

/// A run of text.
pub open spec fn run(text: Seq<char>, style: Style) -> SpanView {
    SpanView { text, style }
}

/// A run of text.
pub fn span(text: &str, style: Style) -> (s: Span)
    ensures
        s@ == run(text@, style),
{
    Span { text: text.to_owned(), style }
}

/// A run of text.
pub fn span_of(text: String, style: Style) -> (s: Span)
    ensures
        s@ == run(text@, style),
{
    Span { text, style }
}

/// A copy of a run.
pub fn dup_span(s: &Span) -> (r: Span)
    ensures
        r@ == s@,
{
    Span { text: s.text.clone(), style: s.style }
}

/// A row of one run.
pub fn line1(a: Span) -> (l: Line)
    ensures
        l@ == seq![a@],
{
    let mut spans: Vec<Span> = Vec::new();
    spans.push(a);
    let l = Line { spans };
    assert(l@ =~= seq![a@]);
    l
}

/// A row of two runs.
pub fn line2(a: Span, b: Span) -> (l: Line)
    ensures
        l@ == seq![a@, b@],
{
    let mut spans: Vec<Span> = Vec::new();
    spans.push(a);
    spans.push(b);
    let l = Line { spans };
    assert(l@ =~= seq![a@, b@]);
    l
}

/// A row of three runs.
pub fn line3(a: Span, b: Span, c: Span) -> (l: Line)
    ensures
        l@ == seq![a@, b@, c@],
{
    let mut spans: Vec<Span> = Vec::new();
    spans.push(a);
    spans.push(b);
    spans.push(c);
    let l = Line { spans };
    assert(l@ =~= seq![a@, b@, c@]);
    l
}

fn dup_spans(v: &Vec<Span>) -> (r: Vec<Span>)
    ensures
        text::views(r@) == text::views(v@),
{
    let mut r: Vec<Span> = Vec::new();
    let ghost all = text::views(v@);
    let mut i: usize = 0;
    assert(text::views(r@) =~= all.take(0));
    while i < v.len()
        invariant
            i <= v@.len(),
            all == text::views(v@),
            text::views(r@) == all.take(i as int),
        decreases v@.len() - i,
    {
        r.push(dup_span(&v[i]));
        assert(all.take(i + 1) =~= all.take(i as int).push(all[i as int]));
        i += 1;
    }
    assert(all.take(i as int) =~= all);
    r
}

/// The rows `from..to`.
pub fn rows_between(lines: &Vec<Line>, from: usize, to: usize) -> (r: Vec<Line>)
    requires
        from <= to <= lines@.len(),
    ensures
        text::views(r@) == text::views(lines@).subrange(from as int, to as int),
{
    let mut r: Vec<Line> = Vec::new();
    let ghost all = text::views(lines@);
    let mut i: usize = from;
    assert(text::views(r@) =~= all.subrange(from as int, from as int));
    while i < to
        invariant
            from <= i <= to <= lines@.len(),
            all == text::views(lines@),
            text::views(r@) == all.subrange(from as int, i as int),
        decreases to - i,
    {
        r.push(Line { spans: dup_spans(&lines[i].spans) });
        assert(all.subrange(from as int, i + 1) =~= all.subrange(from as int, i as int).push(
            all[i as int],
        ));
        i += 1;
    }
    r
}

// ── Widgets ────────────────────────────────────────────────────

/// Something placed on the screen. Later ones lie over earlier ones.
#[derive(Debug, PartialEq, Eq)]
pub enum Widget {
    /// Rows of text over a background. With no rows, only the background.
    Paragraph { lines: Vec<Line>, bg: Color, area: Rect },
    /// A list of rows over a background.
    List { items: Vec<Line>, bg: Color, area: Rect },
    /// Rows of text over a background, from the row `offset` on.
    Scrolled { lines: Vec<Line>, bg: Color, area: Rect, offset: u16 },
    /// A vertical scrollbar for `total` rows, `view` of them visible from `position` on.
    Scrollbar { total: usize, view: usize, position: usize, thumb: Color, track: Color, area: Rect },
}

#[verifier::ext_equal]
pub enum WidgetView {
    Paragraph { lines: Seq<Seq<SpanView>>, bg: Color, area: Rect },
    List { items: Seq<Seq<SpanView>>, bg: Color, area: Rect },
    Scrolled { lines: Seq<Seq<SpanView>>, bg: Color, area: Rect, offset: u16 },
    Scrollbar { total: usize, view: usize, position: usize, thumb: Color, track: Color, area: Rect },
}

impl View for Widget {
    type V = WidgetView;

    open spec fn view(&self) -> WidgetView {
        match self {
            Widget::Paragraph { lines, bg, area } => WidgetView::Paragraph {
                lines: text::views(lines@),
                bg: *bg,
                area: *area,
            },
            Widget::List { items, bg, area } => WidgetView::List {
                items: text::views(items@),
                bg: *bg,
                area: *area,
            },
            Widget::Scrolled { lines, bg, area, offset } => WidgetView::Scrolled {
                lines: text::views(lines@),
                bg: *bg,
                area: *area,
                offset: *offset,
            },
            Widget::Scrollbar { total, view, position, thumb, track, area } => {
                WidgetView::Scrollbar {
                    total: *total,
                    view: *view,
                    position: *position,
                    thumb: *thumb,
                    track: *track,
                    area: *area,
                }
            },
        }
    }
}

/// A filled rectangle.
pub open spec fn filled(bg: Color, area: Rect) -> WidgetView {
    WidgetView::Paragraph { lines: Seq::empty(), bg, area }
}

/// A filled rectangle.
pub fn fill(bg: Color, area: Rect) -> (w: Widget)
    ensures
        w@ == filled(bg, area),
{
    Widget::Paragraph { lines: Vec::new(), bg, area }
}

/// One row over a background.
pub open spec fn row_of(line: Seq<SpanView>, bg: Color, area: Rect) -> WidgetView {
    WidgetView::Paragraph { lines: seq![line], bg, area }
}

/// One row over a background.
pub fn row(line: Line, bg: Color, area: Rect) -> (w: Widget)
    ensures
        w@ == row_of(line@, bg, area),
{
    let mut lines: Vec<Line> = Vec::new();
    lines.push(line);
    assert(text::views(lines@) =~= seq![line@]);
    Widget::Paragraph { lines, bg, area }
}

/// Subtraction that stops at zero.
#[verifier::allow_in_spec]
pub fn less(a: u16, b: u16) -> (r: u16)
    returns
        (if a < b {
            0u16
        } else {
            (a - b) as u16
        }),
{
    if a < b {
        0
    } else {
        a - b
    }
}

} // verus!
