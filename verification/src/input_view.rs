//! The input box: an info bar, the wrapped input with its cursor, a scrollbar and the popup.

use crate::app::{App, AppView, Focus};
use crate::bytes;
use crate::palette::{BG, BORDER, CARD, DIM, P, P_FG, TEXT};
use crate::screen;
use crate::screen::{Line, Rect, Span, SpanView, Widget, WidgetView};
use crate::text;
use crate::wrap;
use vstd::prelude::*;

verus! {

broadcast use {text::lemma_views_push, text::lemma_views_empty};

// ── Info bar ───────────────────────────────────────────────────

/// A value behind its label, or nothing.
pub open spec fn labelled(label: Seq<char>, value: Seq<char>) -> Seq<char> {
    if value.len() == 0 {
        Seq::empty()
    } else {
        label + value
    }
}

/// The tokens of a session: in and out where both are known, in total otherwise.
pub open spec fn tokens(a: AppView) -> Seq<char> {
    if a.usage_total_tokens.len() == 0 {
        Seq::empty()
    } else if a.usage_input_tokens.len() > 0 && a.usage_output_tokens.len() > 0 {
        " tokens:"@ + a.usage_input_tokens + "/"@ + a.usage_output_tokens
    } else {
        " tokens:"@ + a.usage_total_tokens
    }
}

/// What the info bar says of a session.
pub open spec fn info_parts(a: AppView) -> Seq<char> {
    labelled(" proj:"@, a.current_project_name) + labelled(" ctx:"@, a.usage_context_tokens)
        + tokens(a) + labelled(" credits:"@, a.usage_credits_used) + labelled(" "@, a.usage_model)
}

/// What the info bar says.
pub open spec fn info(a: AppView) -> Seq<char> {
    if info_parts(a).len() == 0 {
        "  no session"@
    } else {
        info_parts(a)
    }
}

fn add(s: &mut String, label: &str, value: &str)
    ensures
        final(s)@ == old(s)@ + labelled(label@, value@),
{
    if value.unicode_len() > 0 {
        s.append(label);
        s.append(value);
    }
    assert(s@ =~= old(s)@ + labelled(label@, value@));
}

/// What the info bar says.
pub fn info_text(app: &App) -> (s: String)
    ensures
        s@ == info(app@),
{
    let mut s = String::new();
    self::add(&mut s, " proj:", app.current_project_name.as_str());
    self::add(&mut s, " ctx:", app.usage_context_tokens.as_str());
    let ghost before = s@;
    if app.usage_total_tokens.as_str().unicode_len() > 0 {
        if app.usage_input_tokens.as_str().unicode_len() > 0
            && app.usage_output_tokens.as_str().unicode_len() > 0 {
            s.append(" tokens:");
            s.append(app.usage_input_tokens.as_str());
            s.append("/");
            s.append(app.usage_output_tokens.as_str());
        } else {
            s.append(" tokens:");
            s.append(app.usage_total_tokens.as_str());
        }
    }
    assert(s@ =~= before + tokens(app@));
    self::add(&mut s, " credits:", app.usage_credits_used.as_str());
    self::add(&mut s, " ", app.usage_model.as_str());
    assert(s@ =~= info_parts(app@));
    if s.as_str().unicode_len() == 0 {
        return "  no session".to_owned();
    }
    s
}

// ── Rows ───────────────────────────────────────────────────────

/// The indent of a row that does not begin the input.
pub open spec fn indent() -> SpanView {
    screen::run("   "@, screen::ink(DIM))
}

/// What the input begins with.
pub open spec fn prompt(busy: bool) -> SpanView {
    if busy {
        screen::run(" ◉ "@, screen::ink(P))
    } else {
        screen::run(" > "@, screen::ink(P))
    }
}

/// How many characters the chunks before `i` hold.
pub open spec fn chunk_start(chunks: Seq<Seq<char>>, i: int) -> int
    decreases i,
{
    if i <= 0 {
        0
    } else {
        chunk_start(chunks, i - 1) + chunks[i - 1].len()
    }
}

/// Where in the chunk `i` an offset into a segment falls: inside it, or at its end where it is the
/// last one.
pub open spec fn cut_in(chunks: Seq<Seq<char>>, i: int, off: Option<int>) -> Option<int> {
    match off {
        None => None,
        Some(o) => {
            let s = chunk_start(chunks, i);
            let e = s + chunks[i].len();
            if (s <= o && o < e) || (o == e && i == chunks.len() - 1) {
                Some(o - s)
            } else {
                None
            }
        },
    }
}

/// A row of the input, cut where the cursor stands.
pub open spec fn input_row(gutter: SpanView, chunk: Seq<char>, cut: Option<int>) -> Seq<SpanView> {
    match cut {
        Some(c) => seq![
            gutter,
            screen::run(chunk.take(c), screen::plain()),
            screen::run(chunk.skip(c), screen::plain()),
        ],
        None => seq![gutter, screen::run(chunk, screen::plain())],
    }
}

/// The rows of a segment.
pub open spec fn segment_rows(chunks: Seq<Seq<char>>, off: Option<int>, first: SpanView) -> Seq<
    Seq<SpanView>,
> {
    Seq::new(
        chunks.len(),
        |i: int|
            input_row(
                if i == 0 {
                    first
                } else {
                    indent()
                },
                chunks[i],
                cut_in(chunks, i, off),
            ),
    )
}

/// The row of a segment that the cursor stands in, and the text before it there.
pub open spec fn spot_in(chunks: Seq<Seq<char>>, j: int, off: Option<int>) -> Option<
    (int, Seq<char>),
>
    decreases j,
{
    if j <= 0 {
        None
    } else {
        match cut_in(chunks, j - 1, off) {
            Some(c) => Some((j - 1, chunks[j - 1].take(c))),
            None => spot_in(chunks, j - 1, off),
        }
    }
}

/// Where the segment `k` starts, in characters of the input.
pub open spec fn segment_start(segments: Seq<Seq<char>>, k: int) -> int
    decreases k,
{
    if k <= 0 {
        0
    } else {
        segment_start(segments, k - 1) + segments[k - 1].len() + 1
    }
}

/// Where in the segment `k` the cursor stands.
pub open spec fn offset_in(segments: Seq<Seq<char>>, k: int, cursor: int) -> Option<int> {
    let s = segment_start(segments, k);
    if s <= cursor && cursor <= s + segments[k].len() {
        Some(cursor - s)
    } else {
        None
    }
}

/// The rows of the first `k` segments.
pub open spec fn rows_upto(
    segments: Seq<Seq<char>>,
    k: int,
    cursor: int,
    width: nat,
    first: SpanView,
) -> Seq<Seq<SpanView>>
    decreases k,
{
    if k <= 0 {
        Seq::empty()
    } else {
        rows_upto(segments, k - 1, cursor, width, first) + segment_rows(
            wrap::wrapped(segments[k - 1], width),
            offset_in(segments, k - 1, cursor),
            if k == 1 {
                first
            } else {
                indent()
            },
        )
    }
}

/// The row among those of the first `k` segments that the cursor stands in, and the text before it
/// there.
pub open spec fn spot_upto(
    segments: Seq<Seq<char>>,
    k: int,
    cursor: int,
    width: nat,
    first: SpanView,
) -> Option<(int, Seq<char>)>
    decreases k,
{
    if k <= 0 {
        None
    } else {
        let chunks = wrap::wrapped(segments[k - 1], width);
        match spot_in(chunks, chunks.len() as int, offset_in(segments, k - 1, cursor)) {
            Some((i, left)) => Some(
                (rows_upto(segments, k - 1, cursor, width, first).len() + i, left),
            ),
            None => spot_upto(segments, k - 1, cursor, width, first),
        }
    }
}

fn chunk_line(gutter: Span, chunk: &str, cut: Option<usize>) -> (l: Line)
    requires
        cut matches Some(c) ==> c <= chunk@.len(),
    ensures
        l@ == input_row(
            gutter@,
            chunk@,
            match cut {
                Some(c) => Some(c as int),
                None => None,
            },
        ),
{
    match cut {
        Some(c) => {
            let n: usize = chunk.unicode_len();
            let left = chunk.substring_char(0, c);
            let right = chunk.substring_char(c, n);
            assert(left@ =~= chunk@.take(c as int));
            assert(right@ =~= chunk@.skip(c as int));
            screen::line3(
                gutter,
                screen::span(left, screen::plain()),
                screen::span(right, screen::plain()),
            )
        },
        None => screen::line2(gutter, screen::span(chunk, screen::plain())),
    }
}

fn push_segment(
    rows: &mut Vec<Line>,
    chunks: &Vec<String>,
    off: Option<usize>,
    first: &Span,
) -> (spot: Option<(usize, String)>)
    ensures
        text::views(final(rows)@) == text::views(old(rows)@) + segment_rows(
            text::views(chunks@),
            match off {
                Some(o) => Some(o as int),
                None => None,
            },
            first@,
        ),
        match spot {
            Some((i, left)) => spot_in(
                text::views(chunks@),
                chunks@.len() as int,
                match off {
                    Some(o) => Some(o as int),
                    None => None,
                },
            ) == Some((i as int, left@)) && i < chunks@.len(),
            None => spot_in(
                text::views(chunks@),
                chunks@.len() as int,
                match off {
                    Some(o) => Some(o as int),
                    None => None,
                },
            ) is None,
        },
{
    let ghost all = text::views(chunks@);
    let ghost o: Option<int> = match off {
        Some(o) => Some(o as int),
        None => None,
    };
    let ghost want = segment_rows(all, o, first@);
    let ghost start = text::views(rows@);
    let mut spot: Option<(usize, String)> = None;
    // How much of the offset is left behind the chunks so far; none once it is passed.
    let mut left_over: Option<usize> = off;
    let n: usize = chunks.len();
    let mut i: usize = 0;
    assert(start =~= start + want.take(0));
    while i < n
        invariant
            i <= n == chunks@.len(),
            all == text::views(chunks@),
            o == (match off {
                Some(o) => Some(o as int),
                None => None::<int>,
            }),
            want == segment_rows(all, o, first@),
            text::views(rows@) == start + want.take(i as int),
            match (off, left_over) {
                (None, l) => l is None,
                (Some(o), Some(l)) => o == chunk_start(all, i as int) + l,
                (Some(o), None) => o < chunk_start(all, i as int),
            },
            match spot {
                Some((k, left)) => spot_in(all, i as int, o) == Some((k as int, left@)) && k < i,
                None => spot_in(all, i as int, o) is None,
            },
        decreases n - i,
    {
        let chunk = chunks[i].as_str();
        assert(all[i as int] == chunk@);
        let len: usize = chunk.unicode_len();
        let cut: Option<usize> = match left_over {
            Some(l) => if l < len || (l == len && i == n - 1) {
                Some(l)
            } else {
                None
            },
            None => None,
        };
        assert(match cut {
            Some(c) => cut_in(all, i as int, o) == Some(c as int),
            None => cut_in(all, i as int, o) is None,
        });
        let gutter = if i == 0 {
            screen::dup_span(first)
        } else {
            screen::span("   ", screen::ink(DIM))
        };
        let line = chunk_line(gutter, chunk, cut);
        assert(line@ == want[i as int]);
        rows.push(line);
        if let Some(c) = cut {
            let left = chunk.substring_char(0, c).to_owned();
            assert(left@ =~= chunk@.take(c as int));
            spot = Some((i, left));
        }
        left_over =
        match left_over {
            Some(l) => if l < len {
                None
            } else {
                Some(l - len)
            },
            None => None,
        };
        assert(want.take(i + 1) =~= want.take(i as int).push(want[i as int]));
        assert(text::views(rows@) =~= start + want.take(i + 1));
        i += 1;
    }
    assert(want.take(n as int) =~= want);
    spot
}

/// The rows of the input, and where the cursor stands among them.
fn input_rows(segments: &Vec<String>, cursor: usize, width: usize, first: &Span) -> (r: (
    Vec<Line>,
    Option<(usize, String)>,
))
    ensures
        text::views(r.0@) == rows_upto(
            text::views(segments@),
            segments@.len() as int,
            cursor as int,
            width as nat,
            first@,
        ),
        match r.1 {
            Some((i, left)) => spot_upto(
                text::views(segments@),
                segments@.len() as int,
                cursor as int,
                width as nat,
                first@,
            ) == Some((i as int, left@)) && i < r.0@.len(),
            None => spot_upto(
                text::views(segments@),
                segments@.len() as int,
                cursor as int,
                width as nat,
                first@,
            ) is None,
        },
{
    let ghost all = text::views(segments@);
    let mut rows: Vec<Line> = Vec::new();
    let mut spot: Option<(usize, String)> = None;
    let mut left_over: Option<usize> = Some(cursor);
    let n: usize = segments.len();
    let mut k: usize = 0;
    while k < n
        invariant
            k <= n == segments@.len(),
            all == text::views(segments@),
            text::views(rows@) == rows_upto(all, k as int, cursor as int, width as nat, first@),
            match left_over {
                Some(l) => cursor == segment_start(all, k as int) + l,
                None => cursor < segment_start(all, k as int),
            },
            match spot {
                Some((i, left)) => spot_upto(all, k as int, cursor as int, width as nat, first@)
                    == Some((i as int, left@)) && i < rows@.len(),
                None => spot_upto(all, k as int, cursor as int, width as nat, first@) is None,
            },
        decreases n - k,
    {
        let seg = segments[k].as_str();
        assert(all[k as int] == seg@);
        let len: usize = seg.unicode_len();
        let off: Option<usize> = match left_over {
            Some(l) => if l <= len {
                Some(l)
            } else {
                None
            },
            None => None,
        };
        assert(match off {
            Some(o) => offset_in(all, k as int, cursor as int) == Some(o as int),
            None => offset_in(all, k as int, cursor as int) is None,
        });
        let chunks = wrap::wrap_chars(seg, width);
        let gutter = if k == 0 {
            screen::dup_span(first)
        } else {
            screen::span("   ", screen::ink(DIM))
        };
        let above: usize = rows.len();
        let hit = push_segment(&mut rows, &chunks, off, &gutter);
        assert(rows.len() == above + chunks@.len()) by {
            assert(text::views(rows@).len() == above + chunks@.len());
        }
        if let Some((i, left)) = hit {
            spot = Some((above + i, left));
        }
        left_over =
        match left_over {
            Some(l) => if l <= len {
                None
            } else {
                Some(l - len - 1)
            },
            None => None,
        };
        k += 1;
    }
    (rows, spot)
}

// ── The box ────────────────────────────────────────────────────

/// Where the text goes.
pub open spec fn text_area(area: Rect) -> Rect {
    screen::rect(
        (area.x + 1) as u16,
        (area.y + 1) as u16,
        screen::less(area.width, 2),
        screen::less(area.height, 1),
    )
}

/// Where the text goes, without the scrollbar's column.
pub open spec fn render_area(area: Rect) -> Rect {
    let t = text_area(area);
    screen::rect(t.x, t.y, screen::less(t.width, 1), t.height)
}

/// Where the scrollbar goes.
pub open spec fn bar_area(area: Rect) -> Rect {
    let t = text_area(area);
    screen::rect((t.x + screen::less(t.width, 1)) as u16, t.y, 1, t.height)
}

/// How many columns the input wraps at: what the gutter leaves.
pub open spec fn input_width(area: Rect) -> nat {
    let w = render_area(area).width;
    if w < 4 {
        1
    } else {
        (w - 3) as nat
    }
}

/// The insertion point in characters, the end where it lies beyond.
pub open spec fn cursor_chars(a: AppView) -> int {
    bytes::chars_before(a.input, a.input_cursor as int) as int
}

/// The rows of the input.
pub open spec fn box_rows(a: AppView, area: Rect) -> Seq<Seq<SpanView>> {
    let first = prompt(a.is_busy());
    if a.input.len() == 0 {
        seq![seq![first, screen::run("type a message…"@, screen::ink(DIM))]]
    } else {
        let segments = text::segments_of(a.input);
        rows_upto(segments, segments.len() as int, cursor_chars(a), input_width(area), first)
    }
}

/// The row that the cursor stands in, and the text before it there.
pub open spec fn box_spot(a: AppView, area: Rect) -> Option<(int, Seq<char>)> {
    let segments = text::segments_of(a.input);
    spot_upto(
        segments,
        segments.len() as int,
        cursor_chars(a),
        input_width(area),
        prompt(a.is_busy()),
    )
}

/// How far the input can be scrolled.
pub open spec fn max_scroll(a: AppView, area: Rect) -> int {
    let total = box_rows(a, area).len() as int;
    let view = render_area(area).height as int;
    if total < view {
        0
    } else {
        total - view
    }
}

/// How far the input is scrolled.
pub open spec fn scrolled(a: AppView, area: Rect) -> int {
    let max = max_scroll(a, area);
    if a.input_scroll == usize::MAX || a.input_scroll > max {
        max
    } else {
        a.input_scroll as int
    }
}

/// The rows of the input that are visible.
pub open spec fn box_window(a: AppView, area: Rect) -> Seq<Seq<SpanView>> {
    let rows = box_rows(a, area);
    let from = scrolled(a, area);
    let view = render_area(area).height as int;
    let to = if from + view < rows.len() {
        from + view
    } else {
        rows.len() as int
    };
    rows.subrange(from, to)
}

/// A row and a column as the terminal counts them.
pub open spec fn counted(row: int, left: Seq<char>) -> (u16, u16) {
    ((row % 0x10000) as u16, ((3 + wrap::text_width(left)) % 0x10000) as u16)
}

/// The row and the column of the cursor in the input.
pub open spec fn cursor_cell(a: AppView, area: Rect) -> Option<(u16, u16)> {
    match box_spot(a, area) {
        Some((row, left)) => Some(counted(row, left)),
        None => a.cursor_screen,
    }
}

/// The smaller of two numbers.
pub open spec fn least(a: int, b: int) -> int {
    if a < b {
        a
    } else {
        b
    }
}

/// Where the hardware cursor goes: after the prompt of an empty input, where the insertion point
/// shows, and nowhere while that is scrolled out of view.
pub open spec fn cursor_place(a: AppView, area: Rect) -> Option<(u16, u16)> {
    let r = render_area(area);
    if a.input.len() == 0 {
        Some(((r.x + 3) as u16, r.y))
    } else {
        match cursor_cell(a, area) {
            None => None,
            Some((row, col)) => {
                let from = scrolled(a, area);
                if from <= row && row < from + r.height {
                    Some(
                        (
                            least(r.x + col, r.x + screen::less(r.width, 1)) as u16,
                            (r.y + (row - from)) as u16,
                        ),
                    )
                } else {
                    None
                }
            },
        }
    }
}

/// The state once the box has been drawn: how far the input can be scrolled, and where the cursor
/// went. A box without the focus leaves both alone.
pub open spec fn box_state(a: AppView, area: Rect) -> AppView {
    if a.focus == Focus::Chat {
        AppView {
            input_max_scroll: max_scroll(a, area) as usize,
            cursor_screen: cursor_place(a, area),
            ..a
        }
    } else {
        a
    }
}

/// What the popup says of a command.
pub open spec fn description(cmd: Seq<char>) -> Seq<char> {
    if cmd == "/exit"@ {
        "exit"@
    } else if cmd == "/help"@ {
        "help"@
    } else if cmd == "/sessions"@ {
        "sidebar + refresh"@
    } else if cmd == "/new"@ {
        "new chat"@
    } else if cmd == "/cancel"@ {
        "stop the turn"@
    } else if cmd == "/login"@ {
        "authorize node"@
    } else if cmd == "/logout"@ {
        "forget credential"@
    } else if cmd == "/whoami"@ {
        "identity, scopes"@
    } else if cmd == "/usage"@ {
        "account + usage"@
    } else if cmd == "/tools"@ {
        "server capabilities"@
    } else {
        ""@
    }
}

/// A line of the popup.
pub open spec fn popup_line(cmd: Seq<char>, chosen: bool) -> Seq<SpanView> {
    seq![
        screen::run(
            " "@ + cmd + "  "@ + description(cmd),
            if chosen {
                screen::ink(P_FG).on(P).bold()
            } else {
                screen::ink(TEXT).on(CARD)
            },
        ),
    ]
}

/// The lines of the popup.
pub open spec fn popup_lines(cmds: Seq<Seq<char>>, chosen: Option<usize>) -> Seq<Seq<SpanView>> {
    Seq::new(cmds.len(), |i: int| popup_line(cmds[i], chosen == Some(i as usize)))
}

/// Whether the popup shows.
pub open spec fn popup_shows(a: AppView) -> bool {
    a.autocomplete_suggestions.len() > 0 && text::begins_with(text::trimmed(a.input), "/"@)
}

/// The popup, above the box.
pub open spec fn popup(a: AppView, area: Rect) -> Seq<WidgetView> {
    if popup_shows(a) {
        let h = (a.autocomplete_suggestions.len() % 0x10000 + 1) as u16;
        let pr = screen::rect((area.x + 1) as u16, screen::less(area.y, h), 28, h);
        seq![
            screen::filled(CARD, pr),
            WidgetView::List {
                items: popup_lines(a.autocomplete_suggestions, a.autocomplete_idx),
                bg: CARD,
                area: screen::rect(pr.x, pr.y, 28, screen::less(h, 1)),
            },
        ]
    } else {
        Seq::empty()
    }
}

/// The scrollbar, where there are more rows than fit.
pub open spec fn scrollbar(a: AppView, area: Rect) -> Seq<WidgetView> {
    let total = box_rows(a, area).len();
    let view = render_area(area).height;
    if total > view {
        seq![
            WidgetView::Scrollbar {
                total: total as usize,
                view: view as usize,
                position: scrolled(a, area) as usize,
                thumb: P,
                track: BORDER,
                area: bar_area(area),
            },
        ]
    } else {
        Seq::empty()
    }
}

/// The input box.
pub open spec fn box_widgets(a: AppView, area: Rect) -> Seq<WidgetView> {
    let bar = screen::row_of(
        seq![screen::run(info(a), screen::ink(DIM))],
        CARD,
        screen::rect(area.x, area.y, area.width, 1),
    );
    if a.focus == Focus::Chat {
        seq![
            bar,
            WidgetView::Paragraph {
                lines: box_window(a, area),
                bg: BG,
                area: render_area(area),
            },
        ] + scrollbar(a, area) + popup(a, area)
    } else {
        seq![
            bar,
            screen::row_of(
                seq![screen::run("press Tab to focus chat"@, screen::ink(DIM))],
                BG,
                text_area(area),
            ),
        ]
    }
}

/// There is room for the box's coordinates.
pub open spec fn box_ok(area: Rect) -> bool {
    area.on_screen() && area.x + 4 <= u16::MAX && area.y + 1 <= u16::MAX
}

impl AppView {
    /// The box can be drawn: the insertion point is a boundary or beyond the end, and the popup can
    /// be measured.
    pub open spec fn box_drawable(self) -> bool {
        &&& bytes::at_boundary(self.input, self.input_cursor as int) || self.input_cursor
            >= bytes::byte_len(self.input)
        &&& self.autocomplete_suggestions.len() % 0x10000 != 0xffff
    }
}

fn build_rows(app: &App, width: usize) -> (r: (Vec<Line>, Option<(usize, String)>))
    requires
        app@.box_drawable(),
    ensures
        app@.input.len() == 0 ==> text::views(r.0@) == seq![
            seq![
                prompt(app@.is_busy()),
                screen::run("type a message…"@, screen::ink(DIM)),
            ],
        ] && r.1 is None,
        app@.input.len() > 0 ==> text::views(r.0@) == rows_upto(
            text::segments_of(app@.input),
            text::segments_of(app@.input).len() as int,
            cursor_chars(app@),
            width as nat,
            prompt(app@.is_busy()),
        ),
        app@.input.len() > 0 ==> match r.1 {
            Some((i, left)) => spot_upto(
                text::segments_of(app@.input),
                text::segments_of(app@.input).len() as int,
                cursor_chars(app@),
                width as nat,
                prompt(app@.is_busy()),
            ) == Some((i as int, left@)),
            None => spot_upto(
                text::segments_of(app@.input),
                text::segments_of(app@.input).len() as int,
                cursor_chars(app@),
                width as nat,
                prompt(app@.is_busy()),
            ) is None,
        },
{
    let first = if app.busy() {
        screen::span(" ◉ ", screen::ink(P))
    } else {
        screen::span(" > ", screen::ink(P))
    };
    let input = app.input.as_str();
    if input.unicode_len() == 0 {
        let mut rows: Vec<Line> = Vec::new();
        rows.push(screen::line2(first, screen::span("type a message…", screen::ink(DIM))));
        assert(text::views(rows@) =~= seq![
            seq![prompt(app@.is_busy()), screen::run("type a message…"@, screen::ink(DIM))],
        ]);
        return (rows, None);
    }
    let cursor: usize = cursor_index(input, app.input_cursor);
    let segments = text::segments(input);
    input_rows(&segments, cursor, width, &first)
}

fn cursor_index(input: &str, cursor: usize) -> (n: usize)
    requires
        bytes::at_boundary(input@, cursor as int) || cursor >= bytes::byte_len(input@),
    ensures
        n == bytes::chars_before(input@, cursor as int),
{
    if cursor >= bytes::len(input) {
        input.unicode_len()
    } else {
        proof {
            bytes::lemma_split(input@, cursor as int);
        }
        let (left, _) = bytes::split(input, cursor);
        left.unicode_len()
    }
}

fn describe(cmd: &str) -> (s: &'static str)
    ensures
        s@ == description(cmd@),
{
    if text::same(cmd, "/exit") {
        "exit"
    } else if text::same(cmd, "/help") {
        "help"
    } else if text::same(cmd, "/sessions") {
        "sidebar + refresh"
    } else if text::same(cmd, "/new") {
        "new chat"
    } else if text::same(cmd, "/cancel") {
        "stop the turn"
    } else if text::same(cmd, "/login") {
        "authorize node"
    } else if text::same(cmd, "/logout") {
        "forget credential"
    } else if text::same(cmd, "/whoami") {
        "identity, scopes"
    } else if text::same(cmd, "/usage") {
        "account + usage"
    } else if text::same(cmd, "/tools") {
        "server capabilities"
    } else {
        ""
    }
}

fn list_popup(cmds: &Vec<String>, chosen: Option<usize>) -> (items: Vec<Line>)
    ensures
        text::views(items@) == popup_lines(text::views(cmds@), chosen),
{
    let mut items: Vec<Line> = Vec::new();
    let ghost want = popup_lines(text::views(cmds@), chosen);
    let mut i: usize = 0;
    assert(text::views(items@) =~= want.take(0));
    while i < cmds.len()
        invariant
            i <= cmds@.len(),
            want == popup_lines(text::views(cmds@), chosen),
            text::views(items@) == want.take(i as int),
        decreases cmds@.len() - i,
    {
        let hl = match chosen {
            Some(c) => c == i,
            None => false,
        };
        let style = if hl {
            screen::ink(P_FG).on(P).bold()
        } else {
            screen::ink(TEXT).on(CARD)
        };
        let cmd = cmds[i].as_str();
        assert(text::views(cmds@)[i as int] == cmd@);
        let label = text::cat4(" ", cmd, "  ", describe(cmd));
        let line = screen::line1(screen::span_of(label, style));
        assert(line@ =~= want[i as int]);
        items.push(line);
        assert(want.take(i + 1) =~= want.take(i as int).push(want[i as int]));
        i += 1;
    }
    assert(want.take(i as int) =~= want);
    items
}

fn push_popup(app: &App, area: Rect, out: &mut Vec<Widget>)
    requires
        app@.box_drawable(),
        box_ok(area),
    ensures
        text::views(final(out)@) == text::views(old(out)@) + popup(app@, area),
{
    let ghost start = text::views(out@);
    if app.autocomplete_suggestions.len() > 0 && text::starts_with(
        text::trim(app.input.as_str()),
        "/",
    ) {
        let n: usize = app.autocomplete_suggestions.len();
        let h: u16 = (n % 0x10000 + 1) as u16;
        let items = list_popup(&app.autocomplete_suggestions, app.autocomplete_idx);
        let pr = screen::rect(area.x + 1, screen::less(area.y, h), 28, h);
        out.push(screen::fill(CARD, pr));
        out.push(
            Widget::List {
                items,
                bg: CARD,
                area: screen::rect(pr.x, pr.y, 28, screen::less(h, 1)),
            },
        );
    }
    assert(text::views(out@) =~= start + popup(app@, area));
}

fn place_cursor(
    stash: Option<(u16, u16)>,
    empty: bool,
    from: usize,
    r: Rect,
) -> (p: Option<(u16, u16)>)
    requires
        r.x + 3 <= u16::MAX,
        r.x + r.width <= u16::MAX,
        r.y + r.height <= u16::MAX,
    ensures
        p == (if empty {
            Some(((r.x + 3) as u16, r.y))
        } else {
            match stash {
                None => None,
                Some((row, col)) => if from <= row && row < from + r.height {
                    Some(
                        (
                            least(r.x + col, r.x + screen::less(r.width, 1)) as u16,
                            (r.y + (row - from)) as u16,
                        ),
                    )
                } else {
                    None
                },
            }
        }),
{
    if empty {
        return Some((r.x + 3, r.y));
    }
    match stash {
        None => None,
        Some((row, col)) => {
            let gr: usize = row as usize;
            if from <= gr && gr - from < r.height as usize {
                let edge: u16 = r.x + screen::less(r.width, 1);
                let x: u16 = if col < edge - r.x {
                    r.x + col
                } else {
                    edge
                };
                Some((x, r.y + (gr - from) as u16))
            } else {
                None
            }
        },
    }
}

/// Draw the input box, the info bar at its top included.
#[verifier::rlimit(60)]
pub fn draw_input_box(app: &mut App, area: Rect) -> (out: Vec<Widget>)
    requires
        old(app)@.box_drawable(),
        box_ok(area),
    ensures
        text::views(out@) == box_widgets(old(app)@, area),
        final(app)@ == box_state(old(app)@, area),
{
    let mut out: Vec<Widget> = Vec::new();
    let bar = info_text(app);
    out.push(
        screen::row(
            screen::line1(screen::span_of(bar, screen::ink(DIM))),
            CARD,
            screen::rect(area.x, area.y, area.width, 1),
        ),
    );
    let t = screen::rect(
        area.x + 1,
        area.y + 1,
        screen::less(area.width, 2),
        screen::less(area.height, 1),
    );
    if app.focus != Focus::Chat {
        out.push(
            screen::row(
                screen::line1(screen::span("press Tab to focus chat", screen::ink(DIM))),
                BG,
                t,
            ),
        );
        assert(text::views(out@) =~= box_widgets(app@, area));
        return out;
    }
    // Reserve the rightmost column for a scrollbar; wrap text into the rest.
    let r = screen::rect(t.x, t.y, screen::less(t.width, 1), t.height);
    // 3-char left gutter (prompt / continuation indent) shrinks the wrap width.
    let width: usize = if r.width < 4 {
        1
    } else {
        (r.width - 3) as usize
    };
    let view: usize = r.height as usize;
    let ghost a = app@;
    let (rows, spot) = build_rows(app, width);
    assert(text::views(rows@) =~= box_rows(a, area));
    // Scroll: Ctrl+↑/↓ for manual, auto-follow the last row when typing.
    let total: usize = rows.len();
    let max: usize = if total < view {
        0
    } else {
        total - view
    };
    let from: usize = if app.input_scroll == usize::MAX || app.input_scroll > max {
        max
    } else {
        app.input_scroll
    };
    let to: usize = if view < total - from {
        from + view
    } else {
        total
    };
    let shown = screen::rows_between(&rows, from, to);
    assert(text::views(shown@) == box_window(a, area));
    out.push(Widget::Paragraph { lines: shown, bg: BG, area: r });
    if total > view {
        out.push(
            Widget::Scrollbar {
                total,
                view,
                position: from,
                thumb: P,
                track: BORDER,
                area: screen::rect(t.x + screen::less(t.width, 1), t.y, 1, t.height),
            },
        );
    }
    push_popup(app, area, &mut out);
    assert(text::views(out@) =~= box_widgets(a, area));
    let stash: Option<(u16, u16)> = match spot {
        Some((row, left)) => {
            let w: usize = wrap::str_cols(left.as_str());
            Some(((row % 0x10000) as u16, ((w % 0x10000 + 3) % 0x10000) as u16))
        },
        None => app.cursor_screen,
    };
    let empty = app.input.as_str().unicode_len() == 0;
    app.input_max_scroll = max;
    app.cursor_screen = place_cursor(stash, empty, from, r);
    out
}

} // verus!
