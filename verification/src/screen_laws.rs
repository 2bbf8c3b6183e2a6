//! Laws of what the screen shows: where each pane stands, and what its rows say.

use crate::app::{AppView, Focus, ItemView};
use crate::bytes;
use crate::chat_view;
use crate::input_view;
use crate::palette::{ACCENT_BG, BG, BORDER, CARD, DESTRUCTIVE, GREEN, POPOVER, YELLOW};
use crate::screen;
use crate::screen::{Rect, SpanView, WidgetView};
use crate::text;
use crate::ui;
use crate::wrap;
use vstd::prelude::*;

verus! {

// ── Panes ──────────────────────────────────────────────────────

/// The status bar takes the first row, the input box the last four, and the sidebar twenty-eight
/// columns between them, or what thirty columns of chat leave it.
pub proof fn law_the_panes_have_their_places(a: Rect)
    requires
        a.on_screen(),
        a.width >= 50,
        a.height >= 10,
    ensures
        ({
            let left = if a.width >= 58 {
                28
            } else {
                a.width - 30
            };
            &&& ui::roomy(a)
            &&& ui::status_area(a) == (Rect { x: a.x, y: a.y, width: a.width, height: 1 })
            &&& ui::input_area(a) == (Rect {
                x: a.x,
                y: (a.y + a.height - 4) as u16,
                width: a.width,
                height: 4,
            })
            &&& ui::sidebar_area(a) == (Rect {
                x: a.x,
                y: (a.y + 1) as u16,
                width: left as u16,
                height: (a.height - 5) as u16,
            })
            &&& ui::chat_area(a) == (Rect {
                x: (a.x + left) as u16,
                y: (a.y + 1) as u16,
                width: (a.width - left) as u16,
                height: (a.height - 5) as u16,
            })
        }),
{
}

/// A screen that is large enough shows the status bar, the sidebar, the chat and the input box, each
/// in its place, over one background; a smaller one shows nothing.
pub proof fn law_every_pane_is_drawn(a: AppView, area: Rect)
    ensures
        area.width < 50 || area.height < 10 ==> ui::screen_widgets(a, area).len() == 0,
        area.width >= 50 && area.height >= 10 ==> ({
            let all = ui::screen_widgets(a, area);
            let status = ui::status_widgets(a, ui::status_area(area));
            let side = ui::sidebar_widgets(a, ui::sidebar_area(area));
            let below = input_view::box_widgets(a, ui::input_area(area));
            &&& status.len() == 2 && side.len() == 4
            &&& all.len() == 8 + below.len()
            &&& all[0] == (WidgetView::Paragraph { lines: Seq::empty(), bg: BG, area })
            &&& all.subrange(1, 3) == status
            &&& all.subrange(3, 7) == side
            &&& all[7] == chat_view::chat_pane(a, ui::chat_area(area))
            &&& all.subrange(8, all.len() as int) == below
        }),
        area.width < 50 || area.height < 10 ==> ui::drawn(a, area) == a,
        area.width >= 50 && area.height >= 10 ==> ui::drawn(a, area) == input_view::box_state(
            a,
            ui::input_area(area),
        ),
{
    if area.width >= 50 && area.height >= 10 {
        let all = ui::screen_widgets(a, area);
        let status = ui::status_widgets(a, ui::status_area(area));
        let side = ui::sidebar_widgets(a, ui::sidebar_area(area));
        let below = input_view::box_widgets(a, ui::input_area(area));
        assert(all.subrange(1, 3) =~= status);
        assert(all.subrange(3, 7) =~= side);
        assert(all.subrange(8, all.len() as int) =~= below);
    }
}

// ── The status bar ─────────────────────────────────────────────

/// The texts of a row's spans.
pub open spec fn texts(row: Seq<SpanView>) -> Seq<Seq<char>> {
    Seq::new(row.len(), |i: int| row[i].text)
}

/// The status bar says whether something runs, whether there is a connection, who is connected, and
/// which session is open, by the beginning of its id.
pub proof fn law_the_status_bar_says_how_things_are(a: AppView, area: Rect)
    ensures
        ({
            let row = ui::status_row(a);
            let running = a.busy_count > 0 || a.chat.running;
            let sid = match a.sid {
                Some(sid) => if sid.len() <= 8 {
                    sid
                } else {
                    sid.subrange(0, 8)
                },
                None => Seq::empty(),
            };
            let base = seq![
                " ◆ "@,
                "Attacca"@,
                " "@,
                if running {
                    "running"@
                } else {
                    "ready"@
                },
                if a.connected {
                    "  ◉ online"@
                } else {
                    "  offline"@
                },
            ];
            let named = match a.me {
                Some(me) => base.push("  "@ + me.display_name),
                None => base,
            };
            &&& texts(row) == (if sid.len() == 0 {
                named
            } else {
                named.push("  "@ + sid)
            })
            &&& ui::status_widgets(a, area)[0] == (WidgetView::Paragraph {
                lines: seq![row],
                bg: CARD,
                area,
            })
        }),
{
    let row = ui::status_row(a);
    let running = a.busy_count > 0 || a.chat.running;
    let sid = match a.sid {
        Some(sid) => if sid.len() <= 8 {
            sid
        } else {
            sid.subrange(0, 8)
        },
        None => Seq::empty(),
    };
    let base = seq![
        " ◆ "@,
        "Attacca"@,
        " "@,
        if running {
            "running"@
        } else {
            "ready"@
        },
        if a.connected {
            "  ◉ online"@
        } else {
            "  offline"@
        },
    ];
    let named = match a.me {
        Some(me) => base.push("  "@ + me.display_name),
        None => base,
    };
    let whole = if sid.len() == 0 {
        named
    } else {
        named.push("  "@ + sid)
    };
    assert(texts(row).len() == whole.len());
    assert(texts(row) =~= whole);
}

// ── The sidebar ────────────────────────────────────────────────

/// A name that fits is shown whole; a longer one is cut, with two dots for the rest.
pub open spec fn cut_to(s: Seq<char>, max: int) -> Seq<char> {
    if s.len() <= max {
        s
    } else {
        s.subrange(0, max - 2) + ".."@
    }
}

/// What a line of the sidebar says.
pub open spec fn says(item: ItemView, selected: bool) -> Seq<char> {
    match item {
        ItemView::ProjectHeader { name, expanded, session_count, .. } => " "@ + (if expanded {
            "▾"@
        } else {
            "▸"@
        }) + " "@ + cut_to(name, 16) + " "@ + text::decimal(session_count),
        ItemView::Session { title, active, running, .. } => "   "@ + (if running {
            "◉"@
        } else if active {
            "●"@
        } else {
            "○"@
        }) + " "@ + cut_to(title, 17),
        ItemView::NewSession => if selected {
            " ▸ + new"@
        } else {
            "   + new"@
        },
    }
}

/// The list of the sidebar is drawn from the third row of the screen on, one line to a row, from the
/// offset it is scrolled to; each row says its line: the row that is drawn where a click falls is
/// that of the line which the click acts on.
pub proof fn law_the_sidebar_draws_its_lines(a: AppView, area: Rect, row: u16)
    requires
        area.on_screen(),
        area.width >= 50,
        area.height >= 10,
        area.x == 0,
        area.y == 0,
        row >= 2,
        row - 2 < area.height - 9,
        (row - 2) + a.sidebar_scroll < a.sidebar_items.len(),
    ensures
        ({
            let list = ui::sidebar_widgets(a, ui::sidebar_area(area))[2];
            let i = (row - 2) + a.sidebar_scroll;
            &&& list is List
            &&& list->List_area.y == 2
            &&& list->List_area.x == 2
            &&& list->List_area.height == area.height - 9
            &&& row - 2 < list->List_items.len()
            &&& list->List_items[row - 2].len() == 1
            &&& list->List_items[row - 2][0].text == says(
                a.sidebar_items[i],
                i == a.sidebar_sel,
            )
        }),
{
}

/// The list shows as many lines as fit, from the offset it is scrolled to, each row its own line, and
/// none where it is scrolled beyond its end.
pub proof fn law_the_sidebar_shows_what_fits(a: AppView, area: Rect, i: int)
    requires
        area.height >= 4,
    ensures
        ({
            let list = ui::sidebar_widgets(a, area)[2];
            let left = if a.sidebar_scroll < a.sidebar_items.len() {
                a.sidebar_items.len() - a.sidebar_scroll
            } else {
                0
            };
            let at = a.sidebar_scroll + i;
            &&& list is List
            &&& list->List_items.len() == if left < area.height - 4 {
                left
            } else {
                area.height - 4
            }
            &&& 0 <= i < list->List_items.len() ==> list->List_items[i].len() == 1
                && list->List_items[i][0].text == says(a.sidebar_items[at], at == a.sidebar_sel)
        }),
{
}

// ── The info bar ───────────────────────────────────────────────

/// A value behind its label, where there is one.
pub open spec fn tagged(label: Seq<char>, value: Seq<char>) -> Seq<char> {
    if value.len() > 0 {
        label + value
    } else {
        Seq::empty()
    }
}

/// The info bar names the project, the context, the tokens, the credits and the model, in that order,
/// as far as they are known, and says that there is no session where none of them is.
pub proof fn law_the_info_bar_says_what_is_known(a: AppView, area: Rect)
    ensures
        ({
            let spent = if a.usage_total_tokens.len() == 0 {
                Seq::empty()
            } else if a.usage_input_tokens.len() > 0 && a.usage_output_tokens.len() > 0 {
                " tokens:"@ + a.usage_input_tokens + "/"@ + a.usage_output_tokens
            } else {
                " tokens:"@ + a.usage_total_tokens
            };
            let all = tagged(" proj:"@, a.current_project_name) + tagged(
                " ctx:"@,
                a.usage_context_tokens,
            ) + spent + tagged(" credits:"@, a.usage_credits_used) + tagged(" "@, a.usage_model);
            let bar = input_view::box_widgets(a, area)[0];
            &&& bar is Paragraph && bar->Paragraph_lines.len() == 1 && bar->Paragraph_lines[0].len()
                == 1
            &&& bar->Paragraph_lines[0][0].text == (if all.len() == 0 {
                "  no session"@
            } else {
                all
            })
            &&& bar->Paragraph_area == (Rect { x: area.x, y: area.y, width: area.width, height: 1 })
        }),
{
}

// ── The input box ──────────────────────────────────────────────

/// Whether a character is no newline.
pub open spec fn inline() -> spec_fn(char) -> bool {
    |c: char| c != '\n'
}

/// What a row of the input says behind its gutter.
pub open spec fn typed_in(row: Seq<SpanView>) -> Seq<char> {
    if row.len() == 3 {
        row[1].text + row[2].text
    } else {
        row[1].text
    }
}

/// What rows of the input say, one after the other.
pub open spec fn typed_in_all(rows: Seq<Seq<SpanView>>) -> Seq<char>
    decreases rows.len(),
{
    if rows.len() == 0 {
        Seq::empty()
    } else {
        typed_in_all(rows.drop_last()) + typed_in(rows.last())
    }
}

proof fn lemma_typed_append(x: Seq<Seq<SpanView>>, y: Seq<Seq<SpanView>>)
    ensures
        typed_in_all(x + y) == typed_in_all(x) + typed_in_all(y),
    decreases y.len(),
{
    if y.len() == 0 {
        assert(x + y =~= x);
        assert(typed_in_all(x) + Seq::<char>::empty() =~= typed_in_all(x));
    } else {
        lemma_typed_append(x, y.drop_last());
        assert((x + y).drop_last() =~= x + y.drop_last());
        assert(typed_in_all(x + y) =~= typed_in_all(x) + typed_in_all(y));
    }
}

proof fn lemma_segment_row(chunks: Seq<Seq<char>>, i: int, off: Option<int>, gutter: SpanView)
    requires
        0 <= i < chunks.len(),
    ensures
        typed_in(input_view::input_row(gutter, chunks[i], input_view::cut_in(chunks, i, off)))
            == chunks[i],
{
    if let Some(c) = input_view::cut_in(chunks, i, off) {
        assert(chunks[i].take(c) + chunks[i].skip(c) =~= chunks[i]);
    }
}

proof fn lemma_segment_typed(chunks: Seq<Seq<char>>, off: Option<int>, first: SpanView, n: int)
    requires
        0 <= n <= chunks.len(),
    ensures
        typed_in_all(input_view::segment_rows(chunks, off, first).take(n)) == wrap::flat(
            chunks.take(n),
        ),
    decreases n,
{
    let rows = input_view::segment_rows(chunks, off, first);
    if n > 0 {
        lemma_segment_typed(chunks, off, first, n - 1);
        assert(rows.take(n).drop_last() =~= rows.take(n - 1));
        assert(chunks.take(n).drop_last() =~= chunks.take(n - 1));
        lemma_segment_row(
            chunks,
            n - 1,
            off,
            if n == 1 {
                first
            } else {
                input_view::indent()
            },
        );
    }
}

proof fn lemma_rows_typed(
    segments: Seq<Seq<char>>,
    k: int,
    cursor: int,
    width: nat,
    first: SpanView,
)
    requires
        0 <= k <= segments.len(),
    ensures
        typed_in_all(input_view::rows_upto(segments, k, cursor, width, first)) == wrap::flat(
            segments.take(k),
        ),
    decreases k,
{
    if k > 0 {
        lemma_rows_typed(segments, k - 1, cursor, width, first);
        let chunks = wrap::wrapped(segments[k - 1], width);
        let off = input_view::offset_in(segments, k - 1, cursor);
        let gutter = if k == 1 {
            first
        } else {
            input_view::indent()
        };
        let rows = input_view::segment_rows(chunks, off, gutter);
        lemma_segment_typed(chunks, off, gutter, chunks.len() as int);
        assert(rows.take(chunks.len() as int) =~= rows);
        assert(chunks.take(chunks.len() as int) =~= chunks);
        wrap::lemma_flat(segments[k - 1], width);
        lemma_typed_append(input_view::rows_upto(segments, k - 1, cursor, width, first), rows);
        assert(segments.take(k).drop_last() =~= segments.take(k - 1));
    }
}

proof fn lemma_filter_all(s: Seq<char>)
    requires
        !s.contains('\n'),
    ensures
        s.filter(inline()) == s,
    decreases s.len(),
{
    reveal(Seq::filter);
    if s.len() > 0 {
        let rest = s.drop_last();
        assert forall|c: char| rest.contains(c) implies s.contains(c) by {
            let i = choose|i: int| 0 <= i < rest.len() && rest[i] == c;
            assert(s[i] == c);
        }
        lemma_filter_all(rest);
        assert(s.contains(s.last()));
        assert(s =~= rest.push(s.last()));
    } else {
        assert(s.filter(inline()) =~= s);
    }
}

proof fn lemma_filter_newline(a: Seq<char>, b: Seq<char>)
    requires
        !a.contains('\n'),
    ensures
        (a + seq!['\n'] + b).filter(inline()) == a + b.filter(inline()),
{
    lemma_filter_all(a);
    Seq::filter_distributes_over_add(a + seq!['\n'], b, inline());
    Seq::filter_distributes_over_add(a, seq!['\n'], inline());
    assert(seq!['\n'].filter(inline()) =~= Seq::<char>::empty()) by {
        reveal_with_fuel(Seq::filter, 2);
        assert(seq!['\n'].drop_last() =~= Seq::<char>::empty());
        assert(Seq::<char>::empty().filter(inline()) =~= Seq::<char>::empty());
    }
    assert(a + Seq::<char>::empty() =~= a);
}

proof fn lemma_flat_front(first: Seq<char>, rest: Seq<Seq<char>>)
    ensures
        wrap::flat(seq![first] + rest) == first + wrap::flat(rest),
    decreases rest.len(),
{
    let all = seq![first] + rest;
    if rest.len() == 0 {
        assert(all.drop_last() =~= Seq::empty());
        assert(wrap::flat(all.drop_last()) =~= Seq::empty());
        assert(wrap::flat(all) =~= first + wrap::flat(rest));
    } else {
        lemma_flat_front(first, rest.drop_last());
        assert(all.drop_last() =~= seq![first] + rest.drop_last());
        assert(wrap::flat(all) =~= first + wrap::flat(rest));
    }
}

proof fn lemma_segments_flat(s: Seq<char>)
    ensures
        wrap::flat(text::segments_of(s)) == s.filter(inline()),
    decreases s.len(),
{
    let n = text::newline_at(s);
    text::lemma_newline_at(s);
    let segs = text::segments_of(s);
    if n < s.len() {
        let front = s.take(n);
        let rest = s.skip(n + 1);
        lemma_segments_flat(rest);
        assert(!front.contains('\n'));
        assert(s =~= front + seq!['\n'] + rest);
        lemma_filter_newline(front, rest);
        lemma_flat_front(front, text::segments_of(rest));
    } else {
        assert(!s.contains('\n'));
        lemma_filter_all(s);
        assert(segs == seq![s]);
        assert(seq![s].drop_last() =~= Seq::empty());
        assert(wrap::flat(seq![s].drop_last()) =~= Seq::empty());
        assert(wrap::flat(seq![s]) =~= s);
    }
}

/// Every character of the input has its place in the box's rows: what stands behind the gutters, one
/// row after the other, is the input without its newlines.
pub proof fn law_no_character_of_the_input_is_missing(a: AppView, area: Rect)
    requires
        a.input.len() > 0,
    ensures
        typed_in_all(input_view::box_rows(a, area)) == a.input.filter(|c: char| c != '\n'),
{
    let segments = text::segments_of(a.input);
    lemma_rows_typed(
        segments,
        segments.len() as int,
        input_view::cursor_chars(a),
        input_view::input_width(area),
        input_view::prompt(a.is_busy()),
    );
    assert(segments.take(segments.len() as int) =~= segments);
    lemma_segments_flat(a.input);
    assert(inline() =~= (|c: char| c != '\n'));
}

/// An empty input shows how to begin, behind the prompt.
pub proof fn law_an_empty_input_says_so(a: AppView, area: Rect)
    requires
        a.input.len() == 0,
    ensures
        input_view::box_rows(a, area).len() == 1,
        texts(input_view::box_rows(a, area)[0]) == seq![
            if a.busy_count > 0 || a.chat.running {
                " ◉ "@
            } else {
                " > "@
            },
            "type a message…"@,
        ],
{
    assert(texts(input_view::box_rows(a, area)[0]) =~= seq![
        if a.busy_count > 0 || a.chat.running {
            " ◉ "@
        } else {
            " > "@
        },
        "type a message…"@,
    ]);
}

// ── The cursor ─────────────────────────────────────────────────

proof fn lemma_cut_flat(chunks: Seq<Seq<char>>, i: int)
    requires
        0 <= i <= chunks.len(),
    ensures
        input_view::chunk_start(chunks, i) == wrap::flat(chunks.take(i)).len(),
        wrap::flat(chunks.take(i)) == wrap::flat(chunks).take(
            wrap::flat(chunks.take(i)).len() as int,
        ),
        wrap::flat(chunks.take(i)).len() <= wrap::flat(chunks).len(),
    decreases chunks.len(),
{
    if i == chunks.len() {
        assert(chunks.take(i) =~= chunks);
        lemma_start_flat(chunks, i);
        assert(wrap::flat(chunks).take(wrap::flat(chunks).len() as int) =~= wrap::flat(chunks));
    } else {
        let rest = chunks.drop_last();
        lemma_cut_flat(rest, i);
        assert(rest.take(i) =~= chunks.take(i));
        lemma_start_flat(chunks, i);
        let n = wrap::flat(chunks.take(i)).len() as int;
        assert(wrap::flat(rest).take(n) =~= wrap::flat(chunks).take(n));
    }
}

proof fn lemma_start_flat(chunks: Seq<Seq<char>>, n: int)
    requires
        0 <= n <= chunks.len(),
    ensures
        input_view::chunk_start(chunks, n) == wrap::flat(chunks.take(n)).len(),
    decreases n,
{
    if n > 0 {
        lemma_start_flat(chunks, n - 1);
        assert(chunks.take(n).drop_last() =~= chunks.take(n - 1));
    }
}

proof fn lemma_spot_in(line: Seq<char>, width: nat, j: int, o: int)
    requires
        0 <= o <= line.len(),
        0 <= j <= wrap::wrapped(line, width).len(),
        input_view::spot_in(wrap::wrapped(line, width), j, Some(o)) is Some,
    ensures
        ({
            let chunks = wrap::wrapped(line, width);
            let (i, left) = input_view::spot_in(chunks, j, Some(o))->0;
            &&& 0 <= i < j
            &&& wrap::flat(chunks.take(i)) + left == line.take(o)
            &&& input_view::cut_in(chunks, i, Some(o)) is Some
            &&& left == chunks[i].take(input_view::cut_in(chunks, i, Some(o))->0)
        }),
    decreases j,
{
    let chunks = wrap::wrapped(line, width);
    if j > 0 {
        match input_view::cut_in(chunks, j - 1, Some(o)) {
            Some(c) => {
                let i = j - 1;
                wrap::lemma_flat(line, width);
                lemma_cut_flat(chunks, i);
                lemma_cut_flat(chunks, i + 1);
                assert(chunks.take(i + 1).drop_last() =~= chunks.take(i));
                assert(chunks.take(i + 1).last() == chunks[i]);
                let before = wrap::flat(chunks.take(i));
                let upto = wrap::flat(chunks.take(i + 1));
                assert(upto == before + chunks[i]);
                assert(before + chunks[i].take(c) =~= upto.take(o));
                assert(upto.take(o) =~= line.take(o));
            },
            None => {
                lemma_spot_in(line, width, j - 1, o);
            },
        }
    }
}

/// The characters before an offset into a segment, newlines left out.
proof fn lemma_before_cursor(s: Seq<char>, k: int, o: int)
    requires
        0 <= k < text::segments_of(s).len(),
        0 <= o <= text::segments_of(s)[k].len(),
    ensures
        ({
            let segs = text::segments_of(s);
            let at = input_view::segment_start(segs, k) + o;
            &&& 0 <= at <= s.len()
            &&& s.take(at).filter(inline()) == wrap::flat(segs.take(k)) + segs[k].take(o)
        }),
    decreases s.len(),
{
    let n = text::newline_at(s);
    text::lemma_newline_at(s);
    let segs = text::segments_of(s);
    if n < s.len() {
        let front = s.take(n);
        let rest = s.skip(n + 1);
        let tail = text::segments_of(rest);
        assert(segs == seq![front] + tail);
        assert(!front.contains('\n'));
        if k == 0 {
            assert(segs.take(0) =~= Seq::empty());
            assert(wrap::flat(segs.take(0)) =~= Seq::empty());
            assert(s.take(o) =~= front.take(o));
            assert(!front.take(o).contains('\n')) by {
                if front.take(o).contains('\n') {
                    let i = choose|i: int| 0 <= i < o && front.take(o)[i] == '\n';
                    assert(front[i] == '\n');
                }
            }
            lemma_filter_all(front.take(o));
            assert(Seq::<char>::empty() + segs[0].take(o) =~= front.take(o));
        } else {
            assert(tail[k - 1] == segs[k]);
            lemma_before_cursor(rest, k - 1, o);
            lemma_shift(front, tail, k - 1);
            let at = input_view::segment_start(segs, k) + o;
            let inner = input_view::segment_start(tail, k - 1) + o;
            assert(at == n + 1 + inner);
            assert(s.take(at) =~= front + seq!['\n'] + rest.take(inner));
            lemma_filter_newline(front, rest.take(inner));
            assert(segs.take(k) =~= seq![front] + tail.take(k - 1));
            lemma_flat_front(front, tail.take(k - 1));
            assert(front + (wrap::flat(tail.take(k - 1)) + segs[k].take(o)) =~= front + wrap::flat(
                tail.take(k - 1),
            ) + segs[k].take(o));
        }
    } else {
        assert(segs == seq![s]);
        assert(k == 0);
        assert(segs.take(0) =~= Seq::empty());
        assert(wrap::flat(segs.take(0)) =~= Seq::empty());
        assert(!s.take(o).contains('\n')) by {
            if s.take(o).contains('\n') {
                let i = choose|i: int| 0 <= i < o && s.take(o)[i] == '\n';
                assert(s[i] == '\n');
            }
        }
        lemma_filter_all(s.take(o));
        assert(Seq::<char>::empty() + segs[0].take(o) =~= s.take(o));
    }
}

proof fn lemma_shift(first: Seq<char>, rest: Seq<Seq<char>>, k: int)
    requires
        0 <= k <= rest.len(),
    ensures
        input_view::segment_start(seq![first] + rest, k + 1) == first.len() + 1
            + input_view::segment_start(rest, k),
    decreases k,
{
    let all = seq![first] + rest;
    if k > 0 {
        lemma_shift(first, rest, k - 1);
        assert(all[k] == rest[k - 1]);
    } else {
        reveal_with_fuel(input_view::segment_start, 2);
        assert(all[0] == first);
    }
}

proof fn lemma_spot_typed(
    s: Seq<char>,
    k: int,
    cursor: int,
    width: nat,
    first: SpanView,
)
    requires
        0 <= k <= text::segments_of(s).len(),
        input_view::spot_upto(text::segments_of(s), k, cursor, width, first) is Some,
    ensures
        ({
            let segs = text::segments_of(s);
            let rows = input_view::rows_upto(segs, k, cursor, width, first);
            let (row, left) = input_view::spot_upto(segs, k, cursor, width, first)->0;
            &&& 0 <= row < rows.len()
            &&& rows[row].len() == 3
            &&& rows[row][1].text == left
            &&& typed_in_all(rows.take(row)) + left == s.take(cursor).filter(inline())
        }),
    decreases k,
{
    let segs = text::segments_of(s);
    if k > 0 {
        let chunks = wrap::wrapped(segs[k - 1], width);
        let off = input_view::offset_in(segs, k - 1, cursor);
        let above = input_view::rows_upto(segs, k - 1, cursor, width, first);
        let gutter = if k == 1 {
            first
        } else {
            input_view::indent()
        };
        let mine = input_view::segment_rows(chunks, off, gutter);
        let rows = input_view::rows_upto(segs, k, cursor, width, first);
        assert(rows == above + mine);
        match input_view::spot_in(chunks, chunks.len() as int, off) {
            Some((i, left)) => {
                if off is None {
                    lemma_nowhere(chunks, chunks.len() as int);
                }
                let o = off->0;
                lemma_spot_in(segs[k - 1], width, chunks.len() as int, o);
                let row = above.len() + i;
                assert(rows[row] == mine[i]);
                assert(rows.take(row) =~= above + mine.take(i));
                lemma_typed_append(above, mine.take(i));
                lemma_segment_typed(chunks, off, gutter, i);
                lemma_rows_typed(segs, k - 1, cursor, width, first);
                lemma_before_cursor(s, k - 1, o);
                assert(cursor == input_view::segment_start(segs, k - 1) + o);
                assert(wrap::flat(segs.take(k - 1)) + wrap::flat(chunks.take(i)) + left
                    =~= wrap::flat(segs.take(k - 1)) + (wrap::flat(chunks.take(i)) + left));
            },
            None => {
                lemma_spot_typed(s, k - 1, cursor, width, first);
                let (row, left) = input_view::spot_upto(segs, k - 1, cursor, width, first)->0;
                assert(rows[row] == above[row]);
                assert(rows.take(row) =~= above.take(row));
            },
        }
    }
}

proof fn lemma_nowhere(chunks: Seq<Seq<char>>, j: int)
    ensures
        input_view::spot_in(chunks, j, None) is None,
    decreases j,
{
    if j > 0 {
        lemma_nowhere(chunks, j - 1);
    }
}

/// The row that the cursor stands in is cut where it stands, and what stands before the cut, in the
/// rows above and in that row, is what stands before the insertion point in the input, newlines left
/// out: no more and no less.
pub proof fn law_the_cursor_stands_behind_what_precedes_it(
    a: AppView,
    area: Rect,
    left: Seq<char>,
    right: Seq<char>,
)
    requires
        a.input.len() > 0,
        a.input == left + right,
        a.input_cursor == bytes::byte_len(left),
    ensures
        ({
            let rows = input_view::box_rows(a, area);
            let spot = input_view::box_spot(a, area);
            &&& spot matches Some((row, before)) && 0 <= row < rows.len() && rows[row].len() == 3
                && rows[row][1].text == before && typed_in_all(rows.take(row)) + before
                == left.filter(|c: char| c != '\n')
        }),
{
    crate::ui_laws::law_the_cursor_always_has_a_row(a, area);
    let segments = text::segments_of(a.input);
    bytes::lemma_join(left, right);
    assert(a.input.take(left.len() as int) =~= left);
    bytes::lemma_chars_before(a.input, left.len() as int);
    assert(input_view::cursor_chars(a) == left.len());
    lemma_spot_typed(
        a.input,
        segments.len() as int,
        input_view::cursor_chars(a),
        input_view::input_width(area),
        input_view::prompt(a.is_busy()),
    );
    assert(inline() =~= (|c: char| c != '\n'));
}

/// The hardware cursor goes to the row and the column of the insertion point, three columns in for
/// the gutter, as far as the box is scrolled to show it.
pub proof fn law_the_hardware_cursor_follows(a: AppView, area: Rect, row: int, left: Seq<char>)
    requires
        input_view::box_ok(area),
        area.width >= 4,
        area.height >= 1,
        a.input.len() > 0,
        input_view::box_spot(a, area) == Some((row, left)),
        0 <= row < 0x10000,
        wrap::text_width(left) < 0x10000 - 3,
    ensures
        ({
            let from = input_view::scrolled(a, area);
            let shown = from <= row < from + (area.height - 1);
            let column = area.x + 1 + 3 + wrap::text_width(left);
            let edge = area.x + area.width - 3;
            &&& !shown ==> input_view::cursor_place(a, area) is None
            &&& shown ==> input_view::cursor_place(a, area) == Some(
                (
                    (if column < edge {
                        column
                    } else {
                        edge
                    }) as u16,
                    (area.y + 1 + (row - from)) as u16,
                ),
            )
        }),
{
    vstd::arithmetic::div_mod::lemma_small_mod(row as nat, 0x10000);
    vstd::arithmetic::div_mod::lemma_small_mod((3 + wrap::text_width(left)) as nat, 0x10000);
}

/// The box shows a stretch of its rows: from the offset it is scrolled to, at most the last one that
/// leaves the box full, and from that one where it follows its end.
pub proof fn law_the_box_shows_a_stretch_of_its_rows(a: AppView, area: Rect, i: int)
    requires
        area.height >= 1,
    ensures
        ({
            let rows = input_view::box_rows(a, area);
            let seen = input_view::box_window(a, area);
            let height = area.height - 1;
            let max = if rows.len() < height {
                0
            } else {
                rows.len() - height
            };
            let from = if a.input_scroll < max {
                a.input_scroll as int
            } else {
                max
            };
            &&& input_view::max_scroll(a, area) == max
            &&& input_view::scrolled(a, area) == (if a.input_scroll == usize::MAX {
                max
            } else {
                from
            })
            &&& a.input_scroll < usize::MAX ==> seen.len() == (if rows.len() < height {
                rows.len() as int
            } else {
                height
            })
            &&& a.input_scroll < usize::MAX && 0 <= i < seen.len() ==> seen[i] == rows[from + i]
            &&& a.input_scroll == usize::MAX && 0 <= i < seen.len() ==> seen[i] == rows[max + i]
        }),
{
}

/// With the focus the box shows its rows; without it, how to get there. Drawing it records how far
/// it can be scrolled and where the cursor went, and nothing else.
pub proof fn law_the_box_shows_its_rows_with_the_focus(a: AppView, area: Rect)
    ensures
        ({
            let all = input_view::box_widgets(a, area);
            &&& all.len() >= 2
            &&& a.focus == Focus::Chat ==> all[1] is Paragraph && all[1]->Paragraph_lines
                == input_view::box_window(a, area)
            &&& a.focus == Focus::Sidebar ==> all.len() == 2 && all[1] is Paragraph
                && all[1]->Paragraph_lines.len() == 1 && texts(all[1]->Paragraph_lines[0]) == seq![
                "press Tab to focus chat"@,
            ]
            &&& a.focus == Focus::Sidebar ==> input_view::box_state(a, area) == a
            &&& a.focus == Focus::Chat ==> input_view::box_state(a, area) == (AppView {
                input_max_scroll: input_view::max_scroll(a, area) as usize,
                cursor_screen: input_view::cursor_place(a, area),
                ..a
            })
        }),
{
    let all = input_view::box_widgets(a, area);
    if a.focus == Focus::Sidebar {
        assert(texts(all[1]->Paragraph_lines[0]) =~= seq!["press Tab to focus chat"@]);
    }
}

/// The popup lists every suggestion, in its order, one to a line, with what it does, above the box,
/// while the input is a command in the making.
pub proof fn law_the_popup_lists_every_suggestion(a: AppView, area: Rect, i: int)
    requires
        a.autocomplete_suggestions.len() < 0xffff,
        area.y >= a.autocomplete_suggestions.len() + 1,
        area.x < 0xffff,
    ensures
        ({
            let shown = input_view::popup(a, area);
            let n = a.autocomplete_suggestions.len();
            let started = text::begins_with(text::trimmed(a.input), "/"@);
            &&& n == 0 || !started ==> shown.len() == 0
            &&& n > 0 && started ==> {
                &&& shown.len() == 2 && shown[1] is List
                &&& shown[1]->List_items.len() == n
                &&& shown[1]->List_area == (Rect {
                    x: (area.x + 1) as u16,
                    y: (area.y - n - 1) as u16,
                    width: 28,
                    height: n as u16,
                })
                &&& 0 <= i < n ==> texts(shown[1]->List_items[i]) == seq![
                    " "@ + a.autocomplete_suggestions[i] + "  "@ + input_view::description(
                        a.autocomplete_suggestions[i],
                    ),
                ]
            }
        }),
{
    let n = a.autocomplete_suggestions.len();
    vstd::arithmetic::div_mod::lemma_small_mod(n, 0x10000);
    if input_view::popup_shows(a) && 0 <= i < n {
        assert(texts(input_view::popup(a, area)[1]->List_items[i]) =~= seq![
            " "@ + a.autocomplete_suggestions[i] + "  "@ + input_view::description(
                a.autocomplete_suggestions[i],
            ),
        ]);
    }
}

/// A scrollbar stands beside the rows exactly where there are more of them than fit, and says where
/// the box is scrolled to.
pub proof fn law_a_scrollbar_where_rows_are_hidden(a: AppView, area: Rect)
    requires
        area.height >= 1,
    ensures
        ({
            let bar = input_view::scrollbar(a, area);
            let total = input_view::box_rows(a, area).len();
            &&& total <= area.height - 1 ==> bar.len() == 0
            &&& total > area.height - 1 ==> bar.len() == 1 && bar[0] is Scrollbar
                && bar[0]->Scrollbar_total == total as usize && bar[0]->Scrollbar_view
                == area.height - 1 && bar[0]->Scrollbar_position == input_view::scrolled(
                a,
                area,
            ) as usize
        }),
{
}

// ── Looks ──────────────────────────────────────────────────────

/// The selected line of the sidebar stands out, more so while the sidebar has the focus, and no other
/// line does; the open session's line is bold.
pub proof fn law_the_selected_line_stands_out(a: AppView, area: Rect, i: int)
    requires
        0 <= i,
        i < area.height - 4,
        a.sidebar_scroll + i < a.sidebar_items.len(),
    ensures
        ({
            let list = ui::sidebar_widgets(a, area)[2];
            let at = a.sidebar_scroll + i;
            let style = list->List_items[i][0].style;
            let focused = a.focus == Focus::Sidebar;
            &&& at == a.sidebar_sel && focused ==> style.bg == Some(ACCENT_BG)
            &&& at == a.sidebar_sel && !focused ==> style.bg == Some(BORDER)
            &&& at != a.sidebar_sel ==> style.bg == Some(POPOVER)
            &&& a.sidebar_items[at] matches ItemView::Session { active, .. } ==> (active
                ==> style.bold) && (!active && at != a.sidebar_sel ==> !style.bold)
        }),
{
}

/// Above the sidebar's lines stands what they are, and below them what can be done.
pub proof fn law_the_sidebar_is_headed(a: AppView, area: Rect)
    requires
        area.on_screen(),
        area.width >= 4,
        area.height >= 5,
    ensures
        ({
            let all = ui::sidebar_widgets(a, area);
            &&& all[1] is Paragraph && all[1]->Paragraph_lines.len() == 1 && texts(
                all[1]->Paragraph_lines[0],
            ) == seq![" ◆ "@, "sessions"@] && all[1]->Paragraph_area.y == area.y
            &&& all[3] is Paragraph && all[3]->Paragraph_lines.len() == 1 && texts(
                all[3]->Paragraph_lines[0],
            ) == seq!["  ↑↓·enter  "@, "+new"@] && all[3]->Paragraph_area.y == area.y + area.height
                - 1
            &&& all[2] is List && all[2]->List_area == (Rect {
                x: (area.x + 2) as u16,
                y: (area.y + 1) as u16,
                width: (area.width - 3) as u16,
                height: (area.height - 4) as u16,
            })
        }),
{
    let all = ui::sidebar_widgets(a, area);
    assert(texts(all[1]->Paragraph_lines[0]) =~= seq![" ◆ "@, "sessions"@]);
    assert(texts(all[3]->Paragraph_lines[0]) =~= seq!["  ↑↓·enter  "@, "+new"@]);
}

/// What runs and what is lost stand out in the status bar from what rests and what is there.
pub proof fn law_the_status_bar_stands_out(a: AppView)
    ensures
        ({
            let row = ui::status_row(a);
            &&& row[3].style.fg == Some(
                if a.busy_count > 0 || a.chat.running {
                    YELLOW
                } else {
                    GREEN
                },
            )
            &&& row[4].style.fg == Some(
                if a.connected {
                    GREEN
                } else {
                    DESTRUCTIVE
                },
            )
        }),
{
}

/// The suggestion that was chosen stands out in the popup, and no other does.
pub proof fn law_the_chosen_suggestion_stands_out(a: AppView, area: Rect, i: int)
    requires
        input_view::popup_shows(a),
        0 <= i < a.autocomplete_suggestions.len() <= usize::MAX,
    ensures
        ({
            let style = input_view::popup(a, area)[1]->List_items[i][0].style;
            style.bold <==> a.autocomplete_idx == Some(i as usize)
        }),
{
}

/// What the popup says of each command.
pub proof fn law_every_command_is_described()
    ensures
        input_view::description("/exit"@) == "exit"@,
        input_view::description("/help"@) == "help"@,
        input_view::description("/sessions"@) == "sidebar + refresh"@,
        input_view::description("/new"@) == "new chat"@,
        input_view::description("/cancel"@) == "stop the turn"@,
        input_view::description("/login"@) == "authorize node"@,
        input_view::description("/logout"@) == "forget credential"@,
        input_view::description("/whoami"@) == "identity, scopes"@,
        input_view::description("/usage"@) == "account + usage"@,
        input_view::description("/tools"@) == "server capabilities"@,
{
    reveal_strlit("/exit");
    reveal_strlit("/help");
    reveal_strlit("/sessions");
    reveal_strlit("/new");
    reveal_strlit("/cancel");
    reveal_strlit("/login");
    reveal_strlit("/logout");
    reveal_strlit("/whoami");
    reveal_strlit("/usage");
    reveal_strlit("/tools");
    assert("/exit"@[1] == 'e' && "/help"@[1] == 'h' && "/sessions"@[1] == 's' && "/new"@[1] == 'n'
        && "/cancel"@[1] == 'c' && "/login"@[1] == 'l' && "/logout"@[1] == 'l' && "/whoami"@[1]
        == 'w' && "/usage"@[1] == 'u' && "/tools"@[1] == 't');
    assert("/login"@.len() == 6 && "/logout"@.len() == 7);
}

/// Inside the box the text stands below the info bar, with a column at its left and the scrollbar's
/// at its right.
pub proof fn law_the_text_stands_inside_the_box(area: Rect)
    requires
        area.on_screen(),
        area.x + 1 <= u16::MAX,
        area.width >= 3,
        area.height >= 1,
    ensures
        input_view::render_area(area) == (Rect {
            x: (area.x + 1) as u16,
            y: (area.y + 1) as u16,
            width: (area.width - 3) as u16,
            height: (area.height - 1) as u16,
        }),
        input_view::bar_area(area) == (Rect {
            x: (area.x + area.width - 2) as u16,
            y: (area.y + 1) as u16,
            width: 1,
            height: (area.height - 1) as u16,
        }),
        input_view::input_width(area) == (if area.width < 7 {
            1
        } else {
            area.width - 6
        }),
{
}

// ── Rows of the input ──────────────────────────────────────────

/// The rows that lines wrap to, line by line.
pub open spec fn rows_for(lines: Seq<Seq<char>>, width: nat) -> Seq<Seq<char>>
    decreases lines.len(),
{
    if lines.len() == 0 {
        Seq::empty()
    } else {
        rows_for(lines.drop_last(), width) + wrap::wrapped(lines.last(), width)
    }
}

/// A row of the input, by what it says and what stands in its gutter.
pub open spec fn gutters(rows: Seq<Seq<SpanView>>) -> Seq<(Seq<char>, Seq<char>)> {
    Seq::new(rows.len(), |i: int| (rows[i][0].text, typed_in(rows[i])))
}

proof fn lemma_gutters(
    segments: Seq<Seq<char>>,
    k: int,
    cursor: int,
    width: nat,
    first: SpanView,
)
    requires
        0 <= k <= segments.len(),
    ensures
        ({
            let rows = input_view::rows_upto(segments, k, cursor, width, first);
            let lines = rows_for(segments.take(k), width);
            &&& rows.len() == lines.len()
            &&& k > 0 ==> rows.len() > 0
            &&& forall|i: int|
                0 <= i < rows.len() ==> #[trigger] gutters(rows)[i] == (
                    if i == 0 {
                        first.text
                    } else {
                        "   "@
                    },
                    lines[i],
                )
        }),
    decreases k,
{
    if k > 0 {
        lemma_gutters(segments, k - 1, cursor, width, first);
        let chunks = wrap::wrapped(segments[k - 1], width);
        let off = input_view::offset_in(segments, k - 1, cursor);
        let gutter = if k == 1 {
            first
        } else {
            input_view::indent()
        };
        let above = input_view::rows_upto(segments, k - 1, cursor, width, first);
        let mine = input_view::segment_rows(chunks, off, gutter);
        let rows = input_view::rows_upto(segments, k, cursor, width, first);
        let lines = rows_for(segments.take(k), width);
        wrap::lemma_flat(segments[k - 1], width);
        assert(segments.take(k).drop_last() =~= segments.take(k - 1));
        assert(lines == rows_for(segments.take(k - 1), width) + chunks);
        assert(rows == above + mine);
        assert(k == 1 ==> above.len() == 0);
        assert forall|i: int| 0 <= i < rows.len() implies #[trigger] gutters(rows)[i] == (
            if i == 0 {
                first.text
            } else {
                "   "@
            },
            lines[i],
        ) by {
            if i < above.len() {
                assert(gutters(above)[i] == gutters(rows)[i]);
            } else {
                let j = i - above.len();
                assert(rows[i] == mine[j]);
                lemma_segment_row(
                    chunks,
                    j,
                    off,
                    if j == 0 {
                        gutter
                    } else {
                        input_view::indent()
                    },
                );
            }
        }
    }
}

/// Every line of the input starts a row of its own and wraps from there; the first row has the prompt
/// in its gutter, and every other one nothing.
pub proof fn law_every_line_of_the_input_starts_a_row(a: AppView, area: Rect, i: int)
    requires
        a.input.len() > 0,
    ensures
        ({
            let rows = input_view::box_rows(a, area);
            let lines = rows_for(text::segments_of(a.input), input_view::input_width(area));
            &&& rows.len() == lines.len()
            &&& 0 <= i < rows.len() ==> typed_in(rows[i]) == lines[i]
            &&& 0 < i < rows.len() ==> rows[i][0].text == "   "@
            &&& rows.len() > 0 && rows[0][0].text == (if a.busy_count > 0 || a.chat.running {
                " ◉ "@
            } else {
                " > "@
            })
        }),
{
    let segments = text::segments_of(a.input);
    let rows = input_view::box_rows(a, area);
    lemma_gutters(
        segments,
        segments.len() as int,
        input_view::cursor_chars(a),
        input_view::input_width(area),
        input_view::prompt(a.is_busy()),
    );
    assert(segments.take(segments.len() as int) =~= segments);
    crate::text_laws::law_the_segments_make_up_the_text(a.input);
    assert(gutters(rows)[0] == (rows[0][0].text, typed_in(rows[0])));
    if 0 <= i < rows.len() {
        assert(gutters(rows)[i] == (rows[i][0].text, typed_in(rows[i])));
    }
}

/// The cursor of an empty input stands behind the prompt, in the first row of the box's text.
pub proof fn law_the_cursor_of_an_empty_input(a: AppView, area: Rect)
    requires
        input_view::box_ok(area),
        a.input.len() == 0,
    ensures
        input_view::cursor_place(a, area) == Some(((area.x + 4) as u16, (area.y + 1) as u16)),
{
}

} // verus!
