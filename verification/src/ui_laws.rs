//! What holds of the screen.

use crate::app::{AppView, Focus};
use crate::bytes;
use crate::input_view;
use crate::palette::SIDEW;
use crate::screen;
use crate::screen::{Rect, SpanView};
use crate::text;
use crate::ui;
use crate::wrap;
use vstd::prelude::*;

verus! {

// ── Layout ─────────────────────────────────────────────────────

/// The panes tile the screen: the status bar above, the input box below, the sidebar and the chat
/// side by side between them, with nothing left over and nothing shared.
pub proof fn law_the_panes_tile_the_screen(a: Rect)
    requires
        a.on_screen(),
        ui::roomy(a),
    ensures
        ui::status_area(a).y == a.y,
        ui::sidebar_area(a).y == a.y + ui::status_area(a).height,
        ui::chat_area(a).y == ui::sidebar_area(a).y,
        ui::chat_area(a).height == ui::sidebar_area(a).height,
        ui::input_area(a).y == ui::sidebar_area(a).y + ui::sidebar_area(a).height,
        ui::input_area(a).y + ui::input_area(a).height == a.y + a.height,
        ui::sidebar_area(a).x == a.x,
        ui::chat_area(a).x == a.x + ui::sidebar_area(a).width,
        ui::chat_area(a).x + ui::chat_area(a).width == a.x + a.width,
        ui::status_area(a).width == a.width && ui::input_area(a).width == a.width,
        ui::sidebar_area(a).width <= SIDEW,
        ui::chat_area(a).width >= ui::CHATW,
{
}

// ── The cursor ─────────────────────────────────────────────────

/// Chunks that together hold more than `o` characters hold the place `o` in one of them.
proof fn lemma_spot(chunks: Seq<Seq<char>>, j: int, o: int)
    requires
        0 <= j <= chunks.len(),
        0 <= o < input_view::chunk_start(chunks, j),
    ensures
        input_view::spot_in(chunks, j, Some(o)) is Some,
    decreases j,
{
    if j > 0 && o < input_view::chunk_start(chunks, j - 1) {
        lemma_spot(chunks, j - 1, o);
    }
}

/// Every place in a segment, its end included, is in one of its chunks.
proof fn lemma_segment_spot(chunks: Seq<Seq<char>>, o: int)
    requires
        chunks.len() > 0,
        0 <= o <= input_view::chunk_start(chunks, chunks.len() as int),
    ensures
        input_view::spot_in(chunks, chunks.len() as int, Some(o)) is Some,
{
    let n = chunks.len() as int;
    if o < input_view::chunk_start(chunks, n) {
        lemma_spot(chunks, n, o);
    } else {
        assert(input_view::cut_in(chunks, n - 1, Some(o)) is Some);
    }
}

proof fn lemma_chunks_flat(chunks: Seq<Seq<char>>, n: int)
    requires
        0 <= n <= chunks.len(),
    ensures
        input_view::chunk_start(chunks, n) == wrap::flat(chunks.take(n)).len(),
    decreases n,
{
    if n > 0 {
        lemma_chunks_flat(chunks, n - 1);
        assert(chunks.take(n).drop_last() =~= chunks.take(n - 1));
    }
}

proof fn lemma_wrapped_length(line: Seq<char>, width: nat)
    ensures
        wrap::wrapped(line, width).len() > 0,
        input_view::chunk_start(wrap::wrapped(line, width), wrap::wrapped(line, width).len() as int)
            == line.len(),
{
    let chunks = wrap::wrapped(line, width);
    wrap::lemma_flat(line, width);
    lemma_chunks_flat(chunks, chunks.len() as int);
    assert(chunks.take(chunks.len() as int) =~= chunks);
}

/// The segments of a text and the newlines between them are as long as the text.
proof fn lemma_segments_length(s: Seq<char>)
    ensures
        text::segments_of(s).len() > 0,
        input_view::segment_start(text::segments_of(s), text::segments_of(s).len() as int)
            == s.len() + 1,
    decreases s.len(),
{
    let all = text::segments_of(s);
    let n = text::newline_at(s);
    if 0 <= n < s.len() {
        let rest = text::segments_of(s.skip(n + 1));
        lemma_segments_length(s.skip(n + 1));
        assert(all =~= seq![s.take(n)] + rest);
        lemma_start_shift(s.take(n), rest, rest.len() as int);
    } else {
        reveal_with_fuel(input_view::segment_start, 2);
        assert(all[0] == s);
    }
}

proof fn lemma_start_shift(first: Seq<char>, rest: Seq<Seq<char>>, k: int)
    requires
        0 <= k <= rest.len(),
    ensures
        input_view::segment_start(seq![first] + rest, k + 1) == first.len() + 1
            + input_view::segment_start(rest, k),
    decreases k,
{
    let all = seq![first] + rest;
    if k > 0 {
        lemma_start_shift(first, rest, k - 1);
        assert(all[k] == rest[k - 1]);
    } else {
        reveal_with_fuel(input_view::segment_start, 2);
        assert(all[0] == first);
    }
}

proof fn lemma_spot_upto(
    segments: Seq<Seq<char>>,
    k: int,
    cursor: int,
    width: nat,
    first: SpanView,
)
    requires
        0 <= k <= segments.len(),
        0 <= cursor < input_view::segment_start(segments, k),
    ensures
        input_view::spot_upto(segments, k, cursor, width, first) is Some,
    decreases k,
{
    if k > 0 {
        if cursor < input_view::segment_start(segments, k - 1) {
            lemma_spot_upto(segments, k - 1, cursor, width, first);
        } else {
            let seg = segments[k - 1];
            lemma_wrapped_length(seg, width);
            lemma_segment_spot(
                wrap::wrapped(seg, width),
                cursor - input_view::segment_start(segments, k - 1),
            );
        }
    }
}

/// The insertion point of a non-empty input always stands in one of its rows: where the cursor goes
/// never depends on where it was in the frame before.
pub proof fn law_the_cursor_always_has_a_row(a: AppView, area: Rect)
    ensures
        input_view::box_spot(a, area) is Some,
{
    let segments = text::segments_of(a.input);
    lemma_segments_length(a.input);
    lemma_chars_before_bound(a.input, a.input_cursor as int);
    lemma_spot_upto(
        segments,
        segments.len() as int,
        input_view::cursor_chars(a),
        input_view::input_width(area),
        input_view::prompt(a.is_busy()),
    );
}

proof fn lemma_chars_before_bound(s: Seq<char>, i: int)
    ensures
        bytes::chars_before(s, i) <= s.len(),
    decreases s.len(),
{
    if !(s.len() == 0 || bytes::byte_len(s) <= i) {
        lemma_chars_before_bound(s.drop_last(), i);
    }
}

/// A cursor that shows lies inside the box's text area.
pub proof fn law_the_cursor_stays_in_the_box(a: AppView, area: Rect)
    requires
        input_view::box_ok(area),
        area.width >= 7,
        area.height >= 2,
    ensures
        input_view::cursor_place(a, area) matches Some((x, y)) ==> {
            let r = input_view::render_area(area);
            r.x <= x < r.x + r.width && r.y <= y < r.y + r.height
        },
{
}

/// Drawing changes nothing but how far the input can be scrolled and where the cursor is, and
/// drawing again changes nothing more.
pub proof fn law_drawing_settles(a: AppView, area: Rect)
    ensures
        ui::drawn(a, area) == (AppView {
            input_max_scroll: ui::drawn(a, area).input_max_scroll,
            cursor_screen: ui::drawn(a, area).cursor_screen,
            ..a
        }),
        ui::drawn(ui::drawn(a, area), area) == ui::drawn(a, area),
        ui::screen_widgets(ui::drawn(a, area), area) == ui::screen_widgets(a, area),
{
    if ui::roomy(area) && a.focus == Focus::Chat {
        let b = ui::drawn(a, area);
        let i = ui::input_area(area);
        law_the_cursor_always_has_a_row(a, i);
        assert(input_view::box_rows(b, i) == input_view::box_rows(a, i));
        assert(input_view::box_spot(b, i) == input_view::box_spot(a, i));
        assert(input_view::cursor_cell(b, i) == input_view::cursor_cell(a, i));
        assert(input_view::cursor_place(b, i) == input_view::cursor_place(a, i));
        assert(input_view::popup(b, i) == input_view::popup(a, i));
        assert(input_view::scrollbar(b, i) == input_view::scrollbar(a, i));
        assert(input_view::box_window(b, i) == input_view::box_window(a, i));
        assert(input_view::info(b) == input_view::info(a));
        assert(input_view::box_widgets(b, i) == input_view::box_widgets(a, i));
    }
}

} // verus!
