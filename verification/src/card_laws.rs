//! Laws of the chat pane: every character of a message has a place on its card, and the window shows
//! a stretch of the rows.

use crate::app::AppView;
use crate::chat::{MsgKind, MsgView};
use crate::chat_view;
use crate::palette::{BG, DESTRUCTIVE, DIM, GREEN, P, TEXT, YELLOW};
use crate::screen::{Rect, SpanView, WidgetView};
use crate::text;
use crate::wrap;
use vstd::prelude::*;

verus! {

/// A message that is shown as a card of its own.
pub open spec fn has_card(kind: MsgKind) -> bool {
    kind == MsgKind::Agent || kind == MsgKind::Reasoning || kind == MsgKind::User || kind
        == MsgKind::Tool
}

/// What the rows between the two rules of a card say, without the rail and the cursor.
pub open spec fn between_the_rules(rows: Seq<Seq<SpanView>>) -> Seq<Seq<char>> {
    Seq::new((rows.len() - 2) as nat, |i: int| rows[i + 1][1].text)
}

proof fn lemma_flat_append(a: Seq<Seq<char>>, b: Seq<Seq<char>>)
    ensures
        wrap::flat(a + b) == wrap::flat(a) + wrap::flat(b),
    decreases b.len(),
{
    if b.len() == 0 {
        assert(a + b =~= a);
        assert(wrap::flat(a) + Seq::<char>::empty() =~= wrap::flat(a));
    } else {
        lemma_flat_append(a, b.drop_last());
        assert((a + b).drop_last() =~= a + b.drop_last());
        assert(wrap::flat(a + b) =~= wrap::flat(a) + wrap::flat(b));
    }
}

proof fn lemma_flat_is_joined(rows: Seq<Seq<char>>)
    ensures
        text::joined(rows, Seq::empty()) == wrap::flat(rows),
    decreases rows.len(),
{
    if rows.len() == 1 {
        assert(rows.drop_last().len() == 0);
        assert(wrap::flat(rows.drop_last()) =~= Seq::empty());
        assert(wrap::flat(rows) =~= rows[0]);
    } else if rows.len() > 1 {
        lemma_flat_is_joined(rows.drop_last());
        assert(text::joined(rows, Seq::empty()) =~= wrap::flat(rows));
    }
}

proof fn lemma_wrapped_flat(lines: Seq<Seq<char>>, width: nat)
    ensures
        wrap::flat(chat_view::wrapped_all(lines, width)) == wrap::flat(lines),
    decreases lines.len(),
{
    if lines.len() > 0 {
        lemma_wrapped_flat(lines.drop_last(), width);
        wrap::lemma_flat(lines.last(), width);
        lemma_flat_append(
            chat_view::wrapped_all(lines.drop_last(), width),
            wrap::wrapped(lines.last(), width),
        );
    }
}

proof fn lemma_between(m: MsgView, w: nat, width: nat)
    requires
        has_card(m.kind),
    ensures
        chat_view::msg_rows(m, w, width).len() == 2 + chat_view::wrapped_all(
            text::lines_of(m.text),
            width,
        ).len(),
        between_the_rules(chat_view::msg_rows(m, w, width)) == chat_view::wrapped_all(
            text::lines_of(m.text),
            width,
        ),
{
    let rows = chat_view::msg_rows(m, w, width);
    let all = chat_view::wrapped_all(text::lines_of(m.text), width);
    assert(rows.len() == all.len() + 2);
    assert(between_the_rules(rows) =~= all);
}

/// No character of a message is missing from its card, and none is added: what stands between the
/// rules, one row after the other, is what stands in the lines of the message, one after the other.
pub proof fn law_no_character_of_a_message_is_missing(m: MsgView, w: nat, width: nat)
    requires
        m.kind == MsgKind::Agent || m.kind == MsgKind::Reasoning || m.kind == MsgKind::User || m.kind
            == MsgKind::Tool,
    ensures
        ({
            let rows = chat_view::msg_rows(m, w, width);
            let between = Seq::new((rows.len() - 2) as nat, |i: int| rows[i + 1][1].text);
            &&& rows.len() >= 2
            &&& text::joined(between, Seq::empty()) == text::joined(
                text::lines_of(m.text),
                Seq::empty(),
            )
        }),
{
    lemma_between(m, w, width);
    let rows = chat_view::msg_rows(m, w, width);
    lemma_wrapped_flat(text::lines_of(m.text), width);
    assert(Seq::new((rows.len() - 2) as nat, |i: int| rows[i + 1][1].text) =~= between_the_rules(
        rows,
    ));
    lemma_flat_is_joined(between_the_rules(rows));
    lemma_flat_is_joined(text::lines_of(m.text));
}

proof fn lemma_wrapped_front(first: Seq<char>, rest: Seq<Seq<char>>, width: nat)
    ensures
        chat_view::wrapped_all(seq![first] + rest, width) == wrap::wrapped(first, width)
            + chat_view::wrapped_all(rest, width),
    decreases rest.len(),
{
    let all = seq![first] + rest;
    if rest.len() == 0 {
        assert(all.drop_last() =~= Seq::empty());
        assert(chat_view::wrapped_all(Seq::empty(), width) =~= Seq::empty());
        assert(chat_view::wrapped_all(all, width) =~= wrap::wrapped(first, width)
            + chat_view::wrapped_all(rest, width));
    } else {
        lemma_wrapped_front(first, rest.drop_last(), width);
        assert(all.drop_last() =~= seq![first] + rest.drop_last());
        assert(chat_view::wrapped_all(all, width) =~= wrap::wrapped(first, width)
            + chat_view::wrapped_all(rest, width));
    }
}

/// Every line of a message starts on a row of its own: the card of a line, a newline and a rest holds
/// the rows of the line and then those of the card of the rest.
pub proof fn law_every_line_starts_on_a_row(
    m: MsgView,
    line: Seq<char>,
    rest: Seq<char>,
    w: nat,
    width: nat,
)
    requires
        has_card(m.kind),
        !line.contains('\n'),
        line.len() == 0 || line.last() != '\r',
    ensures
        ({
            let whole = MsgView { text: line + seq!['\n'] + rest, ..m };
            let below = MsgView { text: rest, ..m };
            between_the_rules(chat_view::msg_rows(whole, w, width)) == wrap::wrapped(line, width)
                + between_the_rules(chat_view::msg_rows(below, w, width))
        }),
{
    let whole = MsgView { text: line + seq!['\n'] + rest, ..m };
    let below = MsgView { text: rest, ..m };
    lemma_between(whole, w, width);
    lemma_between(below, w, width);
    crate::text_laws::law_every_line_of_a_text_is_one(line, rest);
    lemma_wrapped_front(line, text::lines_of(rest), width);
}

/// A card names who speaks in its header and closes with a rule; each row between starts with the
/// rail and then shows its text; and the cursor stands behind the last of them exactly where the
/// reply or the thought still grows.
pub proof fn law_a_card_is_framed(m: MsgView, w: nat, width: nat, i: int)
    requires
        has_card(m.kind),
        0 < i < chat_view::msg_rows(m, w, width).len() - 1,
    ensures
        ({
            let rows = chat_view::msg_rows(m, w, width);
            let label = match m.kind {
                MsgKind::Agent => "assistant"@,
                MsgKind::Reasoning => "thinking"@,
                MsgKind::User => "you"@,
                _ => "tool"@,
            };
            let open = m.streaming && (m.kind == MsgKind::Agent || m.kind == MsgKind::Reasoning);
            &&& rows[0].len() == 1 && text::begins_with(
                rows[0][0].text,
                "┌─ "@ + label + " "@,
            )
            &&& rows.last().len() == 1 && text::begins_with(rows.last()[0].text, "└"@)
            &&& rows[i][0].text == "│ "@
            &&& open && i == rows.len() - 2 ==> rows[i].len() == 3 && rows[i][2].text == "▌"@
            &&& !(open && i == rows.len() - 2) ==> rows[i].len() == 2
        }),
{
    let rows = chat_view::msg_rows(m, w, width);
    let label = match m.kind {
        MsgKind::Agent => "assistant"@,
        MsgKind::Reasoning => "thinking"@,
        MsgKind::User => "you"@,
        _ => "tool"@,
    };
    let head = "┌─ "@ + label + " "@;
    assert(rows[0][0].text.take(head.len() as int) =~= head);
    assert(rows.last()[0].text.take("└"@.len() as int) =~= "└"@);
}

/// A notice is one row with the whole of its text. A tool's result is one row with the first line of
/// its text, up to 58 characters of it, behind a mark that says whether it failed.
pub proof fn law_notices_and_results_are_one_row(m: MsgView, w: nat, width: nat)
    ensures
        m.kind == MsgKind::Sys ==> ({
            let rows = chat_view::msg_rows(m, w, width);
            rows.len() == 1 && rows[0].len() == 2 && rows[0][0].text == " ── "@ && rows[0][1].text
                == m.text
        }),
        m.kind == MsgKind::Result && m.text.len() > 0 ==> ({
            let rows = chat_view::msg_rows(m, w, width);
            let line = text::lines_of(m.text)[0];
            let shown = if line.len() <= 58 {
                line
            } else {
                line.subrange(0, 58)
            };
            let mark = if text::begins_with(m.text, "err"@) {
                "  ✘ "@
            } else {
                "  ok "@
            };
            rows.len() == 1 && rows[0].len() == 1 && rows[0][0].text == mark + shown
        }),
{
    text::lemma_newline_at(m.text);
}

/// The rows of a transcript are those of its messages, in their order, none left out.
pub proof fn law_every_message_has_its_rows(msgs: Seq<MsgView>, m: MsgView, w: nat, width: nat)
    ensures
        chat_view::rows_of(Seq::empty(), w, width) == Seq::<Seq<SpanView>>::empty(),
        chat_view::rows_of(msgs.push(m), w, width) == chat_view::rows_of(msgs, w, width)
            + chat_view::msg_rows(m, w, width),
{
    assert(msgs.push(m).drop_last() =~= msgs);
}

/// Every message is shown, in its place, but for the thoughts where they are hidden.
pub proof fn law_only_thoughts_can_be_hidden(msgs: Seq<MsgView>, m: MsgView)
    ensures
        chat_view::shown(msgs, false) == msgs,
        m.kind == MsgKind::Reasoning ==> chat_view::shown(msgs.push(m), true) == chat_view::shown(
            msgs,
            true,
        ),
        m.kind != MsgKind::Reasoning ==> chat_view::shown(msgs.push(m), true) == chat_view::shown(
            msgs,
            true,
        ).push(m),
        chat_view::shown(Seq::empty(), true) == Seq::<MsgView>::empty(),
    decreases msgs.len(),
{
    assert(msgs.push(m).drop_last() =~= msgs);
    if msgs.len() > 0 {
        law_only_thoughts_can_be_hidden(msgs.drop_last(), m);
        assert(msgs.drop_last().push(msgs.last()) =~= msgs);
    }
}

/// Under a transcript that is doing something without a card growing, a note says so; an empty one
/// has a row that says how to begin; and the transcript's own rows stand above, all of them.
pub proof fn law_the_notes_stand_below_the_rows(
    rows: Seq<Seq<SpanView>>,
    busy: bool,
    open: bool,
)
    ensures
        ({
            let all = chat_view::annotated(rows, busy, open);
            &&& rows.len() == 0 ==> all.len() == 1 && all[0].len() == 2 && all[0][1].text
                == "type something —  enter:send  /help"@
            &&& rows.len() > 0 ==> all.subrange(0, rows.len() as int) == rows
            &&& rows.len() > 0 && busy && !open ==> all.len() == rows.len() + 1
                && all.last().len() == 1 && all.last()[0].text == " ◉ thinking…"@
            &&& rows.len() > 0 && !(busy && !open) ==> all == rows
        }),
{
    let all = chat_view::annotated(rows, busy, open);
    if rows.len() > 0 {
        assert(all.subrange(0, rows.len() as int) =~= rows);
    }
}

/// The window shows rows that follow one another, unchanged: the last ones where the end is
/// followed, and as many rows further up as were scrolled otherwise, never beyond the first.
pub proof fn law_the_window_is_a_stretch_of_the_rows(
    rows: Seq<Seq<SpanView>>,
    max_rows: nat,
    at_end: bool,
    scroll: nat,
    i: int,
)
    ensures
        ({
            let seen = chat_view::window(rows, max_rows, at_end, scroll);
            let below = if at_end {
                0
            } else {
                scroll as int
            };
            let top = if rows.len() - max_rows - below > 0 {
                rows.len() - max_rows - below
            } else {
                0
            };
            &&& seen.len() == if rows.len() < max_rows {
                rows.len()
            } else {
                max_rows
            }
            &&& 0 <= i < seen.len() ==> seen[i] == rows[top + i]
        }),
{
}

/// The chat pane shows the transcript at the width of its area, without a column and a row for the
/// edge, as far back as it is scrolled.
pub proof fn law_the_chat_pane_shows_the_transcript(a: AppView, area: Rect)
    ensures
        ({
            let rows = chat_view::rows_of(
                chat_view::shown(a.chat.msgs, a.hide_reasoning),
                (if area.width == 0 {
                    0
                } else {
                    area.width - 1
                }) as nat,
                (if area.width < 4 {
                    1
                } else {
                    area.width - 3
                }) as nat,
            );
            let going = a.busy_count > 0 || a.chat.running;
            let open = a.chat.msgs.len() > 0 && a.chat.msgs.last().streaming;
            chat_view::chat_pane(a, area) == (WidgetView::Paragraph {
                lines: chat_view::window(
                    chat_view::annotated(rows, going, open),
                    (if area.height == 0 {
                        0
                    } else {
                        area.height - 1
                    }) as nat,
                    a.at_end,
                    a.scroll as nat,
                ),
                bg: BG,
                area,
            })
        }),
{
}

/// The rule above a card fills the width behind the name, and the one below it stops a column short
/// of it; a name that is too long is not cut.
pub proof fn law_the_rules_fill_the_width(m: MsgView, w: nat, width: nat, i: int)
    requires
        has_card(m.kind),
    ensures
        ({
            let rows = chat_view::msg_rows(m, w, width);
            let name = match m.kind {
                MsgKind::Agent => "assistant"@,
                MsgKind::Reasoning => "thinking"@,
                MsgKind::User => "you"@,
                _ => "tool"@,
            };
            let above = rows[0][0].text;
            let below = rows.last()[0].text;
            let head = "┌─ "@ + name + " "@;
            &&& rows[0].len() == 1 && rows.last().len() == 1
            &&& above.subrange(0, head.len() as int) == head
            &&& below[0] == '└'
            &&& above.len() == if w < head.len() {
                head.len()
            } else {
                w
            }
            &&& head.len() <= i < above.len() ==> above[i] == '─'
            &&& below.len() == if w < 2 {
                1
            } else {
                w - 1
            }
            &&& 1 <= i < below.len() ==> below[i] == '─'
        }),
{
    reveal_strlit("└");
    let rows = chat_view::msg_rows(m, w, width);
    let name = match m.kind {
        MsgKind::Agent => "assistant"@,
        MsgKind::Reasoning => "thinking"@,
        MsgKind::User => "you"@,
        _ => "tool"@,
    };
    let head = "┌─ "@ + name + " "@;
    assert(rows[0][0].text == head + text::repeated('─', chat_view::down(w, head.len())));
    assert(rows.last()[0].text == "└"@ + text::repeated('─', chat_view::down(w, 2)));
    assert(rows[0][0].text.subrange(0, head.len() as int) =~= head);
}

/// A card looks like what it is: a thought is dim and slanted, a tool call yellow, the user's own in
/// the accent; a result that failed stands out, and a notice is dim.
pub proof fn law_a_card_looks_like_what_it_is(m: MsgView, w: nat, width: nat, i: int)
    requires
        0 < i < chat_view::msg_rows(m, w, width).len() - 1,
        has_card(m.kind),
    ensures
        ({
            let rows = chat_view::msg_rows(m, w, width);
            let head = rows[0][0].style;
            let rail = rows[i][0].style;
            let said = rows[i][1].style;
            &&& m.kind == MsgKind::Agent ==> head.fg == Some(TEXT) && head.bold && rail.fg == Some(
                DIM,
            ) && said.fg is None
            &&& m.kind == MsgKind::Reasoning ==> head.fg == Some(DIM) && head.dim && rail.fg
                == Some(DIM) && said.fg == Some(DIM) && said.italic
            &&& m.kind == MsgKind::Tool ==> head.fg == Some(YELLOW) && head.bold && rail.fg == Some(
                YELLOW,
            ) && said.fg == Some(TEXT)
            &&& m.kind == MsgKind::User ==> head.fg == Some(P) && head.bold && rail.fg == Some(P)
                && said.fg is None
        }),
{
}

/// A result that failed stands out from one that went well, and a notice is dim.
pub proof fn law_a_failed_result_stands_out(m: MsgView, w: nat, width: nat)
    ensures
        m.kind == MsgKind::Result && m.text.len() > 0 ==> chat_view::msg_rows(
            m,
            w,
            width,
        )[0][0].style.fg == Some(
            if text::begins_with(m.text, "err"@) {
                DESTRUCTIVE
            } else {
                GREEN
            },
        ),
        m.kind == MsgKind::Sys ==> chat_view::msg_rows(m, w, width)[0][1].style.fg == Some(DIM),
{
    text::lemma_newline_at(m.text);
}

} // verus!
