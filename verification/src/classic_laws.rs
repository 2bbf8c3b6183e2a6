//! Laws of the older screen: what its rows say of the state.

use crate::app::ItemView;
use crate::classic;
use crate::classic::{ClassicMsgView, ClassicView};
use crate::screen::{Rect, SpanView};
use crate::screen_laws::texts;
use crate::text;
use vstd::prelude::*;

verus! {

/// The status bar says whether the agent works, which session is open, by the beginning of its id,
/// and whether there is a key.
pub proof fn law_the_classic_status_bar(a: ClassicView)
    ensures
        texts(classic::status_row(a)) == seq![
            " ◆ "@,
            "attacca"@,
            if a.busy {
                " ◉ running"@
            } else {
                " ● ready"@
            },
            match a.sid {
                Some(sid) => if sid.len() == 0 {
                    Seq::empty()
                } else if sid.len() <= 8 {
                    "  "@ + sid
                } else {
                    "  "@ + sid.subrange(0, 8)
                },
                None => Seq::empty(),
            },
            if a.key.len() == 0 {
                "  ✗ no key"@
            } else {
                "  ✓ connected"@
            },
        ],
{
    assert(texts(classic::status_row(a)) =~= seq![
        " ◆ "@,
        "attacca"@,
        if a.busy {
            " ◉ running"@
        } else {
            " ● ready"@
        },
        match a.sid {
            Some(sid) => if sid.len() == 0 {
                Seq::empty()
            } else if sid.len() <= 8 {
                "  "@ + sid
            } else {
                "  "@ + sid.subrange(0, 8)
            },
            None => Seq::empty(),
        },
        if a.key.len() == 0 {
            "  ✗ no key"@
        } else {
            "  ✓ connected"@
        },
    ]);
}

/// A name that fits is shown whole; a longer one is cut, with an ellipsis for the rest.
pub open spec fn abridged(s: Seq<char>, max: int) -> Seq<char> {
    if s.len() <= max {
        s
    } else {
        s.subrange(0, max - 1) + "…"@
    }
}

/// What a line of the sidebar says.
pub open spec fn says(item: ItemView, selected: bool) -> Seq<Seq<char>> {
    match item {
        ItemView::ProjectHeader { name, expanded, session_count, .. } => seq![
            if expanded {
                " ▾ "@
            } else {
                " ▸ "@
            },
            abridged(name, 18),
            " "@ + text::decimal(session_count),
        ],
        ItemView::Session { title, active, .. } => seq![
            if active {
                "  ● "@
            } else {
                "  ○ "@
            },
            abridged(title, 18),
        ],
        ItemView::NewSession => seq![
            if selected {
                " ▸ + new"@
            } else {
                "   + new"@
            },
        ],
    }
}

/// The sidebar draws its lines one to a row, from the offset it is scrolled to, as many as fit, and
/// each row says its own line.
pub proof fn law_the_classic_sidebar_draws_its_lines(a: ClassicView, max: nat, i: int)
    requires
        a.sidebar_scroll <= a.sidebar_items.len(),
    ensures
        ({
            let rows = classic::item_rows(a, max);
            let left = a.sidebar_items.len() - a.sidebar_scroll;
            let at = a.sidebar_scroll + i;
            &&& rows.len() == if left < max {
                left
            } else {
                max as int
            }
            &&& 0 <= i < rows.len() ==> texts(rows[i]) == says(a.sidebar_items[at], at == a.sel)
        }),
{
    let rows = classic::item_rows(a, max);
    let at = a.sidebar_scroll + i;
    if 0 <= i < rows.len() {
        assert(texts(rows[i]) =~= says(a.sidebar_items[at], at == a.sel));
    }
}

proof fn lemma_roles()
    ensures
        "sys"@.len() == 3,
        "user"@.len() == 4 && "user"@[0] == 'u',
        "agent"@.len() == 5,
        "tool"@.len() == 4 && "tool"@[0] == 't',
        "result"@.len() == 6,
{
    reveal_strlit("sys");
    reveal_strlit("user");
    reveal_strlit("agent");
    reveal_strlit("tool");
    reveal_strlit("result");
}

/// Every line of a message of the user's or of the agent's is shown, whole and in its order, below a
/// row that says who speaks.
pub proof fn law_every_line_of_a_message_is_shown(m: ClassicMsgView, i: int)
    ensures
        ({
            let rows = classic::msg_rows(m);
            let lines = text::lines_of(m.text);
            let some = 0 <= i < lines.len();
            &&& m.role == "user"@ ==> rows.len() == lines.len() + 1 && texts(rows[0]) == seq![
                " ── "@,
                "you"@,
            ] && (some ==> texts(rows[i + 1]) == seq![" │ "@, lines[i]])
            &&& m.role == "agent"@ && lines.len() == 0 ==> rows.len() == 0
            &&& m.role == "agent"@ && lines.len() > 0 ==> rows.len() == lines.len() + 1 && texts(rows[0]) == seq![
                " "@,
                "assistant"@,
            ] && (some ==> texts(rows[i + 1]) == seq![" "@ + lines[i]])
        }),
{
    lemma_roles();
    let rows = classic::msg_rows(m);
    let lines = text::lines_of(m.text);
    if m.role == "user"@ {
        assert(texts(rows[0]) =~= seq![" ── "@, "you"@]);
        if 0 <= i < lines.len() {
            assert(texts(rows[i + 1]) =~= seq![" │ "@, lines[i]]);
        }
    }
    if m.role == "agent"@ && lines.len() > 0 {
        assert(texts(rows[0]) =~= seq![" "@, "assistant"@]);
        if 0 <= i < lines.len() {
            assert(texts(rows[i + 1]) =~= seq![" "@ + lines[i]]);
        }
    }
}

/// A notice is shown whole; a tool call asks until it is answered and is gone then; a result shows up
/// to sixty characters of its first line, behind a mark that says whether it failed.
pub proof fn law_notices_calls_and_results_are_shown(m: ClassicMsgView)
    ensures
        ({
            let rows = classic::msg_rows(m);
            &&& m.role == "sys"@ ==> rows.len() == 1 && texts(rows[0]) == seq![" ── "@, m.text]
            &&& m.role == "tool"@ && m.done ==> rows.len() == 0
            &&& m.role == "tool"@ && !m.done ==> rows.len() == 2 && texts(rows[0]) == seq![
                " ◆ "@,
                m.text,
            ] && texts(rows[1]) == seq!["    ["@, "y"@, "] run  ["@, "n"@, "] skip"@]
            &&& m.role == "result"@ && m.text.len() > 0 ==> ({
                let line = text::lines_of(m.text)[0];
                let bad = text::begins_with(m.text, "err"@) || text::begins_with(
                    m.text,
                    "skipped"@,
                );
                rows.len() == 1 && texts(rows[0]) == seq![
                    (if bad {
                        "   ✖ "@
                    } else {
                        "   ✔ "@
                    }) + (if line.len() <= 60 {
                        line
                    } else {
                        line.subrange(0, 60)
                    }),
                ]
            })
        }),
{
    lemma_roles();
    text::lemma_newline_at(m.text);
    let rows = classic::msg_rows(m);
    if m.role == "sys"@ {
        assert(texts(rows[0]) =~= seq![" ── "@, m.text]);
    }
    if m.role == "tool"@ && !m.done {
        assert(texts(rows[0]) =~= seq![" ◆ "@, m.text]);
        assert(texts(rows[1]) =~= seq!["    ["@, "y"@, "] run  ["@, "n"@, "] skip"@]);
    }
    if m.role == "result"@ && m.text.len() > 0 {
        let line = text::lines_of(m.text)[0];
        let bad = text::begins_with(m.text, "err"@) || text::begins_with(m.text, "skipped"@);
        assert(texts(rows[0]) =~= seq![
            (if bad {
                "   ✖ "@
            } else {
                "   ✔ "@
            }) + (if line.len() <= 60 {
                line
            } else {
                line.subrange(0, 60)
            }),
        ]);
    }
}

/// The rows of the messages stand one after the other, none left out; below them a note says that
/// the agent thinks while it has the user's message to answer; and without any a hint says how to
/// begin.
pub proof fn law_every_classic_message_has_its_rows(
    a: ClassicView,
    msgs: Seq<ClassicMsgView>,
    m: ClassicMsgView,
)
    ensures
        classic::rows_of(Seq::empty()) == Seq::<Seq<SpanView>>::empty(),
        classic::rows_of(msgs.push(m)) == classic::rows_of(msgs) + classic::msg_rows(m),
        ({
            let rows = classic::rows_of(a.msgs);
            let all = classic::chat_rows(a);
            let thinks = a.busy && a.msgs.len() > 0 && a.msgs.last().role == "user"@;
            &&& rows.len() == 0 ==> all.len() == 1 && texts(all[0]) == seq![
                "  ◆  enter:send · y/n:tool · /exit\n"@,
            ]
            &&& rows.len() > 0 && !thinks ==> all == rows
            &&& rows.len() > 0 && thinks ==> all.len() == rows.len() + 1 && all.subrange(
                0,
                rows.len() as int,
            ) == rows && texts(all.last()) == seq![" ◉ "@, "thinking…"@]
        }),
{
    assert(msgs.push(m).drop_last() =~= msgs);
    let rows = classic::rows_of(a.msgs);
    let all = classic::chat_rows(a);
    let thinks = a.busy && a.msgs.len() > 0 && a.msgs.last().role == "user"@;
    if rows.len() == 0 {
        assert(texts(all[0]) =~= seq!["  ◆  enter:send · y/n:tool · /exit\n"@]);
    } else if thinks {
        assert(all.subrange(0, rows.len() as int) =~= rows);
        assert(texts(all.last()) =~= seq![" ◉ "@, "thinking…"@]);
    }
}

/// The chat starts at the row it is scrolled to, and no further down than leaves the pane full; it
/// starts there where it follows its end.
pub proof fn law_the_classic_chat_starts_where_it_is_scrolled(
    a: ClassicView,
    total: nat,
    max: nat,
)
    ensures
        total <= max ==> classic::chat_offset(a, total, max) == 0,
        total > max && a.scroll < total - max && a.scroll != usize::MAX ==> classic::chat_offset(
            a,
            total,
            max,
        ) == a.scroll,
        total > max && (a.scroll >= total - max || a.scroll == usize::MAX) ==> classic::chat_offset(
            a,
            total,
            max,
        ) == total - max,
{
}

/// The input's row shows what was typed, whole, and the cursor behind it; without input it says
/// whether to wait or to type.
pub proof fn law_the_classic_input_is_shown(a: ClassicView)
    ensures
        ({
            let row = texts(classic::input_row(a));
            let mark = if a.busy {
                " ◉ "@
            } else {
                " > "@
            };
            &&& a.input.len() > 0 ==> row == seq![mark, a.input, "█"@]
            &&& a.input.len() == 0 ==> row == seq![
                mark,
                if a.busy {
                    "waiting…"@
                } else {
                    "type a message…"@
                },
            ]
        }),
{
    let row = texts(classic::input_row(a));
    let mark = if a.busy {
        " ◉ "@
    } else {
        " > "@
    };
    if a.input.len() > 0 {
        assert(row =~= seq![mark, a.input, "█"@]);
    } else {
        assert(row =~= seq![
            mark,
            if a.busy {
                "waiting…"@
            } else {
                "type a message…"@
            },
        ]);
    }
}

/// A screen that is large enough shows the status bar, the sidebar, the chat and the input, each in
/// its place; a smaller one shows nothing.
pub proof fn law_the_classic_panes_are_drawn(a: ClassicView, area: Rect)
    ensures
        area.width < 50 || area.height < 10 ==> classic::screen_widgets(a, area).len() == 0,
        area.on_screen() && area.width >= 50 && area.height >= 10 ==> ({
            let all = classic::screen_widgets(a, area);
            let left = if area.width >= 58 {
                28
            } else {
                area.width - 30
            };
            let list = all[5];
            &&& all.len() == 10
            &&& all[1] is Paragraph && all[1]->Paragraph_lines == seq![classic::status_row(a)]
                && all[1]->Paragraph_area == (Rect {
                x: area.x,
                y: area.y,
                width: area.width,
                height: 1,
            })
            &&& list is List && list->List_items == classic::item_rows(
                a,
                (area.height - 7) as nat,
            ) && list->List_area.y == area.y + 2 && list->List_area.x == (area.x + 3) as u16
            &&& all[7] is Scrolled && all[7]->Scrolled_lines == classic::chat_rows(a)
                && all[7]->Scrolled_area == (Rect {
                x: (area.x + left) as u16,
                y: (area.y + 1) as u16,
                width: (area.width - left) as u16,
                height: (area.height - 3) as u16,
            }) && (classic::chat_rows(a).len() < 0x10000 ==> all[7]->Scrolled_offset
                == classic::chat_offset(
                a,
                classic::chat_rows(a).len(),
                (area.height - 4) as nat,
            ))
            &&& all[9] is Paragraph && all[9]->Paragraph_lines == seq![classic::input_row(a)]
                && all[9]->Paragraph_area.y == area.y + area.height - 1
        }),
{
    if area.on_screen() && area.width >= 50 && area.height >= 10 {
        let total = classic::chat_rows(a).len();
        let off = classic::chat_offset(a, total, (area.height - 4) as nat);
        if total < 0x10000 {
            vstd::arithmetic::div_mod::lemma_small_mod(off, 0x10000);
        }
    }
}

/// The selected line stands out, and no other does.
pub proof fn law_the_classic_selection_stands_out(a: ClassicView, max: nat, i: int)
    requires
        0 <= i < max,
        a.sidebar_scroll + i < a.sidebar_items.len(),
    ensures
        ({
            let row = classic::item_rows(a, max)[i];
            let ground = if a.sidebar_scroll + i == a.sel {
                classic::BORDER
            } else {
                classic::SURFACE
            };
            row[0].style.bg == Some(ground) && row.last().style.bg == Some(ground)
        }),
{
}

/// Above the sidebar's lines stands what they are, and below them what can be done.
pub proof fn law_the_classic_sidebar_is_headed(a: ClassicView, area: Rect)
    requires
        area.on_screen(),
        area.height >= 5,
    ensures
        ({
            let all = classic::sidebar_widgets(a, area);
            &&& all[2] is Paragraph && all[2]->Paragraph_lines.len() == 1 && texts(
                all[2]->Paragraph_lines[0],
            ) == seq![" ◆ "@, "sessions"@] && all[2]->Paragraph_area.y == area.y
            &&& all[4] is Paragraph && all[4]->Paragraph_lines.len() == 1 && texts(
                all[4]->Paragraph_lines[0],
            ) == seq!["  ↑↓ scroll · enter open"@] && all[4]->Paragraph_area.y == area.y
                + area.height - 1
        }),
{
    let all = classic::sidebar_widgets(a, area);
    assert(texts(all[2]->Paragraph_lines[0]) =~= seq![" ◆ "@, "sessions"@]);
    assert(texts(all[4]->Paragraph_lines[0]) =~= seq!["  ↑↓ scroll · enter open"@]);
}

} // verus!
