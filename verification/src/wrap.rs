//! Hard-wrapping text into rows of terminal columns.

use crate::text;
use vstd::prelude::*;

verus! {

broadcast use {text::lemma_views_push, text::lemma_views_empty};

// ── Columns ────────────────────────────────────────────────────

/// How many columns `unicode_width::UnicodeWidthChar::width` says a character takes; none for a
/// control character.
pub uninterp spec fn char_width(c: char) -> Option<usize>;

/// How many columns `unicode_width::UnicodeWidthStr::width` says a text takes.
pub uninterp spec fn text_width(s: Seq<char>) -> usize;

/// `unicode_width::UnicodeWidthChar::width`: at most three columns, one for a printable ASCII
/// character, none stated for an ASCII control character.
#[verifier::external_body]
fn width_of_char(c: char) -> (r: Option<usize>)
    ensures
        r == char_width(c),
        r matches Some(n) ==> n <= 3,
        0x20 <= c as u32 && (c as u32) < 0x7f ==> r == Some(1usize),
        (c as u32) < 0x20 ==> r is None,
{
    unicode_width::UnicodeWidthChar::width(c)
}

/// `unicode_width::UnicodeWidthStr::width`.
#[verifier::external_body]
fn width_of_str(s: &str) -> (r: usize)
    ensures
        r == text_width(s@),
{
    unicode_width::UnicodeWidthStr::width(s)
}

/// How many columns a character takes; none for a control character.
pub open spec fn columns(c: char) -> nat {
    match char_width(c) {
        Some(n) => n as nat,
        None => 0,
    }
}

/// How many columns the characters of a text take together.
pub open spec fn columns_of(s: Seq<char>) -> nat
    decreases s.len(),
{
    if s.len() == 0 {
        0
    } else {
        columns_of(s.drop_last()) + columns(s.last())
    }
}

fn cols(c: char) -> (r: usize)
    ensures
        r == columns(c),
        r <= 3,
{
    match width_of_char(c) {
        Some(n) => n,
        None => 0,
    }
}

/// How many columns a text takes.
pub fn str_cols(s: &str) -> (r: usize)
    ensures
        r == text_width(s@),
{
    width_of_str(s)
}

// ── Wrapping ───────────────────────────────────────────────────

/// The rows that wrapping comes to, given the finished rows, the row in the making and what is left
/// to place: a character goes to the row in the making if it fits there or the row is empty, and
/// opens a new row otherwise.
pub open spec fn placed(
    rows: Seq<Seq<char>>,
    row: Seq<char>,
    rest: Seq<char>,
    width: nat,
) -> Seq<Seq<char>>
    decreases rest.len(),
{
    if rest.len() == 0 {
        rows.push(row)
    } else if columns_of(row) + columns(rest[0]) > width && row.len() > 0 {
        placed(rows.push(row), seq![rest[0]], rest.skip(1), width)
    } else {
        placed(rows, row.push(rest[0]), rest.skip(1), width)
    }
}

/// The least width there is.
pub open spec fn at_least_one(width: nat) -> nat {
    if width == 0 {
        1
    } else {
        width
    }
}

/// A line wrapped into rows of at most `width` columns.
pub open spec fn wrapped(line: Seq<char>, width: nat) -> Seq<Seq<char>> {
    placed(Seq::empty(), Seq::empty(), line, at_least_one(width))
}

/// Hard-wrap a single logical line into visual rows of at most `width` terminal columns, accounting
/// for double-width characters (e.g. Hangul, CJK) so wrapped rows never overflow the panel. An
/// empty line yields one empty row so blank input lines still take a row.
pub fn wrap_chars(line: &str, width: usize) -> (rows: Vec<String>)
    ensures
        text::views(rows@) == wrapped(line@, width as nat),
{
    let width: usize = if width == 0 {
        1
    } else {
        width
    };
    let v = text::chars_of(line);
    let n: usize = v.len();
    let mut rows: Vec<String> = Vec::new();
    let mut cur = String::new();
    let mut cur_w: usize = 0;
    let mut i: usize = 0;
    assert(v@.skip(0) =~= v@);
    while i < n
        invariant
            i <= n == v@.len(),
            v@ == line@,
            width >= 1,
            width == at_least_one(width as nat),
            cur_w == columns_of(cur@),
            cur_w <= width || cur_w <= 3,
            placed(text::views(rows@), cur@, v@.skip(i as int), width as nat) == placed(
                Seq::empty(),
                Seq::empty(),
                line@,
                width as nat,
            ),
        decreases n - i,
    {
        let ch = v[i];
        let cw: usize = cols(ch);
        assert(v@.skip(i as int)[0] == ch);
        assert(v@.skip(i as int).skip(1) =~= v@.skip(i + 1));
        let full = if cur_w > width {
            true
        } else {
            cw > width - cur_w
        };
        if full && cur.as_str().unicode_len() > 0 {
            let ghost done = cur@;
            rows.push(cur);
            cur = String::new();
            cur_w = 0;
            assert(seq![ch].drop_last() =~= Seq::empty());
            assert(Seq::<char>::empty().push(ch) =~= seq![ch]);
            assert(columns_of(seq![ch]) == columns(ch)) by {
                reveal_with_fuel(columns_of, 2);
            }
        }
        let ghost before = cur@;
        text::push_char(&mut cur, ch);
        assert(cur@.drop_last() =~= before);
        cur_w = cur_w + cw;
        i += 1;
    }
    assert(v@.skip(n as int) =~= Seq::empty());
    rows.push(cur);
    rows
}

// ── Laws ───────────────────────────────────────────────────────

/// The rows of a line, one after the other, are the line.
pub proof fn lemma_flat(line: Seq<char>, width: nat)
    ensures
        flat(wrapped(line, width)) == line,
        wrapped(line, width).len() > 0,
{
    lemma_placed(Seq::empty(), Seq::empty(), line, at_least_one(width));
    assert(flat(Seq::<Seq<char>>::empty()) + Seq::<char>::empty() + line =~= line);
}

/// The rows of a line, joined, are the line.
pub proof fn law_wrapping_keeps_every_character(line: Seq<char>, width: nat)
    ensures
        text::joined(wrapped(line, width), Seq::empty()) == line,
        wrapped(line, width).len() > 0,
{
    lemma_flat(line, width);
    lemma_flat_joined(wrapped(line, width));
}

/// The rows one after the other.
pub open spec fn flat(rows: Seq<Seq<char>>) -> Seq<char>
    decreases rows.len(),
{
    if rows.len() == 0 {
        Seq::empty()
    } else {
        flat(rows.drop_last()) + rows.last()
    }
}

proof fn lemma_placed(rows: Seq<Seq<char>>, row: Seq<char>, rest: Seq<char>, width: nat)
    ensures
        flat(placed(rows, row, rest, width)) == flat(rows) + row + rest,
        placed(rows, row, rest, width).len() > rows.len(),
    decreases rest.len(),
{
    if rest.len() == 0 {
        assert(rows.push(row).drop_last() =~= rows);
        assert(flat(rows) + row + rest =~= flat(rows) + row);
    } else {
        let c = rest[0];
        assert(rows.push(row).drop_last() =~= rows);
        if columns_of(row) + columns(c) > width && row.len() > 0 {
            lemma_placed(rows.push(row), seq![c], rest.skip(1), width);
            assert(flat(rows) + row + seq![c] + rest.skip(1) =~= flat(rows) + row + rest);
        } else {
            lemma_placed(rows, row.push(c), rest.skip(1), width);
            assert(flat(rows) + row.push(c) + rest.skip(1) =~= flat(rows) + row + rest);
        }
    }
}

proof fn lemma_flat_joined(rows: Seq<Seq<char>>)
    ensures
        text::joined(rows, Seq::empty()) == flat(rows),
    decreases rows.len(),
{
    if rows.len() > 0 {
        lemma_flat_joined(rows.drop_last());
        lemma_joined_nothing(rows);
    }
}

proof fn lemma_joined_nothing(rows: Seq<Seq<char>>)
    requires
        rows.len() > 0,
    ensures
        text::joined(rows, Seq::empty()) == text::joined(rows.drop_last(), Seq::empty())
            + rows.last(),
{
    assert(text::joined(rows, Seq::empty()) =~= text::joined(rows.drop_last(), Seq::empty())
        + rows.last());
}

/// A row takes no more columns than there are, or is a single character.
pub open spec fn fits(row: Seq<char>, width: nat) -> bool {
    columns_of(row) <= width || row.len() == 1
}

/// No row takes more columns than there are, except one that a single character overfills.
pub proof fn law_no_row_exceeds_the_columns(line: Seq<char>, width: nat, i: int)
    requires
        0 <= i < wrapped(line, width).len(),
    ensures
        fits(wrapped(line, width)[i], at_least_one(width)),
{
    lemma_within(Seq::empty(), Seq::empty(), line, at_least_one(width));
}

proof fn lemma_within(rows: Seq<Seq<char>>, row: Seq<char>, rest: Seq<char>, width: nat)
    requires
        fits(row, width),
        forall|i: int| 0 <= i < rows.len() ==> fits(#[trigger] rows[i], width),
    ensures
        forall|i: int|
            0 <= i < placed(rows, row, rest, width).len() ==> fits(
                #[trigger] placed(rows, row, rest, width)[i],
                width,
            ),
    decreases rest.len(),
{
    if rest.len() > 0 {
        let c = rest[0];
        let more = rest.skip(1);
        if columns_of(row) + columns(c) > width && row.len() > 0 {
            lemma_within(rows.push(row), seq![c], more, width);
            assert(placed(rows, row, rest, width) == placed(rows.push(row), seq![c], more, width));
        } else {
            assert(row.push(c).drop_last() =~= row);
            lemma_within(rows, row.push(c), more, width);
            assert(placed(rows, row, rest, width) == placed(rows, row.push(c), more, width));
        }
    } else {
        let all = rows.push(row);
        assert forall|i: int| 0 <= i < all.len() implies fits(#[trigger] all[i], width) by {
            if i < rows.len() {
                assert(all[i] == rows[i]);
            }
        }
    }
}

/// An empty line takes one empty row.
pub proof fn law_an_empty_line_takes_a_row(width: nat)
    ensures
        wrapped(Seq::empty(), width) == seq![Seq::<char>::empty()],
{
    assert(Seq::<Seq<char>>::empty().push(Seq::empty()) =~= seq![Seq::<char>::empty()]);
}

/// A line that fits is left as one row.
pub proof fn law_a_line_that_fits_is_one_row(line: Seq<char>, width: nat)
    requires
        columns_of(line) <= at_least_one(width),
    ensures
        wrapped(line, width) == seq![line],
{
    lemma_fits(Seq::empty(), line, at_least_one(width));
    assert(Seq::empty() + line =~= line);
    assert(Seq::<Seq<char>>::empty().push(line) =~= seq![line]);
}

proof fn lemma_fits(row: Seq<char>, rest: Seq<char>, width: nat)
    requires
        columns_of(row + rest) <= width,
    ensures
        placed(Seq::empty(), row, rest, width) == Seq::<Seq<char>>::empty().push(row + rest),
    decreases rest.len(),
{
    if rest.len() == 0 {
        assert(row + rest =~= row);
    } else {
        let next = row.push(rest[0]);
        assert(next + rest.skip(1) =~= row + rest);
        lemma_columns_prefix(next, rest.skip(1));
        assert(next.drop_last() =~= row);
        lemma_fits(next, rest.skip(1), width);
    }
}

proof fn lemma_columns_prefix(a: Seq<char>, b: Seq<char>)
    ensures
        columns_of(a) <= columns_of(a + b),
    decreases b.len(),
{
    if b.len() == 0 {
        assert(a + b =~= a);
    } else {
        assert((a + b).drop_last() =~= a + b.drop_last());
        lemma_columns_prefix(a, b.drop_last());
    }
}

/// A row ends where the next character would no longer fit: every row but the last says something,
/// and has no room for the first character of the row below it.
pub proof fn law_a_row_breaks_only_when_full(line: Seq<char>, width: nat, i: int)
    requires
        0 <= i < wrapped(line, width).len() - 1,
    ensures
        wrapped(line, width)[i].len() > 0,
        wrapped(line, width)[i + 1].len() > 0,
        columns_of(wrapped(line, width)[i]) + columns(wrapped(line, width)[i + 1][0])
            > at_least_one(width),
{
    lemma_full(Seq::empty(), Seq::empty(), line, at_least_one(width));
    let rows = wrapped(line, width);
    assert(full(rows[i], rows[i + 1], at_least_one(width)));
}

/// The columns of a text are those of its characters together.
pub proof fn law_columns_add_up(s: Seq<char>, c: char)
    ensures
        columns_of(Seq::empty()) == 0,
        columns_of(s.push(c)) == columns_of(s) + columns(c),
        columns(c) == match char_width(c) {
            Some(n) => n as nat,
            None => 0,
        },
{
    assert(s.push(c).drop_last() =~= s);
}

spec fn full(row: Seq<char>, below: Seq<char>, width: nat) -> bool {
    row.len() > 0 && below.len() > 0 && columns_of(row) + columns(below[0]) > width
}

spec fn all_full(rows: Seq<Seq<char>>, width: nat) -> bool {
    forall|i: int, j: int|
        0 <= i && j == i + 1 && j < rows.len() ==> full(#[trigger] rows[i], #[trigger] rows[j], width)
}

proof fn lemma_full(rows: Seq<Seq<char>>, row: Seq<char>, rest: Seq<char>, width: nat)
    requires
        all_full(rows.push(row), width),
        row.len() == 0 ==> rows.len() == 0,
    ensures
        all_full(placed(rows, row, rest, width), width),
    decreases rest.len(),
{
    if rest.len() > 0 {
        let c = rest[0];
        let all = rows.push(row);
        if columns_of(row) + columns(c) > width && row.len() > 0 {
            let next = rows.push(row).push(seq![c]);
            assert forall|i: int, j: int| 0 <= i && j == i + 1 && j < next.len() implies full(
                #[trigger] next[i],
                #[trigger] next[j],
                width,
            ) by {
                if j < all.len() {
                    assert(full(all[i], all[j], width));
                }
            }
            lemma_full(rows.push(row), seq![c], rest.skip(1), width);
        } else {
            let next = rows.push(row.push(c));
            assert forall|i: int, j: int| 0 <= i && j == i + 1 && j < next.len() implies full(
                #[trigger] next[i],
                #[trigger] next[j],
                width,
            ) by {
                assert(full(all[i], all[j], width));
            }
            lemma_full(rows, row.push(c), rest.skip(1), width);
        }
    }
}

/// A row has at least one column, and otherwise as many as there are.
pub proof fn law_a_row_has_at_least_a_column(width: nat)
    ensures
        at_least_one(0) == 1,
        width > 0 ==> at_least_one(width) == width,
{
}

} // verus!
