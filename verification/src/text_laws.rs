//! Laws of texts: what trimming, joining, splitting and searching keep and what they give.

use crate::text;
use vstd::prelude::*;

verus! {

/// The white-space characters, by their code points.
pub open spec fn white_points() -> Seq<u32> {
    seq![
        0x09, 0x0a, 0x0b, 0x0c, 0x0d, 0x20, 0x85, 0xa0, 0x1680, 0x2000, 0x2001, 0x2002, 0x2003,
        0x2004, 0x2005, 0x2006, 0x2007, 0x2008, 0x2009, 0x200a, 0x2028, 0x2029, 0x202f, 0x205f,
        0x3000,
    ]
}

/// White space is exactly the characters that Unicode gives that property.
pub proof fn law_white_space_is_what_unicode_says(c: char)
    ensures
        text::is_space(c) <==> white_points().contains(c as u32),
{
    let w = white_points();
    if text::is_space(c) {
        let n = c as u32;
        assert(w[0] == 9 && w[1] == 10 && w[2] == 11 && w[3] == 12 && w[4] == 13 && w[5] == 0x20
            && w[6] == 0x85 && w[7] == 0xa0 && w[8] == 0x1680 && w[9] == 0x2000 && w[10] == 0x2001
            && w[11] == 0x2002 && w[12] == 0x2003 && w[13] == 0x2004 && w[14] == 0x2005 && w[15]
            == 0x2006 && w[16] == 0x2007 && w[17] == 0x2008 && w[18] == 0x2009 && w[19] == 0x200a
            && w[20] == 0x2028 && w[21] == 0x2029 && w[22] == 0x202f && w[23] == 0x205f && w[24]
            == 0x3000);
    } else if w.contains(c as u32) {
        let i = choose|i: int| 0 <= i < w.len() && w[i] == c as u32;
        assert(w[i] == c as u32);
        assert(0 <= i < 25);
    }
}

/// A text is blank exactly when none of its characters is anything but white space.
pub proof fn law_a_blank_text_shows_nothing(s: Seq<char>)
    ensures
        text::is_blank(s) <==> !exists|i: int| 0 <= i < s.len() && !text::is_space(#[trigger] s[i]),
        text::is_blank(s) <==> text::trimmed(s).len() == 0,
{
    text::lemma_blank(s);
}

proof fn lemma_left_cut(s: Seq<char>) -> (cut: Seq<char>)
    ensures
        text::is_blank(cut),
        s == cut + text::left_trimmed(s),
        text::left_trimmed(s).len() > 0 ==> !text::is_space(text::left_trimmed(s)[0]),
    decreases s.len(),
{
    if s.len() > 0 && text::is_space(s[0]) {
        let rest = lemma_left_cut(s.drop_first());
        let cut = seq![s[0]] + rest;
        assert(s =~= seq![s[0]] + s.drop_first());
        assert(s =~= cut + text::left_trimmed(s));
        cut
    } else {
        assert(s =~= Seq::<char>::empty() + s);
        Seq::empty()
    }
}

proof fn lemma_right_cut(s: Seq<char>) -> (cut: Seq<char>)
    ensures
        text::is_blank(cut),
        s == text::right_trimmed(s) + cut,
        text::right_trimmed(s).len() > 0 ==> !text::is_space(text::right_trimmed(s).last()),
    decreases s.len(),
{
    if s.len() > 0 && text::is_space(s.last()) {
        let rest = lemma_right_cut(s.drop_last());
        let cut = rest.push(s.last());
        assert(s =~= s.drop_last().push(s.last()));
        assert(s =~= text::right_trimmed(s) + cut);
        cut
    } else {
        assert(s =~= s + Seq::<char>::empty());
        Seq::empty()
    }
}

/// Trimming takes white space off the two ends and nothing else: the text is what was cut in front,
/// what is left, and what was cut behind; what was cut is blank, and what is left neither starts nor
/// ends with white space.
pub proof fn law_trimming_takes_only_white_space(s: Seq<char>) -> (cut: (Seq<char>, Seq<char>))
    ensures
        s == cut.0 + text::trimmed(s) + cut.1,
        text::is_blank(cut.0),
        text::is_blank(cut.1),
        text::trimmed(s).len() > 0 ==> !text::is_space(text::trimmed(s)[0]) && !text::is_space(
            text::trimmed(s).last(),
        ),
{
    let front = lemma_left_cut(s);
    let mid = text::left_trimmed(s);
    let back = lemma_right_cut(mid);
    assert(s =~= front + text::trimmed(s) + back);
    if text::trimmed(s).len() > 0 {
        assert(mid[0] == text::trimmed(s)[0]);
    }
    (front, back)
}

/// Trimming the front takes only white space, all that a text begins with.
pub proof fn law_trimming_the_front(s: Seq<char>) -> (cut: Seq<char>)
    ensures
        s == cut + text::left_trimmed(s),
        text::is_blank(cut),
        text::left_trimmed(s).len() > 0 ==> !text::is_space(text::left_trimmed(s)[0]),
{
    lemma_left_cut(s)
}

/// Lower case changes the twenty-six capital letters of ASCII to their small ones, each in its
/// place, and no other character.
pub proof fn law_lower_case_keeps_every_place(s: Seq<char>)
    ensures
        text::lowered(s).len() == s.len(),
        forall|i: int|
            0 <= i < s.len() && 'A' as u32 <= (#[trigger] s[i]) as u32 <= 'Z' as u32 ==> (
            text::lowered(s)[i] as u32) == s[i] as u32 + 32,
        forall|i: int|
            0 <= i < s.len() && !('A' as u32 <= (#[trigger] s[i]) as u32 <= 'Z' as u32)
                ==> text::lowered(s)[i] == s[i],
{
}

/// A text holds another exactly when the other stands between two parts of it.
pub proof fn law_a_text_holds_what_stands_in_it(s: Seq<char>, p: Seq<char>)
    ensures
        text::holds(s, p) <==> exists|a: Seq<char>, b: Seq<char>| s == #[trigger] (a + p + b),
{
    if text::holds(s, p) {
        let i = choose|i: int| text::occurs_at(s, p, i);
        let a = s.take(i);
        let b = s.skip(i + p.len());
        assert(s =~= a + p + b);
    }
    if exists|a: Seq<char>, b: Seq<char>| s == #[trigger] (a + p + b) {
        let (a, b) = choose|a: Seq<char>, b: Seq<char>| s == #[trigger] (a + p + b);
        let i = a.len() as int;
        assert(s.subrange(i, i + p.len()) =~= p);
        assert(text::occurs_at(s, p, i));
    }
}

/// The first place of a text in another: it stands there and nowhere before; none is found exactly
/// where it stands nowhere.
pub proof fn law_the_first_place_is_the_first(s: Seq<char>, p: Seq<char>)
    ensures
        text::first_at(s, p) matches Some(i) ==> 0 <= i && i + p.len() <= s.len() && s.subrange(
            i,
            i + p.len(),
        ) == p && forall|j: int| 0 <= j < i ==> #[trigger] s.subrange(j, j + p.len()) != p,
        text::first_at(s, p) is None ==> forall|j: int|
            0 <= j && j + p.len() <= s.len() ==> #[trigger] s.subrange(j, j + p.len()) != p,
{
    text::lemma_first_from(s, p, 0);
    if let Some(i) = text::first_at(s, p) {
        assert forall|j: int| 0 <= j < i implies #[trigger] s.subrange(j, j + p.len()) != p by {
            assert(!text::occurs_at(s, p, j));
        }
    } else {
        assert forall|j: int| 0 <= j && j + p.len() <= s.len() implies #[trigger] s.subrange(
            j,
            j + p.len(),
        ) != p by {
            assert(!text::occurs_at(s, p, j));
        }
    }
}

/// A text begins, or ends, with another exactly when the rest makes it up.
pub proof fn law_a_text_begins_and_ends(s: Seq<char>, p: Seq<char>)
    ensures
        text::begins_with(s, p) <==> exists|rest: Seq<char>| s == #[trigger] (p + rest),
        text::finishes_with(s, p) <==> exists|front: Seq<char>| s == #[trigger] (front + p),
{
    if text::begins_with(s, p) {
        assert(s =~= p + s.skip(p.len() as int));
    }
    if exists|rest: Seq<char>| s == #[trigger] (p + rest) {
        assert(s.take(p.len() as int) =~= p);
    }
    if text::finishes_with(s, p) {
        assert(s =~= s.take(s.len() - p.len()) + p);
    }
    if exists|front: Seq<char>| s == #[trigger] (front + p) {
        assert(s.skip(s.len() - p.len()) =~= p);
    }
}

/// Joining puts the separator between each two parts, and keeps every part whole and in its place.
pub proof fn law_joining_keeps_every_part(parts: Seq<Seq<char>>, part: Seq<char>, sep: Seq<char>)
    ensures
        text::joined(Seq::empty(), sep) == Seq::<char>::empty(),
        text::joined(seq![part], sep) == part,
        parts.len() > 0 ==> text::joined(parts.push(part), sep) == text::joined(parts, sep) + sep
            + part,
{
    assert(parts.push(part).drop_last() =~= parts);
}

proof fn lemma_newline_behind(line: Seq<char>, rest: Seq<char>)
    requires
        !line.contains('\n'),
    ensures
        text::newline_at(line + seq!['\n'] + rest) == line.len(),
        text::newline_at(line) == line.len(),
    decreases line.len(),
{
    let s = line + seq!['\n'] + rest;
    if line.len() > 0 {
        assert(line.contains(line[0]));
        let tail = line.drop_first();
        assert forall|c: char| tail.contains(c) implies line.contains(c) by {
            let i = choose|i: int| 0 <= i < tail.len() && tail[i] == c;
            assert(line[i + 1] == c);
        }
        lemma_newline_behind(tail, rest);
        assert(s.drop_first() =~= tail + seq!['\n'] + rest);
        assert(s[0] == line[0]);
    } else {
        assert(s[0] == '\n');
    }
}

/// The lines of a text: a line that a newline ends is one line, without the carriage return in front
/// of the newline, followed by the lines of what stands behind it; a last line without a newline is a
/// line too; and an empty text has none.
pub proof fn law_every_line_of_a_text_is_one(line: Seq<char>, rest: Seq<char>)
    requires
        !line.contains('\n'),
    ensures
        text::lines_of(Seq::empty()) == Seq::<Seq<char>>::empty(),
        line.len() > 0 ==> text::lines_of(line) == seq![line],
        text::lines_of(line + seq!['\n'] + rest) == seq![
            if line.len() > 0 && line.last() == '\r' {
                line.drop_last()
            } else {
                line
            },
        ] + text::lines_of(rest),
{
    let s = line + seq!['\n'] + rest;
    lemma_newline_behind(line, rest);
    assert(s.take(line.len() as int) =~= line);
    assert(s.skip(line.len() as int + 1) =~= rest);
}

/// The segments of a text, with a newline between each two, are the text; no segment holds a
/// newline.
pub proof fn law_the_segments_make_up_the_text(s: Seq<char>)
    ensures
        text::segments_of(s).len() > 0,
        text::joined(text::segments_of(s), seq!['\n']) == s,
        forall|i: int|
            0 <= i < text::segments_of(s).len() ==> !(#[trigger] text::segments_of(s)[i]).contains(
                '\n',
            ),
    decreases s.len(),
{
    let n = text::newline_at(s);
    text::lemma_newline_at(s);
    let segs = text::segments_of(s);
    if n < s.len() {
        let rest = s.skip(n + 1);
        law_the_segments_make_up_the_text(rest);
        let tail = text::segments_of(rest);
        assert(segs == seq![s.take(n)] + tail);
        lemma_joined_front(s.take(n), tail, seq!['\n']);
        assert(s =~= s.take(n) + seq!['\n'] + rest);
        assert(!s.take(n).contains('\n'));
        assert forall|i: int| 0 <= i < segs.len() implies !(#[trigger] segs[i]).contains('\n') by {
            if i > 0 {
                assert(segs[i] == tail[i - 1]);
            }
        }
    } else {
        assert(segs == seq![s]);
        assert(!s.contains('\n'));
    }
}

proof fn lemma_joined_front(first: Seq<char>, rest: Seq<Seq<char>>, sep: Seq<char>)
    requires
        rest.len() > 0,
    ensures
        text::joined(seq![first] + rest, sep) == first + sep + text::joined(rest, sep),
    decreases rest.len(),
{
    let all = seq![first] + rest;
    assert(all.last() == rest.last());
    if rest.len() == 1 {
        assert(all.drop_last() =~= seq![first]);
        assert(text::joined(seq![first], sep) == first);
        assert(text::joined(all, sep) == first + sep + rest[0]);
    } else {
        lemma_joined_front(first, rest.drop_last(), sep);
        assert(all.drop_last() =~= seq![first] + rest.drop_last());
        assert(text::joined(all, sep) =~= first + sep + text::joined(rest, sep));
    }
}

/// The number that decimal digits stand for.
pub open spec fn number(s: Seq<char>) -> nat
    decreases s.len(),
{
    if s.len() == 0 {
        0
    } else {
        (10 * number(s.drop_last()) + (s.last() as u32 - '0' as u32)) as nat
    }
}

/// A number in decimal stands for that number, in digits only, and starts with a zero only where it
/// is zero.
pub proof fn law_decimals_stand_for_their_number(n: nat)
    ensures
        number(text::decimal(n)) == n,
        text::decimal(n).len() > 0,
        text::decimal(n)[0] == '0' ==> n == 0,
        forall|i: int|
            0 <= i < text::decimal(n).len() ==> '0' as u32 <= (#[trigger] text::decimal(n)[i]) as u32
                <= '9' as u32,
        n > 0 ==> text::decimal_int(-n) == seq!['-'] + text::decimal(n),
        text::decimal_int(n as int) == text::decimal(n),
    decreases n,
{
    reveal_with_fuel(number, 2);
    if n < 10 {
        assert(text::decimal(n) =~= seq![text::digit(n)]);
        assert(text::decimal(n).drop_last() =~= Seq::empty());
    } else {
        law_decimals_stand_for_their_number(n / 10);
        let head = text::decimal(n / 10);
        assert(text::decimal(n).drop_last() =~= head);
        assert(text::decimal(n)[0] == head[0]);
    }
}

/// Cutting keeps the beginning: all of a text that is short enough, or else exactly so many of its
/// characters.
pub proof fn law_cutting_keeps_the_beginning(s: Seq<char>, n: nat)
    ensures
        s.len() <= n ==> text::prefix(s, n) == s,
        s.len() > n ==> text::prefix(s, n).len() == n,
        forall|i: int| 0 <= i < text::prefix(s, n).len() ==> #[trigger] text::prefix(s, n)[i] == s[i],
{
}

/// A repeated character is that character so many times, and nothing else.
pub proof fn law_a_repeated_character(c: char, n: nat)
    ensures
        text::repeated(c, n).len() == n,
        forall|i: int| 0 <= i < n ==> #[trigger] text::repeated(c, n)[i] == c,
{
}

/// The hexadecimal digits are the ten digits and the first six letters, small or capital.
pub proof fn law_hexadecimal_digits(c: char)
    ensures
        text::is_hex(c) <==> ('0' as u32 <= c as u32 <= '9' as u32) || ('a' as u32 <= c as u32
            <= 'f' as u32) || ('A' as u32 <= c as u32 <= 'F' as u32),
{
}

/// A list in the abstract has its items in the abstract, each in its place.
pub proof fn law_a_list_is_its_items<T: View>(s: Seq<T>, i: int, o: Option<T>)
    requires
        0 <= i < s.len(),
    ensures
        text::views(s).len() == s.len(),
        text::views(s)[i] == s[i]@,
        o matches Some(x) ==> text::opt_view(o) == Some(x@),
        o is None ==> text::opt_view(o) is None,
{
}

} // verus!
