//! Byte offsets into text.
//!
//! A string is its characters; an offset into it counts the bytes of their UTF-8 encoding. The
//! functions here relate the two.

use vstd::prelude::*;
use vstd::utf8::*;

verus! {

/// How many bytes the UTF-8 encoding of a character takes.
pub open spec fn width(c: char) -> nat {
    let n = c as u32;
    if n < 0x80 {
        1
    } else if n < 0x800 {
        2
    } else if n < 0x10000 {
        3
    } else {
        4
    }
}

/// How many bytes the UTF-8 encoding of a text takes.
pub open spec fn byte_len(s: Seq<char>) -> nat
    decreases s.len(),
{
    if s.len() == 0 {
        0
    } else {
        byte_len(s.drop_last()) + width(s.last())
    }
}

/// The offset `i` falls between two characters, or at either end.
pub open spec fn at_boundary(s: Seq<char>, i: int) -> bool {
    exists|n: int| 0 <= n <= s.len() && i == #[trigger] byte_len(s.take(n))
}

/// How many characters lie before the offset `i`.
pub open spec fn chars_before(s: Seq<char>, i: int) -> nat
    decreases s.len(),
{
    if s.len() == 0 || byte_len(s) <= i {
        s.len()
    } else {
        chars_before(s.drop_last(), i)
    }
}

/// The text before the offset `i`.
pub open spec fn before(s: Seq<char>, i: int) -> Seq<char> {
    s.take(chars_before(s, i) as int)
}

/// The text after the offset `i`.
pub open spec fn after(s: Seq<char>, i: int) -> Seq<char> {
    s.skip(chars_before(s, i) as int)
}

pub proof fn lemma_byte_len_concat(a: Seq<char>, b: Seq<char>)
    ensures
        byte_len(a + b) == byte_len(a) + byte_len(b),
    decreases b.len(),
{
    if b.len() == 0 {
        assert(a + b =~= a);
    } else {
        assert((a + b).drop_last() =~= a + b.drop_last());
        lemma_byte_len_concat(a, b.drop_last());
    }
}

pub proof fn lemma_byte_len_take(s: Seq<char>, m: int, n: int)
    requires
        0 <= m <= n <= s.len(),
    ensures
        byte_len(s.take(m)) <= byte_len(s.take(n)),
        m < n ==> byte_len(s.take(m)) < byte_len(s.take(n)),
    decreases n - m,
{
    if m < n {
        assert(s.take(n).drop_last() =~= s.take(n - 1));
        lemma_byte_len_take(s, m, n - 1);
    }
}

/// The characters before a boundary take as many bytes as its offset says.
pub proof fn lemma_chars_before(s: Seq<char>, n: int)
    requires
        0 <= n <= s.len(),
    ensures
        chars_before(s, byte_len(s.take(n)) as int) == n,
        at_boundary(s, byte_len(s.take(n)) as int),
    decreases s.len(),
{
    let i = byte_len(s.take(n)) as int;
    assert(s.take(s.len() as int) =~= s);
    lemma_byte_len_take(s, n, s.len() as int);
    if n < s.len() {
        assert(s.drop_last().take(n) =~= s.take(n));
        lemma_chars_before(s.drop_last(), n);
    }
}

/// A boundary splits a text into what precedes and what follows it.
pub proof fn lemma_split(s: Seq<char>, i: int)
    requires
        at_boundary(s, i),
    ensures
        chars_before(s, i) <= s.len(),
        byte_len(before(s, i)) == i,
        before(s, i) + after(s, i) == s,
        0 <= i <= byte_len(s),
{
    let n = choose|n: int| 0 <= n <= s.len() && i == #[trigger] byte_len(s.take(n));
    lemma_chars_before(s, n);
    assert(before(s, i) + after(s, i) =~= s);
    lemma_byte_len_take(s, n, s.len() as int);
    assert(s.take(s.len() as int) =~= s);
}

/// The end of a prefix is a boundary, and what precedes it is that prefix.
pub proof fn lemma_join(a: Seq<char>, b: Seq<char>)
    ensures
        at_boundary(a + b, byte_len(a) as int),
        before(a + b, byte_len(a) as int) == a,
        after(a + b, byte_len(a) as int) == b,
{
    assert((a + b).take(a.len() as int) =~= a);
    lemma_chars_before(a + b, a.len() as int);
    assert((a + b).skip(a.len() as int) =~= b);
}

/// The end of a text is a boundary.
pub proof fn lemma_end(s: Seq<char>)
    ensures
        at_boundary(s, byte_len(s) as int),
        at_boundary(s, 0),
        before(s, byte_len(s) as int) == s,
{
    assert(s + Seq::empty() =~= s);
    lemma_join(s, Seq::empty());
    assert(byte_len(s.take(0)) == 0);
}

// ── The encoding ───────────────────────────────────────────────

proof fn lemma_encode_scalar(c: char)
    ensures
        encode_scalar(c as u32).len() == width(c),
{
}

proof fn lemma_byte_len_first(s: Seq<char>)
    requires
        s.len() > 0,
    ensures
        byte_len(s) == width(s[0]) + byte_len(s.drop_first()),
{
    let head = seq![s[0]];
    assert(s =~= head + s.drop_first());
    lemma_byte_len_concat(head, s.drop_first());
    assert(head.drop_last() =~= Seq::empty());
    assert(byte_len(head) == width(s[0])) by {
        reveal_with_fuel(byte_len, 2);
    }
}

/// The length of the encoding.
pub proof fn lemma_encoded(s: Seq<char>)
    ensures
        encode_utf8(s).len() == byte_len(s),
    decreases s.len(),
{
    if s.len() > 0 {
        lemma_encode_scalar(s[0]);
        lemma_encoded(s.drop_first());
        lemma_byte_len_first(s);
    }
}

proof fn lemma_encode_concat(a: Seq<char>, b: Seq<char>)
    ensures
        encode_utf8(a + b) == encode_utf8(a) + encode_utf8(b),
    decreases a.len(),
{
    if a.len() == 0 {
        assert(a + b =~= b);
        assert(encode_utf8(a) + encode_utf8(b) =~= encode_utf8(b));
    } else {
        assert((a + b).drop_first() =~= a.drop_first() + b);
        lemma_encode_concat(a.drop_first(), b);
        assert((a + b)[0] == a[0]);
        assert(encode_utf8(a + b) =~= encode_utf8(a) + encode_utf8(b));
    }
}

/// The boundaries of a text are those of its encoding.
pub proof fn lemma_boundary(s: Seq<char>, i: int)
    ensures
        is_char_boundary(encode_utf8(s), i) == at_boundary(s, i),
    decreases s.len(),
{
    let bytes = encode_utf8(s);
    encode_utf8_valid_utf8(s);
    lemma_encoded(s);
    assert(byte_len(s.take(0)) == 0);
    if i == 0 {
        assert(at_boundary(s, 0));
    } else if i < 0 || i > byte_len(s) {
        if at_boundary(s, i) {
            lemma_split(s, i);
        }
    } else if s.len() > 0 {
        let rest = s.drop_first();
        let w = width(s[0]) as int;
        encode_utf8_first_scalar(s);
        lemma_encode_scalar(s[0]);
        assert(pop_first_scalar(bytes) =~= encode_utf8(rest));
        lemma_boundary(rest, i - w);
        if at_boundary(rest, i - w) {
            let n = choose|n: int| 0 <= n <= rest.len() && i - w == #[trigger] byte_len(rest.take(n));
            lemma_byte_len_first(s.take(n + 1));
            assert(s.take(n + 1).drop_first() =~= rest.take(n));
            assert(byte_len(s.take(n + 1)) == i);
        }
        if at_boundary(s, i) {
            let n = choose|n: int| 0 <= n <= s.len() && i == #[trigger] byte_len(s.take(n));
            lemma_byte_len_first(s.take(n));
            assert(s.take(n).drop_first() =~= rest.take(n - 1));
            assert(byte_len(rest.take(n - 1)) == i - w);
        }
    }
}

// ── Executable ─────────────────────────────────────────────────

/// The number of bytes in a string.
pub fn len(s: &str) -> (n: usize)
    ensures
        n == byte_len(s@),
{
    proof {
        lemma_encoded(s@);
    }
    let b = s.as_bytes();
    b.len()
}

/// Whether the offset `i` falls between two characters of `s`, or at either end.
pub fn boundary(s: &str, i: usize) -> (r: bool)
    ensures
        r == at_boundary(s@, i as int),
{
    proof {
        lemma_boundary(s@, i as int);
    }
    s.is_char_boundary(i)
}

/// The two parts of `s` on either side of a boundary.
pub fn split(s: &str, i: usize) -> (r: (&str, &str))
    requires
        at_boundary(s@, i as int),
    ensures
        r.0@ == before(s@, i as int),
        r.1@ == after(s@, i as int),
{
    proof {
        lemma_boundary(s@, i as int);
        lemma_split(s@, i as int);
        let a = before(s@, i as int);
        let b = after(s@, i as int);
        lemma_encode_concat(a, b);
        lemma_encoded(a);
    }
    let (x, y) = s.split_at(i);
    proof {
        let a = before(s@, i as int);
        let b = after(s@, i as int);
        let all = encode_utf8(a) + encode_utf8(b);
        assert(all.subrange(0, i as int) =~= encode_utf8(a));
        assert(all.subrange(i as int, all.len() as int) =~= encode_utf8(b));
        encode_utf8_decode_utf8(a);
        encode_utf8_decode_utf8(b);
        encode_utf8_decode_utf8(x@);
        encode_utf8_decode_utf8(y@);
    }
    (x, y)
}

} // verus!
