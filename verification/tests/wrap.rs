//! Wrapping by terminal columns.

use attacca::wrap::{str_cols, wrap_chars};
use unicode_width::UnicodeWidthChar;

fn cols(s: &str) -> usize {
    s.chars().map(|c| UnicodeWidthChar::width(c).unwrap_or(0)).sum()
}

/// One sample per class `wrap_chars` has to get right: single-width, double-width, the mix that
/// broke the panel in the first place, emoji, and zero-width marks.
const SAMPLES: &[&str] = &[
    "the quick brown fox jumps over the lazy dog",
    "안녕하세요 반갑습니다 오늘도 좋은 하루 되세요",
    "mixed 한글 and ASCII 텍스트 in one line 12345",
    "🎉 emoji 🚀 mixed 🔥 with text",
    "e\u{0301}gal combining\u{0301} marks\u{0301}",
    "짧",
];

/// Widths start at 2: a budget of 1 cannot hold a double-width character, and `wrap_chars` emits
/// it anyway rather than dropping it or looping forever.
const WIDTHS: std::ops::RangeInclusive<usize> = 2..=20;

#[test]
fn wrap_chars_never_exceeds_the_column_budget() {
    for seg in SAMPLES {
        for width in WIDTHS {
            for row in wrap_chars(seg, width) {
                assert!(
                    cols(&row) <= width,
                    "{:?} at width {width} produced a {}-column row {:?}",
                    seg,
                    cols(&row),
                    row
                );
            }
        }
    }
}

#[test]
fn wrap_chars_preserves_every_character() {
    for seg in SAMPLES {
        for width in WIDTHS {
            assert_eq!(
                wrap_chars(seg, width).concat(),
                **seg,
                "{seg:?} lost or gained characters at width {width}"
            );
        }
    }
}

#[test]
fn wrap_chars_yields_one_row_for_an_empty_segment() {
    assert_eq!(wrap_chars("", 10), vec![String::new()]);
}

#[test]
fn a_segment_that_fits_is_left_as_one_row() {
    assert_eq!(wrap_chars("짧은 글", 10), vec!["짧은 글".to_string()]);
}

#[test]
fn rows_break_where_the_columns_run_out() {
    assert_eq!(wrap_chars("abcdef", 4), vec!["abcd".to_string(), "ef".to_string()]);
    assert_eq!(
        wrap_chars("한글abc", 3),
        vec!["한".to_string(), "글a".to_string(), "bc".to_string()]
    );
    assert_eq!(wrap_chars("한글", 1), vec!["한".to_string(), "글".to_string()]);
    assert_eq!(wrap_chars("ab", 0), vec!["a".to_string(), "b".to_string()]);
    assert_eq!(wrap_chars("e\u{0301}e\u{0301}", 1).len(), 2);
}

#[test]
fn columns_are_counted_not_characters() {
    assert_eq!(str_cols("abc"), 3);
    assert_eq!(str_cols("한글"), 4);
    assert_eq!(str_cols("e\u{0301}"), 1);
    assert_eq!(str_cols(""), 0);
}
