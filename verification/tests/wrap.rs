use verifiers::ui::{cursor_pos_wrapped, word_wrap_widths, wrapped_row_count};

#[test]
fn empty_line_is_one_empty_row() {
    assert_eq!(word_wrap_widths("", 5), vec![0]);
}

#[test]
fn zero_width_is_one_empty_row() {
    assert_eq!(word_wrap_widths("anything at all", 0), vec![0]);
}

#[test]
fn short_line_fits() {
    assert_eq!(word_wrap_widths("abc", 10), vec![3]);
}

#[test]
fn wraps_at_a_space() {
    assert_eq!(word_wrap_widths("hello world", 5), vec![5, 5]);
    assert_eq!(word_wrap_widths("hello world", 11), vec![11]);
}

#[test]
fn breaks_long_words() {
    assert_eq!(word_wrap_widths("abcdefgh", 3), vec![3, 3, 2]);
}

#[test]
fn keeps_leading_whitespace() {
    // with trimming disabled the leading blanks fill the first row
    assert_eq!(word_wrap_widths("  ab", 2), vec![2, 2]);
}

#[test]
fn wide_characters_count_double() {
    // U+FF21 FULLWIDTH LATIN CAPITAL LETTER A is two columns wide
    let s = "\u{FF21}\u{FF21}\u{FF21}";
    assert_eq!(word_wrap_widths(s, 4), vec![4, 2]);
}

#[test]
fn control_characters_have_no_width() {
    assert_eq!(word_wrap_widths("a\u{1}b", 10), vec![2]);
}

#[test]
fn row_counts_sum_over_lines() {
    assert_eq!(wrapped_row_count("ab\ncd", 10), 2);
    assert_eq!(wrapped_row_count("hello world\nx", 5), 3);
    // a trailing newline opens one more (empty) visual row
    assert_eq!(wrapped_row_count("ab\n", 10), 2);
    assert_eq!(wrapped_row_count("", 10), 1);
}

#[test]
fn cursor_sits_after_the_last_character() {
    assert_eq!(cursor_pos_wrapped("ab", 10), (2, 0));
    assert_eq!(cursor_pos_wrapped("ab\ncd", 10), (2, 1));
    assert_eq!(cursor_pos_wrapped("ab\n", 10), (0, 1));
    assert_eq!(cursor_pos_wrapped("hello world", 5), (5, 1));
    assert_eq!(cursor_pos_wrapped("", 7), (0, 0));
    assert_eq!(cursor_pos_wrapped("anything", 0), (0, 0));
}
