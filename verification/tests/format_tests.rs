use tc::counts::{CountOptions, InputCounts, TokenizerModel};
use tc::format::{decimal_string, format_counts};

fn select(lines: bool, words: bool, chars: bool, tokens: bool) -> CountOptions {
    CountOptions {
        show_lines: lines,
        show_words: words,
        show_chars: chars,
        show_tokens: tokens,
        tokenizer_model: TokenizerModel::GPT3,
    }
}

fn counts(lines: usize, words: usize, chars: usize, tokens: usize) -> InputCounts {
    InputCounts { lines, words, chars, tokens }
}

#[test]
fn one_metric_is_not_padded() {
    let line = format_counts(&counts(0, 3, 0, 0), &select(false, true, false, false), None);
    assert_eq!(line, "3\n");
    let line = format_counts(&counts(7, 3, 9, 11), &select(false, false, false, true), None);
    assert_eq!(line, "11\n");
}

#[test]
fn two_metrics_take_fixed_columns() {
    let line = format_counts(&counts(3, 3, 0, 0), &select(true, true, false, false), None);
    assert_eq!(line, "       3       3\n");
}

#[test]
fn four_metrics_in_fixed_order() {
    let line = format_counts(&counts(1, 22, 333, 4444), &select(true, true, true, true), None);
    assert_eq!(line, "       1      22     333    4444\n");
    let line = format_counts(&counts(1, 22, 333, 4444), &select(true, false, false, true), None);
    assert_eq!(line, "       1    4444\n");
}

#[test]
fn label_follows_after_one_space() {
    let line = format_counts(&counts(2, 0, 0, 0), &select(true, false, false, false), Some("a.txt"));
    assert_eq!(line, "2 a.txt\n");
    let line = format_counts(&counts(2, 6, 36, 11), &select(true, true, true, true), Some("total"));
    assert_eq!(line, "       2       6      36      11 total\n");
}

#[test]
fn whitespace_at_the_end_is_removed() {
    let one = select(false, true, false, false);
    assert_eq!(format_counts(&counts(0, 3, 0, 0), &one, Some("name  ")), "3 name\n");
    assert_eq!(format_counts(&counts(0, 3, 0, 0), &one, Some("")), "3\n");
    assert_eq!(format_counts(&counts(0, 3, 0, 0), &one, Some(" \t\n")), "3\n");
    assert_eq!(format_counts(&counts(0, 3, 0, 0), &one, Some("n\u{3000}\u{a0}\u{2003}")), "3 n\n");
    assert_eq!(format_counts(&counts(0, 3, 0, 0), &one, Some("n\u{200b}")), "3 n\u{200b}\n");
    assert_eq!(format_counts(&counts(0, 3, 0, 0), &one, Some("  n")), "3   n\n");
}

#[test]
fn nothing_selected_leaves_the_label() {
    let none = select(false, false, false, false);
    assert_eq!(format_counts(&counts(1, 2, 3, 4), &none, Some("x")), " x\n");
    assert_eq!(format_counts(&counts(1, 2, 3, 4), &none, None), "\n");
}

#[test]
fn wide_numbers_push_the_column_out() {
    let two = select(true, true, false, false);
    assert_eq!(format_counts(&counts(123456789, 1, 0, 0), &two, None), "123456789       1\n");
    assert_eq!(format_counts(&counts(12345678, 1, 0, 0), &two, None), "12345678       1\n");
}

#[test]
fn decimal_of_small_and_large_numbers() {
    assert_eq!(decimal_string(0), "0");
    assert_eq!(decimal_string(9), "9");
    assert_eq!(decimal_string(10), "10");
    assert_eq!(decimal_string(1234567890), "1234567890");
    assert_eq!(decimal_string(usize::MAX), format!("{}", usize::MAX));
}
