use tc::cmd::Cli;
use tc::counts::{CountOptions, InputCounts, TokenizerModel};

fn select(lines: bool, words: bool, chars: bool, tokens: bool) -> CountOptions {
    CountOptions {
        show_lines: lines,
        show_words: words,
        show_chars: chars,
        show_tokens: tokens,
        tokenizer_model: TokenizerModel::Edit,
    }
}

fn counts(lines: usize, words: usize, chars: usize, tokens: usize) -> InputCounts {
    InputCounts { lines, words, chars, tokens }
}

#[test]
fn enabled_options_are_counted() {
    assert_eq!(select(false, false, false, false).count_enabled_options(), 0);
    assert_eq!(select(true, false, false, false).count_enabled_options(), 1);
    assert_eq!(select(false, true, false, true).count_enabled_options(), 2);
    assert_eq!(select(true, true, true, false).count_enabled_options(), 3);
    assert_eq!(select(true, true, true, true).count_enabled_options(), 4);
}

#[test]
fn empty_selection_resolves_to_all_four() {
    assert_eq!(select(false, false, false, false).resolve(), select(true, true, true, true));
    assert_eq!(select(false, true, false, false).resolve(), select(false, true, false, false));
    assert_eq!(CountOptions::all(TokenizerModel::Edit), select(true, true, true, true));
}

#[test]
fn command_line_gives_the_options() {
    let cli = Cli {
        lines: false,
        words: false,
        chars: false,
        tokens: false,
        model: None,
        files: Vec::new(),
    };
    assert_eq!(cli.options(), CountOptions::all(TokenizerModel::GPT3));
    let cli = Cli {
        lines: true,
        words: true,
        chars: false,
        tokens: false,
        model: Some(TokenizerModel::GPT4O),
        files: vec![String::from("a.txt")],
    };
    let expected = CountOptions {
        show_lines: true,
        show_words: true,
        show_chars: false,
        show_tokens: false,
        tokenizer_model: TokenizerModel::GPT4O,
    };
    assert_eq!(cli.options(), expected);
    let cli = Cli {
        lines: false,
        words: false,
        chars: false,
        tokens: false,
        model: Some(TokenizerModel::ChatGPT),
        files: Vec::new(),
    };
    assert_eq!(cli.options(), CountOptions::all(TokenizerModel::ChatGPT));
}

#[test]
fn counts_start_at_zero() {
    assert_eq!(InputCounts::default(), counts(0, 0, 0, 0));
}

#[test]
fn counts_add_field_by_field() {
    let mut total = InputCounts::default();
    total.add_assign(counts(1, 2, 14, 5));
    total.add_assign(counts(1, 4, 22, 6));
    assert_eq!(total, counts(2, 6, 36, 11));
}

#[test]
fn total_does_not_depend_on_the_order() {
    let a = counts(1, 5, 26, 7);
    let b = counts(1, 5, 31, 7);
    let mut first = InputCounts::default();
    first.add_assign(a);
    first.add_assign(b);
    let mut second = InputCounts::default();
    second.add_assign(b);
    second.add_assign(a);
    assert_eq!(first, second);
    assert_eq!(first, counts(2, 10, 57, 14));
}

#[test]
fn overflow_is_told_before_adding() {
    let near = counts(usize::MAX - 1, 0, 0, 0);
    assert!(near.can_add(&counts(1, 9, 9, 9)));
    assert!(!near.can_add(&counts(2, 0, 0, 0)));
    assert!(!counts(0, 0, 0, usize::MAX).can_add(&counts(0, 0, 0, 1)));
    assert!(counts(0, 0, 0, 0).can_add(&counts(usize::MAX, usize::MAX, usize::MAX, usize::MAX)));
}

#[test]
fn models_keep_their_order() {
    assert!(TokenizerModel::GPT3 < TokenizerModel::Edit);
    assert!(TokenizerModel::Edit < TokenizerModel::Code);
    assert!(TokenizerModel::Code < TokenizerModel::ChatGPT);
    assert!(TokenizerModel::ChatGPT < TokenizerModel::GPT4O);
}
