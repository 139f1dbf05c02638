use tc::counts::{CountOptions, TokenizerModel};
use tc::run::process_input;

const NAME: &str = "/tmp/input.txt";

/// The line that one source gives, as it would be written to the output.
fn line_for(content: &[u8], options: &CountOptions) -> String {
    let (_, line) = process_input(content, options, Some(NAME)).unwrap();
    line
}

#[test]
fn input_processor_test_empty_input() {
    let options = CountOptions {
        show_lines: true,
        show_words: true,
        show_chars: true,
        show_tokens: false,
        tokenizer_model: TokenizerModel::GPT3,
    };
    let output = line_for("".as_bytes(), &options);
    assert_eq!(output, format!("       0       0       0 {}\n", NAME));
}

#[test]
fn input_processor_test_single_word() {
    let options = CountOptions {
        show_lines: true,
        show_words: true,
        show_chars: true,
        show_tokens: false,
        tokenizer_model: TokenizerModel::GPT3,
    };
    let output = line_for("hello".as_bytes(), &options);
    assert_eq!(output, format!("       1       1       5 {}\n", NAME));
}

#[test]
fn input_processor_test_multiple_words() {
    let options = CountOptions {
        show_lines: true,
        show_words: true,
        show_chars: true,
        show_tokens: false,
        tokenizer_model: TokenizerModel::GPT3,
    };
    let output = line_for("hello world\nrust is great".as_bytes(), &options);
    assert_eq!(output, format!("       2       5      25 {}\n", NAME));
}

#[test]
fn test_show_lines_only() {
    let options = CountOptions {
        show_lines: true,
        show_words: false,
        show_chars: false,
        show_tokens: false,
        tokenizer_model: TokenizerModel::GPT3,
    };
    let output = line_for("hello\nworld\n".as_bytes(), &options);
    assert_eq!(output, format!("2 {}\n", NAME));
}

#[test]
fn test_show_words_only() {
    let options = CountOptions {
        show_lines: false,
        show_words: true,
        show_chars: false,
        show_tokens: false,
        tokenizer_model: TokenizerModel::GPT3,
    };
    let output = line_for("hello world rust".as_bytes(), &options);
    assert_eq!(output, format!("3 {}\n", NAME));
}

#[test]
fn test_show_chars_only() {
    let options = CountOptions {
        show_lines: false,
        show_words: false,
        show_chars: true,
        show_tokens: false,
        tokenizer_model: TokenizerModel::GPT3,
    };
    let output = line_for("hello\n".as_bytes(), &options);
    assert_eq!(output, format!("6 {}\n", NAME));
}

#[test]
fn test_utf8_characters() {
    let options = CountOptions {
        show_lines: true,
        show_words: true,
        show_chars: true,
        show_tokens: false,
        tokenizer_model: TokenizerModel::GPT3,
    };
    let output = line_for("Hello, 世界!\n".as_bytes(), &options);
    assert_eq!(output, format!("       1       2      11 {}\n", NAME));
}

#[test]
fn test_multi_byte_characters() {
    let options = CountOptions {
        show_lines: true,
        show_words: true,
        show_chars: true,
        show_tokens: false,
        tokenizer_model: TokenizerModel::GPT3,
    };
    let output = line_for("🚀 Rust 💻\n".as_bytes(), &options);
    assert_eq!(output, format!("       1       3       9 {}\n", NAME));
}

#[test]
fn test_korean_characters() {
    let options = CountOptions {
        show_lines: true,
        show_words: true,
        show_chars: true,
        show_tokens: false,
        tokenizer_model: TokenizerModel::GPT3,
    };
    let output = line_for("안녕하세요 세계!\n".as_bytes(), &options);
    assert_eq!(output, format!("       1       2      10 {}\n", NAME));
}

#[test]
fn test_japanese_characters() {
    let options = CountOptions {
        show_lines: true,
        show_words: true,
        show_chars: true,
        show_tokens: false,
        tokenizer_model: TokenizerModel::GPT3,
    };
    let output = line_for("こんにちは 世界！\n".as_bytes(), &options);
    assert_eq!(output, format!("       1       2      10 {}\n", NAME));
}

#[test]
fn test_mixed_languages() {
    let options = CountOptions {
        show_lines: true,
        show_words: true,
        show_chars: true,
        show_tokens: false,
        tokenizer_model: TokenizerModel::GPT3,
    };
    let output = line_for("Hello 안녕 こんにちは World!\n".as_bytes(), &options);
    assert_eq!(output, format!("       1       4      22 {}\n", NAME));
}

#[test]
fn test_korean_multiline() {
    let options = CountOptions {
        show_lines: true,
        show_words: true,
        show_chars: true,
        show_tokens: false,
        tokenizer_model: TokenizerModel::GPT3,
    };
    let output = line_for("안녕하세요\n세계입니다\n".as_bytes(), &options);
    assert_eq!(output, format!("       2       2      12 {}\n", NAME));
}

#[test]
fn test_japanese_multiline() {
    let options = CountOptions {
        show_lines: true,
        show_words: true,
        show_chars: true,
        show_tokens: false,
        tokenizer_model: TokenizerModel::GPT3,
    };
    let output = line_for("こんにちは\n世界です\n".as_bytes(), &options);
    assert_eq!(output, format!("       2       2      11 {}\n", NAME));
}

#[test]
fn test_show_tokens() {
    let options = CountOptions {
        show_lines: false,
        show_words: false,
        show_chars: false,
        show_tokens: true,
        tokenizer_model: TokenizerModel::Edit,
    };
    let output = line_for("Hello, world!\n世界です".as_bytes(), &options);
    assert_eq!(output, format!("11 {}\n", NAME));
}

#[test]
fn test_all_options() {
    let options = CountOptions {
        show_lines: true,
        show_words: true,
        show_chars: true,
        show_tokens: true,
        tokenizer_model: TokenizerModel::GPT3,
    };
    let output = line_for("Hello, world!\nThis is a test.".as_bytes(), &options);
    assert_eq!(output, format!("       2       6      29      10 {}\n", NAME));
}

#[test]
fn test_all_options_with_model() {
    let options = CountOptions {
        show_lines: true,
        show_words: true,
        show_chars: true,
        show_tokens: true,
        tokenizer_model: TokenizerModel::GPT4O,
    };
    let output = line_for("Hello, world!\nThis is a test.".as_bytes(), &options);
    assert_eq!(output, format!("       2       6      29       9 {}\n", NAME));
}

#[test]
fn test_show_tokens_with_different_models() {
    let options = CountOptions {
        show_lines: false,
        show_words: false,
        show_chars: false,
        show_tokens: true,
        tokenizer_model: TokenizerModel::GPT3,
    };
    let output = line_for(b"Hello, world!", &options);
    assert_eq!(output, format!("4 {}\n", NAME));
    let options = CountOptions {
        show_lines: false,
        show_words: false,
        show_chars: false,
        show_tokens: true,
        tokenizer_model: TokenizerModel::GPT4O,
    };
    let output = line_for(b"Hello, world!", &options);
    assert_eq!(output, format!("4 {}\n", NAME));
}
