use tc::counts::{CountOptions, InputCounts, TokenizerModel};
use tc::run::{process_input, Cause, Diagnostic, RunState, Stage, Step};

/// What a source turned out to be when it was opened and read.
enum Source {
    Content(&'static [u8]),
    Failure(Stage, Cause),
}

struct Report {
    output: String,
    diagnostics: Vec<(usize, Diagnostic)>,
    failed: bool,
    total: InputCounts,
}

/// Runs the controller over sources that are already at hand, doing what
/// each step asks for.
fn run(names: &[&str], sources: &[Source], options: &CountOptions) -> Report {
    let mut state = RunState::new(names.len());
    let mut output = String::new();
    let mut diagnostics = Vec::new();
    loop {
        let (index, name) = match state.next_step() {
            Step::ReadStdin => (0, None),
            Step::ReadFile(i) => (i, Some(names[i])),
            Step::EmitTotal => {
                output.push_str(&state.total_line(options, "total"));
                continue;
            }
            Step::Finish { failed } => {
                return Report { output, diagnostics, failed, total: state.total };
            }
        };
        match &sources[index] {
            Source::Content(bytes) => {
                let (counts, line) = process_input(bytes, options, name).unwrap();
                output.push_str(&line);
                assert!(state.can_take(&counts));
                state.source_succeeded(counts);
            }
            Source::Failure(stage, cause) => {
                diagnostics.push((index, state.source_failed(*stage, *cause)));
            }
        }
    }
}

fn counts(lines: usize, words: usize, chars: usize, tokens: usize) -> InputCounts {
    InputCounts { lines, words, chars, tokens }
}

#[test]
fn missing_source_among_three() {
    let options = CountOptions::all(TokenizerModel::GPT3);
    let report = run(
        &["existing1.txt", "non_existent.txt", "existing2.txt"],
        &[
            Source::Content(b"This is an existing file.\n"),
            Source::Failure(Stage::Opening, Cause::NotFound),
            Source::Content(b"This is another existing file.\n"),
        ],
        &options,
    );
    assert_eq!(
        report.output,
        "       1       5      26       7 existing1.txt\n       \
         1       5      31       7 existing2.txt\n       \
         2      10      57      14 total\n"
    );
    assert_eq!(report.diagnostics, vec![(1, Diagnostic::NotFound)]);
    assert!(report.failed);
    assert_eq!(report.total, counts(2, 10, 57, 14));
}

#[test]
fn two_files_and_their_total() {
    let options = CountOptions::all(TokenizerModel::GPT3);
    let report = run(
        &["test1.txt", "test2.txt"],
        &[Source::Content(b"Hello, world!\n"), Source::Content(b"This is another test.\n")],
        &options,
    );
    assert_eq!(
        report.output,
        "       1       2      14       5 test1.txt\n       \
         1       4      22       6 test2.txt\n       \
         2       6      36      11 total\n"
    );
    assert!(report.diagnostics.is_empty());
    assert!(!report.failed);
}

#[test]
fn one_file_has_no_total() {
    let options = CountOptions::all(TokenizerModel::GPT3).resolve();
    let report = run(&["only.txt"], &[Source::Content(b"hello")], &options);
    assert_eq!(report.output, "       1       1       5       1 only.txt\n");
    assert!(!report.failed);
}

#[test]
fn standard_input_has_no_label_and_no_total() {
    let options = CountOptions {
        show_lines: true,
        show_words: true,
        show_chars: false,
        show_tokens: false,
        tokenizer_model: TokenizerModel::GPT3,
    };
    let report = run(&[], &[Source::Content(b"Hello\nWorld\nRust")], &options);
    assert_eq!(report.output, "       3       3\n");
    assert!(report.diagnostics.is_empty());
    assert!(!report.failed);
}

#[test]
fn standard_input_that_fails() {
    let options = CountOptions::all(TokenizerModel::GPT3);
    let report = run(&[], &[Source::Failure(Stage::Reading, Cause::Other)], &options);
    assert_eq!(report.output, "");
    assert_eq!(report.diagnostics, vec![(0, Diagnostic::ReadingStdin)]);
    assert!(report.failed);
}

#[test]
fn total_is_written_when_every_source_fails() {
    let options = CountOptions {
        show_lines: true,
        show_words: true,
        show_chars: true,
        show_tokens: false,
        tokenizer_model: TokenizerModel::GPT3,
    };
    let report = run(
        &["a", "b"],
        &[
            Source::Failure(Stage::Opening, Cause::PermissionDenied),
            Source::Failure(Stage::Reading, Cause::Other),
        ],
        &options,
    );
    assert_eq!(report.output, "       0       0       0 total\n");
    assert_eq!(
        report.diagnostics,
        vec![(0, Diagnostic::PermissionDenied), (1, Diagnostic::ReadingFile)]
    );
    assert!(report.failed);
}

#[test]
fn each_failure_has_its_diagnostic() {
    let cases = [
        (Stage::Opening, Cause::NotFound, Diagnostic::NotFound),
        (Stage::Opening, Cause::PermissionDenied, Diagnostic::PermissionDenied),
        (Stage::Opening, Cause::Other, Diagnostic::OpeningFile),
        (Stage::Reading, Cause::NotFound, Diagnostic::ReadingFile),
        (Stage::Reading, Cause::PermissionDenied, Diagnostic::ReadingFile),
        (Stage::Reading, Cause::Other, Diagnostic::ReadingFile),
    ];
    for (stage, cause, expected) in cases {
        let mut state = RunState::new(1);
        assert_eq!(state.source_failed(stage, cause), expected);
        assert_eq!(state.next_step(), Step::Finish { failed: true });
        let mut state = RunState::new(0);
        assert_eq!(state.source_failed(stage, cause), Diagnostic::ReadingStdin);
        assert_eq!(state.next_step(), Step::Finish { failed: true });
    }
}

#[test]
fn refused_output_ends_the_run() {
    let mut state = RunState::new(3);
    assert_eq!(state.next_step(), Step::ReadFile(0));
    state.source_succeeded(counts(1, 1, 1, 1));
    assert_eq!(state.next_step(), Step::ReadFile(1));
    assert_eq!(state.output_refused(), Diagnostic::WritingOutput);
    assert_eq!(state.next_step(), Step::Finish { failed: true });
    assert_eq!(state.total, counts(1, 1, 1, 1));
    assert_eq!(state.attempted, 1);
}

#[test]
fn steps_follow_the_declared_order() {
    let mut state = RunState::new(2);
    assert_eq!(state.next_step(), Step::ReadFile(0));
    state.source_succeeded(counts(1, 2, 3, 4));
    assert_eq!(state.next_step(), Step::ReadFile(1));
    state.source_succeeded(counts(10, 20, 30, 40));
    assert_eq!(state.next_step(), Step::EmitTotal);
    let options = CountOptions::all(TokenizerModel::GPT3);
    assert_eq!(state.total_line(&options, "total"), "      11      22      33      44 total\n");
    assert_eq!(state.next_step(), Step::Finish { failed: false });
    let mut state = RunState::new(0);
    assert_eq!(state.next_step(), Step::ReadStdin);
    state.source_succeeded(counts(1, 2, 3, 4));
    assert_eq!(state.next_step(), Step::Finish { failed: false });
}

#[test]
fn source_line_carries_its_name() {
    let options = CountOptions {
        show_lines: true,
        show_words: false,
        show_chars: false,
        show_tokens: false,
        tokenizer_model: TokenizerModel::GPT3,
    };
    let (measured, line) = process_input(b"hello\nworld\n", &options, Some("f")).unwrap();
    assert_eq!(measured, counts(2, 0, 0, 0));
    assert_eq!(line, "2 f\n");
    let (_, line) = process_input(b"hello\nworld\n", &options, None).unwrap();
    assert_eq!(line, "2\n");
}
