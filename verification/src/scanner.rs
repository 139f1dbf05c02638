//! The scanner: lines and words of a byte sequence, counted in one pass over
//! its line segments.

use crate::counts::{all_metrics, CountOptions, CountsView, InputCounts, TokenizerModel};
use crate::segments::{counted_segments, lemma_counts_by_segment, words_in};
use crate::text::{decode_lossy, decoded_text, lemma_decoded_empty};
use crate::tokenizer::{count_tokens, model_encoding, model_tokens, TokenizerFailure};
use vstd::prelude::*;
use vstd::string::StrSliceExecFns;

verus! {

/// The line-feed byte, which ends a line segment.
pub const LINE_FEED: u8 = 0x0A;

/// ASCII whitespace: space, horizontal tab, line feed, form feed and
/// carriage return. Words are told apart by these bytes alone, so the
/// count is defined for any bytes, well-formed text or not.
pub open spec fn is_whitespace(b: u8) -> bool {
    b == 0x20 || b == 0x09 || b == 0x0A || b == 0x0C || b == 0x0D
}

/// The number of line-feed bytes in `bytes`.
pub open spec fn line_feeds(bytes: Seq<u8>) -> nat
    decreases bytes.len(),
{
    if bytes.len() == 0 {
        0
    } else {
        line_feeds(bytes.drop_last()) + if bytes.last() == LINE_FEED {
            1nat
        } else {
            0nat
        }
    }
}

/// The number of lines: every line feed ends one, and bytes after the last
/// line feed (or all bytes, where there is none) make one more. Empty input
/// has no line, and a final line feed opens no further line.
pub open spec fn line_count(bytes: Seq<u8>) -> nat {
    line_feeds(bytes) + if bytes.len() > 0 && bytes.last() != LINE_FEED {
        1nat
    } else {
        0nat
    }
}

/// A word starts at `i`: a byte that is no whitespace, at the very start or
/// after a whitespace byte.
pub open spec fn word_starts_at(bytes: Seq<u8>, i: int) -> bool
    recommends
        0 <= i < bytes.len(),
{
    !is_whitespace(bytes[i]) && (i == 0 || is_whitespace(bytes[i - 1]))
}

/// The number of words: maximal runs of bytes that are no whitespace,
/// counted by the places where one starts.
pub open spec fn word_count(bytes: Seq<u8>) -> nat
    decreases bytes.len(),
{
    if bytes.len() == 0 {
        0
    } else {
        word_count(bytes.drop_last()) + if word_starts_at(bytes, bytes.len() - 1) {
            1nat
        } else {
            0nat
        }
    }
}

/// Taking one more byte into a prefix adds that byte's share to both counts.
pub proof fn lemma_counts_step(bytes: Seq<u8>, i: int)
    requires
        0 <= i < bytes.len(),
    ensures
        line_feeds(bytes.take(i + 1)) == line_feeds(bytes.take(i)) + if bytes[i] == LINE_FEED {
            1nat
        } else {
            0nat
        },
        word_count(bytes.take(i + 1)) == word_count(bytes.take(i)) + if word_starts_at(bytes, i) {
            1nat
        } else {
            0nat
        },
        line_feeds(bytes.take(i)) <= i,
        word_count(bytes.take(i)) <= i,
    decreases i,
{
    assert(bytes.take(i + 1).drop_last() =~= bytes.take(i));
    if i > 0 {
        lemma_counts_step(bytes, i - 1);
    }
}

/// Whether `b` is one of the five ASCII whitespace bytes.
pub fn is_ascii_whitespace(b: u8) -> (r: bool)
    ensures
        r == is_whitespace(b),
{
    b == 0x20 || b == 0x09 || b == 0x0A || b == 0x0C || b == 0x0D
}

/// Scans the segment that starts at `start` up to its line feed, or to the
/// end of the buffer where no line feed follows. Returns where the segment
/// ends and, where words are wanted, how many start in it.
fn scan_segment(buffer: &[u8], start: usize, want_words: bool) -> (r: (usize, usize))
    requires
        start < buffer@.len(),
        start == 0 || buffer@[start - 1] == LINE_FEED,
    ensures
        start <= r.0 <= buffer@.len(),
        r.0 == buffer@.len() || buffer@[r.0 as int] == LINE_FEED,
        forall|k: int| start <= k < r.0 ==> buffer@[k] != LINE_FEED,
        line_feeds(buffer@.take(r.0 as int)) == line_feeds(buffer@.take(start as int)),
        want_words ==> word_count(buffer@.take(r.0 as int)) == word_count(
            buffer@.take(start as int),
        ) + r.1,
        !want_words ==> r.1 == 0,
        r.1 <= r.0 - start,
{
    let n: usize = buffer.len();
    let mut i: usize = start;
    let mut words: usize = 0;
    let mut in_word: bool = false;
    while i < n && buffer[i] != LINE_FEED
        invariant
            n == buffer@.len(),
            start <= i <= n,
            start == 0 || buffer@[start - 1] == LINE_FEED,
            forall|k: int| start <= k < i ==> buffer@[k] != LINE_FEED,
            line_feeds(buffer@.take(i as int)) == line_feeds(buffer@.take(start as int)),
            want_words ==> word_count(buffer@.take(i as int)) == word_count(
                buffer@.take(start as int),
            ) + words,
            want_words ==> in_word == (i > start && !is_whitespace(buffer@[i - 1])),
            !want_words ==> words == 0,
            words <= i - start,
        decreases n - i,
    {
        proof {
            lemma_counts_step(buffer@, i as int);
        }
        if want_words {
            if is_ascii_whitespace(buffer[i]) {
                in_word = false;
            } else {
                if !in_word {
                    words = words + 1;
                }
                in_word = true;
            }
        }
        i = i + 1;
    }
    (i, words)
}

/// Counts lines and words in one pass over the line segments of `buffer`:
/// the lines are the segments but for an empty last one, the words are the
/// words in them. A count that is not wanted is left at zero.
pub fn count_lines_words(buffer: &[u8], want_lines: bool, want_words: bool) -> (r: (usize, usize))
    ensures
        r.0 == if want_lines {
            line_count(buffer@)
        } else {
            0
        },
        r.1 == if want_words {
            word_count(buffer@)
        } else {
            0
        },
        want_lines ==> r.0 == counted_segments(buffer@).len(),
        want_words ==> r.1 == words_in(counted_segments(buffer@)),
{
    proof {
        lemma_counts_by_segment(buffer@);
    }
    let n: usize = buffer.len();
    let mut lines: usize = 0;
    let mut words: usize = 0;
    if !want_lines && !want_words {
        return (lines, words);
    }
    let mut start: usize = 0;
    assert(buffer@.take(0) =~= Seq::<u8>::empty());
    while start < n
        invariant
            n == buffer@.len(),
            start <= n,
            start == 0 || start == n || buffer@[start - 1] == LINE_FEED,
            lines == if want_lines {
                line_count(buffer@.take(start as int))
            } else {
                0
            },
            words == if want_words {
                word_count(buffer@.take(start as int))
            } else {
                0
            },
            lines <= start,
            words <= start,
        decreases n - start,
    {
        proof {
            if start > 0 {
                lemma_counts_step(buffer@, start - 1);
                assert(buffer@.take(start as int).last() == LINE_FEED);
            }
        }
        let (end, found) = scan_segment(buffer, start, want_words);
        if want_lines {
            lines = lines + 1;
        }
        words = words + found;
        if end < n {
            proof {
                lemma_counts_step(buffer@, end as int);
                assert(buffer@.take(end + 1).last() == LINE_FEED);
            }
            start = end + 1;
        } else {
            proof {
                assert(buffer@.take(n as int) =~= buffer@);
                assert(buffer@.last() != LINE_FEED);
            }
            start = end;
        }
    }
    proof {
        assert(buffer@.take(n as int) =~= buffer@);
    }
    (lines, words)
}

/// The number of characters: the decoded scalar values of the text that
/// the bytes hold, not the bytes themselves.
pub open spec fn char_count(bytes: Seq<u8>) -> nat {
    decoded_text(bytes).len()
}

/// The number of tokens that `model` makes of the text that the bytes hold.
pub open spec fn token_count(model: TokenizerModel, bytes: Seq<u8>) -> nat
    recommends
        model_encoding(model, decoded_text(bytes)) is Ok,
{
    model_tokens(model, decoded_text(bytes)).len()
}

/// Whether the bytes can be measured under `options`: always, but for
/// tokens where encoding the text ends in a failure.
pub open spec fn measurable(bytes: Seq<u8>, options: CountOptions) -> bool {
    options.show_tokens ==> model_encoding(options.tokenizer_model, decoded_text(bytes)) is Ok
}

/// Lines, words and characters of `bytes` as far as `options` selects them;
/// tokens are left out. What is not selected is zero.
pub open spec fn scan_text(bytes: Seq<u8>, options: CountOptions) -> CountsView {
    CountsView {
        lines: if options.show_lines {
            line_count(bytes)
        } else {
            0
        },
        words: if options.show_words {
            word_count(bytes)
        } else {
            0
        },
        chars: if options.show_chars {
            char_count(bytes)
        } else {
            0
        },
        tokens: 0,
    }
}

/// The counts of `bytes` under `options`: each selected metric measured,
/// each other one zero.
pub open spec fn scan(bytes: Seq<u8>, options: CountOptions) -> CountsView {
    CountsView {
        tokens: if options.show_tokens {
            token_count(options.tokenizer_model, bytes)
        } else {
            0
        },
        ..scan_text(bytes, options)
    }
}

/// The one way a measurement can fail: tokens were asked for and the
/// tokenizer gave none.
#[derive(Copy, Clone, Debug, PartialEq, Eq, Structural)]
pub struct TokenizerError {
    /// The model that tokens were asked of.
    pub model: TokenizerModel,
    /// What kept the tokenizer from counting.
    pub failure: TokenizerFailure,
}

/// Puts the tokenizer's answer into counts that hold the other metrics.
/// Where tokens are not selected the answer is not looked at.
pub fn with_tokens(
    partial: InputCounts,
    options: &CountOptions,
    tokens: Result<usize, TokenizerFailure>,
) -> (r: Result<InputCounts, TokenizerError>)
    ensures
        !options.show_tokens ==> r == Ok::<InputCounts, TokenizerError>(
            InputCounts { tokens: 0, ..partial },
        ),
        options.show_tokens ==> match tokens {
            Ok(n) => r == Ok::<InputCounts, TokenizerError>(InputCounts { tokens: n, ..partial }),
            Err(failure) => r == Err::<InputCounts, TokenizerError>(
                TokenizerError { model: options.tokenizer_model, failure },
            ),
        },
{
    if !options.show_tokens {
        Ok(InputCounts { tokens: 0, ..partial })
    } else {
        match tokens {
            Ok(n) => Ok(InputCounts { tokens: n, ..partial }),
            Err(failure) => Err(TokenizerError { model: options.tokenizer_model, failure }),
        }
    }
}

/// Measures `buffer`. The bytes are decoded only where characters or tokens
/// are selected, and the tokenizer is called only for tokens. Without
/// tokens the measurement always succeeds; with them it fails exactly where
/// encoding the text does, and with that failure. Empty input, where it is
/// measured, has all counts zero.
pub fn count_input(buffer: &[u8], options: &CountOptions) -> (r: Result<
    InputCounts,
    TokenizerError,
>)
    ensures
        r is Ok <==> measurable(buffer@, *options),
        !options.show_tokens ==> r is Ok,
        r matches Ok(counts) ==> counts@ == scan(buffer@, *options),
        r matches Err(e) ==> {
            &&& e.model == options.tokenizer_model
            &&& model_encoding(options.tokenizer_model, decoded_text(buffer@)) is Err
            &&& model_encoding(options.tokenizer_model, decoded_text(buffer@))->Err_0 == e.failure
        },
        r matches Ok(counts) ==> (buffer@.len() == 0 ==> counts@ == CountsView::zero()),
{
    let (lines, words) = count_lines_words(buffer, options.show_lines, options.show_words);
    if !options.show_chars && !options.show_tokens {
        proof {
            lemma_scan_empty(*options);
        }
        return Ok(InputCounts { lines, words, chars: 0, tokens: 0 });
    }
    let text = decode_lossy(buffer);
    let chars: usize = if options.show_chars {
        text.as_str().unicode_len()
    } else {
        0
    };
    let tokens = if options.show_tokens {
        count_tokens(options.tokenizer_model, text.as_str())
    } else {
        Ok(0)
    };
    proof {
        if buffer@.len() == 0 {
            assert(buffer@ =~= Seq::<u8>::empty());
            lemma_scan_empty(*options);
        }
    }
    with_tokens(InputCounts { lines, words, chars, tokens: 0 }, options, tokens)
}

/// Only lines are selected.
pub open spec fn lines_only(tokenizer_model: TokenizerModel) -> CountOptions {
    CountOptions {
        show_lines: true,
        show_words: false,
        show_chars: false,
        show_tokens: false,
        tokenizer_model,
    }
}

/// What a metric counts does not depend on which other metrics are
/// selected: two selections that agree on a metric (and, for tokens, on the
/// model) give it the same value.
pub proof fn lemma_selection_independent(bytes: Seq<u8>, a: CountOptions, b: CountOptions)
    ensures
        a.show_lines == b.show_lines ==> scan(bytes, a).lines == scan(bytes, b).lines,
        a.show_words == b.show_words ==> scan(bytes, a).words == scan(bytes, b).words,
        a.show_chars == b.show_chars ==> scan(bytes, a).chars == scan(bytes, b).chars,
        a.show_tokens == b.show_tokens && a.tokenizer_model == b.tokenizer_model ==> scan(
            bytes,
            a,
        ).tokens == scan(bytes, b).tokens,
{
}

/// The lines counted with all four metrics selected are the lines counted
/// alone, whatever the models.
pub proof fn lemma_lines_alone(bytes: Seq<u8>, model: TokenizerModel, other: TokenizerModel)
    ensures
        scan(bytes, all_metrics(model)).lines == scan(bytes, lines_only(other)).lines,
        scan(bytes, lines_only(other)).lines == line_count(bytes),
{
}

/// Empty input has no lines, no words and no characters.
pub proof fn lemma_scan_empty(options: CountOptions)
    ensures
        scan_text(Seq::<u8>::empty(), options) == CountsView::zero(),
        !options.show_tokens ==> scan(Seq::<u8>::empty(), options) == CountsView::zero(),
{
    lemma_decoded_empty();
}

} // verus!
