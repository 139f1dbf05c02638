//! The data of a measurement: which metrics are wanted, and the four counts.

use vstd::prelude::*;

verus! {

/// The tokenizer vocabularies that a token count can be taken with.
#[derive(Copy, Clone, Debug, PartialEq, Eq, PartialOrd, Ord, Structural)]
pub enum TokenizerModel {
    GPT3,
    Edit,
    Code,
    ChatGPT,
    GPT4O,
}

/// Which of the four metrics are measured and shown, and the vocabulary
/// that tokens are counted with.
#[derive(Copy, Clone, Debug, PartialEq, Eq, Structural)]
pub struct CountOptions {
    pub show_lines: bool,
    pub show_words: bool,
    pub show_chars: bool,
    pub show_tokens: bool,
    pub tokenizer_model: TokenizerModel,
}

/// One for a selected metric, zero for an unselected one.
pub open spec fn flag(selected: bool) -> nat {
    if selected {
        1
    } else {
        0
    }
}

fn flag_value(selected: bool) -> (n: u8)
    ensures
        n == flag(selected),
{
    if selected {
        1
    } else {
        0
    }
}

/// All four metrics, with the given vocabulary.
pub open spec fn all_metrics(tokenizer_model: TokenizerModel) -> CountOptions {
    CountOptions {
        show_lines: true,
        show_words: true,
        show_chars: true,
        show_tokens: true,
        tokenizer_model,
    }
}

impl CountOptions {
    /// The number of selected metrics.
    pub open spec fn enabled(&self) -> nat {
        flag(self.show_lines) + flag(self.show_words) + flag(self.show_chars) + flag(
            self.show_tokens,
        )
    }

    /// The selection that a run works with: the given one, or all four
    /// metrics where none is selected. The vocabulary is kept either way.
    pub open spec fn resolved(&self) -> CountOptions {
        if self.enabled() == 0 {
            all_metrics(self.tokenizer_model)
        } else {
            *self
        }
    }

    /// Counts the selected metrics.
    pub fn count_enabled_options(&self) -> (n: u8)
        ensures
            n == self.enabled(),
            n <= 4,
    {
        flag_value(self.show_lines) + flag_value(self.show_words) + flag_value(self.show_chars)
            + flag_value(self.show_tokens)
    }

    /// Selects all four metrics with the given vocabulary.
    pub fn all(tokenizer_model: TokenizerModel) -> (options: CountOptions)
        ensures
            options == all_metrics(tokenizer_model),
    {
        CountOptions {
            show_lines: true,
            show_words: true,
            show_chars: true,
            show_tokens: true,
            tokenizer_model,
        }
    }

    /// Resolves the selection once, before any source is measured.
    pub fn resolve(&self) -> (options: CountOptions)
        ensures
            options == self.resolved(),
            options.enabled() >= 1,
    {
        if self.count_enabled_options() == 0 {
            CountOptions::all(self.tokenizer_model)
        } else {
            *self
        }
    }
}

/// The four counts of one source, or the sum of several.
#[derive(Copy, Clone, Debug, PartialEq, Eq, Structural)]
pub struct InputCounts {
    pub lines: usize,
    pub words: usize,
    pub chars: usize,
    pub tokens: usize,
}

/// The counts as unbounded numbers: lines, words, characters, tokens.
pub struct CountsView {
    pub lines: nat,
    pub words: nat,
    pub chars: nat,
    pub tokens: nat,
}

impl CountsView {
    pub open spec fn zero() -> CountsView {
        CountsView { lines: 0, words: 0, chars: 0, tokens: 0 }
    }

    /// Field-by-field sum.
    pub open spec fn combine(self, other: CountsView) -> CountsView {
        CountsView {
            lines: self.lines + other.lines,
            words: self.words + other.words,
            chars: self.chars + other.chars,
            tokens: self.tokens + other.tokens,
        }
    }

    /// Every field fits a machine word.
    pub open spec fn fits(self) -> bool {
        &&& self.lines <= usize::MAX
        &&& self.words <= usize::MAX
        &&& self.chars <= usize::MAX
        &&& self.tokens <= usize::MAX
    }
}

impl View for InputCounts {
    type V = CountsView;

    open spec fn view(&self) -> CountsView {
        CountsView {
            lines: self.lines as nat,
            words: self.words as nat,
            chars: self.chars as nat,
            tokens: self.tokens as nat,
        }
    }
}

impl Default for InputCounts {
    fn default() -> (counts: InputCounts)
        ensures
            counts@ == CountsView::zero(),
    {
        InputCounts { lines: 0, words: 0, chars: 0, tokens: 0 }
    }
}

impl InputCounts {
    /// Whether `other` can be added to these counts within machine words.
    pub fn can_add(&self, other: &InputCounts) -> (ok: bool)
        ensures
            ok == self@.combine(other@).fits(),
    {
        self.lines <= usize::MAX - other.lines && self.words <= usize::MAX - other.words
            && self.chars <= usize::MAX - other.chars && self.tokens <= usize::MAX - other.tokens
    }

    /// Adds `other` to these counts, field by field.
    pub fn add_assign(&mut self, other: InputCounts)
        requires
            old(self)@.combine(other@).fits(),
        ensures
            final(self)@ == old(self)@.combine(other@),
    {
        self.lines = self.lines + other.lines;
        self.words = self.words + other.words;
        self.chars = self.chars + other.chars;
        self.tokens = self.tokens + other.tokens;
    }
}

/// Summing is commutative: the order of two sources does not change the total.
pub proof fn lemma_combine_commutative(a: CountsView, b: CountsView)
    ensures
        a.combine(b) == b.combine(a),
{
}

/// Summing is associative.
pub proof fn lemma_combine_associative(a: CountsView, b: CountsView, c: CountsView)
    ensures
        a.combine(b).combine(c) == a.combine(b.combine(c)),
{
}

/// Zero is neutral: a total that starts at zero and takes one source holds
/// that source's counts.
pub proof fn lemma_combine_zero(a: CountsView)
    ensures
        CountsView::zero().combine(a) == a,
        a.combine(CountsView::zero()) == a,
{
}

/// Taking two sources into a total that starts at zero gives the same
/// total in either order, the field-by-field sum of the two.
pub proof fn lemma_total_order_independent(a: CountsView, b: CountsView)
    ensures
        CountsView::zero().combine(a).combine(b) == CountsView::zero().combine(b).combine(a),
        CountsView::zero().combine(a).combine(b) == a.combine(b),
{
}

} // verus!
