//! The command line as given: the metric flags, the model, the input files.

use crate::counts::{all_metrics, CountOptions, TokenizerModel};
use vstd::prelude::*;

verus! {

/// The arguments of one invocation, already parsed.
pub struct Cli {
    /// Show the line count.
    pub lines: bool,
    /// Show the word count.
    pub words: bool,
    /// Show the character count.
    pub chars: bool,
    /// Show the token count.
    pub tokens: bool,
    /// The tokenizer model, where one was chosen.
    pub model: Option<TokenizerModel>,
    /// The input files; none means standard input.
    pub files: Vec<String>,
}

impl Cli {
    /// The model to count tokens with: the chosen one, or `GPT3`.
    pub open spec fn chosen_model(&self) -> TokenizerModel {
        match self.model {
            Some(model) => model,
            None => TokenizerModel::GPT3,
        }
    }

    /// The selection as the flags give it.
    pub open spec fn selection(&self) -> CountOptions {
        CountOptions {
            show_lines: self.lines,
            show_words: self.words,
            show_chars: self.chars,
            show_tokens: self.tokens,
            tokenizer_model: self.chosen_model(),
        }
    }

    /// The options of the run: the flags as given, or all four metrics
    /// where no flag is set; the chosen model, or `GPT3` where none is.
    pub fn options(&self) -> (options: CountOptions)
        ensures
            options == self.selection().resolved(),
            options.enabled() >= 1,
            self.selection().enabled() >= 1 ==> options == self.selection(),
            self.selection().enabled() == 0 ==> options == all_metrics(self.chosen_model()),
    {
        let model = match self.model {
            Some(model) => model,
            None => TokenizerModel::GPT3,
        };
        let given = CountOptions {
            show_lines: self.lines,
            show_words: self.words,
            show_chars: self.chars,
            show_tokens: self.tokens,
            tokenizer_model: model,
        };
        given.resolve()
    }
}

} // verus!
