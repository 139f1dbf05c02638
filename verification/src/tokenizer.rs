//! The tokenizer adapter: token sequences of the five byte-pair vocabularies.
//!
//! The vocabularies and the encoding are `tiktoken_rs`'s. Building a
//! vocabulary and encoding a text with it, no special token allowed, has an
//! outcome that depends on the text alone: the tokens, or one of two
//! failures. The vocabulary may not be built; or the regular-expression
//! engine that splits the text may give up on it, which it does on very
//! long runs that it has to backtrack over. Each vocabulary's outcome has a
//! name. The contracts here say which name a count is taken from and that
//! an empty text has no tokens, and nothing else about the tokens.

use crate::counts::TokenizerModel;
use vstd::prelude::*;

verus! {

/// Why a text has no token count.
#[derive(Copy, Clone, Debug, PartialEq, Eq, Structural)]
pub enum TokenizerFailure {
    /// The vocabulary could not be built.
    Unavailable,
    /// The engine that splits the text gave up on it.
    GaveUp,
}

/// What encoding a text with the `r50k_base` vocabulary gives.
pub uninterp spec fn r50k_base_encoding(text: Seq<char>) -> Result<Seq<u32>, TokenizerFailure>;

/// What encoding a text with the `p50k_edit` vocabulary gives.
pub uninterp spec fn p50k_edit_encoding(text: Seq<char>) -> Result<Seq<u32>, TokenizerFailure>;

/// What encoding a text with the `p50k_base` vocabulary gives.
pub uninterp spec fn p50k_base_encoding(text: Seq<char>) -> Result<Seq<u32>, TokenizerFailure>;

/// What encoding a text with the `cl100k_base` vocabulary gives.
pub uninterp spec fn cl100k_base_encoding(text: Seq<char>) -> Result<Seq<u32>, TokenizerFailure>;

/// What encoding a text with the `o200k_base` vocabulary gives.
pub uninterp spec fn o200k_base_encoding(text: Seq<char>) -> Result<Seq<u32>, TokenizerFailure>;

/// What encoding a text under a model gives: each model stands for one
/// vocabulary.
pub open spec fn model_encoding(model: TokenizerModel, text: Seq<char>) -> Result<
    Seq<u32>,
    TokenizerFailure,
> {
    match model {
        TokenizerModel::GPT3 => r50k_base_encoding(text),
        TokenizerModel::Edit => p50k_edit_encoding(text),
        TokenizerModel::Code => p50k_base_encoding(text),
        TokenizerModel::ChatGPT => cl100k_base_encoding(text),
        TokenizerModel::GPT4O => o200k_base_encoding(text),
    }
}

/// The tokens of a text under a model, where encoding gives any.
pub open spec fn model_tokens(model: TokenizerModel, text: Seq<char>) -> Seq<u32>
    recommends
        model_encoding(model, text) is Ok,
{
    model_encoding(model, text)->Ok_0
}

/// Builds the vocabulary with `tiktoken_rs::r50k_base` and encodes `text`
/// with its `encode`, no special token allowed. Trusted: the outcome is the
/// one named `r50k_base_encoding`, and an empty text, where it is encoded,
/// has no tokens.
#[verifier::external_body]
fn encode_r50k_base(text: &str) -> (r: Result<Vec<u32>, TokenizerFailure>)
    ensures
        r matches Ok(tokens) ==> r50k_base_encoding(text@) is Ok && r50k_base_encoding(text@)->Ok_0
            == tokens@,
        r matches Err(e) ==> r50k_base_encoding(text@) is Err && r50k_base_encoding(text@)->Err_0 == e,
        r matches Ok(tokens) ==> (text@.len() == 0 ==> tokens@.len() == 0),
{
    match tiktoken_rs::r50k_base() {
        Ok(bpe) => match bpe.encode(text, &std::collections::HashSet::new()) {
            Ok((tokens, _)) => Ok(tokens),
            Err(_) => Err(TokenizerFailure::GaveUp),
        },
        Err(_) => Err(TokenizerFailure::Unavailable),
    }
}

/// Builds the vocabulary with `tiktoken_rs::p50k_edit` and encodes `text`
/// with its `encode`, no special token allowed. Trusted: the outcome is the
/// one named `p50k_edit_encoding`, and an empty text, where it is encoded,
/// has no tokens.
#[verifier::external_body]
fn encode_p50k_edit(text: &str) -> (r: Result<Vec<u32>, TokenizerFailure>)
    ensures
        r matches Ok(tokens) ==> p50k_edit_encoding(text@) is Ok && p50k_edit_encoding(text@)->Ok_0
            == tokens@,
        r matches Err(e) ==> p50k_edit_encoding(text@) is Err && p50k_edit_encoding(text@)->Err_0 == e,
        r matches Ok(tokens) ==> (text@.len() == 0 ==> tokens@.len() == 0),
{
    match tiktoken_rs::p50k_edit() {
        Ok(bpe) => match bpe.encode(text, &std::collections::HashSet::new()) {
            Ok((tokens, _)) => Ok(tokens),
            Err(_) => Err(TokenizerFailure::GaveUp),
        },
        Err(_) => Err(TokenizerFailure::Unavailable),
    }
}

/// Builds the vocabulary with `tiktoken_rs::p50k_base` and encodes `text`
/// with its `encode`, no special token allowed. Trusted: the outcome is the
/// one named `p50k_base_encoding`, and an empty text, where it is encoded,
/// has no tokens.
#[verifier::external_body]
fn encode_p50k_base(text: &str) -> (r: Result<Vec<u32>, TokenizerFailure>)
    ensures
        r matches Ok(tokens) ==> p50k_base_encoding(text@) is Ok && p50k_base_encoding(text@)->Ok_0
            == tokens@,
        r matches Err(e) ==> p50k_base_encoding(text@) is Err && p50k_base_encoding(text@)->Err_0 == e,
        r matches Ok(tokens) ==> (text@.len() == 0 ==> tokens@.len() == 0),
{
    match tiktoken_rs::p50k_base() {
        Ok(bpe) => match bpe.encode(text, &std::collections::HashSet::new()) {
            Ok((tokens, _)) => Ok(tokens),
            Err(_) => Err(TokenizerFailure::GaveUp),
        },
        Err(_) => Err(TokenizerFailure::Unavailable),
    }
}

/// Builds the vocabulary with `tiktoken_rs::cl100k_base` and encodes `text`
/// with its `encode`, no special token allowed. Trusted: the outcome is the
/// one named `cl100k_base_encoding`, and an empty text, where it is encoded,
/// has no tokens.
#[verifier::external_body]
fn encode_cl100k_base(text: &str) -> (r: Result<Vec<u32>, TokenizerFailure>)
    ensures
        r matches Ok(tokens) ==> cl100k_base_encoding(text@) is Ok && cl100k_base_encoding(text@)->Ok_0
            == tokens@,
        r matches Err(e) ==> cl100k_base_encoding(text@) is Err && cl100k_base_encoding(text@)->Err_0 == e,
        r matches Ok(tokens) ==> (text@.len() == 0 ==> tokens@.len() == 0),
{
    match tiktoken_rs::cl100k_base() {
        Ok(bpe) => match bpe.encode(text, &std::collections::HashSet::new()) {
            Ok((tokens, _)) => Ok(tokens),
            Err(_) => Err(TokenizerFailure::GaveUp),
        },
        Err(_) => Err(TokenizerFailure::Unavailable),
    }
}

/// Builds the vocabulary with `tiktoken_rs::o200k_base` and encodes `text`
/// with its `encode`, no special token allowed. Trusted: the outcome is the
/// one named `o200k_base_encoding`, and an empty text, where it is encoded,
/// has no tokens.
#[verifier::external_body]
fn encode_o200k_base(text: &str) -> (r: Result<Vec<u32>, TokenizerFailure>)
    ensures
        r matches Ok(tokens) ==> o200k_base_encoding(text@) is Ok && o200k_base_encoding(text@)->Ok_0
            == tokens@,
        r matches Err(e) ==> o200k_base_encoding(text@) is Err && o200k_base_encoding(text@)->Err_0 == e,
        r matches Ok(tokens) ==> (text@.len() == 0 ==> tokens@.len() == 0),
{
    match tiktoken_rs::o200k_base() {
        Ok(bpe) => match bpe.encode(text, &std::collections::HashSet::new()) {
            Ok((tokens, _)) => Ok(tokens),
            Err(_) => Err(TokenizerFailure::GaveUp),
        },
        Err(_) => Err(TokenizerFailure::Unavailable),
    }
}

/// Counts the tokens of `text` under `model`: the length of what encoding
/// gives, or the failure that it ends in. An empty text has no tokens.
pub fn count_tokens(model: TokenizerModel, text: &str) -> (r: Result<usize, TokenizerFailure>)
    ensures
        r matches Ok(n) ==> model_encoding(model, text@) is Ok && n == model_tokens(
            model,
            text@,
        ).len(),
        r matches Err(e) ==> model_encoding(model, text@) is Err && model_encoding(
            model,
            text@,
        )->Err_0 == e,
        r matches Ok(n) ==> (text@.len() == 0 ==> n == 0),
{
    let encoded = match model {
        TokenizerModel::GPT3 => encode_r50k_base(text),
        TokenizerModel::Edit => encode_p50k_edit(text),
        TokenizerModel::Code => encode_p50k_base(text),
        TokenizerModel::ChatGPT => encode_cl100k_base(text),
        TokenizerModel::GPT4O => encode_o200k_base(text),
    };
    match encoded {
        Ok(tokens) => Ok(tokens.len()),
        Err(e) => Err(e),
    }
}

} // verus!
