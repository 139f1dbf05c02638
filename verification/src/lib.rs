//! Counting lines, words, characters and language-model tokens of byte
//! streams, with every function's behaviour stated as a contract and proved.

pub mod cmd;
pub mod counts;
pub mod format;
pub mod run;
pub mod scanner;
pub mod segments;
pub mod text;
pub mod tokenizer;
