//! The tokenizer that every index of poems is read and written with.
//!
//! Poems are segmented one code point at a time: the segmentation engine is
//! given no dictionary, so that a search matches on characters and never on
//! words that a dictionary happens to know.

use cang_jie::{CangJieTokenizer, TokenizerOption, CANG_JIE};
use jieba_rs::Jieba;
use std::sync::Arc;
use vstd::prelude::*;

verus! {

/// Where the segmentation engine takes its words from.
#[derive(Clone, Copy, Debug, PartialEq, Eq, Structural)]
pub enum Dictionary {
    /// No words at all.
    Empty,
    /// The word list that ships with the engine.
    Bundled,
}

/// How a text is cut into terms.
#[derive(Clone, Copy, Debug, PartialEq, Eq, Structural)]
pub enum Segmentation {
    /// Every word the dictionary finds, overlapping ones too.
    All,
    /// The most likely cut, with or without the hidden Markov model.
    Default { hmm: bool },
    /// The cut for search engines, with or without the hidden Markov model.
    ForSearch { hmm: bool },
    /// One term per code point.
    Unicode,
}

/// What a tokenizer is assembled from.
#[derive(Clone, Copy, Debug, PartialEq, Eq, Structural)]
pub struct TokenizerConfig {
    pub dictionary: Dictionary,
    pub segmentation: Segmentation,
}

/// `cang_jie::CangJieTokenizer`, carried through and never looked into.
#[verifier::external_type_specification]
#[verifier::external_body]
pub struct CangJieTokenizerDecl(CangJieTokenizer);

/// The tokenizer that `cang_jie` and `jieba_rs` make of a configuration.
pub uninterp spec fn assembled(config: TokenizerConfig) -> CangJieTokenizer;

/// The configuration of this crate: no dictionary, one term per code point.
pub open spec fn poem_tokenizer_config() -> TokenizerConfig {
    TokenizerConfig { dictionary: Dictionary::Empty, segmentation: Segmentation::Unicode }
}

/// Builds a `cang_jie::CangJieTokenizer` whose `worker` is `jieba_rs::Jieba::empty()` or
/// `jieba_rs::Jieba::new()` and whose `option` is the `cang_jie::TokenizerOption` of the same
/// name as the configured segmentation. The contract claims only that the result is a
/// function of the configuration.
#[verifier::external_body]
fn assemble(config: TokenizerConfig) -> (tokenizer: CangJieTokenizer)
    ensures
        tokenizer == assembled(config),
{
    let worker = match config.dictionary {
        Dictionary::Empty => Jieba::empty(),
        Dictionary::Bundled => Jieba::new(),
    };
    let option = match config.segmentation {
        Segmentation::All => TokenizerOption::All,
        Segmentation::Default { hmm } => TokenizerOption::Default { hmm },
        Segmentation::ForSearch { hmm } => TokenizerOption::ForSearch { hmm },
        Segmentation::Unicode => TokenizerOption::Unicode,
    };
    CangJieTokenizer { worker: Arc::new(worker), option }
}

/// The constant `cang_jie::CANG_JIE`, which is the text `CANG_JIE`.
#[verifier::external_body]
fn registered_name() -> (name: &'static str)
    ensures
        name@ == "CANG_JIE"@,
{
    CANG_JIE
}

/// The configuration that every index of poems uses.
pub fn tokenizer_config() -> (config: TokenizerConfig)
    ensures
        config == poem_tokenizer_config(),
{
    TokenizerConfig { dictionary: Dictionary::Empty, segmentation: Segmentation::Unicode }
}

/// The name under which the tokenizer is registered on an index, and by
/// which the schema's fields ask for it.
pub fn tokenizer_name() -> (name: &'static str)
    ensures
        name@ == "CANG_JIE"@,
{
    registered_name()
}

/// A fresh tokenizer with the crate's configuration. Registration lasts as
/// long as the index handle does, so one is made for every index that is
/// opened, for reading as for writing.
pub fn tokenizer() -> (tokenizer: CangJieTokenizer)
    ensures
        tokenizer == assembled(poem_tokenizer_config()),
{
    assemble(tokenizer_config())
}

} // verus!
