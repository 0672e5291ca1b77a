//! A corpus of classical poems behind a full-text index.
//!
//! The crate holds what a command-line tool over such a corpus decides and
//! computes: the four-field schema and the tokenizer it is indexed with, the
//! mapping between a poem and a search document, the order of steps in which
//! an index is opened or rebuilt, and listing, sampling and counting over the
//! corpus in memory. Reading files, talking to the index on disk and printing
//! are left to the caller.
//!
//! The index engine is `tantivy`, the tokenizer comes from `cang_jie` and
//! `jieba_rs`, and the shuffle from `rand`. What this crate relies on of
//! them is written down where each is called; everything else is proved.

pub mod document;
pub mod error;
pub mod lifecycle;
pub mod poem;
pub mod query;
pub mod sample;
pub mod schema;
pub mod stat;
pub mod text;
pub mod tokenizer;

pub use error::PoemError;
pub use poem::{Poem, PoemView};
