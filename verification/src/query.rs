//! What a search asks of the index, and what it makes of the answer.
//!
//! A keyword is looked for in every field of a poem: a poem matches when the
//! keyword's terms occur in its title, its author, its dynasty or its
//! content. The index ranks the matches and hands back the best of them;
//! which of two equally ranked poems comes first is the index's business.

use crate::document::{documents_to_poems, first_violation, holds_poems};
use crate::error::PoemError;
use crate::poem::Poem;
use crate::schema::PoemFields;
use tantivy::Document;
use vstd::prelude::*;

verus! {

/// The most matches that a search retrieves.
pub const SEARCH_LIMIT: usize = 10000;

/// The memory that the writer of an index may use, in bytes: ten mebibytes.
pub const WRITER_MEMORY: usize = 10485760;

/// The fields that a keyword without a field of its own is looked for in:
/// all four, in schema order.
pub fn query_fields(fields: &PoemFields) -> (handles: Vec<u32>)
    ensures
        handles@ == fields.in_order(),
{
    let mut handles: Vec<u32> = Vec::new();
    handles.push(fields.title);
    handles.push(fields.author);
    handles.push(fields.dynasty);
    handles.push(fields.content);
    handles
}

/// The poems of a search, from the documents that the index retrieved, best
/// match first. The search has a result only as a whole: a document that is
/// no poem fails it, with the violation of the first such document.
pub fn search_results(hits: &Vec<Document>, fields: &PoemFields) -> (found: Result<
    Vec<Poem>,
    PoemError,
>)
    ensures
        match found {
            Ok(poems) => holds_poems(hits@, *fields, poems.deep_view()),
            Err(error) => error matches PoemError::SchemaViolation(violation) && first_violation(
                hits@,
                *fields,
                violation,
            ),
        },
{
    match documents_to_poems(hits, fields) {
        Ok(poems) => Ok(poems),
        Err(violation) => Err(PoemError::SchemaViolation(violation)),
    }
}

} // verus!
