//! What can go wrong, by kind. Nothing is retried: every error ends the
//! command.

use vstd::prelude::*;

verus! {

/// What is wrong with a field of a retrieved document.
#[derive(Clone, Copy, Debug, PartialEq, Eq, Structural)]
pub enum FieldProblem {
    /// The document holds no value under the field's handle.
    Missing,
    /// The first value under the handle is not a text.
    NotText,
}

/// A retrieved document that does not have the shape of a poem: the index
/// is damaged, or was written under another schema.
#[derive(Clone, Copy, Debug, PartialEq, Eq, Structural)]
pub struct SchemaViolation {
    /// The handle of the field that is at fault.
    pub field: u32,
    pub problem: FieldProblem,
}

/// Why an index could not be handed over.
#[derive(Clone, Copy, Debug, PartialEq, Eq, Structural)]
pub enum IndexFailure {
    /// The index directory could not be created or wiped, or the index could not be created
    /// in it.
    Io,
    /// No valid index where one was to be read.
    NotFound,
}

/// An error of a command.
#[derive(Debug)]
pub enum PoemError {
    CorpusFormat,
    IndexIo,
    IndexNotFound,
    /// The keyword that could not be parsed.
    QuerySyntax { query: String },
    SchemaViolation(SchemaViolation),
}

/// The exit code of a command that succeeded.
pub const EXIT_SUCCESS: i32 = 0;

/// The exit code of a command that failed, whatever the error.
pub const EXIT_FAILURE: i32 = 1;

impl PoemError {
    /// What the user is told, as text.
    pub open spec fn spec_message(&self) -> Seq<char> {
        match self {
            PoemError::CorpusFormat => "the corpus is not a list of poems"@,
            PoemError::IndexIo => "the index directory cannot be read or written"@,
            PoemError::IndexNotFound => "no index found: run the index command first"@,
            PoemError::QuerySyntax { query } => "cannot parse the query: "@ + query@,
            PoemError::SchemaViolation(violation) => match violation.problem {
                FieldProblem::Missing => "a document of the index lacks a field of a poem"@,
                FieldProblem::NotText => "a document of the index holds a field that is no text"@,
            },
        }
    }

    /// The error of a keyword that the query parser refused. Its message
    /// names the keyword.
    pub fn query_syntax(keyword: &str) -> (error: PoemError)
        ensures
            error matches PoemError::QuerySyntax { query } && query@ == keyword@,
    {
        PoemError::QuerySyntax { query: keyword.to_owned() }
    }

    /// The error of an index that could not be handed over.
    pub fn index(failure: IndexFailure) -> (error: PoemError)
        ensures
            error == (match failure {
                IndexFailure::Io => PoemError::IndexIo,
                IndexFailure::NotFound => PoemError::IndexNotFound,
            }),
    {
        match failure {
            IndexFailure::Io => PoemError::IndexIo,
            IndexFailure::NotFound => PoemError::IndexNotFound,
        }
    }

    /// What the user is told.
    pub fn message(&self) -> (text: String)
        ensures
            text@ == self.spec_message(),
    {
        match self {
            PoemError::CorpusFormat => "the corpus is not a list of poems".to_owned(),
            PoemError::IndexIo => "the index directory cannot be read or written".to_owned(),
            PoemError::IndexNotFound => "no index found: run the index command first".to_owned(),
            PoemError::QuerySyntax { query } => {
                let mut text = "cannot parse the query: ".to_owned();
                text.append(query.as_str());
                text
            },
            PoemError::SchemaViolation(violation) => match violation.problem {
                FieldProblem::Missing => {
                    "a document of the index lacks a field of a poem".to_owned()
                },
                FieldProblem::NotText => {
                    "a document of the index holds a field that is no text".to_owned()
                },
            },
        }
    }
}

/// The exit code of a command: zero when it succeeded, one on any error.
pub fn exit_code(outcome: &Result<(), PoemError>) -> (code: i32)
    ensures
        code == (if outcome is Ok { EXIT_SUCCESS } else { EXIT_FAILURE }),
{
    match outcome {
        Ok(_) => EXIT_SUCCESS,
        Err(_) => EXIT_FAILURE,
    }
}

} // verus!
