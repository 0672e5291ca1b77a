use poem_repo::error::{
    exit_code, FieldProblem, IndexFailure, PoemError, SchemaViolation, EXIT_FAILURE, EXIT_SUCCESS,
};

#[test]
fn exit_code_is_zero_on_success_and_one_on_any_error() {
    assert_eq!(EXIT_SUCCESS, 0);
    assert_eq!(EXIT_FAILURE, 1);
    assert_eq!(exit_code(&Ok(())), 0);
    assert_eq!(exit_code(&Err(PoemError::CorpusFormat)), 1);
    assert_eq!(exit_code(&Err(PoemError::IndexIo)), 1);
    assert_eq!(exit_code(&Err(PoemError::IndexNotFound)), 1);
    assert_eq!(exit_code(&Err(PoemError::query_syntax("\"open"))), 1);
    assert_eq!(
        exit_code(&Err(PoemError::SchemaViolation(SchemaViolation {
            field: 0,
            problem: FieldProblem::Missing
        }))),
        1
    );
}

#[test]
fn query_error_names_the_query() {
    let error = PoemError::query_syntax("title:\"open");
    assert!(matches!(&error, PoemError::QuerySyntax { query } if query == "title:\"open"));
    assert_eq!(error.message(), "cannot parse the query: title:\"open");
    assert_eq!(PoemError::query_syntax("").message(), "cannot parse the query: ");
}

#[test]
fn index_failures_map_to_their_errors() {
    assert!(matches!(PoemError::index(IndexFailure::Io), PoemError::IndexIo));
    assert!(matches!(PoemError::index(IndexFailure::NotFound), PoemError::IndexNotFound));
}

#[test]
fn every_error_has_its_message() {
    assert_eq!(PoemError::CorpusFormat.message(), "the corpus is not a list of poems");
    assert_eq!(PoemError::IndexIo.message(), "the index directory cannot be read or written");
    assert_eq!(PoemError::IndexNotFound.message(), "no index found: run the index command first");
    assert_eq!(
        PoemError::SchemaViolation(SchemaViolation { field: 3, problem: FieldProblem::Missing })
            .message(),
        "a document of the index lacks a field of a poem"
    );
    assert_eq!(
        PoemError::SchemaViolation(SchemaViolation { field: 3, problem: FieldProblem::NotText })
            .message(),
        "a document of the index holds a field that is no text"
    );
}
