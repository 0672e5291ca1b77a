//! Poems as search documents, and back.

use crate::error::{FieldProblem, SchemaViolation};
use crate::poem::{Poem, PoemView};
use crate::schema::PoemFields;
use tantivy::schema::Field;
use tantivy::Document;
use vstd::prelude::*;

verus! {

/// `tantivy::Document`: a list of values, each under the handle of a field.
/// A handle may occur more than once.
#[verifier::external_type_specification]
#[verifier::external_body]
pub struct DocumentDecl(Document);

/// One value of a document: the handle it stands under and, where the value
/// is a text, the text.
pub struct StoredValue {
    pub field: u32,
    pub text: Option<Seq<char>>,
}

/// The values that a document holds, in the order in which they were added.
pub uninterp spec fn document_values(doc: Document) -> Seq<StoredValue>;

/// The first value under a handle, if there is one.
pub open spec fn first_under(values: Seq<StoredValue>, field: u32) -> Option<StoredValue>
    decreases values.len(),
{
    if values.len() == 0 {
        None
    } else if values[0].field == field {
        Some(values[0])
    } else {
        first_under(values.skip(1), field)
    }
}

/// The text of a field: that of the first value under its handle, which has
/// to be there and to be a text.
pub open spec fn field_text(values: Seq<StoredValue>, field: u32) -> Result<
    Seq<char>,
    SchemaViolation,
> {
    match first_under(values, field) {
        None => Err(SchemaViolation { field, problem: FieldProblem::Missing }),
        Some(value) => match value.text {
            None => Err(SchemaViolation { field, problem: FieldProblem::NotText }),
            Some(text) => Ok(text),
        },
    }
}

/// The values of the document of a poem: one text per field, in schema order.
pub open spec fn poem_values(poem: PoemView, fields: PoemFields) -> Seq<StoredValue> {
    seq![
        StoredValue { field: fields.title, text: Some(poem.title) },
        StoredValue { field: fields.author, text: Some(poem.author) },
        StoredValue { field: fields.dynasty, text: Some(poem.dynasty) },
        StoredValue { field: fields.content, text: Some(poem.content) },
    ]
}

/// The poem that a document holds. The fields are read in schema order, and
/// the first one at fault is the one reported.
pub open spec fn poem_of(values: Seq<StoredValue>, fields: PoemFields) -> Result<
    PoemView,
    SchemaViolation,
> {
    match field_text(values, fields.title) {
        Err(violation) => Err(violation),
        Ok(title) => match field_text(values, fields.author) {
            Err(violation) => Err(violation),
            Ok(author) => match field_text(values, fields.dynasty) {
                Err(violation) => Err(violation),
                Ok(dynasty) => match field_text(values, fields.content) {
                    Err(violation) => Err(violation),
                    Ok(content) => Ok(PoemView { title, author, dynasty, content }),
                },
            },
        },
    }
}

/// The documents are those of the poems: one for each poem, in the poems'
/// order, holding the poem's four texts.
pub open spec fn documents_of(
    docs: Seq<Document>,
    fields: PoemFields,
    poems: Seq<PoemView>,
) -> bool {
    &&& docs.len() == poems.len()
    &&& forall|i: int|
        0 <= i < docs.len() ==> #[trigger] document_values(docs[i]) == poem_values(
            poems[i],
            fields,
        )
}

/// The documents are poems, all of them, and these are the poems, in the
/// documents' order.
pub open spec fn holds_poems(
    docs: Seq<Document>,
    fields: PoemFields,
    poems: Seq<PoemView>,
) -> bool {
    &&& poems.len() == docs.len()
    &&& forall|i: int|
        0 <= i < docs.len() ==> poem_of(#[trigger] document_values(docs[i]), fields) == Ok::<
            PoemView,
            SchemaViolation,
        >(poems[i])
}

/// Some document is no poem, and this is what is wrong with the first such
/// document.
pub open spec fn first_violation(
    docs: Seq<Document>,
    fields: PoemFields,
    violation: SchemaViolation,
) -> bool {
    exists|bad: int|
        {
            &&& 0 <= bad < docs.len()
            &&& poem_of(#[trigger] document_values(docs[bad]), fields) == Err::<
                PoemView,
                SchemaViolation,
            >(violation)
            &&& forall|i: int|
                0 <= i < bad ==> poem_of(#[trigger] document_values(docs[i]), fields) is Ok
        }
}

/// What a look under a handle finds.
enum Found {
    Nothing,
    NotText,
    Text(String),
}

impl Found {
    spec fn agrees(self, first: Option<StoredValue>) -> bool {
        match self {
            Found::Nothing => first is None,
            Found::NotText => first matches Some(value) && value.text is None,
            Found::Text(text) => first matches Some(value) && value.text == Some(text@),
        }
    }
}

/// `tantivy::Document::new` gives a document without values.
#[verifier::external_body]
fn new_document() -> (doc: Document)
    ensures
        document_values(doc) == Seq::<StoredValue>::empty(),
{
    Document::new()
}

/// `tantivy::Document::add_text` appends the text, as a value of the text
/// kind, under the handle made by `tantivy::schema::Field::from_field_id`.
#[verifier::external_body]
fn add_text(doc: &mut Document, field: u32, text: &str)
    ensures
        document_values(*final(doc)) == document_values(*old(doc)).push(
            StoredValue { field, text: Some(text@) },
        ),
{
    doc.add_text(Field::from_field_id(field), text)
}

/// `tantivy::Document::get_all` walks the values under the handle in the
/// document's order, so the first item it yields is the first value under
/// the handle; `tantivy::schema::Value::text` gives the text of a value of
/// the text kind and nothing for any other.
#[verifier::external_body]
fn first_text(doc: &Document, field: u32) -> (found: Found)
    ensures
        found.agrees(first_under(document_values(*doc), field)),
{
    match doc.get_all(Field::from_field_id(field)).next() {
        None => Found::Nothing,
        Some(value) => match value.text() {
            None => Found::NotText,
            Some(text) => Found::Text(text.to_string()),
        },
    }
}

/// The search document of a poem: each of the four fields set to the poem's
/// text, under the handles given.
pub fn poem_to_document(poem: &Poem, fields: &PoemFields) -> (doc: Document)
    ensures
        document_values(doc) == poem_values(poem@, *fields),
{
    let mut doc = new_document();
    add_text(&mut doc, fields.title, poem.title.as_str());
    add_text(&mut doc, fields.author, poem.author.as_str());
    add_text(&mut doc, fields.dynasty, poem.dynasty.as_str());
    add_text(&mut doc, fields.content, poem.content.as_str());
    doc
}

/// The text of one field of a document: the first value under the handle.
/// A document without such a value, or with one that is no text, is a
/// violation of the schema.
pub fn extract_field_text(doc: &Document, field: u32) -> (text: Result<String, SchemaViolation>)
    ensures
        match text {
            Ok(text) => field_text(document_values(*doc), field) == Ok::<
                Seq<char>,
                SchemaViolation,
            >(text@),
            Err(violation) => field_text(document_values(*doc), field) == Err::<
                Seq<char>,
                SchemaViolation,
            >(violation),
        },
{
    match first_text(doc, field) {
        Found::Text(text) => Ok(text),
        Found::NotText => Err(SchemaViolation { field, problem: FieldProblem::NotText }),
        Found::Nothing => Err(SchemaViolation { field, problem: FieldProblem::Missing }),
    }
}

/// The poem that a retrieved document holds, or the first field that is not as the schema
/// has it.
pub fn document_to_poem(doc: &Document, fields: &PoemFields) -> (poem: Result<
    Poem,
    SchemaViolation,
>)
    ensures
        match poem {
            Ok(poem) => poem_of(document_values(*doc), *fields) == Ok::<PoemView, SchemaViolation>(
                poem@,
            ),
            Err(violation) => poem_of(document_values(*doc), *fields) == Err::<
                PoemView,
                SchemaViolation,
            >(violation),
        },
{
    let title = match extract_field_text(doc, fields.title) {
        Ok(text) => text,
        Err(violation) => return Err(violation),
    };
    let author = match extract_field_text(doc, fields.author) {
        Ok(text) => text,
        Err(violation) => return Err(violation),
    };
    let dynasty = match extract_field_text(doc, fields.dynasty) {
        Ok(text) => text,
        Err(violation) => return Err(violation),
    };
    let content = match extract_field_text(doc, fields.content) {
        Ok(text) => text,
        Err(violation) => return Err(violation),
    };
    Ok(Poem { title, author, dynasty, content })
}

/// The documents of a corpus, one per poem and in the corpus's order: what an
/// index of the corpus is filled with.
pub fn poems_to_documents(poems: &Vec<Poem>, fields: &PoemFields) -> (docs: Vec<Document>)
    ensures
        documents_of(docs@, *fields, poems.deep_view()),
{
    let mut docs: Vec<Document> = Vec::new();
    let mut done: usize = 0;
    while done < poems.len()
        invariant
            done <= poems.len(),
            docs.len() == done,
            forall|i: int|
                0 <= i < done ==> #[trigger] document_values(docs[i]) == poem_values(
                    poems[i]@,
                    *fields,
                ),
        decreases poems.len() - done,
    {
        let doc = poem_to_document(&poems[done], fields);
        docs.push(doc);
        done = done + 1;
    }
    docs
}

/// The poems of the documents that a search retrieved, in the order of
/// retrieval. One document that is no poem fails the whole list: the error
/// is that of the first such document.
pub fn documents_to_poems(docs: &Vec<Document>, fields: &PoemFields) -> (poems: Result<
    Vec<Poem>,
    SchemaViolation,
>)
    ensures
        match poems {
            Ok(poems) => holds_poems(docs@, *fields, poems.deep_view()),
            Err(violation) => first_violation(docs@, *fields, violation),
        },
{
    let mut poems: Vec<Poem> = Vec::new();
    let mut done: usize = 0;
    while done < docs.len()
        invariant
            done <= docs.len(),
            poems.len() == done,
            forall|i: int|
                0 <= i < done ==> poem_of(#[trigger] document_values(docs[i]), *fields) == Ok::<
                    PoemView,
                    SchemaViolation,
                >(poems[i]@),
        decreases docs.len() - done,
    {
        match document_to_poem(&docs[done], fields) {
            Ok(poem) => poems.push(poem),
            Err(violation) => {
                return Err(violation);
            },
        }
        done = done + 1;
    }
    Ok(poems)
}

/// A poem written to a document and read back under the same handles is the
/// poem itself, field by field.
pub proof fn lemma_round_trip(poem: PoemView, fields: PoemFields)
    requires
        fields.distinct(),
    ensures
        poem_of(poem_values(poem, fields), fields) == Ok::<PoemView, SchemaViolation>(poem),
{
    reveal_with_fuel(first_under, 5);
}

/// Documents made of poems are poems again: what is read back from them is
/// what they were made of, in the same order.
pub proof fn lemma_documents_hold_their_poems(
    docs: Seq<Document>,
    fields: PoemFields,
    poems: Seq<PoemView>,
)
    requires
        fields.distinct(),
        documents_of(docs, fields, poems),
    ensures
        holds_poems(docs, fields, poems),
{
    assert forall|i: int| 0 <= i < docs.len() implies poem_of(
        #[trigger] document_values(docs[i]),
        fields,
    ) == Ok::<PoemView, SchemaViolation>(poems[i]) by {
        lemma_round_trip(poems[i], fields);
    }
}

/// Filling an index twice from one corpus fills it with the same documents:
/// as many, and each with the same values.
pub proof fn lemma_same_corpus_same_documents(
    first: Seq<Document>,
    second: Seq<Document>,
    fields: PoemFields,
    poems: Seq<PoemView>,
)
    requires
        documents_of(first, fields, poems),
        documents_of(second, fields, poems),
    ensures
        first.len() == second.len(),
        forall|i: int|
            0 <= i < first.len() ==> #[trigger] document_values(first[i]) == document_values(
                second[i],
            ),
{
}

} // verus!
