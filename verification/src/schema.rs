//! The schema of an index of poems: four text fields, each stored and
//! indexed with term frequencies and positions.

use crate::text::text_equal;
use crate::tokenizer::tokenizer_name;
use tantivy::schema::{IndexRecordOption, Schema, SchemaBuilder, TextFieldIndexing, TextOptions};
use vstd::prelude::*;

verus! {

/// How much the index records of each term of a field.
#[derive(Clone, Copy, Debug, PartialEq, Eq, Structural)]
pub enum RecordDetail {
    /// The documents that hold the term.
    Basic,
    /// Those, and how often each holds it.
    WithFreqs,
    /// Those, and where in the text: what phrase queries need.
    WithFreqsAndPositions,
}

/// How a text field is kept in the index.
#[derive(Debug)]
pub struct TextFieldConfig {
    /// The registered name of the tokenizer that cuts the field's text.
    pub tokenizer: String,
    pub record: RecordDetail,
    /// Whether the text itself can be read back from the index.
    pub stored: bool,
}

/// One text field of a schema, as plain values.
pub struct FieldEntryView {
    pub name: Seq<char>,
    pub tokenizer: Seq<char>,
    pub record: RecordDetail,
    pub stored: bool,
}

impl TextFieldConfig {
    /// The schema entry that a field of this kind makes under a name.
    pub open spec fn entry(self, name: Seq<char>) -> FieldEntryView {
        FieldEntryView {
            name,
            tokenizer: self.tokenizer@,
            record: self.record,
            stored: self.stored,
        }
    }
}

/// `tantivy::schema::SchemaBuilder`: the fields added so far, in order.
#[verifier::external_type_specification]
#[verifier::external_body]
pub struct SchemaBuilderDecl(SchemaBuilder);

/// `tantivy::schema::Schema`: the fields of a finished schema, in order.
#[verifier::external_type_specification]
#[verifier::external_body]
pub struct SchemaDecl(Schema);

/// The fields that a builder holds, oldest first.
pub uninterp spec fn builder_fields(builder: SchemaBuilder) -> Seq<FieldEntryView>;

/// The fields that a schema holds; the handle of a field is its place here.
pub uninterp spec fn schema_fields(schema: Schema) -> Seq<FieldEntryView>;

/// The names that the index engine takes for a field: any text but the
/// empty one and those that begin with a hyphen.
pub open spec fn valid_field_name(name: Seq<char>) -> bool {
    name.len() > 0 && name[0] != '-'
}

/// `tantivy::schema::SchemaBuilder::new` gives a builder without fields.
#[verifier::external_body]
fn new_builder() -> (builder: SchemaBuilder)
    ensures
        builder_fields(builder) == Seq::<FieldEntryView>::empty(),
{
    SchemaBuilder::new()
}

/// `tantivy::schema::SchemaBuilder::add_text_field`, with the options made by
/// `TextFieldIndexing::set_tokenizer`, `set_index_option`, and `TextOptions::set_indexing_options`,
/// `set_stored`. The builder appends the field and hands back a handle whose `field_id` is the
/// number of fields it held before. It panics on a name that is empty or begins with a hyphen.
#[verifier::external_body]
fn add_text_field(builder: &mut SchemaBuilder, name: &str, config: &TextFieldConfig) -> (id: u32)
    requires
        valid_field_name(name@),
        builder_fields(*old(builder)).len() <= u32::MAX,
    ensures
        id == builder_fields(*old(builder)).len(),
        builder_fields(*final(builder)) == builder_fields(*old(builder)).push(config.entry(name@)),
{
    let record = match config.record {
        RecordDetail::Basic => IndexRecordOption::Basic,
        RecordDetail::WithFreqs => IndexRecordOption::WithFreqs,
        RecordDetail::WithFreqsAndPositions => IndexRecordOption::WithFreqsAndPositions,
    };
    let indexing = TextFieldIndexing::default().set_tokenizer(&config.tokenizer);
    let options = TextOptions::default().set_indexing_options(indexing.set_index_option(record));
    let options = if config.stored { options.set_stored() } else { options };
    builder.add_text_field(name, options).field_id()
}

/// `tantivy::schema::SchemaBuilder::build` moves the builder's fields into the schema.
#[verifier::external_body]
fn finish(builder: SchemaBuilder) -> (schema: Schema)
    ensures
        schema_fields(schema) == builder_fields(builder),
{
    builder.build()
}

/// The handles of the four fields of a poem.
#[derive(Clone, Copy, Debug, PartialEq, Eq, Structural)]
pub struct PoemFields {
    pub title: u32,
    pub author: u32,
    pub dynasty: u32,
    pub content: u32,
}

impl PoemFields {
    /// No two fields share a handle.
    pub open spec fn distinct(self) -> bool {
        &&& self.title != self.author
        &&& self.title != self.dynasty
        &&& self.title != self.content
        &&& self.author != self.dynasty
        &&& self.author != self.content
        &&& self.dynasty != self.content
    }

    /// The handles in schema order: title, author, dynasty, content.
    pub open spec fn in_order(self) -> Seq<u32> {
        seq![self.title, self.author, self.dynasty, self.content]
    }

    /// The handle of the field of a name, if the schema has a field of that
    /// name.
    pub open spec fn spec_handle(self, name: Seq<char>) -> Option<u32> {
        if name == "title"@ {
            Some(self.title)
        } else if name == "author"@ {
            Some(self.author)
        } else if name == "dynasty"@ {
            Some(self.dynasty)
        } else if name == "content"@ {
            Some(self.content)
        } else {
            None
        }
    }

    /// Resolves a field by its name.
    pub fn handle(&self, name: &str) -> (handle: Option<u32>)
        ensures
            handle == self.spec_handle(name@),
    {
        if text_equal(name, "title") {
            Some(self.title)
        } else if text_equal(name, "author") {
            Some(self.author)
        } else if text_equal(name, "dynasty") {
            Some(self.dynasty)
        } else if text_equal(name, "content") {
            Some(self.content)
        } else {
            None
        }
    }
}

/// The handles that [`build_schema`] hands out, on every call.
pub open spec fn poem_fields() -> PoemFields {
    PoemFields { title: 0, author: 1, dynasty: 2, content: 3 }
}

/// The entry of a poem's field: stored, indexed with frequencies and
/// positions, cut by the crate's tokenizer.
pub open spec fn poem_field_entry(name: Seq<char>) -> FieldEntryView {
    FieldEntryView {
        name,
        tokenizer: "CANG_JIE"@,
        record: RecordDetail::WithFreqsAndPositions,
        stored: true,
    }
}

/// The schema of every index of poems.
pub open spec fn poem_schema() -> Seq<FieldEntryView> {
    seq![
        poem_field_entry("title"@),
        poem_field_entry("author"@),
        poem_field_entry("dynasty"@),
        poem_field_entry("content"@),
    ]
}

/// How each field of a poem is kept.
pub fn poem_field_config() -> (config: TextFieldConfig)
    ensures
        config.tokenizer@ == "CANG_JIE"@,
        config.record == RecordDetail::WithFreqsAndPositions,
        config.stored,
{
    TextFieldConfig {
        tokenizer: tokenizer_name().to_owned(),
        record: RecordDetail::WithFreqsAndPositions,
        stored: true,
    }
}

/// Builds the schema and the handles of its fields. Every call gives the same
/// fields in the same order, so the handles of one call fit the schema of
/// any other.
pub fn build_schema() -> (built: (Schema, PoemFields))
    ensures
        schema_fields(built.0) == poem_schema(),
        built.1 == poem_fields(),
{
    let config = poem_field_config();
    let mut builder = new_builder();
    proof {
        reveal_strlit("title");
        reveal_strlit("author");
        reveal_strlit("dynasty");
        reveal_strlit("content");
    }
    let title = add_text_field(&mut builder, "title", &config);
    let author = add_text_field(&mut builder, "author", &config);
    let dynasty = add_text_field(&mut builder, "dynasty", &config);
    let content = add_text_field(&mut builder, "content", &config);
    let schema = finish(builder);
    (schema, PoemFields { title, author, dynasty, content })
}

/// The handles fit the schema: no two fields share a handle, and the handle
/// that a name resolves to is the place of the field of that name.
pub proof fn lemma_handles_fit_the_schema(name: Seq<char>)
    ensures
        poem_fields().distinct(),
        poem_fields().spec_handle(name) matches Some(handle) ==> handle < poem_schema().len()
            && poem_schema()[handle as int].name == name,
        poem_fields().spec_handle(name) is None ==> forall|i: int|
            0 <= i < poem_schema().len() ==> poem_schema()[i].name != name,
{
}

} // verus!
