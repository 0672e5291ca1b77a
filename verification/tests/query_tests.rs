use poem_repo::document::{poem_to_document, poems_to_documents};
use poem_repo::error::{FieldProblem, PoemError, SchemaViolation};
use poem_repo::poem::Poem;
use poem_repo::query::{query_fields, search_results, SEARCH_LIMIT, WRITER_MEMORY};
use poem_repo::schema::{build_schema, PoemFields};
use poem_repo::tokenizer::{tokenizer, tokenizer_name};
use tantivy::collector::TopDocs;
use tantivy::query::QueryParser;
use tantivy::schema::Field;
use tantivy::{Document, Index};

fn two_poems() -> Vec<Poem> {
    vec![Poem::new("A", "X", "Tang", "c1"), Poem::new("B", "X", "Song", "c2")]
}

fn index_of(corpus: &Vec<Poem>) -> (Index, PoemFields) {
    let (schema, fields) = build_schema();
    let index = Index::create_in_ram(schema);
    index.tokenizers().register(tokenizer_name(), tokenizer());
    let mut writer = index.writer_with_num_threads(1, WRITER_MEMORY).unwrap();
    for doc in poems_to_documents(corpus, &fields) {
        writer.add_document(doc);
    }
    writer.commit().unwrap();
    (index, fields)
}

fn search(index: &Index, fields: &PoemFields, keyword: &str) -> Vec<Poem> {
    let searcher = index.reader().unwrap().searcher();
    let handles = query_fields(fields).into_iter().map(Field::from_field_id).collect();
    let query = QueryParser::for_index(index, handles).parse_query(keyword).unwrap();
    let top = searcher.search(&query, &TopDocs::with_limit(SEARCH_LIMIT)).unwrap();
    let hits: Vec<Document> = top.into_iter().map(|(_, at)| searcher.doc(at).unwrap()).collect();
    search_results(&hits, fields).unwrap()
}

fn titles(poems: &[Poem]) -> Vec<String> {
    let mut titles: Vec<String> = poems.iter().map(|poem| poem.title.clone()).collect();
    titles.sort();
    titles
}

#[test]
fn limits_are_as_documented() {
    assert_eq!(SEARCH_LIMIT, 10_000);
    assert_eq!(WRITER_MEMORY, 10 * 1024 * 1024);
}

#[test]
fn query_goes_to_all_four_fields_in_schema_order() {
    let (_, fields) = build_schema();
    assert_eq!(query_fields(&fields), vec![0, 1, 2, 3]);
    let other = PoemFields { title: 9, author: 8, dynasty: 7, content: 6 };
    assert_eq!(query_fields(&other), vec![9, 8, 7, 6]);
}

#[test]
fn results_keep_the_order_of_retrieval() {
    let (_, fields) = build_schema();
    let corpus = two_poems();
    let hits = vec![poem_to_document(&corpus[1], &fields), poem_to_document(&corpus[0], &fields)];
    let poems = search_results(&hits, &fields).unwrap();
    assert_eq!(poems.len(), 2);
    assert_eq!(poems[0].title, "B");
    assert_eq!(poems[0].content, "c2");
    assert_eq!(poems[1].title, "A");
    assert_eq!(poems[1].dynasty, "Tang");
    assert_eq!(search_results(&Vec::new(), &fields).unwrap().len(), 0);
}

#[test]
fn a_hit_that_is_no_poem_fails_the_search() {
    let (_, fields) = build_schema();
    let hits = vec![poem_to_document(&two_poems()[0], &fields), Document::new()];
    let error = search_results(&hits, &fields).unwrap_err();
    assert!(matches!(
        error,
        PoemError::SchemaViolation(SchemaViolation { field: 0, problem: FieldProblem::Missing })
    ));
}

#[test]
fn search_finds_the_poem_with_the_keyword() {
    let (index, fields) = index_of(&two_poems());
    let found = search(&index, &fields, "c1");
    assert_eq!(found.len(), 1);
    assert_eq!(found[0].title, "A");
    assert_eq!(found[0].author, "X");
    assert_eq!(found[0].dynasty, "Tang");
    assert_eq!(found[0].content, "c1");
}

#[test]
fn search_looks_in_every_field() {
    let (index, fields) = index_of(&two_poems());
    assert_eq!(titles(&search(&index, &fields, "X")), vec!["A", "B"]);
    assert_eq!(titles(&search(&index, &fields, "Song")), vec!["B"]);
    assert_eq!(titles(&search(&index, &fields, "B")), vec!["B"]);
    assert_eq!(titles(&search(&index, &fields, "Z")), Vec::<String>::new());
}

#[test]
fn search_matches_characters_of_chinese_text() {
    let corpus = vec![
        Poem::new("静夜思", "李白", "唐", "床前明月光，疑是地上霜。"),
        Poem::new("水调歌头", "苏轼", "宋", "明月几时有，把酒问青天。"),
    ];
    let (index, fields) = index_of(&corpus);
    assert_eq!(titles(&search(&index, &fields, "明月")), vec!["水调歌头", "静夜思"]);
    assert_eq!(titles(&search(&index, &fields, "唐")), vec!["静夜思"]);
    assert_eq!(titles(&search(&index, &fields, "苏")), vec!["水调歌头"]);
    assert_eq!(titles(&search(&index, &fields, "月明")), Vec::<String>::new());
    assert_eq!(titles(&search(&index, &fields, "春")), Vec::<String>::new());
}

#[test]
fn search_returns_no_poem_without_a_term_of_the_keyword() {
    let corpus = vec![
        Poem::new("静夜思", "李白", "唐", "床前明月光"),
        Poem::new("A", "X", "Tang", "c1"),
    ];
    let (index, fields) = index_of(&corpus);
    for keyword in ["月", "春", "c", "唐", "X", "1", "晓", "T"] {
        for poem in search(&index, &fields, keyword) {
            let text = format!("{}{}{}{}", poem.title, poem.author, poem.dynasty, poem.content);
            assert!(text.contains(keyword));
        }
    }
}

#[test]
fn rebuilding_gives_the_same_index() {
    let corpus = two_poems();
    let (first, fields) = index_of(&corpus);
    let (second, again) = index_of(&corpus);
    assert_eq!(fields, again);
    assert_eq!(first.schema(), second.schema());
    assert_eq!(first.reader().unwrap().searcher().num_docs(), 2);
    assert_eq!(second.reader().unwrap().searcher().num_docs(), 2);
    for keyword in ["c1", "c2", "X", "Tang", "nothing"] {
        assert_eq!(
            titles(&search(&first, &fields, keyword)),
            titles(&search(&second, &again, keyword))
        );
    }
}

#[test]
fn handles_of_one_build_fit_the_schema_of_another() {
    let (index, _) = index_of(&two_poems());
    let (_, fields) = build_schema();
    let found = search(&index, &fields, "c2");
    assert_eq!(found.len(), 1);
    assert_eq!(found[0].title, "B");
}

#[test]
fn malformed_keyword_is_refused_by_the_parser() {
    let (index, fields) = index_of(&two_poems());
    let handles = query_fields(&fields).into_iter().map(Field::from_field_id).collect();
    let parser = QueryParser::for_index(&index, handles);
    assert!(parser.parse_query("title:\"open").is_err());
    assert!(parser.parse_query("nofield:x").is_err());
    assert!(parser.parse_query("c1").is_ok());
}
