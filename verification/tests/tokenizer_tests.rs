use cang_jie::{TokenizerOption, CANG_JIE};
use poem_repo::tokenizer::{
    tokenizer, tokenizer_config, tokenizer_name, Dictionary, Segmentation, TokenizerConfig,
};
use tantivy::tokenizer::Tokenizer;

fn terms(text: &str) -> Vec<String> {
    let tokenizer = tokenizer();
    let mut stream = tokenizer.token_stream(text);
    let mut terms = Vec::new();
    while stream.advance() {
        terms.push(stream.token().text.clone());
    }
    terms
}

#[test]
fn config_is_empty_dictionary_and_code_points() {
    assert_eq!(
        tokenizer_config(),
        TokenizerConfig { dictionary: Dictionary::Empty, segmentation: Segmentation::Unicode }
    );
}

#[test]
fn name_is_the_one_the_tokenizer_crate_registers_under() {
    assert_eq!(tokenizer_name(), "CANG_JIE");
    assert_eq!(tokenizer_name(), CANG_JIE);
}

#[test]
fn tokenizer_is_assembled_as_configured() {
    let tokenizer = tokenizer();
    assert!(matches!(tokenizer.option, TokenizerOption::Unicode));
    // Without a dictionary the engine knows no word: it cuts between all characters.
    assert_eq!(tokenizer.worker.cut("中国人", false), vec!["中", "国", "人"]);
}

#[test]
fn text_is_cut_into_code_points() {
    assert_eq!(terms("床前明月光"), vec!["床", "前", "明", "月", "光"]);
    assert_eq!(terms("c1"), vec!["c", "1"]);
    assert_eq!(terms("中国人"), vec!["中", "国", "人"]);
    assert_eq!(terms(""), Vec::<String>::new());
}
