use poem_repo::poem::Poem;
use poem_repo::sample::{list_poems, random_poems, take_first, Sample};

fn corpus(len: usize) -> Vec<Poem> {
    (0..len).map(|i| Poem::new(&format!("title {}", i), "X", "Tang", &format!("c{}", i))).collect()
}

fn titles(poems: &[Poem]) -> Vec<String> {
    poems.iter().map(|poem| poem.title.clone()).collect()
}

fn drawn(sample: Sample) -> Vec<Poem> {
    match sample {
        Sample::Drawn(poems) => poems,
        Sample::NoPoems => panic!("the corpus is not empty"),
    }
}

#[test]
fn list_without_limit_is_the_whole_corpus() {
    let poems = corpus(5);
    assert_eq!(titles(list_poems(&poems, None)), titles(&poems));
}

#[test]
fn list_with_limit_is_the_first_poems_in_corpus_order() {
    let poems = corpus(5);
    assert_eq!(titles(list_poems(&poems, Some(2))), vec!["title 0", "title 1"]);
    assert_eq!(titles(list_poems(&poems, Some(5))), titles(&poems));
    assert_eq!(list_poems(&poems, Some(0)).len(), 0);
}

#[test]
fn list_with_limit_beyond_the_corpus_is_the_whole_corpus() {
    let poems = corpus(3);
    assert_eq!(titles(list_poems(&poems, Some(4))), titles(&poems));
    assert_eq!(titles(list_poems(&poems, Some(usize::MAX))), titles(&poems));
    assert_eq!(list_poems(&Vec::new(), Some(7)).len(), 0);
}

#[test]
fn take_first_keeps_the_front() {
    assert_eq!(titles(&take_first(corpus(4), 2)), vec!["title 0", "title 1"]);
    assert_eq!(titles(&take_first(corpus(4), 4)), titles(&corpus(4)));
    assert_eq!(titles(&take_first(corpus(4), 9)), titles(&corpus(4)));
    assert_eq!(take_first(corpus(4), 0).len(), 0);
}

#[test]
fn random_on_an_empty_corpus_is_no_poems() {
    assert!(matches!(random_poems(Vec::new(), 1), Sample::NoPoems));
    assert!(matches!(random_poems(Vec::new(), 0), Sample::NoPoems));
}

#[test]
fn random_count_zero_draws_nothing() {
    assert_eq!(drawn(random_poems(corpus(3), 0)).len(), 0);
}

#[test]
fn random_draws_as_many_distinct_poems_as_asked_for() {
    let all = titles(&corpus(20));
    for count in 0..=20 {
        let poems = drawn(random_poems(corpus(20), count));
        assert_eq!(poems.len(), count);
        let mut seen = titles(&poems);
        for title in &seen {
            assert!(all.contains(title));
        }
        seen.sort();
        seen.dedup();
        assert_eq!(seen.len(), count);
    }
}

#[test]
fn random_of_the_whole_corpus_is_a_permutation() {
    let mut all = titles(&corpus(12));
    all.sort();
    let poems = drawn(random_poems(corpus(12), 12));
    let mut seen = titles(&poems);
    seen.sort();
    assert_eq!(seen, all);
}

#[test]
fn random_beyond_the_corpus_is_clamped() {
    let mut all = titles(&corpus(4));
    all.sort();
    let poems = drawn(random_poems(corpus(4), 100));
    let mut seen = titles(&poems);
    seen.sort();
    assert_eq!(seen, all);
}

#[test]
fn random_keeps_poems_whole() {
    let poems = drawn(random_poems(corpus(6), 6));
    for poem in poems {
        let number = poem.title.trim_start_matches("title ").to_string();
        assert_eq!(poem.content, format!("c{}", number));
        assert_eq!(poem.author, "X");
        assert_eq!(poem.dynasty, "Tang");
    }
}

#[test]
fn random_keeps_a_poem_that_occurs_twice_no_oftener() {
    let twice = vec![
        Poem::new("A", "X", "Tang", "c1"),
        Poem::new("A", "X", "Tang", "c1"),
        Poem::new("B", "X", "Song", "c2"),
    ];
    let poems = drawn(random_poems(twice, 3));
    let mut seen = titles(&poems);
    seen.sort();
    assert_eq!(seen, vec!["A", "A", "B"]);
}

#[test]
fn random_shuffles() {
    // Forty poems come out in corpus order with a chance of one in 40!.
    let in_order = titles(&corpus(40));
    let mut moved = false;
    for _ in 0..5 {
        if titles(&drawn(random_poems(corpus(40), 40))) != in_order {
            moved = true;
        }
    }
    assert!(moved);
}

#[test]
fn two_poem_corpus_gives_both() {
    let poems = vec![Poem::new("A", "X", "Tang", "c1"), Poem::new("B", "X", "Song", "c2")];
    let mut seen = titles(&drawn(random_poems(poems, 2)));
    seen.sort();
    assert_eq!(seen, vec!["A", "B"]);
}
