use poem_repo::poem::Poem;

#[test]
fn new_sets_the_four_fields() {
    let poem = Poem::new("A", "X", "Tang", "c1");
    assert_eq!(poem.title, "A");
    assert_eq!(poem.author, "X");
    assert_eq!(poem.dynasty, "Tang");
    assert_eq!(poem.content, "c1");
}

#[test]
fn poems_are_equal_by_title_and_author() {
    let a = Poem::new("A", "X", "Tang", "c1");
    let other_text = Poem::new("A", "X", "Song", "c2");
    let other_author = Poem::new("A", "Y", "Tang", "c1");
    let other_title = Poem::new("B", "X", "Tang", "c1");
    assert!(a == other_text);
    assert!(a != other_author);
    assert!(a != other_title);
    assert_eq!(a, other_text);
}

#[test]
fn clone_copies_every_field() {
    let poem = Poem::new("静夜思", "李白", "唐", "床前明月光");
    let copy = poem.clone();
    assert_eq!(copy.title, poem.title);
    assert_eq!(copy.author, poem.author);
    assert_eq!(copy.dynasty, poem.dynasty);
    assert_eq!(copy.content, poem.content);
}
