use poem_repo::text::{text_equal, text_less};

#[test]
fn lower_code_point_at_the_first_difference_decides() {
    assert!(text_less("Song", "Tang"));
    assert!(!text_less("Tang", "Song"));
    assert!(text_less("abc", "abd"));
    assert!(!text_less("abd", "abc"));
    assert!(text_less("Zeta", "alpha"));
}

#[test]
fn a_text_comes_before_the_longer_ones_it_begins() {
    assert!(text_less("", "a"));
    assert!(text_less("ab", "abc"));
    assert!(!text_less("abc", "ab"));
    assert!(!text_less("a", ""));
}

#[test]
fn no_text_comes_before_itself() {
    assert!(!text_less("", ""));
    assert!(!text_less("李白", "李白"));
}

#[test]
fn order_is_by_code_point_beyond_ascii() {
    // 唐 is U+5510, 宋 is U+5B8B, 李 is U+674E, 杜 is U+675C.
    assert!(text_less("唐", "宋"));
    assert!(text_less("李白", "杜甫"));
    assert!(text_less("z", "李"));
    assert!(text_less("李", "李白"));
    // U+FFFD sorts below U+10000 by code point.
    assert!(text_less("\u{FFFD}", "\u{10000}"));
}

#[test]
fn order_agrees_with_the_order_of_strings() {
    let texts =
        ["", "a", "ab", "b", "唐", "宋", "李白", "李", "\u{10000}", "\u{FFFD}", "Tang"];
    for a in texts {
        for b in texts {
            assert_eq!(text_less(a, b), a < b);
        }
    }
}

#[test]
fn equal_texts_are_the_same_code_points() {
    assert!(text_equal("", ""));
    assert!(text_equal("title", "title"));
    assert!(text_equal("李白", "李白"));
    assert!(!text_equal("title", "titles"));
    assert!(!text_equal("titles", "title"));
    assert!(!text_equal("title", "Title"));
    assert!(!text_equal("李白", "李百"));
    assert!(!text_equal("", " "));
}
