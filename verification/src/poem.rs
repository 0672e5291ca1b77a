//! The poem record.

use vstd::prelude::*;

verus! {

/// A poem as plain text: what [`Poem`] stands for in contracts.
pub struct PoemView {
    pub title: Seq<char>,
    pub author: Seq<char>,
    pub dynasty: Seq<char>,
    pub content: Seq<char>,
}

impl PoemView {
    /// Two records name the same poem when title and author agree, whatever
    /// the dynasty and the content say.
    pub open spec fn same_poem(self, other: PoemView) -> bool {
        self.title == other.title && self.author == other.author
    }
}

/// One poem of the corpus.
#[derive(Debug, Eq)]
pub struct Poem {
    pub title: String,
    pub author: String,
    pub dynasty: String,
    pub content: String,
}

impl View for Poem {
    type V = PoemView;

    open spec fn view(&self) -> PoemView {
        PoemView {
            title: self.title@,
            author: self.author@,
            dynasty: self.dynasty@,
            content: self.content@,
        }
    }
}

impl DeepView for Poem {
    type V = PoemView;

    open spec fn deep_view(&self) -> PoemView {
        self@
    }
}

impl Poem {
    /// A poem from its four texts.
    pub fn new(title: &str, author: &str, dynasty: &str, content: &str) -> (poem: Poem)
        ensures
            poem@ == (PoemView {
                title: title@,
                author: author@,
                dynasty: dynasty@,
                content: content@,
            }),
    {
        Poem {
            title: title.to_owned(),
            author: author.to_owned(),
            dynasty: dynasty.to_owned(),
            content: content.to_owned(),
        }
    }
}

impl Clone for Poem {
    fn clone(&self) -> (copy: Poem)
        ensures
            copy == *self,
    {
        Poem {
            title: self.title.clone(),
            author: self.author.clone(),
            dynasty: self.dynasty.clone(),
            content: self.content.clone(),
        }
    }
}

impl PartialEq for Poem {
    /// Equality by title and author: the identity of a poem in the corpus.
    fn eq(&self, other: &Poem) -> (same: bool) {
        self.title == other.title && self.author == other.author
    }
}

impl vstd::std_specs::cmp::PartialEqSpecImpl for Poem {
    open spec fn obeys_eq_spec() -> bool {
        true
    }

    open spec fn eq_spec(&self, other: &Poem) -> bool {
        self@.same_poem(other@)
    }
}

} // verus!
