//! Listing the corpus and drawing poems from it at random.

use crate::poem::Poem;
use rand::seq::SliceRandom;
use vstd::prelude::*;
use vstd::seq_lib::{
    lemma_multiset_commutative, to_multiset_contains, to_multiset_len, to_multiset_remove,
};
use vstd::slice::slice_subrange;

verus! {

/// What a draw from the corpus gives.
#[derive(Debug)]
pub enum Sample {
    /// The corpus holds no poem: there is nothing to draw from.
    NoPoems,
    /// The poems drawn, in the order of the draw.
    Drawn(Vec<Poem>),
}

/// How many poems are listed: all of them without a limit or with one beyond
/// the corpus, else as many as the limit says.
pub open spec fn listed_len(len: nat, limit: Option<usize>) -> nat {
    match limit {
        Some(most) => if most <= len { most as nat } else { len },
        None => len,
    }
}

/// How many poems are drawn: as many as asked for, and no more than there
/// are.
pub open spec fn drawn_len(len: nat, count: usize) -> nat {
    if count <= len { count as nat } else { len }
}

/// No poem occurs twice: no two places hold the same title and author.
pub open spec fn no_poem_twice(poems: Seq<Poem>) -> bool {
    forall|i: int, j: int|
        0 <= i < j < poems.len() ==> !(#[trigger] poems[i])@.same_poem((#[trigger] poems[j])@)
}

/// `rand::seq::SliceRandom::shuffle`, with the generator of `rand::thread_rng`. The shuffle
/// only swaps items of the slice with one another: whatever the generator yields, the items
/// afterwards are those from before, each as often as before.
#[verifier::external_body]
fn shuffle(poems: &mut Vec<Poem>)
    ensures
        final(poems)@.to_multiset() == old(poems)@.to_multiset(),
{
    poems.shuffle(&mut rand::thread_rng())
}

/// The first poems of the corpus, in corpus order: all of them where no
/// limit is given or the limit is beyond the corpus.
pub fn list_poems(corpus: &Vec<Poem>, limit: Option<usize>) -> (listed: &[Poem])
    ensures
        listed@ == corpus@.take(listed_len(corpus@.len(), limit) as int),
{
    let shown = match limit {
        Some(most) => if most > corpus.len() { corpus.len() } else { most },
        None => corpus.len(),
    };
    slice_subrange(corpus.as_slice(), 0, shown)
}

/// The first poems of a shuffled corpus: as many as asked for, or all of
/// them where fewer are there.
pub fn take_first(shuffled: Vec<Poem>, count: usize) -> (drawn: Vec<Poem>)
    ensures
        drawn@ == shuffled@.take(drawn_len(shuffled@.len(), count) as int),
{
    let mut drawn = shuffled;
    if count < drawn.len() {
        drawn.truncate(count);
    }
    drawn
}

/// Draws poems from the corpus at random, none of them twice: the corpus is
/// shuffled and its first poems are taken. More poems than the corpus holds
/// cannot be had; asking for them gives the whole corpus in a random order.
/// An empty corpus gives [`Sample::NoPoems`], whatever is asked for.
pub fn random_poems(corpus: Vec<Poem>, count: usize) -> (sample: Sample)
    ensures
        sample is NoPoems <==> corpus@.len() == 0,
        sample matches Sample::Drawn(drawn) ==> {
            &&& drawn@.len() == drawn_len(corpus@.len(), count)
            &&& drawn@.to_multiset().subset_of(corpus@.to_multiset())
            &&& count >= corpus@.len() ==> drawn@.to_multiset() == corpus@.to_multiset()
            &&& no_poem_twice(corpus@) ==> no_poem_twice(drawn@)
        },
{
    if corpus.len() == 0 {
        return Sample::NoPoems;
    }
    let mut poems = corpus;
    shuffle(&mut poems);
    let ghost shuffled = poems@;
    proof {
        to_multiset_len(shuffled);
        to_multiset_len(corpus@);
    }
    let drawn = take_first(poems, count);
    proof {
        lemma_first_items_are_among(shuffled, drawn_len(shuffled.len(), count) as int);
        if count >= corpus@.len() {
            assert(shuffled.take(shuffled.len() as int) =~= shuffled);
        }
        if no_poem_twice(corpus@) {
            lemma_no_poem_twice_in_a_draw(corpus@, drawn@);
        }
    }
    Sample::Drawn(drawn)
}

/// The first items of a sequence are among its items, each no more often
/// than in the whole.
pub proof fn lemma_first_items_are_among<T>(items: Seq<T>, first: int)
    requires
        0 <= first <= items.len(),
    ensures
        items.take(first).to_multiset().subset_of(items.to_multiset()),
{
    lemma_multiset_commutative(items.take(first), items.skip(first));
    assert(items.take(first) + items.skip(first) =~= items);
}

/// An item that stands at two places of a sequence occurs in it twice.
proof fn lemma_two_places_count_twice<T>(items: Seq<T>, i: int, j: int)
    requires
        0 <= i < j < items.len(),
        items[i] == items[j],
    ensures
        items.to_multiset().count(items[i]) >= 2,
{
    to_multiset_remove(items, i);
    let rest = items.remove(i);
    assert(rest[j - 1] == items[j]);
    to_multiset_contains(rest, items[i]);
}

/// An item that occurs in a sequence twice stands at a second place too.
proof fn lemma_counted_twice_has_two_places<T>(items: Seq<T>, i: int) -> (j: int)
    requires
        0 <= i < items.len(),
        items.to_multiset().count(items[i]) >= 2,
    ensures
        0 <= j < items.len(),
        j != i,
        items[j] == items[i],
{
    to_multiset_remove(items, i);
    let rest = items.remove(i);
    to_multiset_contains(rest, items[i]);
    let k = choose|k: int| 0 <= k < rest.len() && rest[k] == items[i];
    if k < i {
        k
    } else {
        k + 1
    }
}

/// Drawing without replacement from a corpus in which no poem occurs twice
/// gives no poem twice.
pub proof fn lemma_no_poem_twice_in_a_draw(corpus: Seq<Poem>, drawn: Seq<Poem>)
    requires
        drawn.to_multiset().subset_of(corpus.to_multiset()),
        no_poem_twice(corpus),
    ensures
        no_poem_twice(drawn),
{
    assert forall|i: int, j: int| 0 <= i < j < drawn.len() implies !(#[trigger] drawn[i])@
        .same_poem((#[trigger] drawn[j])@) by {
        if drawn[i]@.same_poem(drawn[j]@) {
            to_multiset_contains(drawn, drawn[i]);
            to_multiset_contains(drawn, drawn[j]);
            to_multiset_contains(corpus, drawn[i]);
            to_multiset_contains(corpus, drawn[j]);
            let a = choose|a: int| 0 <= a < corpus.len() && corpus[a] == drawn[i];
            let b = choose|b: int| 0 <= b < corpus.len() && corpus[b] == drawn[j];
            if a == b {
                // One poem of the corpus was drawn twice: then the corpus holds it twice.
                lemma_two_places_count_twice(drawn, i, j);
                lemma_counted_twice_has_two_places(corpus, a);
            }
        }
    }
}

} // verus!
