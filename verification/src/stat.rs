//! How often each author and each dynasty occurs in the corpus.

use crate::text::{lemma_lex_asymmetric, lemma_lex_total, lemma_lex_transitive, lex_less, text_less};
use crate::poem::{Poem, PoemView};
use vstd::multiset::Multiset;
use vstd::prelude::*;
use vstd::seq_lib::{
    lemma_seq_contains_after_push, to_multiset_build, to_multiset_contains, to_multiset_insert,
    to_multiset_remove,
};

verus! {

/// A row of a table of counts, as plain values.
pub struct CountView {
    pub value: Seq<char>,
    pub count: nat,
}

/// A row of a table of counts: a value and how often it occurs.
#[derive(Debug)]
pub struct Count {
    pub value: String,
    pub count: usize,
}

impl View for Count {
    type V = CountView;

    open spec fn view(&self) -> CountView {
        CountView { value: self.value@, count: self.count as nat }
    }
}

impl DeepView for Count {
    type V = CountView;

    open spec fn deep_view(&self) -> CountView {
        self@
    }
}

/// How often a value occurs among the values.
pub open spec fn occurrences(values: Seq<Seq<char>>, value: Seq<char>) -> nat
    decreases values.len(),
{
    if values.len() == 0 {
        0
    } else {
        occurrences(values.drop_last(), value) + if values.last() == value {
            1nat
        } else {
            0nat
        }
    }
}

/// The different values among the values, each once, in the order in which
/// they are first met.
pub open spec fn first_seen(values: Seq<Seq<char>>) -> Seq<Seq<char>>
    decreases values.len(),
{
    if values.len() == 0 {
        Seq::empty()
    } else if first_seen(values.drop_last()).contains(values.last()) {
        first_seen(values.drop_last())
    } else {
        first_seen(values.drop_last()).push(values.last())
    }
}

/// The table of counts of the values: one row for each different value, in
/// the order in which the values are first met, with the number of times the
/// value occurs.
pub open spec fn frequency_table(values: Seq<Seq<char>>) -> Seq<CountView> {
    Seq::new(
        first_seen(values).len(),
        |i: int|
            CountView {
                value: first_seen(values)[i],
                count: occurrences(values, first_seen(values)[i]),
            },
    )
}

/// The sum of the counts of a table.
pub open spec fn total(rows: Seq<CountView>) -> nat
    decreases rows.len(),
{
    if rows.len() == 0 {
        0
    } else {
        total(rows.drop_last()) + rows.last().count
    }
}

/// A value occurs no more often than there are values, and at all only where
/// it is one of them.
pub proof fn lemma_occurrences_bounded(values: Seq<Seq<char>>, value: Seq<char>)
    ensures
        occurrences(values, value) <= values.len(),
        occurrences(values, value) > 0 <==> values.contains(value),
    decreases values.len(),
{
    if values.len() > 0 {
        let front = values.drop_last();
        lemma_occurrences_bounded(front, value);
        assert(values =~= front.push(values.last()));
        lemma_seq_contains_after_push(front, values.last(), value);
    }
}

/// The values first seen are the values, each once.
pub proof fn lemma_first_seen(values: Seq<Seq<char>>)
    ensures
        first_seen(values).no_duplicates(),
        forall|value: Seq<char>| first_seen(values).contains(value) <==> values.contains(value),
    decreases values.len(),
{
    if values.len() > 0 {
        let front = values.drop_last();
        lemma_first_seen(front);
        assert(values =~= front.push(values.last()));
        assert forall|value: Seq<char>| first_seen(values).contains(value) <==> values.contains(
            value,
        ) by {
            lemma_seq_contains_after_push(front, values.last(), value);
            lemma_seq_contains_after_push(first_seen(front), values.last(), value);
        }
    }
}

/// One more value that was met before: its row counts one more, and no
/// other row changes.
pub proof fn lemma_counted_again(values: Seq<Seq<char>>, at: int)
    requires
        values.len() > 0,
        0 <= at < first_seen(values.drop_last()).len(),
        first_seen(values.drop_last())[at] == values.last(),
    ensures
        frequency_table(values) == frequency_table(values.drop_last()).update(
            at,
            CountView {
                value: values.last(),
                count: occurrences(values.drop_last(), values.last()) + 1,
            },
        ),
{
    lemma_first_seen(values.drop_last());
}

/// One more value that was not met before: a new row at the end, with a
/// count of one.
pub proof fn lemma_counted_first(values: Seq<Seq<char>>)
    requires
        values.len() > 0,
        !first_seen(values.drop_last()).contains(values.last()),
    ensures
        frequency_table(values) == frequency_table(values.drop_last()).push(
            CountView { value: values.last(), count: 1 },
        ),
{
    lemma_first_seen(values.drop_last());
    lemma_occurrences_bounded(values.drop_last(), values.last());
}

/// The sum of a table with one more row.
pub proof fn lemma_total_push(rows: Seq<CountView>, row: CountView)
    ensures
        total(rows.push(row)) == total(rows) + row.count,
{
    assert(rows.push(row).drop_last() =~= rows);
}

/// The sum of a table with one row replaced.
pub proof fn lemma_total_update(rows: Seq<CountView>, at: int, row: CountView)
    requires
        0 <= at < rows.len(),
    ensures
        total(rows.update(at, row)) == total(rows) - rows[at].count + row.count,
    decreases rows.len(),
{
    if at == rows.len() - 1 {
        assert(rows.update(at, row).drop_last() =~= rows.drop_last());
    } else {
        lemma_total_update(rows.drop_last(), at, row);
        assert(rows.update(at, row).drop_last() =~= rows.drop_last().update(at, row));
    }
}

/// The sum of a table with one row put in.
pub proof fn lemma_total_insert(rows: Seq<CountView>, at: int, row: CountView)
    requires
        0 <= at <= rows.len(),
    ensures
        total(rows.insert(at, row)) == total(rows) + row.count,
    decreases rows.len(),
{
    if at == rows.len() {
        assert(rows.insert(at, row) =~= rows.push(row));
        lemma_total_push(rows, row);
    } else {
        lemma_total_insert(rows.drop_last(), at, row);
        assert(rows.insert(at, row).drop_last() =~= rows.drop_last().insert(at, row));
    }
}

/// Tables of the same rows have the same sum, in whatever order the rows
/// stand.
pub proof fn lemma_same_rows_same_total(one: Seq<CountView>, other: Seq<CountView>)
    requires
        one.to_multiset() == other.to_multiset(),
    ensures
        total(one) == total(other),
    decreases one.len(),
{
    one.to_multiset_ensures();
    other.to_multiset_ensures();
    if one.len() > 0 {
        let row = one.last();
        assert(one[one.len() - 1] == row);
        to_multiset_contains(one, row);
        to_multiset_contains(other, row);
        assert(other.contains(row));
        let at = choose|at: int| 0 <= at < other.len() && other[at] == row;
        to_multiset_remove(one, one.len() - 1);
        to_multiset_remove(other, at);
        assert(one.remove(one.len() - 1) =~= one.drop_last());
        lemma_same_rows_same_total(one.drop_last(), other.remove(at));
        assert(other =~= other.remove(at).insert(at, row));
        lemma_total_insert(other.remove(at), at, row);
    }
}

/// The counts of a table of counts add up to the number of values counted.
pub proof fn lemma_counts_sum_to_len(values: Seq<Seq<char>>)
    ensures
        total(frequency_table(values)) == values.len(),
    decreases values.len(),
{
    if values.len() > 0 {
        let front = values.drop_last();
        lemma_counts_sum_to_len(front);
        if first_seen(front).contains(values.last()) {
            let at = choose|at: int|
                0 <= at < first_seen(front).len() && first_seen(front)[at] == values.last();
            lemma_counted_again(values, at);
            lemma_total_update(
                frequency_table(front),
                at,
                CountView { value: values.last(), count: occurrences(front, values.last()) + 1 },
            );
        } else {
            lemma_counted_first(values);
            lemma_total_push(frequency_table(front), CountView { value: values.last(), count: 1 });
        }
    }
}

/// The place of a value among the rows, if it has a row.
fn find_row(rows: &Vec<Count>, value: &String) -> (found: Option<usize>)
    ensures
        match found {
            Some(at) => at < rows.len() && rows[at as int].value@ == value@,
            None => forall|i: int| 0 <= i < rows.len() ==> rows[i].value@ != value@,
        },
{
    let mut at: usize = 0;
    while at < rows.len()
        invariant
            at <= rows.len(),
            forall|i: int| 0 <= i < at ==> rows[i].value@ != value@,
        decreases rows.len() - at,
    {
        if rows[at].value == *value {
            return Some(at);
        }
        at = at + 1;
    }
    None
}

/// The table of counts of the values: one row for each different value, in
/// the order in which the values are first met.
pub fn frequency(values: &Vec<String>) -> (rows: Vec<Count>)
    ensures
        rows.deep_view() == frequency_table(values.deep_view()),
{
    let mut rows: Vec<Count> = Vec::new();
    let mut done: usize = 0;
    while done < values.len()
        invariant
            done <= values.len(),
            rows.deep_view() == frequency_table(values.deep_view().take(done as int)),
        decreases values.len() - done,
    {
        let ghost front = values.deep_view().take(done as int);
        let ghost upto = values.deep_view().take(done + 1);
        proof {
            assert(upto.drop_last() =~= front);
            lemma_first_seen(front);
        }
        match find_row(&rows, &values[done]) {
            Some(at) => {
                proof {
                    assert(rows.deep_view().len() == first_seen(front).len());
                    assert(rows.deep_view()[at as int] == rows[at as int]@);
                    lemma_counted_again(upto, at as int);
                    lemma_occurrences_bounded(front, upto.last());
                }
                let row = Count { value: values[done].clone(), count: rows[at].count + 1 };
                rows.set(at, row);
            },
            None => {
                proof {
                    assert(rows.deep_view().len() == first_seen(front).len());
                    assert forall|i: int| 0 <= i < first_seen(front).len() implies first_seen(
                        front,
                    )[i] != upto.last() by {
                        assert(rows.deep_view()[i] == rows[i]@);
                    }
                    lemma_counted_first(upto);
                }
                rows.push(Count { value: values[done].clone(), count: 1 });
            },
        }
        done = done + 1;
    }
    assert(values.deep_view().take(values.len() as int) =~= values.deep_view());
    rows
}

/// Whether a row is shown before another in a sorted table: the higher
/// count first, and of two equal counts the value that comes first by code
/// points.
pub open spec fn shown_before(a: CountView, b: CountView) -> bool {
    a.count > b.count || (a.count == b.count && lex_less(a.value, b.value))
}

/// A table is in the order of showing when no row stands behind one that
/// it is shown before.
pub open spec fn in_shown_order(rows: Seq<CountView>) -> bool {
    forall|i: int, j: int| 0 <= i < j < rows.len() ==> !shown_before(rows[j], rows[i])
}

/// What is shown before a row is shown before all that the row is shown
/// before, and never after it.
pub proof fn lemma_shown_before_is_an_order(a: CountView, b: CountView, c: CountView)
    ensures
        shown_before(a, b) && shown_before(b, c) ==> shown_before(a, c),
        shown_before(a, b) ==> !shown_before(b, a),
        a != b ==> shown_before(a, b) || shown_before(b, a),
{
    if lex_less(a.value, b.value) {
        lemma_lex_asymmetric(a.value, b.value);
        if lex_less(b.value, c.value) {
            lemma_lex_transitive(a.value, b.value, c.value);
        }
    }
    if a.value != b.value {
        lemma_lex_total(a.value, b.value);
    }
}

/// The order of showing leaves no choice: two tables of the same rows that
/// are both in that order are the same table.
pub proof fn lemma_shown_order_is_unique(one: Seq<CountView>, other: Seq<CountView>)
    requires
        one.to_multiset() == other.to_multiset(),
        in_shown_order(one),
        in_shown_order(other),
    ensures
        one == other,
    decreases one.len(),
{
    one.to_multiset_ensures();
    other.to_multiset_ensures();
    if one.len() > 0 {
        // Each first row stands somewhere in the other table, so neither is shown before
        // the other: they are the same row.
        to_multiset_contains(one, other[0]);
        to_multiset_contains(other, one[0]);
        let i = choose|i: int| 0 <= i < one.len() && one[i] == other[0];
        let j = choose|j: int| 0 <= j < other.len() && other[j] == one[0];
        lemma_shown_before_is_an_order(one[0], other[0], one[0]);
        assert(one[0] == other[0]);
        // Without them the tables still hold the same rows in the order of showing.
        to_multiset_remove(one, 0);
        to_multiset_remove(other, 0);
        let one_rest = one.remove(0);
        let other_rest = other.remove(0);
        assert(in_shown_order(one_rest)) by {
            assert forall|i: int, j: int| 0 <= i < j < one_rest.len() implies !shown_before(
                one_rest[j],
                one_rest[i],
            ) by {
                assert(one_rest[i] == one[i + 1] && one_rest[j] == one[j + 1]);
            }
        }
        assert(in_shown_order(other_rest)) by {
            assert forall|i: int, j: int| 0 <= i < j < other_rest.len() implies !shown_before(
                other_rest[j],
                other_rest[i],
            ) by {
                assert(other_rest[i] == other[i + 1] && other_rest[j] == other[j + 1]);
            }
        }
        lemma_shown_order_is_unique(one_rest, other_rest);
        assert(one =~= seq![one[0]] + one_rest);
        assert(other =~= seq![other[0]] + other_rest);
    }
}

/// A table without rows holds no row.
proof fn lemma_nothing_in_no_rows(rows: Seq<CountView>)
    requires
        rows.len() == 0,
    ensures
        rows.to_multiset() == Multiset::<CountView>::empty(),
{
    broadcast use vstd::multiset::group_multiset_axioms;

    rows.to_multiset_ensures();
    assert(rows.to_multiset() =~= Multiset::<CountView>::empty());
}

/// Whether a row is shown before another.
fn row_before(a: &Count, b: &Count) -> (before: bool)
    ensures
        before == shown_before(a@, b@),
{
    if a.count != b.count {
        a.count > b.count
    } else {
        text_less(a.value.as_str(), b.value.as_str())
    }
}

/// The rows in the order of showing: by count, the highest first, and rows
/// of equal count by value, in the order of code points.
pub fn sort_by_count(rows: Vec<Count>) -> (sorted: Vec<Count>)
    ensures
        sorted.deep_view().to_multiset() == rows.deep_view().to_multiset(),
        in_shown_order(sorted.deep_view()),
        total(sorted.deep_view()) == total(rows.deep_view()),
{
    broadcast use vstd::multiset::group_multiset_axioms;

    let ghost all = rows.deep_view();
    let mut rest = rows;
    let mut sorted: Vec<Count> = Vec::new();
    proof {
        lemma_nothing_in_no_rows(sorted.deep_view());
    }
    while rest.len() > 0
        invariant
            sorted.deep_view().to_multiset().add(rest.deep_view().to_multiset())
                == all.to_multiset(),
            in_shown_order(sorted.deep_view()),
            total(sorted.deep_view()) + total(rest.deep_view()) == total(all),
        decreases rest.len(),
    {
        let ghost rest_before = rest.deep_view();
        let ghost sorted_before = sorted.deep_view();
        let row = rest.pop().unwrap();
        proof {
            assert(rest_before =~= rest.deep_view().push(row@));
            assert(rest_before.drop_last() =~= rest.deep_view());
            to_multiset_build(rest.deep_view(), row@);
        }
        let mut at: usize = 0;
        while at < sorted.len() && !row_before(&row, &sorted[at])
            invariant
                at <= sorted.len(),
                sorted.deep_view() == sorted_before,
                forall|i: int| 0 <= i < at ==> !shown_before(row@, sorted_before[i]),
            decreases sorted.len() - at,
        {
            at = at + 1;
        }
        sorted.insert(at, row);
        proof {
            let after = sorted.deep_view();
            assert(after =~= sorted_before.insert(at as int, row@));
            to_multiset_insert(sorted_before, at as int, row@);
            lemma_total_insert(sorted_before, at as int, row@);
            assert forall|i: int, j: int| 0 <= i < j < after.len() implies !shown_before(
                after[j],
                after[i],
            ) by {
                // Only the rows behind the new one need an argument: the first of them
                // is shown after it, and the others no earlier than that one.
                if i == at {
                    lemma_shown_before_is_an_order(after[j], row@, sorted_before[at as int]);
                }
            }
        }
    }
    proof {
        lemma_nothing_in_no_rows(rest.deep_view());
    }
    sorted
}

/// What the rows of counts of the values are: the table of counts itself,
/// or, where sorting is asked for, its rows in the order of showing.
pub open spec fn counts_of(values: Seq<Seq<char>>, sorted: bool, rows: Seq<CountView>) -> bool {
    if sorted {
        rows.to_multiset() == frequency_table(values).to_multiset() && in_shown_order(rows)
    } else {
        rows == frequency_table(values)
    }
}

/// The counts add up to the number of values counted, sorted or not.
pub proof fn lemma_counts_of_sum_to_len(values: Seq<Seq<char>>, sorted: bool, rows: Seq<CountView>)
    requires
        counts_of(values, sorted, rows),
    ensures
        total(rows) == values.len(),
{
    lemma_counts_sum_to_len(values);
    lemma_same_rows_same_total(rows, frequency_table(values));
}

/// The rows of counts of the values, sorted for showing where asked for.
pub fn count_values(values: &Vec<String>, sorted: bool) -> (rows: Vec<Count>)
    ensures
        counts_of(values.deep_view(), sorted, rows.deep_view()),
        total(rows.deep_view()) == values.len(),
{
    let rows = frequency(values);
    proof {
        lemma_counts_sum_to_len(values.deep_view());
    }
    if sorted {
        sort_by_count(rows)
    } else {
        rows
    }
}

/// The authors of the poems, one for each poem and in corpus order.
pub open spec fn authors_of(corpus: Seq<PoemView>) -> Seq<Seq<char>> {
    corpus.map_values(|poem: PoemView| poem.author)
}

/// The dynasties of the poems, one for each poem and in corpus order.
pub open spec fn dynasties_of(corpus: Seq<PoemView>) -> Seq<Seq<char>> {
    corpus.map_values(|poem: PoemView| poem.dynasty)
}

/// The authors of the poems.
pub fn authors(corpus: &Vec<Poem>) -> (values: Vec<String>)
    ensures
        values.deep_view() == authors_of(corpus.deep_view()),
{
    let mut values: Vec<String> = Vec::new();
    let mut done: usize = 0;
    while done < corpus.len()
        invariant
            done <= corpus.len(),
            values.len() == done,
            forall|i: int| 0 <= i < done ==> values[i]@ == corpus[i]@.author,
        decreases corpus.len() - done,
    {
        values.push(corpus[done].author.clone());
        done = done + 1;
    }
    values
}

/// The dynasties of the poems.
pub fn dynasties(corpus: &Vec<Poem>) -> (values: Vec<String>)
    ensures
        values.deep_view() == dynasties_of(corpus.deep_view()),
{
    let mut values: Vec<String> = Vec::new();
    let mut done: usize = 0;
    while done < corpus.len()
        invariant
            done <= corpus.len(),
            values.len() == done,
            forall|i: int| 0 <= i < done ==> values[i]@ == corpus[i]@.dynasty,
        decreases corpus.len() - done,
    {
        values.push(corpus[done].dynasty.clone());
        done = done + 1;
    }
    values
}

/// The counts of the authors and the counts of the dynasties each add up to
/// the number of poems, and so to one another.
pub proof fn lemma_stat_sums_to_corpus(
    corpus: Seq<PoemView>,
    sorted: bool,
    by_author: Seq<CountView>,
    by_dynasty: Seq<CountView>,
)
    requires
        counts_of(authors_of(corpus), sorted, by_author),
        counts_of(dynasties_of(corpus), sorted, by_dynasty),
    ensures
        total(by_author) == corpus.len(),
        total(by_dynasty) == corpus.len(),
{
    lemma_counts_of_sum_to_len(authors_of(corpus), sorted, by_author);
    lemma_counts_of_sum_to_len(dynasties_of(corpus), sorted, by_dynasty);
}

/// The counts of a corpus.
#[derive(Debug)]
pub struct Stat {
    /// The number of poems.
    pub total: usize,
    /// How often each author occurs.
    pub authors: Vec<Count>,
    /// How often each dynasty occurs.
    pub dynasties: Vec<Count>,
}

/// Counts the poems of the corpus, by author and by dynasty. Unsorted, the
/// rows stand in the order in which the values are first met in the corpus;
/// sorted, the highest count comes first. Either way the counts of the
/// authors and those of the dynasties each add up to the number of poems.
pub fn stat(corpus: &Vec<Poem>, sorted: bool) -> (stat: Stat)
    ensures
        stat.total == corpus.len(),
        counts_of(authors_of(corpus.deep_view()), sorted, stat.authors.deep_view()),
        counts_of(dynasties_of(corpus.deep_view()), sorted, stat.dynasties.deep_view()),
        total(stat.authors.deep_view()) == stat.total,
        total(stat.dynasties.deep_view()) == stat.total,
{
    let by_author = count_values(&authors(corpus), sorted);
    let by_dynasty = count_values(&dynasties(corpus), sorted);
    Stat { total: corpus.len(), authors: by_author, dynasties: by_dynasty }
}

} // verus!
