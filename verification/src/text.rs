//! Texts compared code point by code point: whether two are the same, and
//! which of two comes first. The order is the one in which rows of equal
//! count are shown.

use vstd::prelude::*;
use vstd::std_specs::iter::IteratorSpec;

verus! {

/// Whether a text comes before another, code point by code point: at the
/// first place where the two differ the lower code point decides, and a
/// text comes before every longer one that begins with it.
pub open spec fn lex_less(a: Seq<char>, b: Seq<char>) -> bool
    decreases a.len(),
{
    if b.len() == 0 {
        false
    } else if a.len() == 0 {
        true
    } else if a[0] == b[0] {
        lex_less(a.skip(1), b.skip(1))
    } else {
        (a[0] as u32) < (b[0] as u32)
    }
}

/// No text comes before itself.
pub proof fn lemma_lex_irreflexive(a: Seq<char>)
    ensures
        !lex_less(a, a),
    decreases a.len(),
{
    if a.len() > 0 {
        lemma_lex_irreflexive(a.skip(1));
    }
}

/// The order goes on: what comes before a text comes before all that the
/// text comes before.
pub proof fn lemma_lex_transitive(a: Seq<char>, b: Seq<char>, c: Seq<char>)
    requires
        lex_less(a, b),
        lex_less(b, c),
    ensures
        lex_less(a, c),
    decreases a.len(),
{
    if a.len() > 0 && a[0] == b[0] && b[0] == c[0] {
        lemma_lex_transitive(a.skip(1), b.skip(1), c.skip(1));
    }
}

/// Of two texts at most one comes before the other.
pub proof fn lemma_lex_asymmetric(a: Seq<char>, b: Seq<char>)
    requires
        lex_less(a, b),
    ensures
        !lex_less(b, a),
{
    if lex_less(b, a) {
        lemma_lex_transitive(a, b, a);
        lemma_lex_irreflexive(a);
    }
}

/// Different characters have different code points.
proof fn lemma_code_points_differ(x: char, y: char)
    requires
        x != y,
    ensures
        x as u32 != y as u32,
{
}

/// Of two different texts one comes before the other.
pub proof fn lemma_lex_total(a: Seq<char>, b: Seq<char>)
    requires
        a != b,
    ensures
        lex_less(a, b) || lex_less(b, a),
    decreases a.len(),
{
    if a.len() > 0 && b.len() > 0 && a[0] == b[0] {
        if a.skip(1) == b.skip(1) {
            assert(a =~= seq![a[0]] + a.skip(1));
            assert(b =~= seq![b[0]] + b.skip(1));
        } else {
            lemma_lex_total(a.skip(1), b.skip(1));
        }
    } else if a.len() == 0 && b.len() == 0 {
        assert(a =~= b);
    } else if a.len() > 0 && b.len() > 0 {
        lemma_code_points_differ(a[0], b[0]);
    }
}

/// Whether a text comes before another in the order of code points.
pub fn text_less(a: &str, b: &str) -> (less: bool)
    ensures
        less == lex_less(a@, b@),
{
    let mut left = a.chars();
    let mut right = b.chars();
    let ghost mut seen: int = 0;
    loop
        invariant
            0 <= seen <= a@.len(),
            seen <= b@.len(),
            left.remaining() == a@.skip(seen),
            right.remaining() == b@.skip(seen),
            lex_less(a@, b@) == lex_less(a@.skip(seen), b@.skip(seen)),
        decreases a@.len() - seen,
    {
        let x = left.next();
        let y = right.next();
        match (x, y) {
            (_, None) => {
                return false;
            },
            (None, Some(_)) => {
                return true;
            },
            (Some(x), Some(y)) => {
                if x != y {
                    return (x as u32) < (y as u32);
                }
                proof {
                    assert(a@.skip(seen).skip(1) =~= a@.skip(seen + 1));
                    assert(b@.skip(seen).skip(1) =~= b@.skip(seen + 1));
                    seen = seen + 1;
                }
            },
        }
    }
}

/// Whether two texts are the same, code point by code point.
pub fn text_equal(a: &str, b: &str) -> (same: bool)
    ensures
        same == (a@ == b@),
{
    let mut left = a.chars();
    let mut right = b.chars();
    let ghost mut seen: int = 0;
    loop
        invariant
            0 <= seen <= a@.len(),
            seen <= b@.len(),
            left.remaining() == a@.skip(seen),
            right.remaining() == b@.skip(seen),
            a@.take(seen) == b@.take(seen),
        decreases a@.len() - seen,
    {
        let x = left.next();
        let y = right.next();
        match (x, y) {
            (None, None) => {
                assert(a@.take(seen) =~= a@);
                assert(b@.take(seen) =~= b@);
                return true;
            },
            (Some(x), Some(y)) => {
                if x != y {
                    return false;
                }
                proof {
                    seen = seen + 1;
                }
            },
            _ => {
                return false;
            },
        }
    }
}

} // verus!
