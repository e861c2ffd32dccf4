use vstd::prelude::*;

verus! {

// Facts about filtering integer sequences. The selective operations of the
// bridge (`copy_if`, `count_if`) can state their result only through the
// two-sided classification of an opaque host predicate; the lemmas here
// let a caller who knows the predicate's meaning pin the result down to a
// filter by that meaning.
/// Filtering distributes over appending one element.
pub proof fn lemma_filter_push(s: Seq<i32>, p: spec_fn(i32) -> bool, x: i32)
    ensures
        p(x) ==> s.push(x).filter(p) == s.filter(p).push(x),
        !p(x) ==> s.push(x).filter(p) == s.filter(p),
{
    reveal(Seq::filter);
    assert(s.push(x).drop_last() =~= s);
}

/// A weaker predicate never keeps fewer elements.
pub proof fn lemma_filter_len_monotone(s: Seq<i32>, p: spec_fn(i32) -> bool, q: spec_fn(
    i32,
) -> bool)
    requires
        forall|x: i32| #[trigger] p(x) ==> q(x),
    ensures
        s.filter(p).len() <= s.filter(q).len(),
    decreases s.len(),
{
    reveal(Seq::filter);
    if s.len() > 0 {
        lemma_filter_len_monotone(s.drop_last(), p, q);
    }
}

/// Predicates that agree on every element filter a sequence identically.
pub proof fn lemma_filter_congruence(s: Seq<i32>, p: spec_fn(i32) -> bool, q: spec_fn(
    i32,
) -> bool)
    requires
        forall|x: i32| #[trigger] p(x) <==> #[trigger] q(x),
    ensures
        s.filter(p) == s.filter(q),
    decreases s.len(),
{
    reveal(Seq::filter);
    if s.len() > 0 {
        lemma_filter_congruence(s.drop_last(), p, q);
    }
}

/// A predicate squeezed between two predicates that filter a sequence
/// identically filters it the same way. This is how a caller of `copy_if`
/// or `count_if` recovers the exact filter by its own predicate `q` from
/// the two classifications `p1` (accepted) and `p2` (not rejected) of a
/// pure host callable that computes `q`.
pub proof fn lemma_filter_sandwich(
    s: Seq<i32>,
    p1: spec_fn(i32) -> bool,
    p2: spec_fn(i32) -> bool,
    q: spec_fn(i32) -> bool,
)
    requires
        s.filter(p1) == s.filter(p2),
        forall|x: i32| #[trigger] p1(x) ==> q(x),
        forall|x: i32| #[trigger] q(x) ==> p2(x),
    ensures
        s.filter(q) == s.filter(p1),
    decreases s.len(),
{
    reveal(Seq::filter);
    if s.len() > 0 {
        let s0 = s.drop_last();
        let a = s.last();
        if p1(a) {
            // q and p2 keep a as well; the equal filters both end in a.
            assert(s.filter(p1).drop_last() == s0.filter(p1));
            assert(s.filter(p2).drop_last() == s0.filter(p2));
            lemma_filter_sandwich(s0, p1, p2, q);
        } else if !p2(a) {
            lemma_filter_sandwich(s0, p1, p2, q);
        } else {
            // p1 drops a but p2 keeps it: the filters of the rest would
            // have to differ in length, contradicting their equality.
            lemma_filter_len_monotone(s0, p1, p2);
            assert(s.filter(p2).len() == s0.filter(p2).len() + 1);
            assert(false);
        }
    }
}

} // verus!
