use crate::callbacks::accepted_by;
use crate::callbacks::not_rejected_by;
use crate::callbacks::pred_callable_on;
use crate::callbacks::pred_pure;
use crate::seq_facts::lemma_filter_push;
use vstd::prelude::*;

verus! {

/// How many elements of `s` are equal to `v`.
pub open spec fn count_value(s: Seq<i32>, v: i32) -> int
    decreases s.len(),
{
    if s.len() == 0 {
        0
    } else {
        count_value(s.drop_last(), v) + if s.last() == v {
            1int
        } else {
            0int
        }
    }
}

/// `suffix` is a suffix of `s`.
pub open spec fn is_suffix_of(suffix: Seq<i32>, s: Seq<i32>) -> bool {
    suffix.len() <= s.len() && s.subrange(s.len() - suffix.len(), s.len() as int) == suffix
}

/// The number of occurrences of `value`, as the signed 64-bit scalar the
/// bridge reports; it is never negative.
pub fn count(vec: &Vec<i32>, value: i32) -> (r: i64)
    requires
        vec@.len() <= i64::MAX,
    ensures
        r == count_value(vec@, value),
        r >= 0,
{
    let mut c: i64 = 0;
    let mut i: usize = 0;
    while i < vec.len()
        invariant
            i <= vec@.len() <= i64::MAX,
            0 <= c <= i,
            c == count_value(vec@.subrange(0, i as int), value),
        decreases vec@.len() - i,
    {
        proof {
            assert(vec@.subrange(0, i + 1).drop_last() =~= vec@.subrange(0, i as int));
            assert(vec@.subrange(0, i + 1).last() == vec@[i as int]);
        }
        if vec[i] == value {
            c = c + 1;
        }
        i += 1;
    }
    assert(vec@.subrange(0, vec@.len() as int) =~= vec@);
    c
}

/// The number of elements a host predicate selects. The predicate must be
/// pure; both classifications below then agree and pin the count down.
pub fn count_if<F: Fn(i32) -> bool>(src: &Vec<i32>, pred: F) -> (r: i64)
    requires
        src@.len() <= i64::MAX,
        pred_callable_on(pred, src@),
        pred_pure(pred),
    ensures
        r == src@.filter(|x: i32| accepted_by(pred, x)).len(),
        r == src@.filter(|x: i32| not_rejected_by(pred, x)).len(),
        r >= 0,
{
    let mut c: i64 = 0;
    let mut i: usize = 0;
    while i < src.len()
        invariant
            i <= src@.len() <= i64::MAX,
            pred_callable_on(pred, src@),
            pred_pure(pred),
            0 <= c <= i,
            c == src@.subrange(0, i as int).filter(|x: i32| accepted_by(pred, x)).len(),
            c == src@.subrange(0, i as int).filter(|x: i32| not_rejected_by(pred, x)).len(),
        decreases src@.len() - i,
    {
        let x = src[i];
        assert(call_requires(pred, (src@[i as int],)));
        let keep = pred(x);
        proof {
            lemma_filter_push(
                src@.subrange(0, i as int),
                |x: i32| accepted_by(pred, x),
                src@[i as int],
            );
            lemma_filter_push(
                src@.subrange(0, i as int),
                |x: i32| not_rejected_by(pred, x),
                src@[i as int],
            );
            assert(src@.subrange(0, i + 1) =~= src@.subrange(0, i as int).push(src@[i as int]));
        }
        if keep {
            c = c + 1;
        }
        i += 1;
    }
    assert(src@.subrange(0, src@.len() as int) =~= src@);
    c
}

/// Counting one value and counting with a predicate that selects exactly
/// that value are the same count.
pub proof fn lemma_count_is_count_if(s: Seq<i32>, v: i32, p: spec_fn(i32) -> bool)
    requires
        forall|x: i32| #[trigger] p(x) <==> x == v,
    ensures
        s.filter(p).len() == count_value(s, v),
    decreases s.len(),
{
    reveal(Seq::filter);
    if s.len() > 0 {
        lemma_count_is_count_if(s.drop_last(), v, p);
    }
}

/// Element-wise comparison of two views; views of unequal length are
/// never equal, empty views always are.
pub fn equal(slice1: &[i32], slice2: &[i32]) -> (r: bool)
    ensures
        r <==> slice1@ == slice2@,
{
    if slice1.len() != slice2.len() {
        return false;
    }
    let mut i: usize = 0;
    while i < slice1.len()
        invariant
            i <= slice1@.len() == slice2@.len(),
            forall|k: int| 0 <= k < i ==> slice1@[k] == slice2@[k],
        decreases slice1@.len() - i,
    {
        if slice1[i] != slice2[i] {
            return false;
        }
        i += 1;
    }
    assert(slice1@ =~= slice2@);
    true
}

/// View equality holds of every view with itself, and symmetrically: what
/// `equal` answers does not depend on the order of its arguments.
pub proof fn lemma_equal_reflexive_symmetric(s: Seq<i32>, t: Seq<i32>)
    ensures
        s == s,
        (s == t) <==> (t == s),
{
}

/// Does `src` end with `suffix`?
pub fn ends_with(src: &[i32], suffix: &[i32]) -> (r: bool)
    ensures
        r <==> is_suffix_of(suffix@, src@),
{
    if suffix.len() > src.len() {
        return false;
    }
    let offset = src.len() - suffix.len();
    let mut i: usize = 0;
    while i < suffix.len()
        invariant
            i <= suffix@.len() <= src@.len() <= usize::MAX,
            offset == src@.len() - suffix@.len(),
            forall|k: int| 0 <= k < i ==> src@[offset + k] == suffix@[k],
        decreases suffix@.len() - i,
    {
        if src[offset + i] != suffix[i] {
            assert(src@.subrange(src@.len() - suffix@.len(), src@.len() as int)[i as int]
                != suffix@[i as int]);
            return false;
        }
        i += 1;
    }
    assert(src@.subrange(src@.len() - suffix@.len(), src@.len() as int) =~= suffix@);
    true
}

/// The empty view is a suffix of every view, the empty one included; a
/// view strictly longer than `s` is never a suffix of `s`.
pub proof fn lemma_ends_with_trivial(s: Seq<i32>, t: Seq<i32>)
    ensures
        is_suffix_of(Seq::<i32>::empty(), s),
        t.len() > s.len() ==> !is_suffix_of(t, s),
{
    assert(s.subrange(s.len() as int, s.len() as int) =~= Seq::<i32>::empty());
}

/// Index of the first occurrence of `value`, if there is one.
pub fn find(slice: &[i32], value: i32) -> (r: Option<usize>)
    ensures
        (r matches Some(i) ==> i < slice@.len() && slice@[i as int] == value && (forall|j: int|
            0 <= j < i ==> slice@[j] != value)),
        (r is None ==> !slice@.contains(value)),
{
    let mut i: usize = 0;
    while i < slice.len()
        invariant
            i <= slice@.len(),
            forall|j: int| 0 <= j < i ==> slice@[j] != value,
        decreases slice@.len() - i,
    {
        if slice[i] == value {
            return Some(i);
        }
        i += 1;
    }
    assert(!slice@.contains(value));
    None
}

/// Index of the first occurrence as the signed scalar the bridge reports:
/// the smallest index holding `value`, or -1 exactly when `value` is
/// absent. The sentinel is distinguishable from every valid index.
pub fn find_index(slice: &[i32], value: i32) -> (r: i64)
    requires
        slice@.len() <= i64::MAX,
    ensures
        (r == -1 <==> !slice@.contains(value)),
        (r != -1 ==> 0 <= r < slice@.len() && slice@[r as int] == value && (forall|j: int|
            0 <= j < r ==> slice@[j] != value)),
{
    match find(slice, value) {
        Some(i) => {
            assert(slice@.contains(value));
            i as i64
        },
        None => -1,
    }
}

} // verus!
