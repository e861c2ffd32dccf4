use crate::callbacks::accepted_by;
use crate::callbacks::not_rejected_by;
use crate::callbacks::pred_callable_on;
use crate::callbacks::pred_pure;
use crate::seq_facts::lemma_filter_push;
use crate::seq_facts::lemma_filter_sandwich;
use vstd::prelude::*;

verus! {

/// The one selection rule the bridge ships ready-made: divisibility by
/// three.
pub open spec fn divisible_by_three(x: i32) -> bool {
    x % 3 == 0
}

/// Element-wise copy of a view into a fresh buffer of the same length.
pub fn copy_vector(src: &[i32]) -> (r: Vec<i32>)
    ensures
        r@ == src@,
{
    let mut dest: Vec<i32> = Vec::new();
    let mut i: usize = 0;
    while i < src.len()
        invariant
            i <= src@.len(),
            dest@ == src@.subrange(0, i as int),
        decreases src@.len() - i,
    {
        dest.push(src[i]);
        assert(dest@ =~= src@.subrange(0, i + 1));
        i += 1;
    }
    assert(dest@ =~= src@);
    dest
}

/// Copy of the first `count` elements of a view. A count that exceeds the
/// source length is an invalid range and is reported, never truncated.
pub fn copy_n(src: &[i32], count: usize) -> (r: Result<Vec<i32>, &'static str>)
    ensures
        count <= src@.len() ==> (r matches Ok(v) && v@ == src@.subrange(0, count as int)),
        count > src@.len() ==> (r matches Err(m) && m@
            == "count larger than source slice length"@),
{
    if count > src.len() {
        return Err("count larger than source slice length");
    }
    let mut dest: Vec<i32> = Vec::new();
    let mut i: usize = 0;
    while i < count
        invariant
            i <= count <= src@.len(),
            dest@ == src@.subrange(0, i as int),
        decreases count - i,
    {
        dest.push(src[i]);
        assert(dest@ =~= src@.subrange(0, i + 1));
        i += 1;
    }
    Ok(dest)
}

/// Copy of exactly the elements a host predicate selects, in source
/// order. The predicate must be pure; its applications may then happen in
/// any order, even concurrently, without changing the result, which both
/// classifications below pin down to one filter of the source.
pub fn copy_if<F: Fn(i32) -> bool>(src: &Vec<i32>, pred: F) -> (r: Vec<i32>)
    requires
        pred_callable_on(pred, src@),
        pred_pure(pred),
    ensures
        r@ == src@.filter(|x: i32| accepted_by(pred, x)),
        r@ == src@.filter(|x: i32| not_rejected_by(pred, x)),
{
    let mut dest: Vec<i32> = Vec::new();
    let mut i: usize = 0;
    while i < src.len()
        invariant
            i <= src@.len(),
            pred_callable_on(pred, src@),
            pred_pure(pred),
            dest@ == src@.subrange(0, i as int).filter(|x: i32| accepted_by(pred, x)),
            dest@ == src@.subrange(0, i as int).filter(|x: i32| not_rejected_by(pred, x)),
        decreases src@.len() - i,
    {
        let x = src[i];
        assert(call_requires(pred, (src@[i as int],)));
        let keep = pred(x);
        proof {
            lemma_filter_push(
                src@.subrange(0, i as int),
                |x: i32| accepted_by(pred, x),
                src@[i as int],
            );
            lemma_filter_push(
                src@.subrange(0, i as int),
                |x: i32| not_rejected_by(pred, x),
                src@[i as int],
            );
            assert(src@.subrange(0, i + 1) =~= src@.subrange(0, i as int).push(src@[i as int]));
        }
        if keep {
            dest.push(x);
        }
        i += 1;
    }
    assert(src@.subrange(0, src@.len() as int) =~= src@);
    dest
}

/// Copy of exactly the elements divisible by three, in source order.
pub fn copy_if_divisiblileityby3(src: &Vec<i32>) -> (r: Vec<i32>)
    ensures
        r@ == src@.filter(|x: i32| divisible_by_three(x)),
{
    let pred = |x: i32| -> (keep: bool)
        ensures
            keep == divisible_by_three(x),
        { x % 3 == 0 };
    let dest = copy_if(src, pred);
    proof {
        lemma_filter_sandwich(
            src@,
            |x: i32| accepted_by(pred, x),
            |x: i32| not_rejected_by(pred, x),
            |x: i32| divisible_by_three(x),
        );
    }
    dest
}

/// Set every element of the view to `value`; an empty view is a valid
/// no-op.
pub fn fill(vec: &mut Vec<i32>, value: i32)
    ensures
        final(vec)@.len() == old(vec)@.len(),
        forall|i: int| 0 <= i < final(vec)@.len() ==> final(vec)@[i] == value,
{
    let n = vec.len();
    let mut i: usize = 0;
    while i < n
        invariant
            i <= n,
            vec@.len() == n,
            forall|k: int| 0 <= k < i ==> vec@[k] == value,
        decreases n - i,
    {
        vec[i] = value;
        i += 1;
    }
}

} // verus!
