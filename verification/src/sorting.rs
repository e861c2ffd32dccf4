use crate::callbacks::comp_callable;
use crate::callbacks::comp_pure;
use crate::callbacks::ordered_before;
use crate::errors::HpxError;
use vstd::prelude::*;

verus! {

/// `s` is non-decreasing.
pub open spec fn sorted(s: Seq<i32>) -> bool {
    forall|i: int, j: int| 0 <= i < j < s.len() ==> s[i] <= s[j]
}

/// `lt` is a strict weak ordering: asymmetric, and whenever `a` precedes
/// `c`, every `b` either follows `a` or precedes `c`. Transitivity of the
/// order and of incomparability both follow from these two.
pub open spec fn strict_weak_order(lt: spec_fn(i32, i32) -> bool) -> bool {
    (forall|a: i32, b: i32| #[trigger] lt(a, b) ==> !lt(b, a)) && (forall|a: i32, b: i32, c: i32|
        #![trigger lt(a, c), lt(a, b)]
        lt(a, c) ==> lt(a, b) || lt(b, c))
}

/// `s` is ordered by `lt`: no later element strictly precedes an earlier
/// one.
pub open spec fn sorted_by_lt(s: Seq<i32>, lt: spec_fn(i32, i32) -> bool) -> bool {
    forall|i: int, j: int| 0 <= i < j < s.len() ==> !lt(s[j], s[i])
}

/// Exchange the elements at two positions; the contents as a multiset do
/// not change.
fn swap_elements(v: &mut Vec<i32>, a: usize, b: usize)
    requires
        a < old(v)@.len(),
        b < old(v)@.len(),
    ensures
        final(v)@ == old(v)@.update(a as int, old(v)@[b as int]).update(
            b as int,
            old(v)@[a as int],
        ),
        final(v)@.to_multiset() == old(v)@.to_multiset(),
{
    let x = v[a];
    let y = v[b];
    v[a] = y;
    v[b] = x;
    proof {
        broadcast use vstd::multiset::group_multiset_axioms;
        broadcast use vstd::seq_lib::group_to_multiset_ensures;

        let s0 = old(v)@;
        let s1 = s0.update(a as int, y);
        let s2 = s1.update(b as int, x);
        vstd::seq_lib::to_multiset_update(s0, a as int, y);
        vstd::seq_lib::to_multiset_update(s1, b as int, x);
        assert(s0.contains(x)) by {
            assert(s0[a as int] == x);
        }
        assert(s1[b as int] == y);
        assert(s2.to_multiset() =~= s0.to_multiset());
    }
}

/// Selection of a partially sorted order, generic in the comparison. The
/// executable comparator `comp` must compute the pure ordering `lt`; the
/// first `last` positions end up holding a minimal selection of the
/// contents, and, whenever `lt` really is a strict weak ordering, ordered
/// by `lt` and none preceded by an element of the remainder. A comparator
/// whose ordering is no strict weak ordering still yields a permutation,
/// only in an unspecified order.
fn selection_partial_sort<F: Fn(i32, i32) -> bool>(
    v: &mut Vec<i32>,
    last: usize,
    comp: F,
    Ghost(lt): Ghost<spec_fn(i32, i32) -> bool>,
)
    requires
        last <= old(v)@.len(),
        forall|a: i32, b: i32| #[trigger] call_requires(comp, (a, b)),
        forall|a: i32, b: i32, r: bool| #[trigger] call_ensures(comp, (a, b), r) ==> r == lt(a, b),
    ensures
        final(v)@.len() == old(v)@.len(),
        final(v)@.to_multiset() == old(v)@.to_multiset(),
        strict_weak_order(lt) ==> (forall|i: int, j: int|
            0 <= i < j < last ==> !lt(final(v)@[j], final(v)@[i])),
        strict_weak_order(lt) ==> (forall|i: int, j: int|
            0 <= i < last <= j < final(v)@.len() ==> !lt(final(v)@[j], final(v)@[i])),
{
    let n = v.len();
    assert(n == v@.len());
    let mut p: usize = 0;
    while p < last
        invariant
            p <= last <= v@.len() <= usize::MAX,
            v@.len() == old(v)@.len(),
            v@.to_multiset() == old(v)@.to_multiset(),
            forall|a: i32, b: i32| #[trigger] call_requires(comp, (a, b)),
            forall|a: i32, b: i32, r: bool| #[trigger] call_ensures(comp, (a, b), r) ==> r == lt(
                a,
                b,
            ),
            strict_weak_order(lt) ==> (forall|i: int, j: int|
                0 <= i < j < p ==> !lt(v@[j], v@[i])),
            strict_weak_order(lt) ==> (forall|i: int, j: int|
                0 <= i < p <= j < v@.len() ==> !lt(v@[j], v@[i])),
        decreases last - p,
    {
        let mut m: usize = p;
        let mut j: usize = p + 1;
        while j < v.len()
            invariant
                p <= m < j <= v@.len(),
                v@.len() == old(v)@.len(),
                forall|a: i32, b: i32| #[trigger] call_requires(comp, (a, b)),
                forall|a: i32, b: i32, r: bool| #[trigger] call_ensures(comp, (a, b), r) ==> r
                    == lt(a, b),
                strict_weak_order(lt) ==> (forall|k: int| p <= k < j ==> !lt(v@[k], v@[m as int])),
            decreases v@.len() - j,
        {
            let candidate = v[j];
            let current = v[m];
            if comp(candidate, current) {
                proof {
                    if strict_weak_order(lt) {
                        assert forall|k: int| p <= k < j implies !lt(v@[k], v@[j as int]) by {
                            if lt(v@[k], v@[j as int]) {
                                // every b follows v[k] or precedes v[j];
                                // both branches contradict what the scan
                                // knows
                                assert(lt(v@[k], v@[m as int]) || lt(v@[m as int], v@[j as int]));
                            }
                        }
                    }
                }
                m = j;
            }
            j += 1;
        }
        let ghost pre = v@;
        swap_elements(v, p, m);
        proof {
            if strict_weak_order(lt) {
                assert(forall|k: int| p <= k < pre.len() ==> !lt(pre[k], pre[m as int]));
                assert forall|i: int, j2: int| 0 <= i < j2 < p + 1 implies !lt(v@[j2], v@[i]) by {
                    if j2 < p {
                    } else {
                        assert(v@[j2] == pre[m as int]);
                        assert(v@[i] == pre[i]);
                    }
                }
                assert forall|i: int, j2: int|
                    0 <= i < p + 1 <= j2 < v@.len() implies !lt(v@[j2], v@[i]) by {
                    assert(v@[j2] == pre[j2] || v@[j2] == pre[p as int]);
                    if i < p {
                        assert(v@[i] == pre[i]);
                    } else {
                        assert(v@[i] == pre[m as int]);
                    }
                }
            }
        }
        p += 1;
    }
}

/// Reorder the whole view ascending, in place: the result is
/// non-decreasing and holds the same elements, as a multiset, as before.
pub fn sort(src: &mut Vec<i32>)
    ensures
        final(src)@.len() == old(src)@.len(),
        final(src)@.to_multiset() == old(src)@.to_multiset(),
        sorted(final(src)@),
{
    let n = src.len();
    let comp = |a: i32, b: i32| -> (r: bool)
        ensures
            r == (a < b),
        { a < b };
    proof {
        assert(strict_weak_order(|a: i32, b: i32| a < b));
    }
    selection_partial_sort(src, n, comp, Ghost(|a: i32, b: i32| a < b));
}

/// Reorder the whole view in place by a pure host comparator: the
/// contents are unchanged as a multiset, and whenever the comparator's
/// ordering is a strict weak ordering, afterwards no later element
/// precedes an earlier one. A comparator violating strict weak ordering
/// yields an unspecified, never an undefined, order.
pub fn sort_by<F: Fn(i32, i32) -> bool>(src: &mut Vec<i32>, comp: F)
    requires
        comp_callable(comp),
        comp_pure(comp),
    ensures
        final(src)@.len() == old(src)@.len(),
        final(src)@.to_multiset() == old(src)@.to_multiset(),
        strict_weak_order(|a: i32, b: i32| ordered_before(comp, a, b)) ==> sorted_by_lt(
            final(src)@,
            |a: i32, b: i32| ordered_before(comp, a, b),
        ),
{
    let n = src.len();
    proof {
        assert forall|a: i32, b: i32, r: bool| #[trigger] call_ensures(comp, (a, b), r) implies r
            == ordered_before(comp, a, b) by {
            if r {
            } else {
                assert(!call_ensures(comp, (a, b), true));
            }
        }
    }
    selection_partial_sort(src, n, comp, Ghost(|a: i32, b: i32| ordered_before(comp, a, b)));
}

/// Reorder the view in place so that its first `last` elements are the
/// smallest ones, sorted ascending, each no greater than every element of
/// the remainder. A bound beyond the view's length is an invalid range
/// and leaves the view untouched.
pub fn partial_sort(src: &mut Vec<i32>, last: usize) -> (r: Result<(), HpxError>)
    ensures
        last <= old(src)@.len() ==> r == Ok::<(), HpxError>(()) && final(src)@.len() == old(
            src,
        )@.len() && final(src)@.to_multiset() == old(src)@.to_multiset() && sorted(
            final(src)@.subrange(0, last as int),
        ) && (forall|i: int, j: int|
            0 <= i < last <= j < final(src)@.len() ==> final(src)@[i] <= final(src)@[j]),
        last > old(src)@.len() ==> r == Err::<(), HpxError>(HpxError::InvalidRange) && final(src)@
            == old(src)@,
{
    if last > src.len() {
        return Err(HpxError::InvalidRange);
    }
    let comp = |a: i32, b: i32| -> (r: bool)
        ensures
            r == (a < b),
        { a < b };
    proof {
        assert(strict_weak_order(|a: i32, b: i32| a < b));
    }
    selection_partial_sort(src, last, comp, Ghost(|a: i32, b: i32| a < b));
    assert(sorted(src@.subrange(0, last as int))) by {
        assert forall|i: int, j: int|
            0 <= i < j < last implies src@.subrange(0, last as int)[i] <= src@.subrange(
            0,
            last as int,
        )[j] by {
            assert(!(src@[j] < src@[i]));
        }
    }
    Ok(())
}

/// The comparator form of `partial_sort`: when the pure host comparator's
/// ordering is a strict weak ordering, the first `last` elements end up
/// ordered by it and none of them is preceded by any element of the
/// remainder; whatever the comparator, the contents stay a permutation.
/// A bound beyond the view's length is an invalid range and leaves the
/// view untouched.
pub fn partial_sort_by<F: Fn(i32, i32) -> bool>(src: &mut Vec<i32>, last: usize, comp: F) -> (r:
    Result<(), HpxError>)
    requires
        comp_callable(comp),
        comp_pure(comp),
    ensures
        last <= old(src)@.len() ==> r == Ok::<(), HpxError>(()) && final(src)@.len() == old(
            src,
        )@.len() && final(src)@.to_multiset() == old(src)@.to_multiset() && (strict_weak_order(
            |a: i32, b: i32| ordered_before(comp, a, b),
        ) ==> sorted_by_lt(
            final(src)@.subrange(0, last as int),
            |a: i32, b: i32| ordered_before(comp, a, b),
        ) && (forall|i: int, j: int|
            0 <= i < last <= j < final(src)@.len() ==> !ordered_before(
                comp,
                final(src)@[j],
                final(src)@[i],
            ))),
        last > old(src)@.len() ==> r == Err::<(), HpxError>(HpxError::InvalidRange) && final(src)@
            == old(src)@,
{
    if last > src.len() {
        return Err(HpxError::InvalidRange);
    }
    proof {
        assert forall|a: i32, b: i32, r: bool| #[trigger] call_ensures(comp, (a, b), r) implies r
            == ordered_before(comp, a, b) by {
            if r {
            } else {
                assert(!call_ensures(comp, (a, b), true));
            }
        }
    }
    selection_partial_sort(src, last, comp, Ghost(|a: i32, b: i32| ordered_before(comp, a, b)));
    proof {
        if strict_weak_order(|a: i32, b: i32| ordered_before(comp, a, b)) {
            assert forall|i: int, j: int|
                0 <= i < j < last implies !ordered_before(
                comp,
                src@.subrange(0, last as int)[j],
                src@.subrange(0, last as int)[i],
            ) by {
                assert(!ordered_before(comp, src@[j], src@[i]));
            }
        }
    }
    Ok(())
}

} // verus!
