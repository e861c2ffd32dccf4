use crate::sorting::sorted;
use vstd::multiset::Multiset;
use vstd::prelude::*;
use vstd::seq_lib::group_to_multiset_ensures;
use vstd::seq_lib::lemma_multiset_commutative;

verus! {

/// The stable two-way merge: while both sequences are non-empty the
/// smaller head is taken next, the left one on ties.
pub open spec fn merge_with(s1: Seq<i32>, s2: Seq<i32>) -> Seq<i32>
    decreases s1.len(), s2.len(),
{
    if s1.len() == 0 {
        s2
    } else if s2.len() == 0 {
        s1
    } else if s1.first() <= s2.first() {
        seq![s1.first()] + merge_with(s1.drop_first(), s2)
    } else {
        seq![s2.first()] + merge_with(s1, s2.drop_first())
    }
}

/// Merging keeps exactly the elements of both inputs: the length of the
/// merge is the sum of the lengths, and its multiset the sum of the
/// multisets.
pub proof fn lemma_merge_with_contents(s1: Seq<i32>, s2: Seq<i32>)
    ensures
        merge_with(s1, s2).len() == s1.len() + s2.len(),
        merge_with(s1, s2).to_multiset() == s1.to_multiset().add(s2.to_multiset()),
    decreases s1.len(), s2.len(),
{
    broadcast use vstd::multiset::group_multiset_axioms;
    broadcast use group_to_multiset_ensures;

    if s1.len() == 0 {
        assert(s1.to_multiset().len() == 0);
        assert(merge_with(s1, s2).to_multiset() =~= s1.to_multiset().add(s2.to_multiset()));
    } else if s2.len() == 0 {
        assert(s2.to_multiset().len() == 0);
        assert(merge_with(s1, s2).to_multiset() =~= s1.to_multiset().add(s2.to_multiset()));
    } else if s1.first() <= s2.first() {
        lemma_merge_with_contents(s1.drop_first(), s2);
        lemma_multiset_commutative(seq![s1.first()], merge_with(s1.drop_first(), s2));
        assert(seq![s1.first()].to_multiset() =~= Multiset::<i32>::empty().insert(s1.first()));
        assert(s1 =~= seq![s1.first()] + s1.drop_first());
        lemma_multiset_commutative(seq![s1.first()], s1.drop_first());
        assert(merge_with(s1, s2).to_multiset() =~= s1.to_multiset().add(s2.to_multiset()));
    } else {
        lemma_merge_with_contents(s1, s2.drop_first());
        lemma_multiset_commutative(seq![s2.first()], merge_with(s1, s2.drop_first()));
        assert(seq![s2.first()].to_multiset() =~= Multiset::<i32>::empty().insert(s2.first()));
        assert(s2 =~= seq![s2.first()] + s2.drop_first());
        lemma_multiset_commutative(seq![s2.first()], s2.drop_first());
        assert(merge_with(s1, s2).to_multiset() =~= s1.to_multiset().add(s2.to_multiset()));
    }
}

/// Merging two ascending sequences yields an ascending sequence: together
/// with `lemma_merge_with_contents`, the merge of two sorted inputs is
/// the sorted, stable arrangement of both.
pub proof fn lemma_merge_with_sorted(s1: Seq<i32>, s2: Seq<i32>)
    requires
        sorted(s1),
        sorted(s2),
    ensures
        sorted(merge_with(s1, s2)),
    decreases s1.len(), s2.len(),
{
    broadcast use vstd::multiset::group_multiset_axioms;
    broadcast use group_to_multiset_ensures;

    if s1.len() == 0 || s2.len() == 0 {
    } else if s1.first() <= s2.first() {
        let rest = merge_with(s1.drop_first(), s2);
        lemma_merge_with_sorted(s1.drop_first(), s2);
        lemma_merge_with_contents(s1.drop_first(), s2);
        assert forall|k: int| 0 <= k < rest.len() implies s1.first() <= rest[k] by {
            assert(rest.to_multiset().count(rest[k]) > 0) by {
                assert(rest.contains(rest[k]));
            }
            if s1.drop_first().to_multiset().count(rest[k]) > 0 {
                let i = choose|i: int|
                    0 <= i < s1.drop_first().len() && s1.drop_first()[i] == rest[k];
                assert(s1[i + 1] == rest[k]);
            } else {
                assert(s2.to_multiset().count(rest[k]) > 0);
                let i = choose|i: int| 0 <= i < s2.len() && s2[i] == rest[k];
                assert(s2.first() <= s2[i]);
            }
        }
        assert(sorted(seq![s1.first()] + rest));
    } else {
        let rest = merge_with(s1, s2.drop_first());
        lemma_merge_with_sorted(s1, s2.drop_first());
        lemma_merge_with_contents(s1, s2.drop_first());
        assert forall|k: int| 0 <= k < rest.len() implies s2.first() <= rest[k] by {
            assert(rest.to_multiset().count(rest[k]) > 0) by {
                assert(rest.contains(rest[k]));
            }
            if s1.to_multiset().count(rest[k]) > 0 {
                let i = choose|i: int| 0 <= i < s1.len() && s1[i] == rest[k];
                assert(s1.first() <= s1[i]);
            } else {
                assert(s2.drop_first().to_multiset().count(rest[k]) > 0);
                let i = choose|i: int|
                    0 <= i < s2.drop_first().len() && s2.drop_first()[i] == rest[k];
                assert(s2[i + 1] == rest[k]);
            }
        }
        assert(sorted(seq![s2.first()] + rest));
    }
}

/// Merge two views into a fresh buffer. The result is always the stable
/// two-way merge of the inputs, holding all their elements; when both
/// inputs are individually ascending it is their sorted, stable
/// arrangement. Unsorted inputs are not an error: the result is still the
/// merge below, only not ascending.
pub fn merge(src1: &[i32], src2: &[i32]) -> (r: Vec<i32>)
    ensures
        r@ == merge_with(src1@, src2@),
        r@.len() == src1@.len() + src2@.len(),
        r@.to_multiset() == src1@.to_multiset().add(src2@.to_multiset()),
        sorted(src1@) && sorted(src2@) ==> sorted(r@),
{
    let mut dest: Vec<i32> = Vec::new();
    let mut i1: usize = 0;
    let mut i2: usize = 0;
    assert(dest@ + merge_with(src1@.skip(0), src2@.skip(0)) =~= merge_with(src1@, src2@)) by {
        assert(src1@.skip(0) =~= src1@);
        assert(src2@.skip(0) =~= src2@);
    }
    while i1 < src1.len() || i2 < src2.len()
        invariant
            i1 <= src1@.len(),
            i2 <= src2@.len(),
            merge_with(src1@, src2@) == dest@ + merge_with(
                src1@.skip(i1 as int),
                src2@.skip(i2 as int),
            ),
        decreases src1@.len() - i1 + src2@.len() - i2,
    {
        let ghost r1 = src1@.skip(i1 as int);
        let ghost r2 = src2@.skip(i2 as int);
        let take_first = if i2 == src2.len() {
            true
        } else if i1 == src1.len() {
            false
        } else {
            src1[i1] <= src2[i2]
        };
        if take_first {
            proof {
                assert(r1.len() > 0);
                assert(r1.first() == src1@[i1 as int]);
                assert(r1.drop_first() =~= src1@.skip(i1 + 1));
                if r2.len() == 0 {
                    assert(r1 =~= seq![r1.first()] + r1.drop_first());
                    assert(merge_with(r1, r2) == r1);
                    assert(merge_with(r1.drop_first(), r2) == r1.drop_first());
                }
                assert(merge_with(r1, r2) == seq![r1.first()] + merge_with(r1.drop_first(), r2));
                assert(dest@.push(src1@[i1 as int]) + merge_with(src1@.skip(i1 + 1), r2) =~= dest@
                    + merge_with(r1, r2));
            }
            dest.push(src1[i1]);
            i1 += 1;
        } else {
            proof {
                assert(r2.len() > 0);
                assert(r2.first() == src2@[i2 as int]);
                assert(r2.drop_first() =~= src2@.skip(i2 + 1));
                if r1.len() == 0 {
                    assert(r2 =~= seq![r2.first()] + r2.drop_first());
                    assert(merge_with(r1, r2) == r2);
                    assert(merge_with(r1, r2.drop_first()) == r2.drop_first());
                }
                assert(merge_with(r1, r2) == seq![r2.first()] + merge_with(r1, r2.drop_first()));
                assert(dest@.push(src2@[i2 as int]) + merge_with(r1, src2@.skip(i2 + 1)) =~= dest@
                    + merge_with(r1, r2));
            }
            dest.push(src2[i2]);
            i2 += 1;
        }
    }
    proof {
        assert(src1@.skip(i1 as int).len() == 0);
        assert(src2@.skip(i2 as int).len() == 0);
        assert(dest@ =~= dest@ + merge_with(src1@.skip(i1 as int), src2@.skip(i2 as int)));
        lemma_merge_with_contents(src1@, src2@);
        if sorted(src1@) && sorted(src2@) {
            lemma_merge_with_sorted(src1@, src2@);
        }
    }
    dest
}

} // verus!
