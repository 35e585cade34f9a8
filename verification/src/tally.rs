//! Sums, counts and first-failure scans over sequences, together with the
//! facts the roster rules need about them — above all that sums and counts do
//! not depend on the order a sequence presents its elements in.

use vstd::prelude::*;
use vstd::seq_lib::commutative_foldr;
use vstd::seq_lib::group_to_multiset_ensures;
use vstd::seq_lib::lemma_fold_right_permutation;

verus! {

/// The sum of `f` over all elements of `s`.
pub open spec fn sum_over<A>(s: Seq<A>, f: spec_fn(A) -> int) -> int
    decreases s.len(),
{
    if s.len() == 0 {
        0
    } else {
        sum_over(s.drop_last(), f) + f(s.last())
    }
}

/// One for an element that satisfies `p`, zero otherwise.
pub open spec fn indicator<A>(p: spec_fn(A) -> bool) -> spec_fn(A) -> int {
    |a: A| if p(a) { 1int } else { 0int }
}

/// How many elements of `s` satisfy `p`.
pub open spec fn count_matching<A>(s: Seq<A>, p: spec_fn(A) -> bool) -> int {
    sum_over(s, indicator(p))
}

/// The first element of `s` that fails `ok`, if any.
pub open spec fn first_rejected<A>(s: Seq<A>, ok: spec_fn(A) -> bool) -> Option<A>
    decreases s.len(),
{
    if s.len() == 0 {
        None
    } else if !ok(s[0]) {
        Some(s[0])
    } else {
        first_rejected(s.drop_first(), ok)
    }
}

/// Extending the summed prefix of a sequence by one element adds that
/// element's contribution.
pub proof fn lemma_sum_over_take_succ<A>(s: Seq<A>, f: spec_fn(A) -> int, i: int)
    requires
        0 <= i < s.len(),
    ensures
        sum_over(s.take(i + 1), f) == sum_over(s.take(i), f) + f(s[i]),
{
    assert(s.take(i + 1).drop_last() =~= s.take(i));
    assert(s.take(i + 1).last() == s[i]);
}

/// Extending the counted prefix of a sequence by one element adds one
/// exactly when that element matches.
pub proof fn lemma_count_matching_take_succ<A>(s: Seq<A>, p: spec_fn(A) -> bool, i: int)
    requires
        0 <= i < s.len(),
    ensures
        count_matching(s.take(i + 1), p) == count_matching(s.take(i), p) + (if p(s[i]) {
            1int
        } else {
            0int
        }),
{
    lemma_sum_over_take_succ(s, indicator(p), i);
    assert(indicator(p)(s[i]) == (if p(s[i]) { 1int } else { 0int }));
}

/// `sum_over` is the fold of contributions over the sequence, whatever the
/// base value.
proof fn lemma_sum_over_as_fold<A>(s: Seq<A>, f: spec_fn(A) -> int, b: int)
    ensures
        s.fold_right(|a: A, acc: int| f(a) + acc, b) == sum_over(s, f) + b,
    decreases s.len(),
{
    if s.len() > 0 {
        lemma_sum_over_as_fold(s.drop_last(), f, f(s.last()) + b);
    }
}

/// Two sequences with the same elements (as a multiset) have the same sum:
/// summing is order-independent.
pub proof fn lemma_sum_over_permutation<A>(s1: Seq<A>, s2: Seq<A>, f: spec_fn(A) -> int)
    requires
        s1.to_multiset() == s2.to_multiset(),
    ensures
        sum_over(s1, f) == sum_over(s2, f),
{
    let g = |a: A, acc: int| f(a) + acc;
    assert(commutative_foldr(g));
    lemma_fold_right_permutation(s1, s2, g, 0);
    lemma_sum_over_as_fold(s1, f, 0);
    lemma_sum_over_as_fold(s2, f, 0);
}

/// Counting is order-independent too.
pub proof fn lemma_count_matching_permutation<A>(s1: Seq<A>, s2: Seq<A>, p: spec_fn(A) -> bool)
    requires
        s1.to_multiset() == s2.to_multiset(),
    ensures
        count_matching(s1, p) == count_matching(s2, p),
{
    lemma_sum_over_permutation(s1, s2, indicator(p));
}

/// If everything before position `i` passes and `s[i]` fails, the scan
/// reports `s[i]`.
pub proof fn lemma_first_rejected_at<A>(s: Seq<A>, ok: spec_fn(A) -> bool, i: int)
    requires
        0 <= i < s.len(),
        forall|k: int| 0 <= k < i ==> ok(s[k]),
        !ok(s[i]),
    ensures
        first_rejected(s, ok) == Some(s[i]),
    decreases i,
{
    if i > 0 {
        assert(forall|k: int| 0 <= k < i - 1 ==> ok(#[trigger] s.drop_first()[k]));
        assert(s.drop_first()[i - 1] == s[i]);
        lemma_first_rejected_at(s.drop_first(), ok, i - 1);
    }
}

/// The scan finds nothing exactly when every element passes.
pub proof fn lemma_first_rejected_none_iff<A>(s: Seq<A>, ok: spec_fn(A) -> bool)
    ensures
        first_rejected(s, ok) is None <==> (forall|k: int| 0 <= k < s.len() ==> ok(s[k])),
    decreases s.len(),
{
    if s.len() > 0 {
        lemma_first_rejected_none_iff(s.drop_first(), ok);
        if first_rejected(s, ok) is None {
            assert forall|k: int| 0 <= k < s.len() implies ok(s[k]) by {
                if k > 0 {
                    assert(s.drop_first()[k - 1] == s[k]);
                }
            }
        }
        if forall|k: int| 0 <= k < s.len() ==> ok(s[k]) {
            assert forall|k: int| 0 <= k < s.drop_first().len() implies ok(s.drop_first()[k]) by {
                assert(s.drop_first()[k] == s[k + 1]);
            }
        }
    }
}

/// Mapping a function over two sequences with the same elements yields the
/// same elements.
pub proof fn lemma_map_values_multiset<A, B>(s1: Seq<A>, s2: Seq<A>, f: spec_fn(A) -> B)
    requires
        s1.to_multiset() == s2.to_multiset(),
    ensures
        s1.map_values(f).to_multiset() == s2.map_values(f).to_multiset(),
    decreases s1.len(),
{
    broadcast use group_to_multiset_ensures;

    if s1.len() == 0 {
        assert(s2.to_multiset().len() == 0);
        assert(s1.map_values(f).to_multiset() =~= s2.map_values(f).to_multiset());
    } else {
        let a = s1.last();
        assert(s1.contains(a));
        assert(s2.to_multiset().count(a) > 0);
        assert(s2.contains(a));
        let i = choose|i: int| 0 <= i < s2.len() && s2[i] == a;
        assert(s1.drop_last() =~= s1.remove(s1.len() - 1));
        assert(s1.drop_last().to_multiset() == s1.to_multiset().remove(a));
        assert(s2.remove(i).to_multiset() == s2.to_multiset().remove(a));
        lemma_map_values_multiset(s1.drop_last(), s2.remove(i), f);
        assert(s1.map_values(f) =~= s1.drop_last().map_values(f).push(f(a)));
        assert(s1.map_values(f).to_multiset() == s1.drop_last().map_values(f).to_multiset().insert(
            f(a),
        ));
        assert(s2.remove(i).map_values(f) =~= s2.map_values(f).remove(i));
        assert(s2.map_values(f).remove(i).to_multiset() == s2.map_values(f).to_multiset().remove(
            f(a),
        ));
        assert(s2.map_values(f).to_multiset().count(f(a)) > 0) by {
            assert(s2.map_values(f)[i] == f(a));
            assert(s2.map_values(f).contains(f(a)));
        }
        assert(s1.map_values(f).to_multiset() =~= s2.map_values(f).to_multiset());
    }
}

} // verus!
