//! Ranking rows by an integer key, highest first, stably: rows that tie keep
//! the order they arrived in. Callers attach the key they want to rank by.

use vstd::prelude::*;

verus! {

/// Keys run from highest to lowest.
pub open spec fn keys_sorted_desc<T>(s: Seq<(i64, T)>) -> bool {
    forall|i: int, j: int| 0 <= i < j < s.len() ==> s[i].0 >= s[j].0
}

/// Insert one row into a ranked list, after every row with at least as high
/// a key: ties keep their present order.
pub open spec fn spec_insert_keyed<T>(sorted: Seq<(i64, T)>, x: (i64, T)) -> Seq<(i64, T)>
    decreases sorted.len(),
{
    if sorted.len() == 0 {
        seq![x]
    } else if sorted[0].0 < x.0 {
        seq![x] + sorted
    } else {
        seq![sorted[0]] + spec_insert_keyed(sorted.drop_first(), x)
    }
}

/// Rank rows by key, highest first, stably.
pub open spec fn spec_rank_keyed<T>(entries: Seq<(i64, T)>) -> Seq<(i64, T)>
    decreases entries.len(),
{
    if entries.len() == 0 {
        Seq::empty()
    } else {
        spec_insert_keyed(spec_rank_keyed(entries.drop_last()), entries.last())
    }
}

proof fn lemma_insert_keyed_multiset<T>(sorted: Seq<(i64, T)>, x: (i64, T))
    ensures
        spec_insert_keyed(sorted, x).to_multiset() == sorted.to_multiset().insert(x),
        spec_insert_keyed(sorted, x).len() == sorted.len() + 1,
    decreases sorted.len(),
{
    broadcast use vstd::seq_lib::group_to_multiset_ensures;

    if sorted.len() == 0 {
        assert(spec_insert_keyed(sorted, x) =~= Seq::empty().push(x));
        assert(spec_insert_keyed(sorted, x).to_multiset() =~= sorted.to_multiset().insert(x));
    } else if sorted[0].0 < x.0 {
        let out = seq![x] + sorted;
        vstd::seq_lib::lemma_multiset_commutative(seq![x], sorted);
        assert(seq![x].to_multiset() =~= vstd::multiset::Multiset::empty().insert(x)) by {
            assert(seq![x] =~= Seq::empty().push(x));
        }
        assert(out.to_multiset() =~= sorted.to_multiset().insert(x));
    } else {
        lemma_insert_keyed_multiset(sorted.drop_first(), x);
        let rest = spec_insert_keyed(sorted.drop_first(), x);
        let out = seq![sorted[0]] + rest;
        vstd::seq_lib::lemma_multiset_commutative(seq![sorted[0]], rest);
        assert(seq![sorted[0]].to_multiset() =~= vstd::multiset::Multiset::empty().insert(
            sorted[0],
        )) by {
            assert(seq![sorted[0]] =~= Seq::empty().push(sorted[0]));
        }
        assert(sorted =~= seq![sorted[0]] + sorted.drop_first());
        vstd::seq_lib::lemma_multiset_commutative(seq![sorted[0]], sorted.drop_first());
        assert(out.to_multiset() =~= sorted.to_multiset().insert(x));
    }
}

proof fn lemma_insert_keyed_sorted<T>(sorted: Seq<(i64, T)>, x: (i64, T))
    requires
        keys_sorted_desc(sorted),
    ensures
        keys_sorted_desc(spec_insert_keyed(sorted, x)),
    decreases sorted.len(),
{
    broadcast use vstd::seq_lib::group_to_multiset_ensures;

    if sorted.len() == 0 {
    } else if sorted[0].0 < x.0 {
    } else {
        assert(keys_sorted_desc(sorted.drop_first()));
        lemma_insert_keyed_sorted(sorted.drop_first(), x);
        lemma_insert_keyed_multiset(sorted.drop_first(), x);
        let rest = spec_insert_keyed(sorted.drop_first(), x);
        let out = seq![sorted[0]] + rest;
        assert forall|i: int, j: int| 0 <= i < j < out.len() implies out[i].0 >= out[j].0 by {
            if i == 0 {
                assert(rest.contains(rest[j - 1]));
                assert(rest.to_multiset().count(rest[j - 1]) > 0);
                if rest[j - 1] == x {
                } else {
                    assert(sorted.drop_first().to_multiset().count(rest[j - 1]) > 0);
                    assert(sorted.drop_first().contains(rest[j - 1]));
                    let w = choose|w: int|
                        0 <= w < sorted.drop_first().len() && sorted.drop_first()[w] == rest[j - 1];
                    assert(sorted[w + 1] == rest[j - 1]);
                }
            } else {
                assert(out[i] == rest[i - 1]);
                assert(out[j] == rest[j - 1]);
            }
        }
    }
}

/// Ranking keeps exactly the rows it was given, keys highest first.
pub proof fn lemma_rank_keyed_sorted<T>(entries: Seq<(i64, T)>)
    ensures
        keys_sorted_desc(spec_rank_keyed(entries)),
        spec_rank_keyed(entries).to_multiset() == entries.to_multiset(),
        spec_rank_keyed(entries).len() == entries.len(),
    decreases entries.len(),
{
    broadcast use vstd::seq_lib::group_to_multiset_ensures;

    if entries.len() > 0 {
        lemma_rank_keyed_sorted(entries.drop_last());
        lemma_insert_keyed_sorted(spec_rank_keyed(entries.drop_last()), entries.last());
        lemma_insert_keyed_multiset(spec_rank_keyed(entries.drop_last()), entries.last());
        assert(entries =~= entries.drop_last().push(entries.last()));
        assert(entries.drop_last().push(entries.last()).to_multiset()
            == entries.drop_last().to_multiset().insert(entries.last()));
    }
}

proof fn lemma_insert_keyed_at<T>(sorted: Seq<(i64, T)>, x: (i64, T), j: int)
    requires
        0 <= j <= sorted.len(),
        forall|k: int| 0 <= k < j ==> sorted[k].0 >= x.0,
        j < sorted.len() ==> sorted[j].0 < x.0,
    ensures
        spec_insert_keyed(sorted, x) == sorted.insert(j, x),
    decreases j,
{
    if j == 0 {
        assert(spec_insert_keyed(sorted, x) =~= sorted.insert(0, x));
    } else {
        assert(forall|k: int| 0 <= k < j - 1 ==> (#[trigger] sorted.drop_first()[k]).0 >= x.0);
        lemma_insert_keyed_at(sorted.drop_first(), x, j - 1);
        assert(spec_insert_keyed(sorted, x) =~= sorted.insert(j, x));
    }
}

fn insert_keyed<T>(ranked: &mut Vec<(i64, T)>, x: (i64, T))
    ensures
        final(ranked)@ == spec_insert_keyed(old(ranked)@, x),
{
    let n = ranked.len();
    let ghost s0 = ranked@;
    let mut j: usize = 0;
    while j < n && ranked[j].0 >= x.0
        invariant
            0 <= j <= n,
            n == ranked@.len(),
            ranked@ == s0,
            forall|k: int| 0 <= k < j ==> s0[k].0 >= x.0,
        decreases n - j,
    {
        j += 1;
    }
    proof {
        lemma_insert_keyed_at(s0, x, j as int);
    }
    ranked.insert(j, x);
}

/// Rank keyed rows, highest key first; rows with equal keys keep the order
/// they arrived in.
pub fn rank_by_key_desc<T>(entries: Vec<(i64, T)>) -> (ranked: Vec<(i64, T)>)
    ensures
        ranked@ == spec_rank_keyed(entries@),
        keys_sorted_desc(ranked@),
        ranked@.len() == entries@.len(),
{
    let ghost g_entries = entries@;
    let mut ranked: Vec<(i64, T)> = Vec::new();
    let mut rest = entries;
    let n = rest.len();
    let mut i: usize = 0;
    // consume the rows front to back, keeping `ranked` ranked
    while i < n
        invariant
            0 <= i <= n,
            n == g_entries.len(),
            rest@ == g_entries.skip(i as int),
            ranked@ == spec_rank_keyed(g_entries.take(i as int)),
        decreases n - i,
    {
        let x = rest.remove(0);
        proof {
            assert(g_entries.skip(i as int)[0] == g_entries[i as int]);
            assert(g_entries.skip(i as int).remove(0) =~= g_entries.skip(i + 1));
            assert(g_entries.take(i + 1).drop_last() =~= g_entries.take(i as int));
            assert(g_entries.take(i + 1).last() == g_entries[i as int]);
        }
        insert_keyed(&mut ranked, x);
        i += 1;
    }
    proof {
        assert(g_entries.take(n as int) =~= g_entries);
        lemma_rank_keyed_sorted(g_entries);
    }
    ranked
}

} // verus!
