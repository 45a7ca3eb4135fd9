//! Grouping of a record sequence by a key, in first-occurrence order, and
//! the two folds every report view applies to a group: the member with the
//! greatest recency measure (the later of equals winning) and the summed
//! duration. The aggregation views and the time-entry reconciler both build
//! on these definitions.

use vstd::prelude::*;

verus! {

/// The first position of `k` in `keys`.
pub open spec fn find_group<K>(keys: Seq<K>, k: K) -> Option<int>
    decreases keys.len(),
{
    if keys.len() == 0 {
        None
    } else if keys[0] == k {
        Some(0)
    } else {
        match find_group(keys.skip(1), k) {
            Some(i) => Some(i + 1),
            None => None,
        }
    }
}

/// `find_group` names the first index holding `k`, or none when `k` is absent.
pub proof fn lemma_find_group<K>(keys: Seq<K>, k: K)
    ensures
        match find_group(keys, k) {
            Some(i) => 0 <= i < keys.len() && keys[i] == k && forall|j: int|
                0 <= j < i ==> keys[j] != k,
            None => forall|j: int| 0 <= j < keys.len() ==> keys[j] != k,
        },
    decreases keys.len(),
{
    if keys.len() > 0 && keys[0] != k {
        lemma_find_group(keys.skip(1), k);
        match find_group(keys.skip(1), k) {
            Some(i) => {
                assert(keys.skip(1)[i] == keys[i + 1]);
                assert forall|j: int| 0 <= j < i + 1 implies keys[j] != k by {
                    if j > 0 {
                        assert(keys.skip(1)[j - 1] == keys[j]);
                    }
                }
            },
            None => {
                assert forall|j: int| 0 <= j < keys.len() implies keys[j] != k by {
                    if j > 0 {
                        assert(keys.skip(1)[j - 1] == keys[j]);
                    }
                }
            },
        }
    }
}

/// The key of each group: the key of its first member.
pub open spec fn group_keys<T, K>(gs: Seq<Seq<T>>, key: spec_fn(T) -> K) -> Seq<K> {
    gs.map_values(|g: Seq<T>| key(g[0]))
}

/// Groups `s` by `key`: groups stand in order of their key's first
/// occurrence, and each group holds its records in input order.
pub open spec fn spec_groups<T, K>(s: Seq<T>, key: spec_fn(T) -> K) -> Seq<Seq<T>>
    decreases s.len(),
{
    if s.len() == 0 {
        Seq::empty()
    } else {
        let prev = spec_groups(s.drop_last(), key);
        let x = s.last();
        match find_group(group_keys(prev, key), key(x)) {
            Some(i) => prev.update(i, prev[i].push(x)),
            None => prev.push(seq![x]),
        }
    }
}

/// Every group is non-empty, keyed by its first member, homogeneous in key,
/// and group keys are distinct.
pub open spec fn groups_wf<T, K>(gs: Seq<Seq<T>>, key: spec_fn(T) -> K) -> bool {
    &&& forall|i: int| 0 <= i < gs.len() ==> (#[trigger] gs[i]).len() > 0
    &&& forall|i: int, j: int|
        0 <= i < gs.len() && 0 <= j < gs[i].len() ==> key(#[trigger] gs[i][j]) == key(gs[i][0])
    &&& forall|i: int, j: int|
        0 <= i < gs.len() && 0 <= j < gs.len() && i != j ==> key((#[trigger] gs[i])[0]) != key(
            (#[trigger] gs[j])[0],
        )
}

pub proof fn lemma_spec_groups_wf<T, K>(s: Seq<T>, key: spec_fn(T) -> K)
    ensures
        groups_wf(spec_groups(s, key), key),
    decreases s.len(),
{
    if s.len() > 0 {
        let prev = spec_groups(s.drop_last(), key);
        lemma_spec_groups_wf(s.drop_last(), key);
        let x = s.last();
        lemma_find_group(group_keys(prev, key), key(x));
        match find_group(group_keys(prev, key), key(x)) {
            Some(i) => {
                assert(group_keys(prev, key)[i] == key(prev[i][0]));
            },
            None => {
                let gs = prev.push(seq![x]);
                assert forall|i: int, j: int|
                    0 <= i < gs.len() && 0 <= j < gs[i].len() implies key(#[trigger] gs[i][j])
                    == key(gs[i][0]) by {
                    if i < prev.len() {
                        assert(gs[i] == prev[i]);
                    } else {
                        assert(gs[i] == seq![x]);
                    }
                }
                assert forall|i: int, j: int|
                    0 <= i < gs.len() && 0 <= j < gs.len() && i != j implies key(
                    (#[trigger] gs[i])[0],
                ) != key((#[trigger] gs[j])[0]) by {
                    if i < prev.len() && j < prev.len() {
                    } else if i < prev.len() && j == prev.len() {
                        assert(group_keys(prev, key)[i] == key(prev[i][0]));
                    } else if j < prev.len() && i == prev.len() {
                        assert(group_keys(prev, key)[j] == key(prev[j][0]));
                    }
                }
            },
        }
    }
}

/// Every member of every group is a member of the grouped sequence.
pub proof fn lemma_spec_groups_members<T, K>(s: Seq<T>, key: spec_fn(T) -> K)
    ensures
        forall|i: int, j: int|
            0 <= i < spec_groups(s, key).len() && 0 <= j < spec_groups(s, key)[i].len()
                ==> s.contains(#[trigger] spec_groups(s, key)[i][j]),
    decreases s.len(),
{
    if s.len() > 0 {
        let prev = spec_groups(s.drop_last(), key);
        lemma_spec_groups_members(s.drop_last(), key);
        assert(forall|j: int| 0 <= j < s.len() - 1 ==> s.drop_last()[j] == #[trigger] s[j]);
        assert forall|y: T| s.drop_last().contains(y) implies s.contains(y) by {
            let j = choose|j: int| 0 <= j < s.drop_last().len() && s.drop_last()[j] == y;
            assert(s[j] == y);
        }
        let x = s.last();
        assert(s.contains(x)) by {
            assert(s[s.len() - 1] == x);
        }
        let gs = spec_groups(s, key);
        lemma_find_group(group_keys(prev, key), key(x));
        match find_group(group_keys(prev, key), key(x)) {
            Some(i) => {
                assert(gs == prev.update(i, prev[i].push(x)));
                assert forall|a: int, b: int|
                    0 <= a < gs.len() && 0 <= b < gs[a].len() implies s.contains(
                    #[trigger] gs[a][b],
                ) by {
                    if a == i {
                        if b < prev[i].len() {
                            assert(gs[a][b] == prev[i][b]);
                        } else {
                            assert(gs[a][b] == x);
                        }
                    } else {
                        assert(gs[a] == prev[a]);
                    }
                }
            },
            None => {
                assert(gs == prev.push(seq![x]));
                assert forall|a: int, b: int|
                    0 <= a < gs.len() && 0 <= b < gs[a].len() implies s.contains(
                    #[trigger] gs[a][b],
                ) by {
                    if a < prev.len() {
                        assert(gs[a] == prev[a]);
                    } else {
                        assert(gs[a] == seq![x]);
                        assert(gs[a][b] == x);
                    }
                }
            },
        }
    }
}

/// The sum of `f` over a sequence.
pub open spec fn sum_by<T>(s: Seq<T>, f: spec_fn(T) -> int) -> int
    decreases s.len(),
{
    if s.len() == 0 {
        0
    } else {
        sum_by(s.drop_last(), f) + f(s.last())
    }
}

pub proof fn lemma_sum_by_nonneg<T>(s: Seq<T>, f: spec_fn(T) -> int)
    requires
        forall|j: int| 0 <= j < s.len() ==> f(#[trigger] s[j]) >= 0,
    ensures
        sum_by(s, f) >= 0,
    decreases s.len(),
{
    if s.len() > 0 {
        assert(forall|j: int| 0 <= j < s.len() - 1 ==> s.drop_last()[j] == #[trigger] s[j]);
        lemma_sum_by_nonneg(s.drop_last(), f);
    }
}

pub proof fn lemma_sum_by_push<T>(s: Seq<T>, x: T, f: spec_fn(T) -> int)
    ensures
        sum_by(s.push(x), f) == sum_by(s, f) + f(x),
{
    assert(s.push(x).drop_last() =~= s);
    assert(s.push(x).last() == x);
}

pub proof fn lemma_sum_by_update_push<T>(gs: Seq<Seq<T>>, i: int, x: T, f: spec_fn(Seq<T>) -> int)
    requires
        0 <= i < gs.len(),
    ensures
        sum_by(gs.update(i, gs[i].push(x)), f) == sum_by(gs, f) - f(gs[i]) + f(gs[i].push(x)),
    decreases gs.len(),
{
    let upd = gs.update(i, gs[i].push(x));
    if i == gs.len() - 1 {
        assert(upd.drop_last() =~= gs.drop_last());
        assert(upd.last() == gs[i].push(x));
        assert(gs.last() == gs[i]);
    } else {
        assert(upd.drop_last() =~= gs.drop_last().update(i, gs[i].push(x)));
        assert(gs.drop_last()[i] == gs[i]);
        lemma_sum_by_update_push(gs.drop_last(), i, x, f);
        assert(upd.last() == gs.last());
    }
}

/// The sum of member sums over all groups.
pub open spec fn sum_groups<T>(gs: Seq<Seq<T>>, f: spec_fn(T) -> int) -> int {
    sum_by(gs, |g: Seq<T>| sum_by(g, f))
}

/// Grouping partitions the sequence: the group sums add up to the whole sum.
pub proof fn lemma_sum_groups_partition<T, K>(s: Seq<T>, key: spec_fn(T) -> K, f: spec_fn(T) -> int)
    ensures
        sum_groups(spec_groups(s, key), f) == sum_by(s, f),
    decreases s.len(),
{
    let fg = |g: Seq<T>| sum_by(g, f);
    if s.len() > 0 {
        let prev = spec_groups(s.drop_last(), key);
        lemma_sum_groups_partition(s.drop_last(), key, f);
        let x = s.last();
        lemma_find_group(group_keys(prev, key), key(x));
        match find_group(group_keys(prev, key), key(x)) {
            Some(i) => {
                lemma_sum_by_update_push(prev, i, x, fg);
                lemma_sum_by_push(prev[i], x, f);
            },
            None => {
                lemma_sum_by_push(prev, seq![x], fg);
                let single = seq![x];
                assert(single.len() == 1);
                assert(single.last() == x);
                assert(single.drop_last() =~= Seq::<T>::empty());
                assert(sum_by(Seq::<T>::empty(), f) == 0);
                assert(sum_by(single, f) == sum_by(single.drop_last(), f) + f(single.last()));
                assert(sum_by(single, f) == f(x));
            },
        }
    }
}

/// Each group's sum is at most the whole sum, when `f` is non-negative on
/// the sequence.
pub proof fn lemma_group_sum_le_total<T, K>(
    s: Seq<T>,
    key: spec_fn(T) -> K,
    f: spec_fn(T) -> int,
    i: int,
)
    requires
        forall|j: int| 0 <= j < s.len() ==> f(#[trigger] s[j]) >= 0,
        0 <= i < spec_groups(s, key).len(),
    ensures
        sum_by(spec_groups(s, key)[i], f) <= sum_by(s, f),
{
    let gs = spec_groups(s, key);
    lemma_sum_groups_partition(s, key, f);
    lemma_spec_groups_members(s, key);
    assert forall|a: int| 0 <= a < gs.len() implies sum_by(#[trigger] gs[a], f) >= 0 by {
        assert(forall|b: int| 0 <= b < gs[a].len() ==> s.contains(#[trigger] gs[a][b]));
        assert forall|b: int| 0 <= b < gs[a].len() implies f(#[trigger] gs[a][b]) >= 0 by {
            let j = choose|j: int| 0 <= j < s.len() && s[j] == gs[a][b];
        }
        lemma_sum_by_nonneg(gs[a], f);
    }
    lemma_sum_component_le(gs, |g: Seq<T>| sum_by(g, f), i);
}

/// A non-negative component of a sum is at most the sum.
pub proof fn lemma_sum_component_le<T>(s: Seq<T>, f: spec_fn(T) -> int, i: int)
    requires
        0 <= i < s.len(),
        forall|j: int| 0 <= j < s.len() ==> f(#[trigger] s[j]) >= 0,
    ensures
        f(s[i]) <= sum_by(s, f),
    decreases s.len(),
{
    assert(forall|j: int| 0 <= j < s.len() - 1 ==> s.drop_last()[j] == #[trigger] s[j]);
    if i == s.len() - 1 {
        lemma_sum_by_nonneg(s.drop_last(), f);
    } else {
        lemma_sum_component_le(s.drop_last(), f, i);
        assert(f(s.last()) >= 0);
    }
}

/// Sums agree for sequences that agree pointwise under their measures.
pub proof fn lemma_sum_by_pointwise<A, B>(
    s1: Seq<A>,
    s2: Seq<B>,
    f1: spec_fn(A) -> int,
    f2: spec_fn(B) -> int,
)
    requires
        s1.len() == s2.len(),
        forall|i: int| 0 <= i < s1.len() ==> f1(#[trigger] s1[i]) == f2(s2[i]),
    ensures
        sum_by(s1, f1) == sum_by(s2, f2),
    decreases s1.len(),
{
    if s1.len() > 0 {
        assert(forall|j: int| 0 <= j < s1.len() - 1 ==> s1.drop_last()[j] == #[trigger] s1[j]);
        assert(forall|j: int| 0 <= j < s2.len() - 1 ==> s2.drop_last()[j] == #[trigger] s2[j]);
        lemma_sum_by_pointwise(s1.drop_last(), s2.drop_last(), f1, f2);
        assert(f1(s1[s1.len() - 1]) == f2(s2[s2.len() - 1]));
    }
}

/// Summing after a map is summing the composition.
pub proof fn lemma_sum_by_map<A, B>(s: Seq<A>, h: spec_fn(A) -> B, f: spec_fn(B) -> int)
    ensures
        sum_by(s.map_values(h), f) == sum_by(s, |a: A| f(h(a))),
    decreases s.len(),
{
    if s.len() > 0 {
        lemma_sum_by_map(s.drop_last(), h, f);
        assert(s.map_values(h).drop_last() =~= s.drop_last().map_values(h));
        assert(s.map_values(h).last() == h(s.last()));
    }
}

/// Sums agree for pointwise-equal measures.
pub proof fn lemma_sum_by_ext<T>(s: Seq<T>, f1: spec_fn(T) -> int, f2: spec_fn(T) -> int)
    requires
        forall|i: int| 0 <= i < s.len() ==> f1(#[trigger] s[i]) == f2(s[i]),
    ensures
        sum_by(s, f1) == sum_by(s, f2),
    decreases s.len(),
{
    if s.len() > 0 {
        assert(forall|j: int| 0 <= j < s.len() - 1 ==> s.drop_last()[j] == #[trigger] s[j]);
        lemma_sum_by_ext(s.drop_last(), f1, f2);
        assert(f1(s.last()) == f2(s.last()));
    }
}

/// Sums distribute over concatenation.
pub proof fn lemma_sum_by_concat<T>(a: Seq<T>, b: Seq<T>, f: spec_fn(T) -> int)
    ensures
        sum_by(a + b, f) == sum_by(a, f) + sum_by(b, f),
    decreases b.len(),
{
    if b.len() == 0 {
        assert(a + b =~= a);
    } else {
        assert((a + b).drop_last() =~= a + b.drop_last());
        assert((a + b).last() == b.last());
        lemma_sum_by_concat(a, b.drop_last(), f);
    }
}

/// A prefix sum is at most the whole sum, when `f` is non-negative.
pub proof fn lemma_sum_by_prefix_le<T>(s: Seq<T>, i: int, f: spec_fn(T) -> int)
    requires
        0 <= i <= s.len(),
        forall|j: int| 0 <= j < s.len() ==> f(#[trigger] s[j]) >= 0,
    ensures
        sum_by(s.subrange(0, i), f) <= sum_by(s, f),
    decreases s.len() - i,
{
    if i == s.len() {
        assert(s.subrange(0, i) =~= s);
    } else {
        lemma_sum_by_prefix_le(s, i + 1, f);
        assert(s.subrange(0, i + 1).drop_last() =~= s.subrange(0, i));
        assert(s.subrange(0, i + 1).last() == s[i]);
    }
}

/// The group member with the greatest measure `m`; of equals, the later in
/// input order wins.
pub open spec fn latest<T>(g: Seq<T>, m: spec_fn(T) -> int) -> T
    decreases g.len(),
{
    if g.len() <= 1 {
        g[0]
    } else {
        let w = latest(g.drop_last(), m);
        if m(g.last()) >= m(w) {
            g.last()
        } else {
            w
        }
    }
}

/// The winner is a member, and no member measures greater.
pub proof fn lemma_latest_props<T>(g: Seq<T>, m: spec_fn(T) -> int)
    requires
        g.len() > 0,
    ensures
        g.contains(latest(g, m)),
        forall|j: int| 0 <= j < g.len() ==> m(#[trigger] g[j]) <= m(latest(g, m)),
    decreases g.len(),
{
    assert(forall|j: int| 0 <= j < g.len() - 1 ==> g.drop_last()[j] == #[trigger] g[j]);
    if g.len() > 1 {
        lemma_latest_props(g.drop_last(), m);
        let w = latest(g.drop_last(), m);
        let j = choose|j: int| 0 <= j < g.drop_last().len() && g.drop_last()[j] == w;
        assert(g[j] == w);
        assert(g.contains(g.last()));
    } else {
        assert(g.contains(g[0]));
    }
}

} // verus!
