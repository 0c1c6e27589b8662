//! Scoring and ranking helpers: the checks in front of a weighted sum and a
//! min-max normalization, and rankings by the total order of binary64.

use vstd::prelude::*;
use crate::binary64::{
    all_finite,
    float_le,
    nan,
    order_key,
    total_key,
    all_finite_values,
    total_order_key,
    lemma_total_order_refines_numeric,
};

verus! {

/// Why a score could not be computed.
#[derive(Debug, Clone, Copy, PartialEq, Eq, Structural)]
pub enum ScoreError {
    EmptyInput,
    MismatchedLengths,
    NonFiniteInput,
}

/// The outcome of checking the inputs of a weighted sum: empty inputs first,
/// then differing lengths, then non-finite entries.
pub open spec fn weighted_inputs_outcome(values: Seq<u64>, weights: Seq<u64>) -> Result<(), ScoreError> {
    if values.len() == 0 || weights.len() == 0 {
        Err(ScoreError::EmptyInput)
    } else if values.len() != weights.len() {
        Err(ScoreError::MismatchedLengths)
    } else if !all_finite(values) || !all_finite(weights) {
        Err(ScoreError::NonFiniteInput)
    } else {
        Ok(())
    }
}

/// Checks that `values` and `weights` can be summed pairwise: both non-empty,
/// of one length, and finite.
pub fn validate_weighted_inputs(values: &[u64], weights: &[u64]) -> (r: Result<(), ScoreError>)
    ensures
        r == weighted_inputs_outcome(values@, weights@),
{
    if values.len() == 0 || weights.len() == 0 {
        return Err(ScoreError::EmptyInput);
    }
    if values.len() != weights.len() {
        return Err(ScoreError::MismatchedLengths);
    }
    if !all_finite_values(values) || !all_finite_values(weights) {
        return Err(ScoreError::NonFiniteInput);
    }
    Ok(())
}

/// The smallest and the largest element of `values` in the total order, the
/// two ends of a min-max normalization. `None` when `values` is empty or
/// holds a non-finite value.
pub fn min_max_extremes(values: &[u64]) -> (r: Option<(u64, u64)>)
    ensures
        r is None <==> (values@.len() == 0 || !all_finite(values@)),
        r matches Some((lo, hi)) ==> {
            &&& values@.contains(lo)
            &&& values@.contains(hi)
            &&& forall|i: int|
                0 <= i < values@.len() ==> total_key(lo) <= total_key(#[trigger] values@[i])
                    <= total_key(hi)
            &&& forall|i: int|
                0 <= i < values@.len() ==> order_key(lo) <= order_key(#[trigger] values@[i])
                    <= order_key(hi)
        },
{
    let n = values.len();
    if n == 0 || !all_finite_values(values) {
        return None;
    }
    let mut lo = values[0];
    let mut hi = values[0];
    let mut i: usize = 1;
    while i < n
        invariant
            n == values@.len(),
            1 <= i <= n,
            values@.contains(lo),
            values@.contains(hi),
            forall|j: int| 0 <= j < i ==> total_key(lo) <= total_key(#[trigger] values@[j]) <= total_key(hi),
        decreases n - i,
    {
        let v = values[i];
        if total_order_key(v) < total_order_key(lo) {
            lo = v;
        }
        if total_order_key(hi) < total_order_key(v) {
            hi = v;
        }
        i = i + 1;
    }
    assert forall|j: int| 0 <= j < n implies order_key(lo) <= order_key(#[trigger] values@[j])
        <= order_key(hi) by {
        lemma_total_order_refines_numeric(lo, values@[j]);
        lemma_total_order_refines_numeric(values@[j], hi);
    }
    Some((lo, hi))
}

/// Index `a` goes before index `b`: a smaller key, or an equal key and a
/// smaller index.
pub open spec fn ranks_before(keys: Seq<int>, a: int, b: int) -> bool {
    keys[a] < keys[b] || (keys[a] == keys[b] && a < b)
}

/// `order` lists every index of `keys` once, ordered by key and then by index.
pub open spec fn is_ranking(order: Seq<usize>, keys: Seq<int>) -> bool {
    &&& order.len() == keys.len()
    &&& forall|p: int| 0 <= p < order.len() ==> #[trigger] order[p] < keys.len()
    &&& forall|i: int| 0 <= i < keys.len() ==> #[trigger] order.contains(i as usize)
    &&& forall|p: int, q: int|
        0 <= p < q < order.len() ==> ranks_before(keys, #[trigger] order[p] as int, #[trigger] order[q] as int)
}

/// The keys of ascending rank: the total order of the values.
pub open spec fn ascending_keys(values: Seq<u64>) -> Seq<int> {
    Seq::new(values.len(), |i: int| total_key(values[i]))
}

/// The keys of descending rank: the total order of the values, reversed.
pub open spec fn descending_keys(values: Seq<u64>) -> Seq<int> {
    Seq::new(values.len(), |i: int| -total_key(values[i]))
}

/// An ascending ranking lists the indices from the smallest value to the
/// largest in the total order of the values themselves, equal values by
/// index; between values that are not NaN the order is also numeric.
pub proof fn lemma_ascending_ranking_follows_values(values: Seq<u64>, order: Seq<usize>)
    requires
        is_ranking(order, ascending_keys(values)),
    ensures
        forall|p: int, q: int|
            0 <= p < q < order.len() ==> {
                let a = values[#[trigger] order[p] as int];
                let b = values[#[trigger] order[q] as int];
                &&& total_key(a) < total_key(b) || (total_key(a) == total_key(b) && order[p]
                    < order[q])
                &&& (!nan(a) && !nan(b)) ==> float_le(a, b)
            },
{
    assert forall|p: int, q: int| 0 <= p < q < order.len() implies {
        let a = values[#[trigger] order[p] as int];
        let b = values[#[trigger] order[q] as int];
        &&& total_key(a) < total_key(b) || (total_key(a) == total_key(b) && order[p] < order[q])
        &&& (!nan(a) && !nan(b)) ==> float_le(a, b)
    } by {
        let a = values[order[p] as int];
        let b = values[order[q] as int];
        assert(ranks_before(ascending_keys(values), order[p] as int, order[q] as int));
        lemma_total_order_refines_numeric(a, b);
    }
}

/// A descending ranking lists the indices from the largest value to the
/// smallest in the total order of the values themselves, equal values by
/// index; between values that are not NaN the order is also numeric.
pub proof fn lemma_descending_ranking_follows_values(values: Seq<u64>, order: Seq<usize>)
    requires
        is_ranking(order, descending_keys(values)),
    ensures
        forall|p: int, q: int|
            0 <= p < q < order.len() ==> {
                let a = values[#[trigger] order[p] as int];
                let b = values[#[trigger] order[q] as int];
                &&& total_key(a) > total_key(b) || (total_key(a) == total_key(b) && order[p]
                    < order[q])
                &&& (!nan(a) && !nan(b)) ==> float_le(b, a)
            },
{
    assert forall|p: int, q: int| 0 <= p < q < order.len() implies {
        let a = values[#[trigger] order[p] as int];
        let b = values[#[trigger] order[q] as int];
        &&& total_key(a) > total_key(b) || (total_key(a) == total_key(b) && order[p] < order[q])
        &&& (!nan(a) && !nan(b)) ==> float_le(b, a)
    } by {
        let a = values[order[p] as int];
        let b = values[order[q] as int];
        assert(ranks_before(descending_keys(values), order[p] as int, order[q] as int));
        lemma_total_order_refines_numeric(b, a);
    }
}

/// The indices of `keys` sorted by key, ties by index.
fn rank_by_keys(keys: &Vec<i128>) -> (order: Vec<usize>)
    ensures
        is_ranking(order@, Seq::new(keys@.len(), |i: int| keys@[i] as int)),
{
    let ghost ks = Seq::new(keys@.len(), |i: int| keys@[i] as int);
    let n = keys.len();
    let mut order: Vec<usize> = Vec::new();
    let mut i: usize = 0;
    while i < n
        invariant
            n == keys@.len(),
            ks == Seq::new(keys@.len(), |i: int| keys@[i] as int),
            i <= n,
            order@.len() == i,
            forall|p: int| 0 <= p < order@.len() ==> #[trigger] order@[p] < i,
            forall|j: int| 0 <= j < i ==> #[trigger] order@.contains(j as usize),
            forall|p: int, q: int|
                0 <= p < q < order@.len() ==> ranks_before(ks, #[trigger] order@[p] as int, #[trigger] order@[q] as int),
        decreases n - i,
    {
        let key = keys[i];
        let mut pos: usize = 0;
        while pos < order.len() && keys[order[pos]] <= key
            invariant
                n == keys@.len(),
                i < n,
                key == keys@[i as int],
                pos <= order@.len(),
                forall|p: int| 0 <= p < order@.len() ==> #[trigger] order@[p] < i,
                forall|q: int| 0 <= q < pos ==> keys@[#[trigger] order@[q] as int] <= key,
            decreases order@.len() - pos,
        {
            pos = pos + 1;
        }
        let ghost old_order = order@;
        order.insert(pos, i);
        proof {
            assert(order@ == old_order.insert(pos as int, i));
            assert forall|p: int| 0 <= p < order@.len() implies #[trigger] order@[p] < i + 1 by {
                if p < pos {
                    assert(order@[p] == old_order[p]);
                } else if p > pos {
                    assert(order@[p] == old_order[p - 1]);
                }
            }
            assert forall|j: int| 0 <= j < i + 1 implies #[trigger] order@.contains(j as usize) by {
                if j == i {
                    assert(order@[pos as int] == i);
                } else {
                    assert(old_order.contains(j as usize));
                    let q = choose|q: int| 0 <= q < old_order.len() && old_order[q] == j as usize;
                    if q < pos {
                        assert(order@[q] == j as usize);
                    } else {
                        assert(order@[q + 1] == j as usize);
                    }
                }
            }
            assert forall|p: int, q: int| 0 <= p < q < order@.len() implies ranks_before(
                ks,
                #[trigger] order@[p] as int,
                #[trigger] order@[q] as int,
            ) by {
                if q < pos {
                    assert(order@[p] == old_order[p]);
                    assert(order@[q] == old_order[q]);
                } else if q == pos {
                    assert(order@[p] == old_order[p]);
                    assert(keys@[old_order[p] as int] <= key);
                    assert(old_order[p] < i);
                } else if p < pos {
                    assert(order@[p] == old_order[p]);
                    assert(order@[q] == old_order[q - 1]);
                } else if p == pos {
                    assert(order@[q] == old_order[q - 1]);
                    assert(key < keys@[old_order[pos as int] as int]);
                    if q - 1 > pos {
                        assert(ranks_before(ks, old_order[pos as int] as int, old_order[q - 1] as int));
                    }
                } else {
                    assert(order@[p] == old_order[p - 1]);
                    assert(order@[q] == old_order[q - 1]);
                }
            }
        }
        i = i + 1;
    }
    order
}

/// The indices of `values` from the smallest value to the largest in the
/// total order; equal encodings keep their index order.
pub fn rank_ascending(values: &[u64]) -> (order: Vec<usize>)
    ensures
        is_ranking(order@, ascending_keys(values@)),
        order@.len() == values@.len(),
        forall|i: int| 0 <= i < values@.len() ==> #[trigger] order@.contains(i as usize),
        forall|p: int, q: int|
            0 <= p < q < order@.len() ==> {
                let a = values@[#[trigger] order@[p] as int];
                let b = values@[#[trigger] order@[q] as int];
                total_key(a) < total_key(b) || (total_key(a) == total_key(b) && order@[p] < order@[q])
            },
{
    let n = values.len();
    let mut keys: Vec<i128> = Vec::new();
    let mut i: usize = 0;
    while i < n
        invariant
            n == values@.len(),
            i <= n,
            keys@.len() == i,
            forall|j: int| 0 <= j < i ==> #[trigger] keys@[j] as int == total_key(values@[j]),
        decreases n - i,
    {
        let k = total_order_key(values[i]);
        keys.push(k as i128);
        i = i + 1;
    }
    let order = rank_by_keys(&keys);
    assert(Seq::new(keys@.len(), |i: int| keys@[i] as int) =~= ascending_keys(values@));
    proof {
        lemma_ascending_ranking_follows_values(values@, order@);
    }
    order
}

/// The indices of `values` from the largest value to the smallest in the
/// total order; equal encodings keep their index order.
pub fn rank_descending(values: &[u64]) -> (order: Vec<usize>)
    ensures
        is_ranking(order@, descending_keys(values@)),
        order@.len() == values@.len(),
        forall|i: int| 0 <= i < values@.len() ==> #[trigger] order@.contains(i as usize),
        forall|p: int, q: int|
            0 <= p < q < order@.len() ==> {
                let a = values@[#[trigger] order@[p] as int];
                let b = values@[#[trigger] order@[q] as int];
                total_key(a) > total_key(b) || (total_key(a) == total_key(b) && order@[p] < order@[q])
            },
{
    let n = values.len();
    let mut keys: Vec<i128> = Vec::new();
    let mut i: usize = 0;
    while i < n
        invariant
            n == values@.len(),
            i <= n,
            keys@.len() == i,
            forall|j: int| 0 <= j < i ==> #[trigger] keys@[j] as int == -total_key(values@[j]),
        decreases n - i,
    {
        let k = total_order_key(values[i]);
        keys.push(-(k as i128));
        i = i + 1;
    }
    let order = rank_by_keys(&keys);
    assert(Seq::new(keys@.len(), |i: int| keys@[i] as int) =~= descending_keys(values@));
    proof {
        lemma_descending_ranking_follows_values(values@, order@);
    }
    order
}

/// Two rankings that agree before position `p` agree at `p`.
proof fn lemma_rankings_agree_at(r1: Seq<usize>, r2: Seq<usize>, keys: Seq<int>, p: int)
    requires
        is_ranking(r1, keys),
        is_ranking(r2, keys),
        0 <= p < r1.len(),
        forall|q: int| 0 <= q < p ==> r1[q] == r2[q],
    ensures
        r1[p] == r2[p],
{
    let a = r1[p];
    let b = r2[p];
    if a != b {
        assert(r2.contains((a as int) as usize)) by {
            assert(0 <= a < keys.len());
        }
        let qa = choose|q: int| 0 <= q < r2.len() && r2[q] == a;
        assert(r1.contains((b as int) as usize)) by {
            assert(0 <= b < keys.len());
        }
        let qb = choose|q: int| 0 <= q < r1.len() && r1[q] == b;
        if qa < p {
            assert(r1[qa] == a);
            assert(ranks_before(keys, r1[qa] as int, r1[p] as int));
        }
        if qb < p {
            assert(r2[qb] == b);
            assert(ranks_before(keys, r2[qb] as int, r2[p] as int));
        }
        assert(ranks_before(keys, r2[p] as int, r2[qa] as int));
        assert(ranks_before(keys, r1[p] as int, r1[qb] as int));
    }
}

/// Two rankings agree on their first `n` positions.
proof fn lemma_rankings_agree_prefix(r1: Seq<usize>, r2: Seq<usize>, keys: Seq<int>, n: int)
    requires
        is_ranking(r1, keys),
        is_ranking(r2, keys),
        0 <= n <= r1.len(),
    ensures
        forall|q: int| 0 <= q < n ==> r1[q] == r2[q],
    decreases n,
{
    if n > 0 {
        lemma_rankings_agree_prefix(r1, r2, keys, n - 1);
        lemma_rankings_agree_at(r1, r2, keys, n - 1);
    }
}

/// There is exactly one ranking of any keys: ranking by key and then by
/// index leaves no choice.
pub proof fn lemma_ranking_unique(r1: Seq<usize>, r2: Seq<usize>, keys: Seq<int>)
    requires
        is_ranking(r1, keys),
        is_ranking(r2, keys),
    ensures
        r1 == r2,
{
    lemma_rankings_agree_prefix(r1, r2, keys, r1.len() as int);
    assert(r1 =~= r2);
}

/// When no two values share an encoding, the descending ranking is the
/// ascending ranking read backwards.
pub proof fn lemma_descending_reverses_ascending(
    values: Seq<u64>,
    ascending: Seq<usize>,
    descending: Seq<usize>,
)
    requires
        is_ranking(ascending, ascending_keys(values)),
        is_ranking(descending, descending_keys(values)),
        forall|i: int, j: int| 0 <= i < j < values.len() ==> values[i] != values[j],
    ensures
        descending == ascending.reverse(),
{
    let n = values.len() as int;
    let ak = ascending_keys(values);
    let dk = descending_keys(values);
    let rev = ascending.reverse();
    assert(rev.len() == n);
    assert forall|p: int| 0 <= p < n implies #[trigger] rev[p] == ascending[n - 1 - p] by {}
    assert forall|p: int| 0 <= p < rev.len() implies #[trigger] rev[p] < dk.len() by {
        assert(rev[p] == ascending[n - 1 - p]);
    }
    assert forall|i: int| 0 <= i < dk.len() implies #[trigger] rev.contains(i as usize) by {
        assert(ascending.contains(i as usize));
        let q = choose|q: int| 0 <= q < ascending.len() && ascending[q] == i as usize;
        assert(rev[n - 1 - q] == ascending[q]);
    }
    assert forall|p: int, q: int| 0 <= p < q < rev.len() implies ranks_before(
        dk,
        #[trigger] rev[p] as int,
        #[trigger] rev[q] as int,
    ) by {
        let x = ascending[n - 1 - q] as int;
        let y = ascending[n - 1 - p] as int;
        assert(rev[p] as int == y);
        assert(rev[q] as int == x);
        assert(ranks_before(ak, x, y));
        assert(x != y);
        if ak[x] == ak[y] {
            crate::binary64::lemma_total_key_injective(values[x], values[y]);
            if x < y {
                assert(values[x] != values[y]);
            } else {
                assert(values[y] != values[x]);
            }
        }
    }
    lemma_ranking_unique(descending, rev, dk);
}

/// The checks in plain terms: an empty side gives `EmptyInput`; else sides
/// of different lengths give `MismatchedLengths`; else a non-finite entry
/// gives `NonFiniteInput`; and two non-empty finite sides of one length
/// pass.
pub proof fn lemma_weighted_inputs_outcome_plain(values: Seq<u64>, weights: Seq<u64>)
    ensures
        (weighted_inputs_outcome(values, weights) == Err::<(), ScoreError>(ScoreError::EmptyInput)) == (values.len() == 0
            || weights.len() == 0),
        (weighted_inputs_outcome(values, weights) == Err::<(), ScoreError>(ScoreError::MismatchedLengths)) == (values.len()
            > 0 && weights.len() > 0 && values.len() != weights.len()),
        (weighted_inputs_outcome(values, weights) == Err::<(), ScoreError>(ScoreError::NonFiniteInput)) == (values.len() > 0
            && values.len() == weights.len() && !(all_finite(values) && all_finite(weights))),
        weighted_inputs_outcome(values, weights) is Ok == (values.len() > 0 && values.len() == weights.len() && all_finite(values)
            && all_finite(weights)),
{
}

} // verus!
