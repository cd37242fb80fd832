//! Ordering of a scored corpus: descending score, ties by ascending corpus
//! index, NaN scores left out, truncated to a requested count.
//!
//! A score arrives as the bit pattern of an IEEE-754 binary64 value, so that
//! the order used here is the numeric order of the doubles themselves.
use vstd::prelude::*;

use crate::error::CoreError;

verus! {

/// The sign bit of a binary64 value.
pub const SIGN_BIT: u64 = 0x8000_0000_0000_0000;

/// The exponent field of a binary64 value.
pub const EXPONENT_MASK: u64 = 0x7FF0_0000_0000_0000;

/// The fraction field of a binary64 value.
pub const FRACTION_MASK: u64 = 0x000F_FFFF_FFFF_FFFF;

/// The bits encode a NaN: all exponent bits set and a nonzero fraction.
pub open spec fn is_nan_bits(bits: u64) -> bool {
    bits & EXPONENT_MASK == EXPONENT_MASK && bits & FRACTION_MASK != 0
}

/// An unsigned key whose order is the numeric order of the non-NaN doubles:
/// negative values have all bits flipped, non-negative ones get the sign bit
/// set, and negative zero shares the key of positive zero.
pub open spec fn order_key(bits: u64) -> u64 {
    if bits == SIGN_BIT {
        SIGN_BIT
    } else if bits & SIGN_BIT != 0 {
        !bits
    } else {
        bits | SIGN_BIT
    }
}

/// Entry `i` is placed before entry `j`: a higher score, or an equal score and
/// a lower index.
pub open spec fn ranks_before(scores: Seq<u64>, i: int, j: int) -> bool {
    order_key(scores[i]) > order_key(scores[j]) || (order_key(scores[i]) == order_key(
        scores[j],
    ) && i < j)
}

/// Which entries take part in the ranking: those whose score is not NaN.
pub open spec fn rankable_mask(scores: Seq<u64>) -> Seq<bool> {
    Seq::new(scores.len(), |i: int| !is_nan_bits(scores[i]))
}

/// Number of `true` entries.
pub open spec fn count_true(s: Seq<bool>) -> nat
    decreases s.len(),
{
    if s.len() == 0 {
        0
    } else {
        count_true(s.drop_last()) + if s.last() {
            1nat
        } else {
            0nat
        }
    }
}

/// Number of entries with a score that is not NaN.
pub open spec fn num_rankable(scores: Seq<u64>) -> nat {
    count_true(rankable_mask(scores))
}

pub open spec fn min_nat(a: nat, b: nat) -> nat {
    if a <= b {
        a
    } else {
        b
    }
}

/// `r` is the ranking of `scores` cut to `max_results`: the best
/// `min(max_results, rankable entries)` indices, each placed before the next,
/// and each placed before every rankable index left out.
pub open spec fn is_ranking(scores: Seq<u64>, max_results: nat, r: Seq<usize>) -> bool {
    &&& r.len() == min_nat(max_results, num_rankable(scores))
    &&& forall|p: int| 0 <= p < r.len() ==> r[p] < scores.len() && !is_nan_bits(scores[r[p] as int])
    &&& forall|p: int, q: int|
        0 <= p < q < r.len() ==> #[trigger] ranks_before(scores, r[p] as int, r[q] as int)
    &&& forall|p: int, j: int|
        0 <= p < r.len() && 0 <= j < scores.len() && !is_nan_bits(scores[j]) && !r.contains(
            j as usize,
        ) ==> ranks_before(scores, r[p] as int, j)
}

proof fn lemma_count_true_set(s: Seq<bool>, i: int)
    requires
        0 <= i < s.len(),
        !s[i],
    ensures
        count_true(s.update(i, true)) == count_true(s) + 1,
    decreases s.len(),
{
    let t = s.update(i, true);
    if i == s.len() - 1 {
        assert(t.drop_last() =~= s.drop_last());
    } else {
        assert(t.drop_last() =~= s.drop_last().update(i, true));
        lemma_count_true_set(s.drop_last(), i);
    }
}

proof fn lemma_count_true_all(s: Seq<bool>)
    requires
        forall|i: int| 0 <= i < s.len() ==> s[i],
    ensures
        count_true(s) == s.len(),
    decreases s.len(),
{
    if s.len() > 0 {
        lemma_count_true_all(s.drop_last());
    }
}

proof fn lemma_count_true_none(n: nat)
    ensures
        count_true(Seq::new(n, |i: int| false)) == 0,
    decreases n,
{
    if n > 0 {
        assert(Seq::new(n, |i: int| false).drop_last() =~= Seq::new((n - 1) as nat, |i: int| false));
        lemma_count_true_none((n - 1) as nat);
    }
}

fn is_nan_score(bits: u64) -> (r: bool)
    ensures
        r == is_nan_bits(bits),
{
    bits & EXPONENT_MASK == EXPONENT_MASK && bits & FRACTION_MASK != 0
}

fn score_order_key(bits: u64) -> (r: u64)
    ensures
        r == order_key(bits),
{
    if bits == SIGN_BIT {
        SIGN_BIT
    } else if bits & SIGN_BIT != 0 {
        !bits
    } else {
        bits | SIGN_BIT
    }
}

/// Ranks a corpus by score: indices in descending score order, ties broken by
/// ascending index, NaN scores left out, at most `max_results` of them.
/// Asking for more results than there are entries is no error.
pub fn rank_scores(scores: &Vec<u64>, max_results: usize) -> (r: Vec<usize>)
    ensures
        is_ranking(scores@, max_results as nat, r@),
{
    let n = scores.len();
    let ghost s = scores@;
    let mut taken: Vec<bool> = Vec::new();
    let mut k: usize = 0;
    while k < n
        invariant
            k <= n,
            n == scores.len(),
            taken@ =~= Seq::new(k as nat, |i: int| false),
        decreases n - k,
    {
        taken.push(false);
        k += 1;
    }
    proof {
        lemma_count_true_none(s.len());
        assert(taken@ =~= Seq::new(s.len(), |i: int| false));
    }
    let mut r: Vec<usize> = Vec::new();
    let mut done = false;
    while !done && r.len() < max_results
        invariant
            s == scores@,
            n == s.len(),
            taken.len() == n,
            r.len() <= max_results,
            count_true(taken@) == r.len(),
            forall|j: int|
                0 <= j < n ==> (#[trigger] taken@[j] ==> !is_nan_bits(s[j]) && r@.contains(
                    j as usize,
                )),
            forall|p: int| 0 <= p < r.len() ==> r@[p] < n && taken@[r@[p] as int] && !is_nan_bits(s[r@[p] as int]),
            forall|p: int, q: int|
                0 <= p < q < r.len() ==> #[trigger] ranks_before(s, r@[p] as int, r@[q] as int),
            forall|p: int, j: int|
                0 <= p < r.len() && 0 <= j < n && !is_nan_bits(s[j]) && !taken@[j]
                    ==> ranks_before(s, r@[p] as int, j),
            done ==> forall|j: int| 0 <= j < n && !is_nan_bits(s[j]) ==> taken@[j],
        decreases (max_results - r.len()) * 2 + if done { 0int } else { 1int },
    {
        let mut found = false;
        let mut best: usize = 0;
        let mut j: usize = 0;
        while j < n
            invariant
                s == scores@,
                n == s.len(),
                taken.len() == n,
                j <= n,
                found ==> best < j && !is_nan_bits(s[best as int]) && !taken@[best as int],
                found ==> forall|i: int|
                    0 <= i < j && i != best && !is_nan_bits(s[i]) && !taken@[i]
                        ==> ranks_before(s, best as int, i),
                !found ==> forall|i: int| 0 <= i < j ==> is_nan_bits(s[i]) || taken@[i],
            decreases n - j,
        {
            if !is_nan_score(scores[j]) && !taken[j] {
                if !found || score_order_key(scores[j]) > score_order_key(scores[best]) {
                    found = true;
                    best = j;
                }
            }
            j += 1;
        }
        if found {
            let ghost old_taken = taken@;
            let ghost old_r = r@;
            proof {
                lemma_count_true_set(old_taken, best as int);
            }
            taken.set(best, true);
            r.push(best);
            assert forall|i: int| 0 <= i < n && #[trigger] taken@[i] implies !is_nan_bits(s[i])
                && r@.contains(i as usize) by {
                if i == best as int {
                    assert(r@[r@.len() - 1] == best);
                } else {
                    assert(old_taken[i]);
                    let p = choose|p: int| 0 <= p < old_r.len() && old_r[p] == i as usize;
                    assert(r@[p] == i as usize);
                }
            }
        } else {
            done = true;
        }
    }
    proof {
        let m = rankable_mask(s);
        if done {
            assert(taken@ =~= m);
        } else {
            assert(r.len() == max_results);
        }
        assert(count_true(taken@) <= count_true(m)) by {
            lemma_count_true_le(taken@, m);
        }
        assert forall|p: int, j: int|
            0 <= p < r.len() && 0 <= j < n && !is_nan_bits(s[j]) && !r@.contains(j as usize)
            implies ranks_before(s, r@[p] as int, j) by {
            assert(!taken@[j]);
        }
    }
    r
}

proof fn lemma_count_true_le(a: Seq<bool>, b: Seq<bool>)
    requires
        a.len() == b.len(),
        forall|i: int| 0 <= i < a.len() && #[trigger] a[i] ==> b[i],
    ensures
        count_true(a) <= count_true(b),
    decreases a.len(),
{
    if a.len() > 0 {
        lemma_count_true_le(a.drop_last(), b.drop_last());
    }
}

/// With no NaN score, a ranking holds `min(max_results, scores.len())`
/// distinct indices of the corpus, in order of descending score.
pub proof fn lemma_ranking_without_nan(scores: Seq<u64>, max_results: nat, r: Seq<usize>)
    requires
        forall|i: int| 0 <= i < scores.len() ==> !is_nan_bits(scores[i]),
        is_ranking(scores, max_results, r),
    ensures
        r.len() == min_nat(max_results, scores.len()),
        r.no_duplicates(),
        forall|p: int| 0 <= p < r.len() ==> r[p] < scores.len(),
        forall|p: int, q: int|
            0 <= p < q < r.len() ==> order_key(scores[r[p] as int]) >= order_key(scores[r[q] as int]),
{
    lemma_count_true_all(rankable_mask(scores));
    assert forall|p: int, q: int| 0 <= p < r.len() && 0 <= q < r.len() && p != q implies r[p] != r[q] by {
        if p < q {
            assert(ranks_before(scores, r[p] as int, r[q] as int));
        } else {
            assert(ranks_before(scores, r[q] as int, r[p] as int));
        }
    }
    assert forall|p: int, q: int| 0 <= p < q < r.len() implies order_key(scores[r[p] as int]) >= order_key(
        scores[r[q] as int],
    ) by {
        assert(ranks_before(scores, r[p] as int, r[q] as int));
    }
}

/// Checks that every corpus row has the query's dimension.
pub fn check_corpus_dimensions(query_len: usize, row_lens: &Vec<usize>) -> (r: Result<(), CoreError>)
    ensures
        r is Ok <==> forall|i: int| 0 <= i < row_lens.len() ==> row_lens@[i] == query_len,
        r is Err ==> r == Err::<(), CoreError>(CoreError::DimensionMismatch),
{
    let mut i: usize = 0;
    while i < row_lens.len()
        invariant
            i <= row_lens.len(),
            forall|k: int| 0 <= k < i ==> row_lens@[k] == query_len,
        decreases row_lens.len() - i,
    {
        if row_lens[i] != query_len {
            return Err(CoreError::DimensionMismatch);
        }
        i += 1;
    }
    Ok(())
}

} // verus!
