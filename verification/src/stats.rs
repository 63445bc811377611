//! Robust statistics over sleep-latency samples: median, MAD-based outlier
//! filtering, mean/stdev on the cleaned set, nearest-rank percentiles, and a
//! 95% confidence interval for the mean.
//!
//! All sample values are integer numbers of 100-nanosecond units.

use vstd::prelude::*;
use crate::math::{
    abs_diff, div_round, isqrt128, lemma_isqrt_unique, spec_div_round, spec_isqrt,
};

verus! {

/// A sequence is sorted in non-decreasing order.
pub open spec fn is_sorted(s: Seq<u64>) -> bool {
    forall|i: int, j: int| 0 <= i <= j < s.len() ==> s[i] <= s[j]
}

/// Insert `x` into `s` before the first element that is `>= x`.
pub open spec fn spec_insert(x: u64, s: Seq<u64>) -> Seq<u64>
    decreases s.len(),
{
    if s.len() == 0 {
        seq![x]
    } else if x <= s[0] {
        seq![x] + s
    } else {
        seq![s[0]] + spec_insert(x, s.drop_first())
    }
}

/// Insertion sort of a sequence, processing elements from the back.
pub open spec fn spec_sort(s: Seq<u64>) -> Seq<u64>
    decreases s.len(),
{
    if s.len() == 0 {
        Seq::empty()
    } else {
        spec_insert(s.last(), spec_sort(s.drop_last()))
    }
}

pub proof fn lemma_insert_len(x: u64, s: Seq<u64>)
    ensures
        spec_insert(x, s).len() == s.len() + 1,
    decreases s.len(),
{
    if s.len() > 0 && !(x <= s[0]) {
        lemma_insert_len(x, s.drop_first());
    }
}

/// The elements of `spec_insert(x, s)` are exactly `x` and the elements of `s`.
pub proof fn lemma_insert_contains(x: u64, s: Seq<u64>)
    ensures
        forall|y: u64|
            #[trigger] spec_insert(x, s).contains(y) <==> (y == x || s.contains(y)),
    decreases s.len(),
{
    lemma_insert_len(x, s);
    if s.len() == 0 {
        assert forall|y: u64| #[trigger] spec_insert(x, s).contains(y) implies (y == x
            || s.contains(y)) by {
            let k = choose|k: int| 0 <= k < spec_insert(x, s).len() && spec_insert(x, s)[k] == y;
            assert(k == 0);
        }
        assert(spec_insert(x, s)[0] == x);
    } else if x <= s[0] {
        assert forall|y: u64| #[trigger] spec_insert(x, s).contains(y) implies (y == x
            || s.contains(y)) by {
            let k = choose|k: int| 0 <= k < spec_insert(x, s).len() && spec_insert(x, s)[k] == y;
            if k > 0 {
                assert(s[k - 1] == y);
            }
        }
        assert forall|y: u64| (y == x || s.contains(y)) implies #[trigger] spec_insert(
            x,
            s,
        ).contains(y) by {
            if y == x {
                assert(spec_insert(x, s)[0] == y);
            } else {
                let k = choose|k: int| 0 <= k < s.len() && s[k] == y;
                assert(spec_insert(x, s)[k + 1] == y);
            }
        }
    } else {
        lemma_insert_contains(x, s.drop_first());
        let rest = spec_insert(x, s.drop_first());
        assert forall|y: u64| #[trigger] spec_insert(x, s).contains(y) implies (y == x
            || s.contains(y)) by {
            let k = choose|k: int| 0 <= k < spec_insert(x, s).len() && spec_insert(x, s)[k] == y;
            if k == 0 {
                assert(s[0] == y);
            } else {
                assert(rest[k - 1] == y);
                assert(rest.contains(y));
                if y != x {
                    let m = choose|m: int| 0 <= m < s.drop_first().len() && s.drop_first()[m] == y;
                    assert(s[m + 1] == y);
                }
            }
        }
        assert forall|y: u64| (y == x || s.contains(y)) implies #[trigger] spec_insert(
            x,
            s,
        ).contains(y) by {
            if y == x {
                assert(rest.contains(y));
                let m = choose|m: int| 0 <= m < rest.len() && rest[m] == y;
                assert(spec_insert(x, s)[m + 1] == y);
            } else {
                let k = choose|k: int| 0 <= k < s.len() && s[k] == y;
                if k == 0 {
                    assert(spec_insert(x, s)[0] == y);
                } else {
                    assert(s.drop_first()[k - 1] == y);
                    assert(s.drop_first().contains(y));
                    assert(rest.contains(y));
                    let m = choose|m: int| 0 <= m < rest.len() && rest[m] == y;
                    assert(spec_insert(x, s)[m + 1] == y);
                }
            }
        }
    }
}

pub proof fn lemma_insert_sorted(x: u64, s: Seq<u64>)
    requires
        is_sorted(s),
    ensures
        is_sorted(spec_insert(x, s)),
    decreases s.len(),
{
    lemma_insert_len(x, s);
    if s.len() == 0 {
    } else if x <= s[0] {
        let r = seq![x] + s;
        assert forall|i: int, j: int| 0 <= i <= j < r.len() implies r[i] <= r[j] by {
            if i == 0 && j > 0 {
                assert(r[j] == s[j - 1]);
                assert(s[0] <= s[j - 1]);
            }
        }
    } else {
        assert(is_sorted(s.drop_first())) by {
            assert forall|i: int, j: int|
                0 <= i <= j < s.drop_first().len() implies s.drop_first()[i]
                <= s.drop_first()[j] by {
                assert(s.drop_first()[i] == s[i + 1]);
                assert(s.drop_first()[j] == s[j + 1]);
            }
        }
        lemma_insert_sorted(x, s.drop_first());
        lemma_insert_contains(x, s.drop_first());
        let rest = spec_insert(x, s.drop_first());
        let r = seq![s[0]] + rest;
        assert forall|i: int, j: int| 0 <= i <= j < r.len() implies r[i] <= r[j] by {
            if i == 0 && j > 0 {
                assert(r[j] == rest[j - 1]);
                assert(rest.contains(rest[j - 1]));
                if rest[j - 1] == x {
                    assert(s[0] <= x);
                } else {
                    assert(s.drop_first().contains(rest[j - 1]));
                    let m = choose|m: int|
                        0 <= m < s.drop_first().len() && s.drop_first()[m] == rest[j - 1];
                    assert(s.drop_first()[m] == s[m + 1]);
                    assert(s[0] <= s[m + 1]);
                }
            } else if i > 0 {
                assert(r[i] == rest[i - 1]);
                assert(r[j] == rest[j - 1]);
            }
        }
    }
}

pub proof fn lemma_sort_len(s: Seq<u64>)
    ensures
        spec_sort(s).len() == s.len(),
    decreases s.len(),
{
    if s.len() > 0 {
        lemma_sort_len(s.drop_last());
        lemma_insert_len(s.last(), spec_sort(s.drop_last()));
    }
}

/// The elements of `spec_sort(s)` are exactly the elements of `s`.
pub proof fn lemma_sort_contains(s: Seq<u64>)
    ensures
        forall|y: u64| #[trigger] spec_sort(s).contains(y) <==> s.contains(y),
    decreases s.len(),
{
    if s.len() > 0 {
        lemma_sort_contains(s.drop_last());
        lemma_insert_contains(s.last(), spec_sort(s.drop_last()));
        assert forall|y: u64| #[trigger] spec_sort(s).contains(y) implies s.contains(y) by {
            if y == s.last() {
                assert(s[s.len() - 1] == y);
            } else if spec_sort(s.drop_last()).contains(y) {
                assert(s.drop_last().contains(y));
                let k = choose|k: int| 0 <= k < s.drop_last().len() && s.drop_last()[k] == y;
                assert(s[k] == y);
            }
        }
        assert forall|y: u64| s.contains(y) implies #[trigger] spec_sort(s).contains(y) by {
            let k = choose|k: int| 0 <= k < s.len() && s[k] == y;
            if k == s.len() - 1 {
                assert(y == s.last());
            } else {
                assert(s.drop_last()[k] == y);
                assert(s.drop_last().contains(y));
            }
        }
    }
}

pub proof fn lemma_sort_sorted(s: Seq<u64>)
    ensures
        is_sorted(spec_sort(s)),
    decreases s.len(),
{
    if s.len() > 0 {
        lemma_sort_sorted(s.drop_last());
        lemma_insert_sorted(s.last(), spec_sort(s.drop_last()));
    }
}

/// If every element of `s` is below `bound`, so is every element of
/// `spec_sort(s)`.
pub proof fn lemma_sort_bounded(s: Seq<u64>, bound: u64)
    requires
        forall|i: int| 0 <= i < s.len() ==> s[i] < bound,
    ensures
        forall|i: int| 0 <= i < spec_sort(s).len() ==> spec_sort(s)[i] < bound,
{
    lemma_sort_contains(s);
    assert forall|i: int| 0 <= i < spec_sort(s).len() implies spec_sort(s)[i] < bound by {
        assert(spec_sort(s).contains(spec_sort(s)[i]));
        assert(s.contains(spec_sort(s)[i]));
        let k = choose|k: int| 0 <= k < s.len() && s[k] == spec_sort(s)[i];
    }
}

/// `spec_insert` splits as prefix + element + suffix at the insertion point.
proof fn lemma_insert_at(x: u64, s: Seq<u64>, j: int)
    requires
        0 <= j <= s.len(),
        forall|k: int| 0 <= k < j ==> s[k] < x,
        j < s.len() ==> x <= s[j],
    ensures
        spec_insert(x, s) =~= s.take(j) + seq![x] + s.skip(j),
    decreases j,
{
    if j == 0 {
        if s.len() == 0 {
            assert(spec_insert(x, s) =~= s.take(0) + seq![x] + s.skip(0));
        } else {
            assert(spec_insert(x, s) =~= s.take(0) + seq![x] + s.skip(0));
        }
    } else {
        assert(s[0] < x);
        assert(forall|k: int| 0 <= k < j - 1 ==> s.drop_first()[k] == s[k + 1] && s[k + 1] < x);
        assert(j - 1 < s.drop_first().len() ==> x <= s.drop_first()[j - 1]);
        lemma_insert_at(x, s.drop_first(), j - 1);
        assert(spec_insert(x, s) =~= seq![s[0]] + (s.drop_first().take(j - 1) + seq![x]
            + s.drop_first().skip(j - 1)));
        assert(seq![s[0]] + s.drop_first().take(j - 1) =~= s.take(j));
        assert(s.drop_first().skip(j - 1) =~= s.skip(j));
        assert(spec_insert(x, s) =~= s.take(j) + seq![x] + s.skip(j));
    }
}

/// Insert `x` into the vector before the first element that is `>= x`.
fn insert_sorted(v: &mut Vec<u64>, x: u64)
    requires
        old(v).len() < usize::MAX,
    ensures
        final(v)@ == spec_insert(x, old(v)@),
{
    let mut j: usize = 0;
    while j < v.len() && v[j] < x
        invariant
            0 <= j <= v.len(),
            forall|k: int| 0 <= k < j ==> v@[k] < x,
            v@ == old(v)@,
            v.len() < usize::MAX,
        decreases v.len() - j,
    {
        j = j + 1;
    }
    proof {
        lemma_insert_at(x, v@, j as int);
    }
    v.insert(j, x);
}

/// Sort the given values in non-decreasing order (stable insertion sort).
pub fn sort_units(v: &Vec<u64>) -> (r: Vec<u64>)
    ensures
        r@ == spec_sort(v@),
        r.len() == v.len(),
        is_sorted(r@),
{
    let mut r: Vec<u64> = Vec::new();
    let mut i: usize = 0;
    proof {
        lemma_sort_len(v@);
        assert(v@.take(0) =~= Seq::<u64>::empty());
    }
    while i < v.len()
        invariant
            0 <= i <= v.len(),
            r@ == spec_sort(v@.take(i as int)),
        decreases v.len() - i,
    {
        proof {
            lemma_sort_len(v@.take(i as int));
            assert(v@.take(i as int + 1).drop_last() =~= v@.take(i as int));
            assert(v@.take(i as int + 1).last() == v@[i as int]);
        }
        insert_sorted(&mut r, v[i]);
        i = i + 1;
    }
    proof {
        assert(v@.take(v.len() as int) =~= v@);
        lemma_sort_len(v@);
        lemma_sort_sorted(v@);
    }
    r
}

/// Index of the nearest-rank percentile `p` in a 0-indexed sorted array of
/// `n` elements: `p / 100 * (n - 1)` rounded to the nearest integer, with
/// ties resolved toward the lower rank.
pub open spec fn percentile_index(p: int, n: int) -> int {
    (p * (n - 1) + 49) / 100
}

/// The nearest-rank percentile of a pre-sorted sequence; 0 for an empty one.
pub open spec fn spec_percentile(sorted: Seq<u64>, p: int) -> u64 {
    if sorted.len() == 0 {
        0
    } else {
        sorted[percentile_index(p, sorted.len() as int)]
    }
}

pub proof fn lemma_percentile_index_in_range(p: int, n: int)
    requires
        1 <= p <= 99,
        n >= 1,
    ensures
        0 <= percentile_index(p, n) < n,
{
    assert(0 <= p * (n - 1) <= 99 * (n - 1)) by (nonlinear_arith)
        requires
            1 <= p <= 99,
            n >= 1,
    ;
    crate::math::lemma_div_le_bound(p * (n - 1) + 49, 100, n - 1);
}

/// Percentiles are monotone in `p` on a sorted sequence.
pub proof fn lemma_percentile_monotone(sorted: Seq<u64>, p: int, q: int)
    requires
        is_sorted(sorted),
        sorted.len() >= 1,
        1 <= p <= q <= 99,
    ensures
        spec_percentile(sorted, p) <= spec_percentile(sorted, q),
{
    let n = sorted.len() as int;
    assert(p * (n - 1) <= q * (n - 1)) by (nonlinear_arith)
        requires
            p <= q,
            n >= 1,
    ;
    vstd::arithmetic::div_mod::lemma_div_is_ordered(p * (n - 1) + 49, q * (n - 1) + 49, 100);
    lemma_percentile_index_in_range(p, n);
    lemma_percentile_index_in_range(q, n);
}

/// Nearest-rank percentile of a pre-sorted vector; 0 for an empty one.
pub fn percentile(sorted: &Vec<u64>, p: u64) -> (r: u64)
    requires
        sorted.len() < 0x8000_0000,
        1 <= p <= 99,
    ensures
        r == spec_percentile(sorted@, p as int),
{
    if sorted.len() == 0 {
        return 0;
    }
    let n: u64 = sorted.len() as u64;
    proof {
        assert(p * (n - 1) <= 99 * (n - 1)) by (nonlinear_arith)
            requires
                p <= 99,
                n >= 1,
        ;
    }
    let idx: u64 = (p * (n - 1) + 49) / 100;
    proof {
        lemma_percentile_index_in_range(p as int, n as int);
    }
    sorted[idx as usize]
}

/// Absolute deviation of a sample from the median.
pub open spec fn spec_dev(x: u64, med: u64) -> u64 {
    if x >= med {
        (x - med) as u64
    } else {
        (med - x) as u64
    }
}

/// Per-element absolute deviations from `med`.
pub open spec fn spec_devs(s: Seq<u64>, med: u64) -> Seq<u64> {
    s.map_values(|x: u64| spec_dev(x, med))
}

/// A sample survives the outlier filter when `|x - med| <= 3.5 * mad`.
pub open spec fn spec_keep(x: u64, med: u64, mad: u64) -> bool {
    2 * (spec_dev(x, med) as int) <= 7 * (mad as int)
}

/// The subsequence of samples that survive the outlier filter.
pub open spec fn spec_clean(s: Seq<u64>, med: u64, mad: u64) -> Seq<u64>
    decreases s.len(),
{
    if s.len() == 0 {
        Seq::empty()
    } else {
        spec_clean(s.drop_last(), med, mad) + (if spec_keep(s.last(), med, mad) {
            seq![s.last()]
        } else {
            Seq::empty()
        })
    }
}

pub proof fn lemma_clean_len(s: Seq<u64>, med: u64, mad: u64)
    ensures
        spec_clean(s, med, mad).len() <= s.len(),
    decreases s.len(),
{
    if s.len() > 0 {
        lemma_clean_len(s.drop_last(), med, mad);
    }
}

/// Every element of the cleaned sequence occurs in the input.
pub proof fn lemma_clean_subset(s: Seq<u64>, med: u64, mad: u64)
    ensures
        forall|y: u64| #[trigger] spec_clean(s, med, mad).contains(y) ==> s.contains(y),
    decreases s.len(),
{
    if s.len() > 0 {
        lemma_clean_subset(s.drop_last(), med, mad);
        assert forall|y: u64| #[trigger] spec_clean(s, med, mad).contains(y) implies s.contains(
            y,
        ) by {
            let c = spec_clean(s, med, mad);
            let prev = spec_clean(s.drop_last(), med, mad);
            let k = choose|k: int| 0 <= k < c.len() && c[k] == y;
            if k < prev.len() {
                assert(prev[k] == y);
                assert(prev.contains(y));
                assert(s.drop_last().contains(y));
                let m = choose|m: int| 0 <= m < s.drop_last().len() && s.drop_last()[m] == y;
                assert(s[m] == y);
            } else {
                assert(y == s.last());
                assert(s[s.len() - 1] == y);
            }
        }
    }
}

/// A surviving input element occurs in the cleaned sequence.
pub proof fn lemma_clean_contains_kept(s: Seq<u64>, med: u64, mad: u64, y: u64)
    requires
        s.contains(y),
        spec_keep(y, med, mad),
    ensures
        spec_clean(s, med, mad).contains(y),
    decreases s.len(),
{
    let c = spec_clean(s, med, mad);
    let prev = spec_clean(s.drop_last(), med, mad);
    if y == s.last() {
        assert(c[prev.len() as int] == y);
    } else {
        let k = choose|k: int| 0 <= k < s.len() && s[k] == y;
        assert(s.drop_last()[k] == y);
        assert(s.drop_last().contains(y));
        lemma_clean_contains_kept(s.drop_last(), med, mad, y);
        let m = choose|m: int| 0 <= m < prev.len() && prev[m] == y;
        assert(c[m] == y);
    }
}

/// Filtering a sorted sequence leaves it sorted.
pub proof fn lemma_clean_sorted(s: Seq<u64>, med: u64, mad: u64)
    requires
        is_sorted(s),
    ensures
        is_sorted(spec_clean(s, med, mad)),
    decreases s.len(),
{
    if s.len() > 0 {
        assert(is_sorted(s.drop_last()));
        lemma_clean_sorted(s.drop_last(), med, mad);
        lemma_clean_subset(s.drop_last(), med, mad);
        let c = spec_clean(s, med, mad);
        let prev = spec_clean(s.drop_last(), med, mad);
        assert forall|i: int, j: int| 0 <= i <= j < c.len() implies c[i] <= c[j] by {
            if j < prev.len() {
                assert(c[i] == prev[i] && c[j] == prev[j]);
            } else if j >= prev.len() && i < prev.len() {
                assert(c[j] == s.last());
                assert(prev.contains(prev[i]));
                assert(s.drop_last().contains(prev[i]));
                let m = choose|m: int| 0 <= m < s.drop_last().len() && s.drop_last()[m] == prev[i];
                assert(s[m] == prev[i]);
                assert(s[m] <= s[s.len() - 1]);
            }
        }
    }
}

/// Sum of a sequence of samples.
pub open spec fn spec_sum(s: Seq<u64>) -> int
    decreases s.len(),
{
    if s.len() == 0 {
        0
    } else {
        spec_sum(s.drop_last()) + s.last()
    }
}

pub proof fn lemma_sum_bounds(s: Seq<u64>, b: u64)
    requires
        b >= 1,
        forall|i: int| 0 <= i < s.len() ==> s[i] < b,
    ensures
        0 <= spec_sum(s) <= s.len() * ((b - 1) as int),
    decreases s.len(),
{
    if s.len() > 0 {
        lemma_sum_bounds(s.drop_last(), b);
        assert((s.len() - 1) * ((b - 1) as int) + ((b - 1) as int) == s.len() * ((b - 1) as int))
            by (nonlinear_arith);
    }
}

/// Sum of squared deviations from `mean`.
pub open spec fn spec_sq_dev_sum(s: Seq<u64>, mean: u64) -> int
    decreases s.len(),
{
    if s.len() == 0 {
        0
    } else {
        spec_sq_dev_sum(s.drop_last(), mean) + (spec_dev(s.last(), mean) as int) * (spec_dev(
            s.last(),
            mean,
        ) as int)
    }
}

pub proof fn lemma_sq_dev_sum_bounds(s: Seq<u64>, mean: u64, b: u64)
    requires
        b >= 1,
        forall|i: int| 0 <= i < s.len() ==> s[i] < b,
        mean < b,
    ensures
        0 <= spec_sq_dev_sum(s, mean) <= s.len() * (((b - 1) as int) * ((b - 1) as int)),
    decreases s.len(),
{
    let c = ((b - 1) as int) * ((b - 1) as int);
    if s.len() > 0 {
        lemma_sq_dev_sum_bounds(s.drop_last(), mean, b);
        let d = spec_dev(s.last(), mean) as int;
        assert(0 <= d < b);
        assert(d * d <= c) by (nonlinear_arith)
            requires
                0 <= d < b,
                c == ((b - 1) as int) * ((b - 1) as int),
        ;
        assert((s.len() - 1) * c + c == s.len() * c) by (nonlinear_arith);
    } else {
        assert(c >= 0) by (nonlinear_arith)
            requires
                c == ((b - 1) as int) * ((b - 1) as int),
                b >= 1,
        ;
    }
}

/// Robust statistics of a non-empty sample vector, all in 100-ns units.
///
/// `ci_low` and `ci_high` bound the 95% confidence interval for the mean;
/// they are signed because the lower bound of `mean - 1.96 * stdev / sqrt(n)`
/// may fall below zero.
#[derive(Clone, Copy, Debug, PartialEq, Eq, Structural)]
pub struct RobustStatistics {
    pub mean: u64,
    pub median: u64,
    pub stdev: u64,
    pub mad: u64,
    pub p95: u64,
    pub p99: u64,
    pub outliers_removed: usize,
    pub ci_low: i64,
    pub ci_high: i64,
}

/// Bounds that every statistics value produced by `from_samples` satisfies:
/// location and dispersion values fit well below 2^32 units and the
/// confidence interval is an ordered pair of bounded width.
pub open spec fn stats_wf(st: RobustStatistics) -> bool {
    &&& st.mean < 0x1_0000_0000u64
    &&& st.median < 0x1_0000_0000u64
    &&& st.stdev < 0x1_0000_0000u64
    &&& st.mad < 0x1_0000_0000u64
    &&& st.p95 < 0x1_0000_0000u64
    &&& st.p99 < 0x1_0000_0000u64
    &&& st.ci_low <= st.ci_high
    &&& st.ci_high - st.ci_low < 0x4000_0000_0000i64
    &&& st.ci_low > -0x4000_0000_0000i64
}

/// Weights of the composite performance score, in percent.
#[derive(Clone, Copy, Debug, PartialEq, Eq, Structural)]
pub struct PerformanceWeights {
    pub accuracy: u64,
    pub consistency: u64,
    pub worst_case: u64,
}

impl Default for PerformanceWeights {
    /// The default split: 60% accuracy (p95), 30% consistency (MAD),
    /// 10% worst case (p99).
    fn default() -> (r: Self)
        ensures
            r == (PerformanceWeights { accuracy: 60, consistency: 30, worst_case: 10 }),
    {
        PerformanceWeights { accuracy: 60, consistency: 30, worst_case: 10 }
    }
}

/// The statistics derived from a sample sequence: sort, take the median,
/// filter samples whose absolute deviation exceeds 3.5 times the median
/// absolute deviation, and compute mean, stdev, percentiles and the 95%
/// confidence interval on the cleaned set.
pub open spec fn spec_stats(s: Seq<u64>) -> RobustStatistics {
    let sorted = spec_sort(s);
    let med = spec_percentile(sorted, 50);
    let devs_sorted = spec_sort(spec_devs(sorted, med));
    let mad = spec_percentile(devs_sorted, 50);
    let cleaned = spec_clean(sorted, med, mad);
    let n = cleaned.len() as int;
    let mean = spec_div_round(spec_sum(cleaned), n);
    let variance = spec_sq_dev_sum(cleaned, mean as u64) / n;
    let stdev = spec_isqrt(variance);
    let margin = spec_isqrt((38416 * stdev * stdev) / (10000 * n));
    RobustStatistics {
        mean: mean as u64,
        median: med,
        stdev: stdev as u64,
        mad: mad,
        p95: spec_percentile(cleaned, 95),
        p99: spec_percentile(cleaned, 99),
        outliers_removed: (s.len() - cleaned.len()) as usize,
        ci_low: (mean - margin) as i64,
        ci_high: (mean + margin) as i64,
    }
}

impl RobustStatistics {
    /// Composite cost score: `accuracy * p95 + consistency * mad +
    /// worst_case * p99`, weights in percent; smaller is better.
    pub open spec fn spec_performance_score(self, w: PerformanceWeights) -> int {
        spec_div_round(
            w.accuracy * self.p95 + w.consistency * self.mad + w.worst_case * self.p99,
            100,
        )
    }

    /// Weighted composite cost score of these statistics.
    pub fn performance_score(&self, weights: &PerformanceWeights) -> (r: u64)
        requires
            self.p95 <= 0xFFFF_FFFFu64,
            self.mad <= 0xFFFF_FFFFu64,
            self.p99 <= 0xFFFF_FFFFu64,
            weights.accuracy <= 1000,
            weights.consistency <= 1000,
            weights.worst_case <= 1000,
        ensures
            r == self.spec_performance_score(*weights),
    {
        proof {
            assert(weights.accuracy * self.p95 <= 1000 * 0xFFFF_FFFFu64) by (nonlinear_arith)
                requires
                    weights.accuracy <= 1000,
                    self.p95 <= 0xFFFF_FFFFu64,
            ;
            assert(weights.consistency * self.mad <= 1000 * 0xFFFF_FFFFu64) by (nonlinear_arith)
                requires
                    weights.consistency <= 1000,
                    self.mad <= 0xFFFF_FFFFu64,
            ;
            assert(weights.worst_case * self.p99 <= 1000 * 0xFFFF_FFFFu64) by (nonlinear_arith)
                requires
                    weights.worst_case <= 1000,
                    self.p99 <= 0xFFFF_FFFFu64,
            ;
        }
        div_round(
            weights.accuracy * self.p95 + weights.consistency * self.mad + weights.worst_case
                * self.p99,
            100,
        )
    }

    /// Derive robust statistics from a non-empty vector of samples.
    ///
    /// The postconditions pin the result to `spec_stats` and state the
    /// structural invariants: the confidence interval brackets the mean, the
    /// median is one of the samples, and `p95 <= p99`.
    pub fn from_samples(samples: Vec<u64>) -> (r: RobustStatistics)
        requires
            1 <= samples.len() < 0x8000_0000,
            forall|i: int| 0 <= i < samples@.len() ==> samples@[i] < 0x1_0000_0000u64,
        ensures
            r == spec_stats(samples@),
            r.ci_low <= r.mean as i64 <= r.ci_high,
            samples@.contains(r.median),
            r.p95 <= r.p99,
            stats_wf(r),
            r.outliers_removed < samples.len(),
    {
        let bound: u64 = 0x1_0000_0000u64;
        let sorted = sort_units(&samples);
        proof {
            lemma_sort_bounded(samples@, bound);
        }
        let median = percentile(&sorted, 50);
        proof {
            lemma_percentile_index_in_range(50, sorted@.len() as int);
        }

        // Absolute deviations from the median, then their median (the MAD).
        let mut devs: Vec<u64> = Vec::new();
        let mut i: usize = 0;
        proof {
            assert(spec_devs(sorted@.take(0), median) =~= Seq::<u64>::empty());
        }
        while i < sorted.len()
            invariant
                0 <= i <= sorted.len(),
                devs@ == spec_devs(sorted@.take(i as int), median),
                devs.len() == i,
                forall|k: int| 0 <= k < sorted@.len() ==> sorted@[k] < 0x1_0000_0000u64,
                median < 0x1_0000_0000u64,
                forall|k: int| 0 <= k < devs@.len() ==> devs@[k] < 0x1_0000_0000u64,
            decreases sorted.len() - i,
        {
            let d = abs_diff(sorted[i], median);
            devs.push(d);
            proof {
                assert(spec_devs(sorted@.take(i as int + 1), median) =~= spec_devs(
                    sorted@.take(i as int),
                    median,
                ).push(spec_dev(sorted@[i as int], median)));
            }
            i = i + 1;
        }
        proof {
            assert(sorted@.take(sorted@.len() as int) =~= sorted@);
        }
        let devs_sorted = sort_units(&devs);
        proof {
            lemma_sort_bounded(devs@, bound);
        }
        let mad = percentile(&devs_sorted, 50);
        proof {
            lemma_sort_contains(devs@);
            lemma_percentile_index_in_range(50, devs_sorted@.len() as int);
        }

        // Outlier filtering: keep samples with |x - median| <= 3.5 * MAD.
        let mut cleaned: Vec<u64> = Vec::new();
        let mut j: usize = 0;
        proof {
            assert(spec_clean(sorted@.take(0), median, mad) =~= Seq::<u64>::empty());
        }
        while j < sorted.len()
            invariant
                0 <= j <= sorted.len(),
                cleaned@ == spec_clean(sorted@.take(j as int), median, mad),
                forall|k: int| 0 <= k < sorted@.len() ==> sorted@[k] < 0x1_0000_0000u64,
                median < 0x1_0000_0000u64,
                mad < 0x1_0000_0000u64,
            decreases sorted.len() - j,
        {
            let d = abs_diff(sorted[j], median);
            proof {
                assert(sorted@.take(j as int + 1).drop_last() =~= sorted@.take(j as int));
                assert(sorted@.take(j as int + 1).last() == sorted@[j as int]);
            }
            if 2 * d <= 7 * mad {
                cleaned.push(sorted[j]);
                proof {
                    assert(spec_clean(sorted@.take(j as int + 1), median, mad) =~= spec_clean(
                        sorted@.take(j as int),
                        median,
                        mad,
                    ).push(sorted@[j as int]));
                }
            } else {
                proof {
                    assert(spec_clean(sorted@.take(j as int + 1), median, mad) =~= spec_clean(
                        sorted@.take(j as int),
                        median,
                        mad,
                    ));
                }
            }
            j = j + 1;
        }
        proof {
            assert(sorted@.take(sorted@.len() as int) =~= sorted@);
            // The median itself always survives the filter, so the cleaned
            // set is non-empty.
            assert(sorted@.contains(median));
            assert(spec_keep(median, median, mad));
            lemma_clean_contains_kept(sorted@, median, mad, median);
            lemma_clean_len(sorted@, median, mad);
            lemma_clean_subset(sorted@, median, mad);
            assert forall|k: int| 0 <= k < cleaned@.len() implies cleaned@[k] < 0x1_0000_0000u64 by {
                assert(cleaned@.contains(cleaned@[k]));
                assert(sorted@.contains(cleaned@[k]));
                let m = choose|m: int| 0 <= m < sorted@.len() && sorted@[m] == cleaned@[k];
            }
        }

        let n: u64 = cleaned.len() as u64;
        let total = sum_units(&cleaned);
        proof {
            lemma_sum_bounds(cleaned@, bound);
            assert(cleaned@.len() * ((bound - 1) as int) < 0x8000_0000_0000_0000i128 as int)
                by (nonlinear_arith)
                requires
                    cleaned@.len() < 0x8000_0000,
                    bound == 0x1_0000_0000u64,
            ;
        }
        let mean64 = div_round(total, n);
        proof {
            crate::math::lemma_div_round_le_bound(total as int, n as int, (bound - 1) as int);
        }
        let sq = sq_dev_sum(&cleaned, mean64);
        let variance: u128 = sq / (n as u128);
        proof {
            // variance <= (bound - 1)^2 < 2^64, so stdev <= bound - 1.
            lemma_sq_dev_sum_bounds(cleaned@, mean64, bound);
            crate::math::lemma_div_le_bound(
                spec_sq_dev_sum(cleaned@, mean64),
                n as int,
                ((bound - 1) as int) * ((bound - 1) as int),
            );
            assert(((bound - 1) as int) * ((bound - 1) as int)
                < 0x4000_0000_0000_0000_0000_0000_0000_0000u128 as int) by (nonlinear_arith)
                requires
                    bound == 0x1_0000_0000u64,
            ;
        }
        let stdev128 = isqrt128(variance);
        proof {
            assert(stdev128 <= (bound - 1) as u128) by (nonlinear_arith)
                requires
                    stdev128 * stdev128 <= variance,
                    variance as int <= ((bound - 1) as int) * ((bound - 1) as int),
                    bound >= 1,
            ;
        }
        let stdev: u64 = stdev128 as u64;
        let p95 = percentile(&cleaned, 95);
        let p99 = percentile(&cleaned, 99);
        proof {
            lemma_sort_sorted(sorted@);
            lemma_clean_sorted(sorted@, median, mad);
            lemma_percentile_monotone(cleaned@, 95, 99);
            lemma_percentile_index_in_range(95, cleaned@.len() as int);
            lemma_percentile_index_in_range(99, cleaned@.len() as int);
        }
        proof {
            assert(38416u128 * (stdev as u128) * (stdev as u128)
                < 0x1_0000_0000_0000_0000_0000u128) by (nonlinear_arith)
                requires
                    (stdev as u128) < 0x1_0000_0000u128,
            ;
        }
        let margin_num: u128 = 38416u128 * (stdev as u128) * (stdev as u128);
        let den: u128 = 10000u128 * (n as u128);
        let margin_q: u128 = margin_num / den;
        proof {
            vstd::arithmetic::div_mod::lemma_div_is_ordered_by_denominator(
                margin_num as int,
                1,
                den as int,
            );
            vstd::arithmetic::div_mod::lemma_div_basics(margin_num as int);
        }
        let margin128 = isqrt128(margin_q);
        proof {
            assert(margin128 < 0x100_0000_0000u128) by (nonlinear_arith)
                requires
                    margin128 * margin128 <= margin_q,
                    margin_q <= margin_num,
                    margin_num < 0x1_0000_0000_0000_0000_0000u128,
            ;
        }
        let margin: u64 = margin128 as u64;
        let ci_low: i64 = mean64 as i64 - margin as i64;
        let ci_high: i64 = mean64 as i64 + margin as i64;
        let outliers: usize = samples.len() - cleaned.len();
        let r = RobustStatistics {
            mean: mean64,
            median,
            stdev,
            mad,
            p95,
            p99,
            outliers_removed: outliers,
            ci_low,
            ci_high,
        };
        proof {
            lemma_sort_contains(samples@);
            assert(sorted@.contains(median));
            assert(r == spec_stats(samples@));
        }
        r
    }
}

/// Sum of a vector of bounded samples.
fn sum_units(v: &Vec<u64>) -> (r: u64)
    requires
        v.len() < 0x8000_0000,
        forall|i: int| 0 <= i < v@.len() ==> v@[i] < 0x1_0000_0000u64,
    ensures
        r as int == spec_sum(v@),
{
    let mut acc: u64 = 0;
    let mut i: usize = 0;
    proof {
        assert(spec_sum(v@.take(0)) == 0);
    }
    while i < v.len()
        invariant
            0 <= i <= v.len(),
            v.len() < 0x8000_0000,
            forall|k: int| 0 <= k < v@.len() ==> v@[k] < 0x1_0000_0000u64,
            acc as int == spec_sum(v@.take(i as int)),
        decreases v.len() - i,
    {
        proof {
            lemma_sum_bounds(v@.take(i as int), 0x1_0000_0000u64);
            assert(v@.take(i as int).len() * 0xFFFF_FFFFi64 < 0x8000_0000_0000_0000i128 as int)
                by (nonlinear_arith)
                requires
                    v@.take(i as int).len() < 0x8000_0000,
            ;
            assert(v@.take(i as int + 1).drop_last() =~= v@.take(i as int));
            assert(v@.take(i as int + 1).last() == v@[i as int]);
        }
        acc = acc + v[i];
        i = i + 1;
    }
    proof {
        assert(v@.take(v@.len() as int) =~= v@);
    }
    acc
}

/// Sum of squared deviations of a vector of bounded samples from `mean`.
fn sq_dev_sum(v: &Vec<u64>, mean: u64) -> (r: u128)
    requires
        v.len() < 0x8000_0000,
        forall|i: int| 0 <= i < v@.len() ==> v@[i] < 0x1_0000_0000u64,
        mean < 0x1_0000_0000u64,
    ensures
        r as int == spec_sq_dev_sum(v@, mean),
{
    let mut acc: u128 = 0;
    let mut i: usize = 0;
    proof {
        assert(spec_sq_dev_sum(v@.take(0), mean) == 0);
    }
    while i < v.len()
        invariant
            0 <= i <= v.len(),
            v.len() < 0x8000_0000,
            forall|k: int| 0 <= k < v@.len() ==> v@[k] < 0x1_0000_0000u64,
            mean < 0x1_0000_0000u64,
            acc as int == spec_sq_dev_sum(v@.take(i as int), mean),
        decreases v.len() - i,
    {
        proof {
            lemma_sq_dev_sum_bounds(v@.take(i as int), mean, 0x1_0000_0000u64);
            assert(v@.take(i as int).len() * (0xFFFF_FFFFi128 as int * 0xFFFF_FFFFi128 as int)
                < 0x7000_0000_0000_0000_0000_0000_0000_0000u128 as int) by (nonlinear_arith)
                requires
                    v@.take(i as int).len() < 0x8000_0000,
            ;
            assert(v@.take(i as int + 1).drop_last() =~= v@.take(i as int));
            assert(v@.take(i as int + 1).last() == v@[i as int]);
        }
        let d = abs_diff(v[i], mean);
        proof {
            assert((d as u128) * (d as u128) < 0x1_0000_0000_0000_0000u128) by (nonlinear_arith)
                requires
                    d < 0x1_0000_0000u64,
            ;
        }
        acc = acc + (d as u128) * (d as u128);
        i = i + 1;
    }
    proof {
        assert(v@.take(v@.len() as int) =~= v@);
    }
    acc
}

} // verus!
