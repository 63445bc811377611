//! TOPSIS ranking of aggregated measurements over four cost criteria:
//! p95 delta, MAD, p99 delta, and confidence-interval width.
//!
//! Each column of the decision matrix is vector-normalized to a fixed-point
//! scale of 10^4 (so `1.0` is `10_000`), weighted with the fixed weights
//! 40/30/20/10 percent, and every row is scored by the ratio of its distance
//! to the anti-ideal point over the sum of its distances to the ideal and
//! anti-ideal points. Higher closeness is better; ranking is stable.

use vstd::prelude::*;
use crate::math::{
    abs_diff, isqrt, isqrt128, lemma_div_le_bound, lemma_isqrt_unique, spec_isqrt,
    spec_isqrt_valid,
};
use crate::measurement::TimerMeasurement;
use crate::stats::stats_wf;

verus! {

/// The fixed-point scale of normalized values and closeness coefficients:
/// `10_000` stands for `1.0`.
pub const CLOSENESS_SCALE: u64 = 10_000;

/// The neutral closeness used when a row is equidistant from the ideal and
/// the anti-ideal point (both distances zero).
pub const NEUTRAL_CLOSENESS: u64 = 5_000;

/// The four per-measurement cost criteria, in 100-ns units. Lower is better
/// in every column.
#[derive(Clone, Copy, Debug, PartialEq, Eq, Structural)]
pub struct CriteriaScores {
    pub p95_delta: u64,
    pub mad: u64,
    pub p99_delta: u64,
    pub confidence_width: u64,
}

/// The TOPSIS result for one measurement.
#[derive(Clone, Copy, Debug, PartialEq, Eq, Structural)]
pub struct TopsisScore {
    /// The measured timer period in 100-ns units.
    pub resolution_units: u64,
    /// Closeness to the ideal point, scaled by `CLOSENESS_SCALE`.
    pub closeness_coefficient: u64,
    /// 1-based rank after sorting by closeness, descending, stable.
    pub rank: usize,
    /// The raw criteria this score was computed from.
    pub criteria_scores: CriteriaScores,
}

/// The criteria row of one measurement.
pub open spec fn spec_criteria(m: TimerMeasurement) -> CriteriaScores {
    CriteriaScores {
        p95_delta: m.statistics.p95,
        mad: m.statistics.mad,
        p99_delta: m.statistics.p99,
        confidence_width: (m.statistics.ci_high - m.statistics.ci_low) as u64,
    }
}

/// The criteria rows of a measurement sequence.
pub open spec fn rows_of(ms: Seq<TimerMeasurement>) -> Seq<CriteriaScores> {
    ms.map_values(|m: TimerMeasurement| spec_criteria(m))
}

/// Criterion `j` of a row, `j` in `0..4`.
pub open spec fn crit(c: CriteriaScores, j: int) -> u64 {
    if j == 0 {
        c.p95_delta
    } else if j == 1 {
        c.mad
    } else if j == 2 {
        c.p99_delta
    } else {
        c.confidence_width
    }
}

/// The weight of criterion `j`, in percent.
pub open spec fn weight(j: int) -> int {
    if j == 0 {
        40
    } else if j == 1 {
        30
    } else if j == 2 {
        20
    } else {
        10
    }
}

/// Column `j` of the decision matrix.
pub open spec fn col4(rows: Seq<CriteriaScores>, j: int) -> Seq<u64> {
    rows.map_values(|c: CriteriaScores| crit(c, j))
}

/// Sum of squares of a column.
pub open spec fn sum_sq(col: Seq<u64>) -> int
    decreases col.len(),
{
    if col.len() == 0 {
        0
    } else {
        sum_sq(col.drop_last()) + (col.last() as int) * (col.last() as int)
    }
}

/// The Euclidean norm of column `j`, rounded down.
pub open spec fn col_norm(rows: Seq<CriteriaScores>, j: int) -> int {
    spec_isqrt(sum_sq(col4(rows, j)))
}

/// The weighted normalized value of a cell: `x / norm` on the fixed-point
/// scale, times the column weight. A column whose norm is zero (all cells
/// zero) is filled with `1 / sqrt(n)` instead.
pub open spec fn spec_wnorm(x: u64, norm: int, n: int, j: int) -> int {
    let v = if norm == 0 {
        spec_isqrt((10_000int * 10_000int) / n)
    } else {
        ((x as int) * 10_000) / norm
    };
    (v * weight(j)) / 100
}

/// Column `j` of the weighted normalized matrix.
pub open spec fn wcol(rows: Seq<CriteriaScores>, j: int) -> Seq<u64> {
    Seq::new(
        rows.len(),
        |i: int| spec_wnorm(crit(rows[i], j), col_norm(rows, j), rows.len() as int, j) as u64,
    )
}

/// Minimum of a non-empty sequence.
pub open spec fn seq_min(s: Seq<u64>) -> u64
    recommends
        s.len() >= 1,
    decreases s.len(),
{
    if s.len() <= 1 {
        s[0]
    } else {
        let m = seq_min(s.drop_last());
        if s.last() < m {
            s.last()
        } else {
            m
        }
    }
}

/// Maximum of a non-empty sequence.
pub open spec fn seq_max(s: Seq<u64>) -> u64
    recommends
        s.len() >= 1,
    decreases s.len(),
{
    if s.len() <= 1 {
        s[0]
    } else {
        let m = seq_max(s.drop_last());
        if s.last() > m {
            s.last()
        } else {
            m
        }
    }
}

pub proof fn lemma_seq_min_le(s: Seq<u64>, i: int)
    requires
        0 <= i < s.len(),
    ensures
        seq_min(s) <= s[i],
    decreases s.len(),
{
    if s.len() > 1 && i < s.len() - 1 {
        lemma_seq_min_le(s.drop_last(), i);
    }
}

pub proof fn lemma_seq_max_ge(s: Seq<u64>, i: int)
    requires
        0 <= i < s.len(),
    ensures
        seq_max(s) >= s[i],
    decreases s.len(),
{
    if s.len() > 1 && i < s.len() - 1 {
        lemma_seq_max_ge(s.drop_last(), i);
    }
}

/// The minimum of a non-empty sequence is one of its elements.
pub proof fn lemma_seq_min_in(s: Seq<u64>)
    requires
        s.len() >= 1,
    ensures
        s.contains(seq_min(s)),
    decreases s.len(),
{
    if s.len() == 1 {
        assert(s[0] == seq_min(s));
    } else {
        lemma_seq_min_in(s.drop_last());
        if s.last() < seq_min(s.drop_last()) {
            assert(s[s.len() - 1] == seq_min(s));
        } else {
            let k = choose|k: int|
                0 <= k < s.drop_last().len() && s.drop_last()[k] == seq_min(s.drop_last());
            assert(s[k] == seq_min(s));
        }
    }
}

/// The maximum of a non-empty sequence is one of its elements.
pub proof fn lemma_seq_max_in(s: Seq<u64>)
    requires
        s.len() >= 1,
    ensures
        s.contains(seq_max(s)),
    decreases s.len(),
{
    if s.len() == 1 {
        assert(s[0] == seq_max(s));
    } else {
        lemma_seq_max_in(s.drop_last());
        if s.last() > seq_max(s.drop_last()) {
            assert(s[s.len() - 1] == seq_max(s));
        } else {
            let k = choose|k: int|
                0 <= k < s.drop_last().len() && s.drop_last()[k] == seq_max(s.drop_last());
            assert(s[k] == seq_max(s));
        }
    }
}

/// On a constant sequence, minimum and maximum coincide with the value.
pub proof fn lemma_seq_min_max_const(s: Seq<u64>, v: u64)
    requires
        s.len() >= 1,
        forall|i: int| 0 <= i < s.len() ==> s[i] == v,
    ensures
        seq_min(s) == v,
        seq_max(s) == v,
    decreases s.len(),
{
    if s.len() > 1 {
        lemma_seq_min_max_const(s.drop_last(), v);
    }
}

/// The ideal value of column `j`: its minimum (all criteria are costs).
pub open spec fn ideal(rows: Seq<CriteriaScores>, j: int) -> u64 {
    seq_min(wcol(rows, j))
}

/// The anti-ideal value of column `j`: its maximum.
pub open spec fn anti_ideal(rows: Seq<CriteriaScores>, j: int) -> u64 {
    seq_max(wcol(rows, j))
}

/// Squared difference of two values.
pub open spec fn sqd(a: u64, b: u64) -> int {
    (a as int - b as int) * (a as int - b as int)
}

/// Squared distance of row `i` to the ideal point.
pub open spec fn dplus_sq(rows: Seq<CriteriaScores>, i: int) -> int {
    sqd(wcol(rows, 0)[i], ideal(rows, 0)) + sqd(wcol(rows, 1)[i], ideal(rows, 1)) + sqd(
        wcol(rows, 2)[i],
        ideal(rows, 2),
    ) + sqd(wcol(rows, 3)[i], ideal(rows, 3))
}

/// Squared distance of row `i` to the anti-ideal point.
pub open spec fn dminus_sq(rows: Seq<CriteriaScores>, i: int) -> int {
    sqd(wcol(rows, 0)[i], anti_ideal(rows, 0)) + sqd(wcol(rows, 1)[i], anti_ideal(rows, 1)) + sqd(
        wcol(rows, 2)[i],
        anti_ideal(rows, 2),
    ) + sqd(wcol(rows, 3)[i], anti_ideal(rows, 3))
}

/// The closeness coefficient of row `i`, scaled by `CLOSENESS_SCALE`:
/// `d_minus / (d_plus + d_minus)`, or the neutral `0.5` when both distances
/// are zero.
pub open spec fn spec_closeness(rows: Seq<CriteriaScores>, i: int) -> u64 {
    let dp = spec_isqrt(dplus_sq(rows, i));
    let dm = spec_isqrt(dminus_sq(rows, i));
    if dp + dm == 0 {
        NEUTRAL_CLOSENESS
    } else {
        ((dm * 10_000) / (dp + dm)) as u64
    }
}

/// The unranked score row of measurement `i`.
pub open spec fn spec_scores(ms: Seq<TimerMeasurement>) -> Seq<TopsisScore> {
    Seq::new(
        ms.len(),
        |i: int| TopsisScore {
            resolution_units: ms[i].resolution_units,
            closeness_coefficient: spec_closeness(rows_of(ms), i),
            rank: 0,
            criteria_scores: spec_criteria(ms[i]),
        },
    )
}

/// Insert a score into a descending list, after every entry whose closeness
/// is at least as large (so the sort below is stable).
pub open spec fn spec_insert_desc(x: TopsisScore, s: Seq<TopsisScore>) -> Seq<TopsisScore>
    decreases s.len(),
{
    if s.len() == 0 {
        seq![x]
    } else if s[0].closeness_coefficient >= x.closeness_coefficient {
        seq![s[0]] + spec_insert_desc(x, s.drop_first())
    } else {
        seq![x] + s
    }
}

/// Stable insertion sort by closeness, descending.
pub open spec fn spec_sort_desc(s: Seq<TopsisScore>) -> Seq<TopsisScore>
    decreases s.len(),
{
    if s.len() == 0 {
        Seq::empty()
    } else {
        spec_insert_desc(s.last(), spec_sort_desc(s.drop_last()))
    }
}

/// Re-number a sorted score sequence with 1-based ranks.
pub open spec fn spec_rank_assign(s: Seq<TopsisScore>) -> Seq<TopsisScore> {
    Seq::new(
        s.len(),
        |k: int| TopsisScore {
            resolution_units: s[k].resolution_units,
            closeness_coefficient: s[k].closeness_coefficient,
            rank: (k + 1) as usize,
            criteria_scores: s[k].criteria_scores,
        },
    )
}

/// The full ranking: score every measurement, sort stably by closeness
/// descending, assign ranks `1..=n`.
pub open spec fn spec_topsis(ms: Seq<TimerMeasurement>) -> Seq<TopsisScore> {
    spec_rank_assign(spec_sort_desc(spec_scores(ms)))
}

pub proof fn lemma_insert_desc_len(x: TopsisScore, s: Seq<TopsisScore>)
    ensures
        spec_insert_desc(x, s).len() == s.len() + 1,
    decreases s.len(),
{
    if s.len() > 0 && s[0].closeness_coefficient >= x.closeness_coefficient {
        lemma_insert_desc_len(x, s.drop_first());
    }
}

pub proof fn lemma_sort_desc_len(s: Seq<TopsisScore>)
    ensures
        spec_sort_desc(s).len() == s.len(),
    decreases s.len(),
{
    if s.len() > 0 {
        lemma_sort_desc_len(s.drop_last());
        lemma_insert_desc_len(s.last(), spec_sort_desc(s.drop_last()));
    }
}

/// The elements of `spec_insert_desc(x, s)` are `x` and those of `s`.
pub proof fn lemma_insert_desc_contains(x: TopsisScore, s: Seq<TopsisScore>)
    ensures
        forall|y: TopsisScore|
            #[trigger] spec_insert_desc(x, s).contains(y) <==> (y == x || s.contains(y)),
    decreases s.len(),
{
    lemma_insert_desc_len(x, s);
    if s.len() == 0 {
        assert forall|y: TopsisScore| #[trigger] spec_insert_desc(x, s).contains(y) implies (y == x
            || s.contains(y)) by {
            let k = choose|k: int|
                0 <= k < spec_insert_desc(x, s).len() && spec_insert_desc(x, s)[k] == y;
            assert(k == 0);
        }
        assert(spec_insert_desc(x, s)[0] == x);
    } else if s[0].closeness_coefficient >= x.closeness_coefficient {
        lemma_insert_desc_contains(x, s.drop_first());
        let rest = spec_insert_desc(x, s.drop_first());
        assert forall|y: TopsisScore| #[trigger] spec_insert_desc(x, s).contains(y) implies (y == x
            || s.contains(y)) by {
            let k = choose|k: int|
                0 <= k < spec_insert_desc(x, s).len() && spec_insert_desc(x, s)[k] == y;
            if k == 0 {
                assert(s[0] == y);
            } else {
                assert(rest[k - 1] == y);
                assert(rest.contains(y));
                if y != x {
                    let m = choose|m: int| 0 <= m < s.drop_first().len() && s.drop_first()[m] == y;
                    assert(s[m + 1] == y);
                }
            }
        }
        assert forall|y: TopsisScore| (y == x || s.contains(y)) implies #[trigger] spec_insert_desc(
            x,
            s,
        ).contains(y) by {
            if y == x {
                assert(rest.contains(y));
                let m = choose|m: int| 0 <= m < rest.len() && rest[m] == y;
                assert(spec_insert_desc(x, s)[m + 1] == y);
            } else {
                let k = choose|k: int| 0 <= k < s.len() && s[k] == y;
                if k == 0 {
                    assert(spec_insert_desc(x, s)[0] == y);
                } else {
                    assert(s.drop_first()[k - 1] == y);
                    assert(s.drop_first().contains(y));
                    assert(rest.contains(y));
                    let m = choose|m: int| 0 <= m < rest.len() && rest[m] == y;
                    assert(spec_insert_desc(x, s)[m + 1] == y);
                }
            }
        }
    } else {
        assert forall|y: TopsisScore| #[trigger] spec_insert_desc(x, s).contains(y) implies (y == x
            || s.contains(y)) by {
            let k = choose|k: int|
                0 <= k < spec_insert_desc(x, s).len() && spec_insert_desc(x, s)[k] == y;
            if k > 0 {
                assert(s[k - 1] == y);
            }
        }
        assert forall|y: TopsisScore| (y == x || s.contains(y)) implies #[trigger] spec_insert_desc(
            x,
            s,
        ).contains(y) by {
            if y == x {
                assert(spec_insert_desc(x, s)[0] == y);
            } else {
                let k = choose|k: int| 0 <= k < s.len() && s[k] == y;
                assert(spec_insert_desc(x, s)[k + 1] == y);
            }
        }
    }
}

pub proof fn lemma_sort_desc_contains(s: Seq<TopsisScore>)
    ensures
        forall|y: TopsisScore| #[trigger] spec_sort_desc(s).contains(y) <==> s.contains(y),
    decreases s.len(),
{
    if s.len() > 0 {
        lemma_sort_desc_contains(s.drop_last());
        lemma_insert_desc_contains(s.last(), spec_sort_desc(s.drop_last()));
        assert forall|y: TopsisScore| #[trigger] spec_sort_desc(s).contains(y) implies s.contains(
            y,
        ) by {
            if y == s.last() {
                assert(s[s.len() - 1] == y);
            } else if spec_sort_desc(s.drop_last()).contains(y) {
                assert(s.drop_last().contains(y));
                let k = choose|k: int| 0 <= k < s.drop_last().len() && s.drop_last()[k] == y;
                assert(s[k] == y);
            }
        }
        assert forall|y: TopsisScore| s.contains(y) implies #[trigger] spec_sort_desc(s).contains(
            y,
        ) by {
            let k = choose|k: int| 0 <= k < s.len() && s[k] == y;
            if k == s.len() - 1 {
                assert(y == s.last());
            } else {
                assert(s.drop_last()[k] == y);
                assert(s.drop_last().contains(y));
            }
        }
    }
}

/// Descending order by closeness.
pub open spec fn is_sorted_desc(s: Seq<TopsisScore>) -> bool {
    forall|i: int, j: int|
        0 <= i <= j < s.len() ==> s[i].closeness_coefficient >= s[j].closeness_coefficient
}

pub proof fn lemma_insert_desc_sorted(x: TopsisScore, s: Seq<TopsisScore>)
    requires
        is_sorted_desc(s),
    ensures
        is_sorted_desc(spec_insert_desc(x, s)),
    decreases s.len(),
{
    lemma_insert_desc_len(x, s);
    if s.len() == 0 {
    } else if s[0].closeness_coefficient >= x.closeness_coefficient {
        assert(is_sorted_desc(s.drop_first())) by {
            assert forall|i: int, j: int|
                0 <= i <= j < s.drop_first().len() implies s.drop_first()[i].closeness_coefficient
                >= s.drop_first()[j].closeness_coefficient by {
                assert(s.drop_first()[i] == s[i + 1]);
                assert(s.drop_first()[j] == s[j + 1]);
            }
        }
        lemma_insert_desc_sorted(x, s.drop_first());
        lemma_insert_desc_contains(x, s.drop_first());
        let rest = spec_insert_desc(x, s.drop_first());
        let r = seq![s[0]] + rest;
        assert forall|i: int, j: int|
            0 <= i <= j < r.len() implies r[i].closeness_coefficient
            >= r[j].closeness_coefficient by {
            if i == 0 && j > 0 {
                assert(r[j] == rest[j - 1]);
                assert(rest.contains(rest[j - 1]));
                if rest[j - 1] == x {
                } else {
                    assert(s.drop_first().contains(rest[j - 1]));
                    let m = choose|m: int|
                        0 <= m < s.drop_first().len() && s.drop_first()[m] == rest[j - 1];
                    assert(s.drop_first()[m] == s[m + 1]);
                    assert(s[0].closeness_coefficient >= s[m + 1].closeness_coefficient);
                }
            } else if i > 0 {
                assert(r[i] == rest[i - 1]);
                assert(r[j] == rest[j - 1]);
            }
        }
    } else {
        let r = seq![x] + s;
        assert forall|i: int, j: int|
            0 <= i <= j < r.len() implies r[i].closeness_coefficient
            >= r[j].closeness_coefficient by {
            if i == 0 && j > 0 {
                assert(r[j] == s[j - 1]);
                assert(s[0].closeness_coefficient >= s[j - 1].closeness_coefficient);
            } else if i > 0 {
                assert(r[i] == s[i - 1]);
                assert(r[j] == s[j - 1]);
            }
        }
    }
}

pub proof fn lemma_sort_desc_sorted(s: Seq<TopsisScore>)
    ensures
        is_sorted_desc(spec_sort_desc(s)),
    decreases s.len(),
{
    if s.len() > 0 {
        lemma_sort_desc_sorted(s.drop_last());
        lemma_insert_desc_sorted(s.last(), spec_sort_desc(s.drop_last()));
    }
}

/// Inserting into a list whose entries all share the new entry's closeness
/// appends at the end, so sorting a constant-closeness sequence is the
/// identity: ties keep input order.
pub proof fn lemma_insert_desc_all_equal(x: TopsisScore, s: Seq<TopsisScore>)
    requires
        forall|i: int|
            0 <= i < s.len() ==> s[i].closeness_coefficient == x.closeness_coefficient,
    ensures
        spec_insert_desc(x, s) =~= s + seq![x],
    decreases s.len(),
{
    if s.len() > 0 {
        assert(forall|i: int|
            0 <= i < s.drop_first().len() ==> s.drop_first()[i].closeness_coefficient
                == x.closeness_coefficient);
        lemma_insert_desc_all_equal(x, s.drop_first());
        assert(spec_insert_desc(x, s) =~= seq![s[0]] + (s.drop_first() + seq![x]));
    }
}

pub proof fn lemma_sort_desc_all_equal(s: Seq<TopsisScore>, c: u64)
    requires
        forall|i: int| 0 <= i < s.len() ==> s[i].closeness_coefficient == c,
    ensures
        spec_sort_desc(s) =~= s,
    decreases s.len(),
{
    if s.len() > 0 {
        lemma_sort_desc_all_equal(s.drop_last(), c);
        lemma_insert_desc_all_equal(s.last(), s.drop_last());
        assert(spec_sort_desc(s) =~= s.drop_last() + seq![s.last()]);
    }
}

/// Criteria values small enough for all intermediate arithmetic.
pub open spec fn criteria_wf(c: CriteriaScores) -> bool {
    &&& c.p95_delta < 0x8000_0000_0000u64
    &&& c.mad < 0x8000_0000_0000u64
    &&& c.p99_delta < 0x8000_0000_0000u64
    &&& c.confidence_width < 0x8000_0000_0000u64
}

/// Well-formed statistics yield well-formed criteria.
pub proof fn lemma_stats_criteria_wf(m: TimerMeasurement)
    requires
        stats_wf(m.statistics),
    ensures
        criteria_wf(spec_criteria(m)),
{
}

pub proof fn lemma_sum_sq_bounds(col: Seq<u64>, b: u64)
    requires
        b >= 1,
        forall|i: int| 0 <= i < col.len() ==> col[i] < b,
    ensures
        0 <= sum_sq(col) <= col.len() * (((b - 1) as int) * ((b - 1) as int)),
    decreases col.len(),
{
    let c = ((b - 1) as int) * ((b - 1) as int);
    if col.len() > 0 {
        lemma_sum_sq_bounds(col.drop_last(), b);
        let x = col.last() as int;
        assert(0 <= x < b);
        assert(x * x <= c) by (nonlinear_arith)
            requires
                0 <= x < b,
                c == ((b - 1) as int) * ((b - 1) as int),
        ;
        assert((col.len() - 1) * c + c == col.len() * c) by (nonlinear_arith);
    } else {
        assert(c >= 0) by (nonlinear_arith)
            requires
                c == ((b - 1) as int) * ((b - 1) as int),
                b >= 1,
        ;
    }
}

/// The square of any element is at most the column's sum of squares.
pub proof fn lemma_member_sq_le(col: Seq<u64>, i: int)
    requires
        0 <= i < col.len(),
    ensures
        (col[i] as int) * (col[i] as int) <= sum_sq(col),
    decreases col.len(),
{
    if i == col.len() - 1 {
        lemma_sum_sq_nonneg(col.drop_last());
    } else {
        lemma_member_sq_le(col.drop_last(), i);
        let x = col.last() as int;
        assert(x * x >= 0) by (nonlinear_arith);
    }
}

pub proof fn lemma_sum_sq_nonneg(col: Seq<u64>)
    ensures
        sum_sq(col) >= 0,
    decreases col.len(),
{
    if col.len() > 0 {
        lemma_sum_sq_nonneg(col.drop_last());
        let x = col.last() as int;
        assert(x * x >= 0) by (nonlinear_arith);
    }
}

/// The Euclidean norm of column `j`, with the facts the cell computation
/// needs.
fn norm_of(crows: &Vec<CriteriaScores>, j: usize) -> (r: u64)
    requires
        j < 4,
        crows@.len() < 0x8000_0000,
        forall|i: int| 0 <= i < crows@.len() ==> criteria_wf(#[trigger] crows@[i]),
    ensures
        r as int == col_norm(crows@, j as int),
        spec_isqrt_valid(sum_sq(col4(crows@, j as int))),
        forall|i: int| 0 <= i < crows@.len() ==> crit(#[trigger] crows@[i], j as int) <= r || r
            == 0,
{
    let ghost col = col4(crows@, j as int);
    let mut acc: u128 = 0;
    let mut i: usize = 0;
    proof {
        assert(col4(crows@.take(0), j as int) =~= Seq::<u64>::empty());
        assert(forall|k: int| 0 <= k < col.len() ==> col[k] < 0x8000_0000_0000u64);
    }
    while i < crows.len()
        invariant
            0 <= i <= crows.len(),
            crows@.len() < 0x8000_0000,
            j < 4,
            forall|k: int| 0 <= k < crows@.len() ==> criteria_wf(#[trigger] crows@[k]),
            acc as int == sum_sq(col4(crows@.take(i as int), j as int)),
        decreases crows.len() - i,
    {
        proof {
            lemma_sum_sq_bounds(col4(crows@.take(i as int), j as int), 0x8000_0000_0000u64);
            assert(col4(crows@.take(i as int), j as int).len() * ((0x8000_0000_0000i128 as int - 1)
                * (0x8000_0000_0000i128 as int - 1))
                < 0x2000_0000_0000_0000_0000_0000_0000_0000i128 as int) by (nonlinear_arith)
                requires
                    col4(crows@.take(i as int), j as int).len() < 0x8000_0000,
            ;
            assert(col4(crows@.take(i as int + 1), j as int).drop_last() =~= col4(
                crows@.take(i as int),
                j as int,
            ));
            assert(col4(crows@.take(i as int + 1), j as int).last() == crit(
                crows@[i as int],
                j as int,
            ));
        }
        let x = crit_at(&crows[i], j);
        proof {
            assert((x as u128) * (x as u128) < 0x1_0000_0000_0000_0000_0000_0000u128)
                by (nonlinear_arith)
                requires
                    x < 0x8000_0000_0000u64,
            ;
        }
        acc = acc + (x as u128) * (x as u128);
        i = i + 1;
    }
    proof {
        assert(crows@.take(crows@.len() as int) =~= crows@);
        lemma_sum_sq_bounds(col, 0x8000_0000_0000u64);
        assert(col.len() * ((0x8000_0000_0000i128 as int - 1) * (0x8000_0000_0000i128 as int - 1))
            < 0x4000_0000_0000_0000_0000_0000_0000_0000u128 as int) by (nonlinear_arith)
            requires
                col.len() < 0x8000_0000,
        ;
    }
    let norm128 = isqrt128(acc);
    proof {
        assert(norm128 < 0x1_0000_0000_0000_0000u128) by (nonlinear_arith)
            requires
                norm128 * norm128 <= acc,
                acc < 0x4000_0000_0000_0000_0000_0000_0000_0000u128,
        ;
        lemma_isqrt_unique(acc as int, norm128 as int);
        assert forall|k: int|
            0 <= k < crows@.len() implies crit(#[trigger] crows@[k], j as int) <= (norm128 as u64)
            || (norm128 as u64) == 0 by {
            assert(col[k] == crit(crows@[k], j as int));
            lemma_member_sq_le(col, k);
            let x = col[k] as int;
            let r = norm128 as int;
            assert(x <= r) by (nonlinear_arith)
                requires
                    0 <= x,
                    0 <= r,
                    x * x <= acc as int,
                    (acc as int) < (r + 1) * (r + 1),
            ;
        }
    }
    norm128 as u64
}

/// Criterion `j` of a row, executable form.
fn crit_at(c: &CriteriaScores, j: usize) -> (r: u64)
    requires
        j < 4,
    ensures
        r == crit(*c, j as int),
{
    if j == 0 {
        c.p95_delta
    } else if j == 1 {
        c.mad
    } else if j == 2 {
        c.p99_delta
    } else {
        c.confidence_width
    }
}

/// The degenerate-column fill value `1 / sqrt(n)` on the fixed-point scale.
fn fill_of(n: usize) -> (r: u64)
    requires
        n >= 1,
    ensures
        r as int == spec_isqrt((10_000int * 10_000int) / (n as int)),
        r <= 10_000,
{
    let q: u64 = 100_000_000u64 / (n as u64);
    let r128 = isqrt128(q as u128);
    proof {
        lemma_div_le_bound(100_000_000int, n as int, 100_000_000int);
        assert(r128 <= 10_000u128) by (nonlinear_arith)
            requires
                r128 * r128 <= q as u128,
                q <= 100_000_000u64,
        ;
    }
    r128 as u64
}

/// One weighted normalized cell.
fn wnorm_cell(x: u64, norm: u64, fillv: u64, j: usize, n: usize) -> (r: u64)
    requires
        j < 4,
        n >= 1,
        fillv as int == spec_isqrt((10_000int * 10_000int) / (n as int)),
        fillv <= 10_000,
        x < 0x8000_0000_0000u64,
        norm > 0 ==> x <= norm,
    ensures
        r as int == spec_wnorm(x, norm as int, n as int, j as int),
        r <= 10_000,
{
    let v: u64 = if norm == 0 {
        fillv
    } else {
        proof {
            assert((x as int) * 10_000 <= (norm as int) * 10_000) by (nonlinear_arith)
                requires
                    x <= norm,
            ;
            lemma_div_le_bound((x as int) * 10_000, norm as int, 10_000);
        }
        (x * 10_000) / norm
    };
    let w: u64 = if j == 0 {
        40
    } else if j == 1 {
        30
    } else if j == 2 {
        20
    } else {
        10
    };
    proof {
        assert((v as int) * (w as int) <= 10_000 * 100) by (nonlinear_arith)
            requires
                v <= 10_000,
                w <= 100,
        ;
        lemma_div_le_bound((v as int) * (w as int), 100, 10_000);
    }
    (v * w) / 100
}

/// Minimum of a non-empty vector.
fn vec_min(v: &Vec<u64>) -> (r: u64)
    requires
        v.len() >= 1,
    ensures
        r == seq_min(v@),
{
    let mut m: u64 = v[0];
    let mut i: usize = 1;
    proof {
        assert(v@.take(1) =~= seq![v@[0]]);
    }
    while i < v.len()
        invariant
            1 <= i <= v.len(),
            m == seq_min(v@.take(i as int)),
        decreases v.len() - i,
    {
        proof {
            assert(v@.take(i as int + 1).drop_last() =~= v@.take(i as int));
            assert(v@.take(i as int + 1).last() == v@[i as int]);
        }
        if v[i] < m {
            m = v[i];
        }
        i = i + 1;
    }
    proof {
        assert(v@.take(v@.len() as int) =~= v@);
    }
    m
}

/// Maximum of a non-empty vector.
fn vec_max(v: &Vec<u64>) -> (r: u64)
    requires
        v.len() >= 1,
    ensures
        r == seq_max(v@),
{
    let mut m: u64 = v[0];
    let mut i: usize = 1;
    proof {
        assert(v@.take(1) =~= seq![v@[0]]);
    }
    while i < v.len()
        invariant
            1 <= i <= v.len(),
            m == seq_max(v@.take(i as int)),
        decreases v.len() - i,
    {
        proof {
            assert(v@.take(i as int + 1).drop_last() =~= v@.take(i as int));
            assert(v@.take(i as int + 1).last() == v@[i as int]);
        }
        if v[i] > m {
            m = v[i];
        }
        i = i + 1;
    }
    proof {
        assert(v@.take(v@.len() as int) =~= v@);
    }
    m
}

/// `spec_insert_desc` splits as prefix + element + suffix.
proof fn lemma_insert_desc_at(x: TopsisScore, s: Seq<TopsisScore>, j: int)
    requires
        0 <= j <= s.len(),
        forall|k: int| 0 <= k < j ==> s[k].closeness_coefficient >= x.closeness_coefficient,
        j < s.len() ==> s[j].closeness_coefficient < x.closeness_coefficient,
    ensures
        spec_insert_desc(x, s) =~= s.take(j) + seq![x] + s.skip(j),
    decreases j,
{
    if j == 0 {
        assert(spec_insert_desc(x, s) =~= s.take(0) + seq![x] + s.skip(0));
    } else {
        assert(s[0].closeness_coefficient >= x.closeness_coefficient);
        assert(forall|k: int|
            0 <= k < j - 1 ==> s.drop_first()[k] == s[k + 1] && s[k + 1].closeness_coefficient
                >= x.closeness_coefficient);
        assert(j - 1 < s.drop_first().len() ==> s.drop_first()[j - 1].closeness_coefficient
            < x.closeness_coefficient);
        lemma_insert_desc_at(x, s.drop_first(), j - 1);
        assert(seq![s[0]] + s.drop_first().take(j - 1) =~= s.take(j));
        assert(s.drop_first().skip(j - 1) =~= s.skip(j));
        assert(spec_insert_desc(x, s) =~= s.take(j) + seq![x] + s.skip(j));
    }
}

/// Insert a score into a descending vector, stably.
fn insert_desc(v: &mut Vec<TopsisScore>, x: TopsisScore)
    requires
        old(v).len() < usize::MAX,
    ensures
        final(v)@ == spec_insert_desc(x, old(v)@),
{
    let mut j: usize = 0;
    while j < v.len() && v[j].closeness_coefficient >= x.closeness_coefficient
        invariant
            0 <= j <= v.len(),
            forall|k: int|
                0 <= k < j ==> v@[k].closeness_coefficient >= x.closeness_coefficient,
            v@ == old(v)@,
            v.len() < usize::MAX,
        decreases v.len() - j,
    {
        j = j + 1;
    }
    proof {
        lemma_insert_desc_at(x, v@, j as int);
    }
    v.insert(j, x);
}

/// Rank measurements by TOPSIS.
///
/// The result is pinned to `spec_topsis`; in addition: the ranking has one
/// entry per measurement, the entries are sorted by closeness descending
/// (stably, so ties keep input order), entry `k` carries rank `k + 1` — the
/// ranks are exactly the permutation `1..=n` — and every closeness
/// coefficient lies in `[0, CLOSENESS_SCALE]`. An empty input yields an
/// empty ranking.
pub fn topsis_ranking(measurements: &Vec<TimerMeasurement>) -> (r: Vec<TopsisScore>)
    requires
        measurements@.len() < 0x8000_0000,
        forall|i: int|
            0 <= i < measurements@.len() ==> stats_wf(#[trigger] measurements@[i].statistics),
    ensures
        r@ == spec_topsis(measurements@),
        r@.len() == measurements@.len(),
        forall|k: int| 0 <= k < r@.len() ==> #[trigger] r@[k].rank == k + 1,
        forall|k: int|
            0 <= k < r@.len() ==> #[trigger] r@[k].closeness_coefficient <= CLOSENESS_SCALE,
        is_sorted_desc(r@),
{
    let ghost ms = measurements@;
    let n = measurements.len();
    if n == 0 {
        let r: Vec<TopsisScore> = Vec::new();
        proof {
            assert(spec_scores(ms) =~= Seq::<TopsisScore>::empty());
            assert(spec_sort_desc(spec_scores(ms)) =~= Seq::<TopsisScore>::empty());
            assert(spec_topsis(ms) =~= Seq::<TopsisScore>::empty());
            assert(r@ =~= spec_topsis(ms));
        }
        return r;
    }

    // The decision matrix: one criteria row per measurement.
    let mut crows: Vec<CriteriaScores> = Vec::new();
    let mut i: usize = 0;
    proof {
        assert(rows_of(ms.take(0)) =~= Seq::<CriteriaScores>::empty());
    }
    while i < measurements.len()
        invariant
            0 <= i <= measurements.len(),
            ms == measurements@,
            forall|k: int| 0 <= k < ms.len() ==> stats_wf(#[trigger] ms[k].statistics),
            crows@ == rows_of(ms.take(i as int)),
            crows@.len() == i,
        decreases measurements.len() - i,
    {
        let st = &measurements[i].statistics;
        let c = CriteriaScores {
            p95_delta: st.p95,
            mad: st.mad,
            p99_delta: st.p99,
            confidence_width: (st.ci_high - st.ci_low) as u64,
        };
        proof {
            assert(c == spec_criteria(ms[i as int]));
            assert(rows_of(ms.take(i as int + 1)) =~= rows_of(ms.take(i as int)).push(
                spec_criteria(ms[i as int]),
            ));
        }
        crows.push(c);
        i = i + 1;
    }
    proof {
        assert(ms.take(ms.len() as int) =~= ms);
        assert forall|k: int| 0 <= k < crows@.len() implies criteria_wf(#[trigger] crows@[k]) by {
            lemma_stats_criteria_wf(ms[k]);
        }
    }
    let ghost rows = crows@;

    // Column norms and the degenerate-column fill value.
    let norm0 = norm_of(&crows, 0);
    let norm1 = norm_of(&crows, 1);
    let norm2 = norm_of(&crows, 2);
    let norm3 = norm_of(&crows, 3);
    let fillv = fill_of(n);

    // The weighted normalized matrix, one vector per column.
    let mut wc0: Vec<u64> = Vec::new();
    let mut wc1: Vec<u64> = Vec::new();
    let mut wc2: Vec<u64> = Vec::new();
    let mut wc3: Vec<u64> = Vec::new();
    let mut i2: usize = 0;
    while i2 < crows.len()
        invariant
            0 <= i2 <= crows.len(),
            rows == crows@,
            crows@.len() == n,
            n >= 1,
            n < 0x8000_0000,
            forall|k: int| 0 <= k < rows.len() ==> criteria_wf(#[trigger] rows[k]),
            norm0 as int == col_norm(rows, 0),
            norm1 as int == col_norm(rows, 1),
            norm2 as int == col_norm(rows, 2),
            norm3 as int == col_norm(rows, 3),
            forall|k: int| 0 <= k < rows.len() ==> crit(#[trigger] rows[k], 0) <= norm0 || norm0
                == 0,
            forall|k: int| 0 <= k < rows.len() ==> crit(#[trigger] rows[k], 1) <= norm1 || norm1
                == 0,
            forall|k: int| 0 <= k < rows.len() ==> crit(#[trigger] rows[k], 2) <= norm2 || norm2
                == 0,
            forall|k: int| 0 <= k < rows.len() ==> crit(#[trigger] rows[k], 3) <= norm3 || norm3
                == 0,
            fillv as int == spec_isqrt((10_000int * 10_000int) / (n as int)),
            fillv <= 10_000,
            wc0@.len() == i2 && wc1@.len() == i2 && wc2@.len() == i2 && wc3@.len() == i2,
            forall|k: int| 0 <= k < i2 ==> #[trigger] wc0@[k] == wcol(rows, 0)[k],
            forall|k: int| 0 <= k < i2 ==> #[trigger] wc1@[k] == wcol(rows, 1)[k],
            forall|k: int| 0 <= k < i2 ==> #[trigger] wc2@[k] == wcol(rows, 2)[k],
            forall|k: int| 0 <= k < i2 ==> #[trigger] wc3@[k] == wcol(rows, 3)[k],
            forall|k: int| 0 <= k < i2 ==> #[trigger] wc0@[k] <= 10_000,
            forall|k: int| 0 <= k < i2 ==> #[trigger] wc1@[k] <= 10_000,
            forall|k: int| 0 <= k < i2 ==> #[trigger] wc2@[k] <= 10_000,
            forall|k: int| 0 <= k < i2 ==> #[trigger] wc3@[k] <= 10_000,
        decreases crows.len() - i2,
    {
        let c = crows[i2];
        let w0 = wnorm_cell(c.p95_delta, norm0, fillv, 0, n);
        let w1 = wnorm_cell(c.mad, norm1, fillv, 1, n);
        let w2 = wnorm_cell(c.p99_delta, norm2, fillv, 2, n);
        let w3 = wnorm_cell(c.confidence_width, norm3, fillv, 3, n);
        proof {
            assert(crit(rows[i2 as int], 0) == c.p95_delta);
            assert(crit(rows[i2 as int], 1) == c.mad);
            assert(crit(rows[i2 as int], 2) == c.p99_delta);
            assert(crit(rows[i2 as int], 3) == c.confidence_width);
        }
        wc0.push(w0);
        wc1.push(w1);
        wc2.push(w2);
        wc3.push(w3);
        i2 = i2 + 1;
    }

    // Ideal (column minimum) and anti-ideal (column maximum) points.
    proof {
        assert(wc0@ =~= wcol(rows, 0));
        assert(wc1@ =~= wcol(rows, 1));
        assert(wc2@ =~= wcol(rows, 2));
        assert(wc3@ =~= wcol(rows, 3));
    }
    let id0 = vec_min(&wc0);
    let id1 = vec_min(&wc1);
    let id2 = vec_min(&wc2);
    let id3 = vec_min(&wc3);
    let an0 = vec_max(&wc0);
    let an1 = vec_max(&wc1);
    let an2 = vec_max(&wc2);
    let an3 = vec_max(&wc3);
    proof {
        lemma_seq_min_le(wc0@, 0);
        lemma_seq_min_le(wc1@, 0);
        lemma_seq_min_le(wc2@, 0);
        lemma_seq_min_le(wc3@, 0);
        lemma_seq_max_ge(wc0@, 0);
        lemma_seq_max_ge(wc1@, 0);
        lemma_seq_max_ge(wc2@, 0);
        lemma_seq_max_ge(wc3@, 0);
        assert forall|k: int| 0 <= k < wc0@.len() implies seq_max(wc0@) >= wc0@[k]
            && seq_max(wc1@) >= wc1@[k] && seq_max(wc2@) >= wc2@[k] && seq_max(wc3@)
            >= wc3@[k] by {
            lemma_seq_max_ge(wc0@, k);
            lemma_seq_max_ge(wc1@, k);
            lemma_seq_max_ge(wc2@, k);
            lemma_seq_max_ge(wc3@, k);
        }
        lemma_seq_max_in(wc0@);
        lemma_seq_max_in(wc1@);
        lemma_seq_max_in(wc2@);
        lemma_seq_max_in(wc3@);
        assert(an0 <= 10_000) by {
            let k = choose|k: int| 0 <= k < wc0@.len() && wc0@[k] == seq_max(wc0@);
        }
        assert(an1 <= 10_000) by {
            let k = choose|k: int| 0 <= k < wc1@.len() && wc1@[k] == seq_max(wc1@);
        }
        assert(an2 <= 10_000) by {
            let k = choose|k: int| 0 <= k < wc2@.len() && wc2@[k] == seq_max(wc2@);
        }
        assert(an3 <= 10_000) by {
            let k = choose|k: int| 0 <= k < wc3@.len() && wc3@[k] == seq_max(wc3@);
        }
    }

    // Distances and closeness coefficients, in input order.
    let mut scores: Vec<TopsisScore> = Vec::new();
    let mut i3: usize = 0;
    while i3 < measurements.len()
        invariant
            0 <= i3 <= measurements.len(),
            ms == measurements@,
            rows == rows_of(ms),
            ms.len() == n,
            crows@ == rows,
            crows@.len() == n,
            wc0@ == wcol(rows, 0) && wc1@ == wcol(rows, 1) && wc2@ == wcol(rows, 2) && wc3@
                == wcol(rows, 3),
            wc0@.len() == n && wc1@.len() == n && wc2@.len() == n && wc3@.len() == n,
            forall|k: int| 0 <= k < n ==> #[trigger] wc0@[k] <= 10_000,
            forall|k: int| 0 <= k < n ==> #[trigger] wc1@[k] <= 10_000,
            forall|k: int| 0 <= k < n ==> #[trigger] wc2@[k] <= 10_000,
            forall|k: int| 0 <= k < n ==> #[trigger] wc3@[k] <= 10_000,
            id0 == ideal(rows, 0) && id1 == ideal(rows, 1) && id2 == ideal(rows, 2) && id3
                == ideal(rows, 3),
            an0 == anti_ideal(rows, 0) && an1 == anti_ideal(rows, 1) && an2 == anti_ideal(rows, 2)
                && an3 == anti_ideal(rows, 3),
            id0 <= 10_000 && id1 <= 10_000 && id2 <= 10_000 && id3 <= 10_000,
            an0 <= 10_000 && an1 <= 10_000 && an2 <= 10_000 && an3 <= 10_000,
            scores@.len() == i3,
            forall|k: int| 0 <= k < i3 ==> #[trigger] scores@[k] == spec_scores(ms)[k],
            forall|k: int|
                0 <= k < i3 ==> #[trigger] scores@[k].closeness_coefficient <= 10_000,
        decreases measurements.len() - i3,
    {
        let d0p = abs_diff(wc0[i3], id0);
        let d1p = abs_diff(wc1[i3], id1);
        let d2p = abs_diff(wc2[i3], id2);
        let d3p = abs_diff(wc3[i3], id3);
        let d0m = abs_diff(wc0[i3], an0);
        let d1m = abs_diff(wc1[i3], an1);
        let d2m = abs_diff(wc2[i3], an2);
        let d3m = abs_diff(wc3[i3], an3);
        proof {
            assert(d0p <= 10_000 && d1p <= 10_000 && d2p <= 10_000 && d3p <= 10_000);
            assert(d0m <= 10_000 && d1m <= 10_000 && d2m <= 10_000 && d3m <= 10_000);
            assert((d0p as int) * (d0p as int) == sqd(wc0@[i3 as int], id0)
                && (d0p as int) * (d0p as int) <= 100_000_000int) by (nonlinear_arith)
                requires
                    d0p as int == crate::math::spec_abs_diff(wc0@[i3 as int] as int, id0 as int),
                    d0p <= 10_000,
            ;
            assert((d1p as int) * (d1p as int) == sqd(wc1@[i3 as int], id1)
                && (d1p as int) * (d1p as int) <= 100_000_000int) by (nonlinear_arith)
                requires
                    d1p as int == crate::math::spec_abs_diff(wc1@[i3 as int] as int, id1 as int),
                    d1p <= 10_000,
            ;
            assert((d2p as int) * (d2p as int) == sqd(wc2@[i3 as int], id2)
                && (d2p as int) * (d2p as int) <= 100_000_000int) by (nonlinear_arith)
                requires
                    d2p as int == crate::math::spec_abs_diff(wc2@[i3 as int] as int, id2 as int),
                    d2p <= 10_000,
            ;
            assert((d3p as int) * (d3p as int) == sqd(wc3@[i3 as int], id3)
                && (d3p as int) * (d3p as int) <= 100_000_000int) by (nonlinear_arith)
                requires
                    d3p as int == crate::math::spec_abs_diff(wc3@[i3 as int] as int, id3 as int),
                    d3p <= 10_000,
            ;
            assert((d0m as int) * (d0m as int) == sqd(wc0@[i3 as int], an0)
                && (d0m as int) * (d0m as int) <= 100_000_000int) by (nonlinear_arith)
                requires
                    d0m as int == crate::math::spec_abs_diff(wc0@[i3 as int] as int, an0 as int),
                    d0m <= 10_000,
            ;
            assert((d1m as int) * (d1m as int) == sqd(wc1@[i3 as int], an1)
                && (d1m as int) * (d1m as int) <= 100_000_000int) by (nonlinear_arith)
                requires
                    d1m as int == crate::math::spec_abs_diff(wc1@[i3 as int] as int, an1 as int),
                    d1m <= 10_000,
            ;
            assert((d2m as int) * (d2m as int) == sqd(wc2@[i3 as int], an2)
                && (d2m as int) * (d2m as int) <= 100_000_000int) by (nonlinear_arith)
                requires
                    d2m as int == crate::math::spec_abs_diff(wc2@[i3 as int] as int, an2 as int),
                    d2m <= 10_000,
            ;
            assert((d3m as int) * (d3m as int) == sqd(wc3@[i3 as int], an3)
                && (d3m as int) * (d3m as int) <= 100_000_000int) by (nonlinear_arith)
                requires
                    d3m as int == crate::math::spec_abs_diff(wc3@[i3 as int] as int, an3 as int),
                    d3m <= 10_000,
            ;
        }
        let dsq_p: u64 = d0p * d0p + d1p * d1p + d2p * d2p + d3p * d3p;
        let dsq_m: u64 = d0m * d0m + d1m * d1m + d2m * d2m + d3m * d3m;
        let dp = isqrt(dsq_p);
        let dm = isqrt(dsq_m);
        proof {
            assert(dsq_p as int == dplus_sq(rows, i3 as int));
            assert(dsq_m as int == dminus_sq(rows, i3 as int));
            assert(dp <= 20_000) by (nonlinear_arith)
                requires
                    dp * dp <= dsq_p,
                    dsq_p <= 400_000_000u64,
            ;
            assert(dm <= 20_000) by (nonlinear_arith)
                requires
                    dm * dm <= dsq_m,
                    dsq_m <= 400_000_000u64,
            ;
        }
        let cc: u64 = if dp + dm == 0 {
            NEUTRAL_CLOSENESS
        } else {
            proof {
                assert((dm as int) * 10_000 <= ((dp + dm) as int) * 10_000) by (nonlinear_arith)
                    requires
                        dm <= dp + dm,
                ;
                lemma_div_le_bound((dm as int) * 10_000, (dp + dm) as int, 10_000);
            }
            (dm * 10_000) / (dp + dm)
        };
        let score = TopsisScore {
            resolution_units: measurements[i3].resolution_units,
            closeness_coefficient: cc,
            rank: 0,
            criteria_scores: crows[i3],
        };
        proof {
            assert(cc == spec_closeness(rows, i3 as int));
            assert(score == spec_scores(ms)[i3 as int]);
        }
        scores.push(score);
        i3 = i3 + 1;
    }

    // Stable sort by closeness, descending.
    proof {
        assert(scores@ =~= spec_scores(ms));
    }
    let mut sorted: Vec<TopsisScore> = Vec::new();
    let mut i4: usize = 0;
    proof {
        assert(spec_sort_desc(scores@.take(0)) =~= Seq::<TopsisScore>::empty());
    }
    while i4 < scores.len()
        invariant
            0 <= i4 <= scores.len(),
            sorted@ == spec_sort_desc(scores@.take(i4 as int)),
        decreases scores.len() - i4,
    {
        proof {
            lemma_sort_desc_len(scores@.take(i4 as int));
            assert(scores@.take(i4 as int + 1).drop_last() =~= scores@.take(i4 as int));
            assert(scores@.take(i4 as int + 1).last() == scores@[i4 as int]);
        }
        insert_desc(&mut sorted, scores[i4]);
        i4 = i4 + 1;
    }
    proof {
        assert(scores@.take(scores@.len() as int) =~= scores@);
        lemma_sort_desc_len(scores@);
        lemma_sort_desc_sorted(scores@);
        lemma_sort_desc_contains(scores@);
    }

    // Assign 1-based ranks in sorted order.
    let mut out: Vec<TopsisScore> = Vec::new();
    let mut k: usize = 0;
    while k < sorted.len()
        invariant
            0 <= k <= sorted.len(),
            sorted@ == spec_sort_desc(scores@),
            sorted@.len() == scores@.len(),
            scores@.len() < 0x8000_0000,
            out@.len() == k,
            forall|t: int| 0 <= t < k ==> #[trigger] out@[t] == spec_rank_assign(sorted@)[t],
        decreases sorted.len() - k,
    {
        let s = sorted[k];
        out.push(
            TopsisScore {
                resolution_units: s.resolution_units,
                closeness_coefficient: s.closeness_coefficient,
                rank: k + 1,
                criteria_scores: s.criteria_scores,
            },
        );
        k = k + 1;
    }
    proof {
        assert(out@ =~= spec_rank_assign(spec_sort_desc(spec_scores(ms))));
        assert(out@ == spec_topsis(ms));
        assert forall|t: int|
            0 <= t < out@.len() implies #[trigger] out@[t].closeness_coefficient
            <= CLOSENESS_SCALE by {
            assert(out@[t].closeness_coefficient == sorted@[t].closeness_coefficient);
            assert(sorted@.contains(sorted@[t]));
            assert(scores@.contains(sorted@[t]));
            let m = choose|m: int| 0 <= m < scores@.len() && scores@[m] == sorted@[t];
        }
        assert forall|t1: int, t2: int|
            0 <= t1 <= t2 < out@.len() implies out@[t1].closeness_coefficient
            >= out@[t2].closeness_coefficient by {
            assert(out@[t1].closeness_coefficient == sorted@[t1].closeness_coefficient);
            assert(out@[t2].closeness_coefficient == sorted@[t2].closeness_coefficient);
        }
    }
    out
}

/// Every entry of the ranking carries the period of one of the measurements
/// it was computed from; the result writer relies on this to cross-index
/// rankings with aggregated measurements.
pub proof fn lemma_topsis_resolutions(ms: Seq<TimerMeasurement>)
    ensures
        spec_topsis(ms).len() == ms.len(),
        forall|k: int|
            0 <= k < ms.len() ==> exists|i: int|
                0 <= i < ms.len() && #[trigger] spec_topsis(ms)[k].resolution_units
                    == ms[i].resolution_units,
{
    let scores = spec_scores(ms);
    lemma_sort_desc_len(scores);
    lemma_sort_desc_contains(scores);
    assert forall|k: int|
        0 <= k < ms.len() implies exists|i: int|
        0 <= i < ms.len() && #[trigger] spec_topsis(ms)[k].resolution_units
            == ms[i].resolution_units by {
        let sorted = spec_sort_desc(scores);
        assert(spec_topsis(ms)[k].resolution_units == sorted[k].resolution_units);
        assert(sorted.contains(sorted[k]));
        assert(scores.contains(sorted[k]));
        let m = choose|m: int| 0 <= m < scores.len() && scores[m] == sorted[k];
        assert(scores[m].resolution_units == ms[m].resolution_units);
    }
}

/// When all measurements carry identical criteria, every row coincides with
/// both the ideal and the anti-ideal point, so every closeness coefficient
/// is the neutral `0.5` and the stable sort keeps the input order: ranks are
/// `1..=n` in input order.
pub proof fn lemma_identical_criteria_neutral(ms: Seq<TimerMeasurement>)
    requires
        1 <= ms.len() < 0x8000_0000,
        forall|i: int, j: int|
            0 <= i < ms.len() && 0 <= j < ms.len() ==> spec_criteria(#[trigger] ms[i])
                == spec_criteria(#[trigger] ms[j]),
    ensures
        forall|k: int|
            0 <= k < ms.len() ==> #[trigger] spec_topsis(ms)[k].closeness_coefficient
                == NEUTRAL_CLOSENESS,
        forall|k: int|
            0 <= k < ms.len() ==> #[trigger] spec_topsis(ms)[k].resolution_units
                == ms[k].resolution_units,
        forall|k: int| 0 <= k < ms.len() ==> #[trigger] spec_topsis(ms)[k].rank == k + 1,
        spec_topsis(ms).len() == ms.len(),
{
    let rows = rows_of(ms);
    assert forall|i: int, j_: int|
        0 <= i < rows.len() && 0 <= j_ < rows.len() implies rows[i] == rows[j_] by {
        assert(rows[i] == spec_criteria(ms[i]));
        assert(rows[j_] == spec_criteria(ms[j_]));
    }
    assert forall|k: int, j_: int|
        0 <= k < ms.len() && 0 <= j_ < 4 implies #[trigger] wcol(rows, j_)[k] == wcol(
        rows,
        j_,
    )[0] by {
        assert(crit(rows[k], j_) == crit(rows[0], j_));
    }
    assert forall|j_: int| 0 <= j_ < 4 implies ideal(rows, j_) == anti_ideal(rows, j_) by {
        lemma_seq_min_max_const(wcol(rows, j_), wcol(rows, j_)[0]);
    }
    assert forall|k: int|
        0 <= k < ms.len() implies #[trigger] spec_closeness(rows, k) == NEUTRAL_CLOSENESS by {
        assert(sqd(wcol(rows, 0)[k], ideal(rows, 0)) == 0) by {
            lemma_seq_min_max_const(wcol(rows, 0), wcol(rows, 0)[0]);
            assert(wcol(rows, 0)[k] == wcol(rows, 0)[0]);
            assert((0int) * (0int) == 0) by (nonlinear_arith);
        }
        assert(sqd(wcol(rows, 1)[k], ideal(rows, 1)) == 0) by {
            lemma_seq_min_max_const(wcol(rows, 1), wcol(rows, 1)[0]);
            assert(wcol(rows, 1)[k] == wcol(rows, 1)[0]);
        }
        assert(sqd(wcol(rows, 2)[k], ideal(rows, 2)) == 0) by {
            lemma_seq_min_max_const(wcol(rows, 2), wcol(rows, 2)[0]);
            assert(wcol(rows, 2)[k] == wcol(rows, 2)[0]);
        }
        assert(sqd(wcol(rows, 3)[k], ideal(rows, 3)) == 0) by {
            lemma_seq_min_max_const(wcol(rows, 3), wcol(rows, 3)[0]);
            assert(wcol(rows, 3)[k] == wcol(rows, 3)[0]);
        }
        assert(sqd(wcol(rows, 0)[k], anti_ideal(rows, 0)) == 0) by {
            lemma_seq_min_max_const(wcol(rows, 0), wcol(rows, 0)[0]);
            assert(wcol(rows, 0)[k] == wcol(rows, 0)[0]);
        }
        assert(sqd(wcol(rows, 1)[k], anti_ideal(rows, 1)) == 0) by {
            lemma_seq_min_max_const(wcol(rows, 1), wcol(rows, 1)[0]);
            assert(wcol(rows, 1)[k] == wcol(rows, 1)[0]);
        }
        assert(sqd(wcol(rows, 2)[k], anti_ideal(rows, 2)) == 0) by {
            lemma_seq_min_max_const(wcol(rows, 2), wcol(rows, 2)[0]);
            assert(wcol(rows, 2)[k] == wcol(rows, 2)[0]);
        }
        assert(sqd(wcol(rows, 3)[k], anti_ideal(rows, 3)) == 0) by {
            lemma_seq_min_max_const(wcol(rows, 3), wcol(rows, 3)[0]);
            assert(wcol(rows, 3)[k] == wcol(rows, 3)[0]);
        }
        assert(dplus_sq(rows, k) == 0);
        assert(dminus_sq(rows, k) == 0);
        assert(0int * 0int <= 0int && 0int < (0int + 1) * (0int + 1)) by (nonlinear_arith);
        lemma_isqrt_unique(0, 0);
        assert(spec_isqrt(dplus_sq(rows, k)) == 0);
        assert(spec_isqrt(dminus_sq(rows, k)) == 0);
    }
    let scores = spec_scores(ms);
    assert(forall|k: int|
        0 <= k < scores.len() ==> #[trigger] scores[k].closeness_coefficient
            == NEUTRAL_CLOSENESS);
    lemma_sort_desc_all_equal(scores, NEUTRAL_CLOSENESS);
    lemma_sort_desc_len(scores);
    assert(spec_sort_desc(scores) == scores);
    assert forall|k: int|
        0 <= k < ms.len() implies #[trigger] spec_topsis(ms)[k].closeness_coefficient
        == NEUTRAL_CLOSENESS && spec_topsis(ms)[k].resolution_units == ms[k].resolution_units
        && spec_topsis(ms)[k].rank == k + 1 by {
        assert(spec_topsis(ms)[k] == spec_rank_assign(scores)[k]);
        assert(spec_rank_assign(scores)[k].rank == (k + 1) as usize);
        assert(scores[k].closeness_coefficient == NEUTRAL_CLOSENESS);
        assert(scores[k].resolution_units == ms[k].resolution_units);
    }
}

} // verus!
