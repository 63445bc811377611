//! Timer measurements and their aggregation.
//!
//! A measurement couples a programmed timer period (in 100-ns units) with the
//! robust statistics of its observed sleep deltas and the raw samples that
//! produced them. The aggregator groups measurements that share a period,
//! pools their raw samples, and recomputes the statistics once per pool.

use vstd::prelude::*;
use crate::stats::{spec_stats, RobustStatistics};

verus! {

/// One measurement of a programmed timer period.
///
/// Periods are bucketed at the 100-ns granularity of the platform timer, so
/// two measurements belong to the same bucket exactly when their
/// `resolution_units` are equal.
#[derive(Clone, Debug)]
pub struct TimerMeasurement {
    /// The programmed timer period in 100-ns units.
    pub resolution_units: u64,
    /// Robust statistics over `raw_samples`.
    pub statistics: RobustStatistics,
    /// The observed sleep deltas, in 100-ns units, in observation order.
    pub raw_samples: Vec<u64>,
}

impl TimerMeasurement {
    /// The mathematical content of a measurement: its bucket key and its
    /// samples. The statistics are a function of the samples.
    pub open spec fn model(self) -> (u64, Seq<u64>) {
        (self.resolution_units, self.raw_samples@)
    }
}

/// The models of a sequence of measurements.
pub open spec fn models_of(ms: Seq<TimerMeasurement>) -> Seq<(u64, Seq<u64>)> {
    ms.map_values(|m: TimerMeasurement| m.model())
}

/// The bucket keys of a sequence of rows.
pub open spec fn keys_of(rows: Seq<(u64, Seq<u64>)>) -> Seq<u64> {
    rows.map_values(|r: (u64, Seq<u64>)| r.0)
}

/// The distinct values of `ks` in order of first occurrence.
pub open spec fn first_keys(ks: Seq<u64>) -> Seq<u64>
    decreases ks.len(),
{
    if ks.len() == 0 {
        Seq::empty()
    } else {
        let prev = first_keys(ks.drop_last());
        prev + (if prev.contains(ks.last()) {
            Seq::empty()
        } else {
            seq![ks.last()]
        })
    }
}

/// Concatenation of the samples of every row whose key is `k`, in input
/// order.
pub open spec fn spec_samples_for(k: u64, rows: Seq<(u64, Seq<u64>)>) -> Seq<u64>
    decreases rows.len(),
{
    if rows.len() == 0 {
        Seq::empty()
    } else {
        spec_samples_for(k, rows.drop_last()) + (if rows.last().0 == k {
            rows.last().1
        } else {
            Seq::empty()
        })
    }
}

/// Aggregation: one row per distinct key, in order of first occurrence, with
/// the pooled samples of all rows that share the key.
pub open spec fn spec_aggregate(rows: Seq<(u64, Seq<u64>)>) -> Seq<(u64, Seq<u64>)> {
    first_keys(keys_of(rows)).map_values(|k: u64| (k, spec_samples_for(k, rows)))
}

/// Total number of samples across all rows.
pub open spec fn spec_total_samples(rows: Seq<(u64, Seq<u64>)>) -> int
    decreases rows.len(),
{
    if rows.len() == 0 {
        0
    } else {
        spec_total_samples(rows.drop_last()) + rows.last().1.len()
    }
}

pub proof fn lemma_first_keys_contains(ks: Seq<u64>)
    ensures
        forall|k: u64| #[trigger] first_keys(ks).contains(k) <==> ks.contains(k),
    decreases ks.len(),
{
    if ks.len() > 0 {
        lemma_first_keys_contains(ks.drop_last());
        let prev = first_keys(ks.drop_last());
        let r = first_keys(ks);
        assert forall|k: u64| #[trigger] r.contains(k) implies ks.contains(k) by {
            let i = choose|i: int| 0 <= i < r.len() && r[i] == k;
            if i < prev.len() {
                assert(prev.contains(k));
                assert(ks.drop_last().contains(k));
                let m = choose|m: int| 0 <= m < ks.drop_last().len() && ks.drop_last()[m] == k;
                assert(ks[m] == k);
            } else {
                assert(k == ks.last());
                assert(ks[ks.len() - 1] == k);
            }
        }
        assert forall|k: u64| ks.contains(k) implies #[trigger] r.contains(k) by {
            let i = choose|i: int| 0 <= i < ks.len() && ks[i] == k;
            if i < ks.len() - 1 {
                assert(ks.drop_last()[i] == k);
                assert(ks.drop_last().contains(k));
                assert(prev.contains(k));
                let m = choose|m: int| 0 <= m < prev.len() && prev[m] == k;
                assert(r[m] == k);
            } else {
                assert(k == ks.last());
                if prev.contains(k) {
                    let m = choose|m: int| 0 <= m < prev.len() && prev[m] == k;
                    assert(r[m] == k);
                } else {
                    assert(r[prev.len() as int] == k);
                }
            }
        }
    }
}

/// The keys produced by `first_keys` are pairwise distinct.
pub proof fn lemma_first_keys_distinct(ks: Seq<u64>)
    ensures
        forall|i: int, j: int|
            0 <= i < j < first_keys(ks).len() ==> first_keys(ks)[i] != first_keys(ks)[j],
    decreases ks.len(),
{
    if ks.len() > 0 {
        lemma_first_keys_distinct(ks.drop_last());
        lemma_first_keys_contains(ks.drop_last());
        let prev = first_keys(ks.drop_last());
        let r = first_keys(ks);
        assert forall|i: int, j: int| 0 <= i < j < r.len() implies r[i] != r[j] by {
            if j < prev.len() {
            } else if !prev.contains(ks.last()) {
                assert(r[j] == ks.last());
                assert(r[i] == prev[i]);
                if r[i] == ks.last() {
                    assert(prev.contains(ks.last()));
                }
            }
        }
    }
}

/// On a sequence of pairwise distinct keys, `first_keys` is the identity.
pub proof fn lemma_first_keys_identity(ks: Seq<u64>)
    requires
        forall|i: int, j: int| 0 <= i < j < ks.len() ==> ks[i] != ks[j],
    ensures
        first_keys(ks) =~= ks,
    decreases ks.len(),
{
    if ks.len() > 0 {
        lemma_first_keys_identity(ks.drop_last());
        lemma_first_keys_contains(ks.drop_last());
        if ks.drop_last().contains(ks.last()) {
            let m = choose|m: int|
                0 <= m < ks.drop_last().len() && ks.drop_last()[m] == ks.last();
            assert(ks[m] == ks[ks.len() - 1]);
            assert(false);
        }
    }
}

/// When keys are pairwise distinct, the pool of row `i`'s key is exactly row
/// `i`'s own samples.
pub proof fn lemma_samples_for_unique(rows: Seq<(u64, Seq<u64>)>, i: int)
    requires
        forall|a: int, b: int| 0 <= a < b < rows.len() ==> rows[a].0 != rows[b].0,
        0 <= i < rows.len(),
    ensures
        spec_samples_for(rows[i].0, rows) =~= rows[i].1,
    decreases rows.len(),
{
    if i == rows.len() - 1 {
        lemma_samples_for_none(rows.drop_last(), rows[i].0);
    } else {
        lemma_samples_for_unique(rows.drop_last(), i);
        assert(rows.drop_last()[i] == rows[i]);
        assert(rows.last().0 != rows[i].0);
    }
}

/// A key that occurs in no row pools no samples.
pub proof fn lemma_samples_for_none(rows: Seq<(u64, Seq<u64>)>, k: u64)
    requires
        forall|a: int| 0 <= a < rows.len() ==> rows[a].0 != k,
    ensures
        spec_samples_for(k, rows) =~= Seq::<u64>::empty(),
    decreases rows.len(),
{
    if rows.len() > 0 {
        lemma_samples_for_none(rows.drop_last(), k);
    }
}

/// Aggregation is idempotent: aggregating an already aggregated sequence
/// changes nothing. Together with the aggregator's postcondition this means
/// `aggregate(aggregate(xs))` and `aggregate(xs)` carry the same buckets with
/// the same pooled samples, and hence the same recomputed statistics.
pub proof fn lemma_aggregate_idempotent(rows: Seq<(u64, Seq<u64>)>)
    ensures
        spec_aggregate(spec_aggregate(rows)) =~~= spec_aggregate(rows),
{
    let a = spec_aggregate(rows);
    lemma_first_keys_distinct(keys_of(rows));
    assert(keys_of(a) =~= first_keys(keys_of(rows)));
    assert(forall|i: int, j: int| 0 <= i < j < a.len() ==> a[i].0 != a[j].0);
    lemma_first_keys_identity(keys_of(a));
    assert forall|i: int| 0 <= i < a.len() implies #[trigger] spec_aggregate(a)[i] == a[i] by {
        assert(spec_aggregate(a)[i] == (keys_of(a)[i], spec_samples_for(keys_of(a)[i], a)));
        lemma_samples_for_unique(a, i);
    }
}

/// Bounds that transfer from the rows to any pooled sample sequence.
proof fn lemma_samples_for_bounds(rows: Seq<(u64, Seq<u64>)>, k: u64, b: u64)
    requires
        forall|a: int, s: int|
            0 <= a < rows.len() && 0 <= s < rows[a].1.len() ==> rows[a].1[s] < b,
    ensures
        spec_samples_for(k, rows).len() <= spec_total_samples(rows),
        forall|s: int|
            0 <= s < spec_samples_for(k, rows).len() ==> spec_samples_for(k, rows)[s] < b,
        spec_total_samples(rows) >= 0,
    decreases rows.len(),
{
    if rows.len() > 0 {
        assert(forall|a: int, s: int|
            0 <= a < rows.drop_last().len() && 0 <= s < rows.drop_last()[a].1.len()
                ==> rows.drop_last()[a].1[s] < b);
        lemma_samples_for_bounds(rows.drop_last(), k, b);
        assert(forall|s: int| 0 <= s < rows.last().1.len() ==> rows.last().1[s] < b) by {
            assert(rows[rows.len() - 1] == rows.last());
        }
    }
}

/// A copy of a vector of sample values.
pub fn copy_units(v: &Vec<u64>) -> (r: Vec<u64>)
    ensures
        r@ == v@,
{
    let mut r: Vec<u64> = Vec::new();
    let mut i: usize = 0;
    while i < v.len()
        invariant
            0 <= i <= v.len(),
            r@ == v@.take(i as int),
        decreases v.len() - i,
    {
        r.push(v[i]);
        proof {
            assert(v@.take(i as int + 1) =~= v@.take(i as int).push(v@[i as int]));
        }
        i = i + 1;
    }
    proof {
        assert(v@.take(v@.len() as int) =~= v@);
    }
    r
}

/// Whether `v` holds `x`.
fn units_contains(v: &Vec<u64>, x: u64) -> (r: bool)
    ensures
        r == v@.contains(x),
{
    let mut i: usize = 0;
    while i < v.len()
        invariant
            0 <= i <= v.len(),
            forall|k: int| 0 <= k < i ==> v@[k] != x,
        decreases v.len() - i,
    {
        if v[i] == x {
            return true;
        }
        i = i + 1;
    }
    false
}

/// Group measurements that share a period bucket, pool their raw samples in
/// input order, and recompute the statistics once per pool. Buckets appear
/// in order of first occurrence.
pub fn aggregate_measurements(measurements: &Vec<TimerMeasurement>) -> (r: Vec<TimerMeasurement>)
    requires
        forall|a: int|
            0 <= a < measurements@.len() ==> 1 <= #[trigger] measurements@[a].raw_samples@.len(),
        forall|a: int, s: int|
            0 <= a < measurements@.len() && 0 <= s < measurements@[a].raw_samples@.len()
                ==> measurements@[a].raw_samples@[s] < 0x1_0000_0000u64,
        spec_total_samples(models_of(measurements@)) < 0x8000_0000,
    ensures
        models_of(r@) =~~= spec_aggregate(models_of(measurements@)),
        forall|i: int|
            0 <= i < r@.len() ==> #[trigger] r@[i].statistics == spec_stats(r@[i].raw_samples@),
{
    let ghost rows = models_of(measurements@);

    // Pass 1: the distinct bucket keys in order of first occurrence.
    let mut keys: Vec<u64> = Vec::new();
    let mut i: usize = 0;
    proof {
        assert(keys_of(models_of(measurements@.take(0))) =~= Seq::<u64>::empty());
    }
    while i < measurements.len()
        invariant
            0 <= i <= measurements.len(),
            keys@ == first_keys(keys_of(models_of(measurements@.take(i as int)))),
        decreases measurements.len() - i,
    {
        proof {
            assert(keys_of(models_of(measurements@.take(i as int + 1))).drop_last() =~= keys_of(
                models_of(measurements@.take(i as int)),
            ));
            assert(keys_of(models_of(measurements@.take(i as int + 1))).last()
                == measurements@[i as int].resolution_units);
        }
        if !units_contains(&keys, measurements[i].resolution_units) {
            keys.push(measurements[i].resolution_units);
        }
        i = i + 1;
    }
    proof {
        assert(measurements@.take(measurements@.len() as int) =~= measurements@);
    }

    // Pass 2: pool the samples of each bucket and recompute its statistics.
    let mut out: Vec<TimerMeasurement> = Vec::new();
    let mut ki: usize = 0;
    while ki < keys.len()
        invariant
            0 <= ki <= keys.len(),
            keys@ == first_keys(keys_of(rows)),
            rows == models_of(measurements@),
            forall|a: int|
                0 <= a < measurements@.len() ==> 1 <= #[trigger] measurements@[
                a].raw_samples@.len(),
            forall|a: int, s: int|
                0 <= a < measurements@.len() && 0 <= s < measurements@[a].raw_samples@.len()
                    ==> measurements@[a].raw_samples@[s] < 0x1_0000_0000u64,
            spec_total_samples(rows) < 0x8000_0000,
            out@.len() == ki,
            forall|j: int|
                0 <= j < ki ==> #[trigger] out@[j].model() == (keys@[j], spec_samples_for(
                    keys@[j],
                    rows,
                )),
            forall|j: int|
                0 <= j < ki ==> #[trigger] out@[j].statistics == spec_stats(out@[j].raw_samples@),
        decreases keys.len() - ki,
    {
        let key = keys[ki];
        let mut pool: Vec<u64> = Vec::new();
        let mut j: usize = 0;
        proof {
            assert(spec_samples_for(key, models_of(measurements@.take(0))) =~= Seq::<
                u64,
            >::empty());
        }
        while j < measurements.len()
            invariant
                0 <= j <= measurements.len(),
                rows == models_of(measurements@),
                forall|a: int, s: int|
                    0 <= a < measurements@.len() && 0 <= s < measurements@[a].raw_samples@.len()
                        ==> measurements@[a].raw_samples@[s] < 0x1_0000_0000u64,
                pool@ == spec_samples_for(key, models_of(measurements@.take(j as int))),
            decreases measurements.len() - j,
        {
            proof {
                assert(models_of(measurements@.take(j as int + 1)).drop_last() =~= models_of(
                    measurements@.take(j as int),
                ));
                assert(models_of(measurements@.take(j as int + 1)).last()
                    == measurements@[j as int].model());
            }
            if measurements[j].resolution_units == key {
                let m_samples = &measurements[j].raw_samples;
                let mut s: usize = 0;
                while s < m_samples.len()
                    invariant
                        0 <= s <= m_samples.len(),
                        m_samples@ == measurements@[j as int].raw_samples@,
                        0 <= j < measurements@.len(),
                        pool@ == spec_samples_for(
                            key,
                            models_of(measurements@.take(j as int)),
                        ) + m_samples@.take(s as int),
                    decreases m_samples.len() - s,
                {
                    pool.push(m_samples[s]);
                    proof {
                        assert(m_samples@.take(s as int + 1) =~= m_samples@.take(s as int).push(
                            m_samples@[s as int],
                        ));
                    }
                    s = s + 1;
                }
                proof {
                    assert(m_samples@.take(m_samples@.len() as int) =~= m_samples@);
                }
            } else {
                proof {
                    assert(spec_samples_for(key, models_of(measurements@.take(j as int + 1)))
                        =~= spec_samples_for(key, models_of(measurements@.take(j as int))));
                }
            }
            j = j + 1;
        }
        proof {
            assert(measurements@.take(measurements@.len() as int) =~= measurements@);
            assert(pool@ == spec_samples_for(key, rows));
            lemma_samples_for_bounds(rows, key, 0x1_0000_0000u64);
            // The key comes from some row, whose samples are part of the
            // pool, so the pool is non-empty.
            lemma_first_keys_contains(keys_of(rows));
            assert(keys@[ki as int] == key);
            assert(keys@.contains(key));
            assert(keys_of(rows).contains(key));
            let a = choose|a: int| 0 <= a < keys_of(rows).len() && keys_of(rows)[a] == key;
            lemma_samples_for_member(rows, a);
            assert(rows[a].1.len() >= 1);
        }
        let stats = RobustStatistics::from_samples(copy_units(&pool));
        out.push(
            TimerMeasurement { resolution_units: key, statistics: stats, raw_samples: pool },
        );
        ki = ki + 1;
    }
    proof {
        assert(models_of(out@) =~~= spec_aggregate(rows));
    }
    out
}

/// The pool of row `a`'s key is at least as long as row `a`'s own samples.
proof fn lemma_samples_for_member(rows: Seq<(u64, Seq<u64>)>, a: int)
    requires
        0 <= a < rows.len(),
    ensures
        spec_samples_for(rows[a].0, rows).len() >= rows[a].1.len(),
    decreases rows.len(),
{
    if a == rows.len() - 1 {
        lemma_samples_for_nonneg(rows.drop_last(), rows[a].0);
    } else {
        assert(rows.drop_last()[a] == rows[a]);
        lemma_samples_for_member(rows.drop_last(), a);
    }
}

proof fn lemma_samples_for_nonneg(rows: Seq<(u64, Seq<u64>)>, k: u64)
    ensures
        spec_samples_for(k, rows).len() >= 0,
{
}

} // verus!
