//! Deterministic rendering of the results document: one CSV row per ranked
//! measurement, cross-indexed by period, and a footer naming the chosen
//! period and its score. Everything is written with four decimal places, so
//! re-parsing the document recovers the values exactly.

use vstd::prelude::*;
use crate::measurement::TimerMeasurement;
use crate::stats::stats_wf;
use crate::topsis::TopsisScore;
use crate::units::{
    fmt_signed_units_ms, fmt_units_ms, fmt_usize, spec_dec_str, spec_ms_str, spec_signed_ms_str,
};

verus! {

/// The first index of a measurement with the given period, or `-1`.
pub open spec fn spec_find_measurement(ms: Seq<TimerMeasurement>, key: u64) -> int
    decreases ms.len(),
{
    if ms.len() == 0 {
        -1
    } else if ms[0].resolution_units == key {
        0
    } else if spec_find_measurement(ms.drop_first(), key) == -1 {
        -1
    } else {
        spec_find_measurement(ms.drop_first(), key) + 1
    }
}

pub proof fn lemma_find_measurement_props(ms: Seq<TimerMeasurement>, key: u64)
    ensures
        -1 <= spec_find_measurement(ms, key) < ms.len(),
        spec_find_measurement(ms, key) >= 0 ==> ms[spec_find_measurement(ms, key)].resolution_units
            == key,
        spec_find_measurement(ms, key) == -1 ==> forall|i: int|
            0 <= i < ms.len() ==> ms[i].resolution_units != key,
    decreases ms.len(),
{
    if ms.len() > 0 && ms[0].resolution_units != key {
        lemma_find_measurement_props(ms.drop_first(), key);
        let r0 = spec_find_measurement(ms.drop_first(), key);
        if r0 == -1 {
            assert forall|i: int| 0 <= i < ms.len() implies ms[i].resolution_units != key by {
                if i > 0 {
                    assert(ms.drop_first()[i - 1] == ms[i]);
                }
            }
        } else {
            assert(ms.drop_first()[r0] == ms[r0 + 1]);
        }
    }
}

/// Find the measurement with the given period.
fn find_measurement(ms: &Vec<TimerMeasurement>, key: u64) -> (r: Option<usize>)
    ensures
        match r {
            Some(i) => 0 <= i < ms@.len() && i as int == spec_find_measurement(ms@, key)
                && ms@[i as int].resolution_units == key,
            None => spec_find_measurement(ms@, key) == -1,
        },
{
    let mut i: usize = 0;
    while i < ms.len()
        invariant
            0 <= i <= ms@.len(),
            forall|k: int| 0 <= k < i ==> ms@[k].resolution_units != key,
        decreases ms@.len() - i,
    {
        if ms[i].resolution_units == key {
            proof {
                lemma_find_measurement_at(ms@, key, i as int);
            }
            return Some(i);
        }
        i = i + 1;
    }
    proof {
        lemma_find_measurement_none(ms@, key);
    }
    None
}

proof fn lemma_find_measurement_at(ms: Seq<TimerMeasurement>, key: u64, i: int)
    requires
        0 <= i < ms.len(),
        ms[i].resolution_units == key,
        forall|k: int| 0 <= k < i ==> ms[k].resolution_units != key,
    ensures
        spec_find_measurement(ms, key) == i,
    decreases i,
{
    if i > 0 {
        assert(forall|k: int|
            0 <= k < i - 1 ==> ms.drop_first()[k] == ms[k + 1] && ms[k + 1].resolution_units
                != key);
        assert(ms.drop_first()[i - 1] == ms[i]);
        lemma_find_measurement_at(ms.drop_first(), key, i - 1);
    }
}

proof fn lemma_find_measurement_none(ms: Seq<TimerMeasurement>, key: u64)
    requires
        forall|i: int| 0 <= i < ms.len() ==> ms[i].resolution_units != key,
    ensures
        spec_find_measurement(ms, key) == -1,
    decreases ms.len(),
{
    if ms.len() > 0 {
        assert(forall|k: int|
            0 <= k < ms.drop_first().len() ==> ms.drop_first()[k] == ms[k + 1]);
        lemma_find_measurement_none(ms.drop_first(), key);
    }
}

/// The statistics columns of one row: median, p95, p99, mean, stdev, MAD,
/// outliers removed, and the confidence bounds.
#[verifier::opaque]
pub open spec fn spec_stats_fields(st: crate::stats::RobustStatistics) -> Seq<char> {
    spec_ms_str(st.median as int) + seq![','] + spec_ms_str(st.p95 as int) + seq![',']
        + spec_ms_str(st.p99 as int) + seq![','] + spec_ms_str(st.mean as int) + seq![',']
        + spec_ms_str(st.stdev as int) + seq![','] + spec_ms_str(st.mad as int) + seq![',']
        + spec_dec_str(st.outliers_removed as int) + seq![','] + spec_signed_ms_str(
        st.ci_low as int,
    ) + seq![','] + spec_signed_ms_str(st.ci_high as int)
}

/// One CSV row: the period, its statistics, the closeness and the rank,
/// each to four decimal places.
#[verifier::opaque]
pub open spec fn spec_result_row(m: TimerMeasurement, t: TopsisScore) -> Seq<char> {
    spec_ms_str(m.resolution_units as int) + seq![','] + spec_stats_fields(m.statistics)
        + seq![','] + spec_ms_str(t.closeness_coefficient as int) + seq![','] + spec_dec_str(
        t.rank as int,
    ) + seq!['\n']
}

/// The rows of the document, in ranking order, each cross-indexed to the
/// measurement that shares its period.
pub open spec fn spec_result_rows(
    rankings: Seq<TopsisScore>,
    ms: Seq<TimerMeasurement>,
) -> Seq<char>
    decreases rankings.len(),
{
    if rankings.len() == 0 {
        Seq::empty()
    } else {
        spec_result_rows(rankings.drop_last(), ms) + spec_result_row(
            ms[spec_find_measurement(ms, rankings.last().resolution_units)],
            rankings.last(),
        )
    }
}

/// The blank separator and the two footer lines naming the winning period
/// and its score.
pub open spec fn spec_footer(best: TopsisScore) -> Seq<char> {
    "\n"@ + "# Optimal Resolution: "@ + spec_ms_str(best.resolution_units as int) + " ms\n"@
        + "# TOPSIS Score: "@ + spec_ms_str(best.closeness_coefficient as int) + "\n"@
}

/// The whole document: header, rows, and the footer.
pub open spec fn spec_results_doc(
    rankings: Seq<TopsisScore>,
    ms: Seq<TimerMeasurement>,
) -> Seq<char> {
    "Resolution_ms,P50_Delta,P95_Delta,P99_Delta,Mean_Delta,StdDev,MAD,Outliers_Removed,CI_Lower,CI_Upper,TOPSIS_Score,Rank\n"@
        + spec_result_rows(rankings, ms) + spec_footer(rankings[0])
}

/// Render the statistics columns of one row.
#[verifier::rlimit(100)]
fn render_stats_fields(st: &crate::stats::RobustStatistics) -> (r: String)
    requires
        stats_wf(*st),
    ensures
        r@ == spec_stats_fields(*st),
{
    let mut s = String::new();
    s.append(fmt_units_ms(st.median).as_str());
    s.append(",");
    s.append(fmt_units_ms(st.p95).as_str());
    s.append(",");
    s.append(fmt_units_ms(st.p99).as_str());
    s.append(",");
    s.append(fmt_units_ms(st.mean).as_str());
    s.append(",");
    s.append(fmt_units_ms(st.stdev).as_str());
    s.append(",");
    s.append(fmt_units_ms(st.mad).as_str());
    s.append(",");
    s.append(fmt_usize(st.outliers_removed).as_str());
    s.append(",");
    s.append(fmt_signed_units_ms(st.ci_low).as_str());
    s.append(",");
    s.append(fmt_signed_units_ms(st.ci_high).as_str());
    proof {
        reveal(spec_stats_fields);
        reveal_strlit(",");
        assert(","@ =~= seq![',']);
        assert(s@ == spec_stats_fields(*st));
    }
    s
}

/// Render one CSV row.
#[verifier::rlimit(100)]
fn render_row(m: &TimerMeasurement, t: &TopsisScore) -> (r: String)
    requires
        stats_wf(m.statistics),
    ensures
        r@ == spec_result_row(*m, *t),
{
    let mut s = String::new();
    s.append(fmt_units_ms(m.resolution_units).as_str());
    s.append(",");
    let fields = render_stats_fields(&m.statistics);
    s.append(fields.as_str());
    s.append(",");
    s.append(fmt_units_ms(t.closeness_coefficient).as_str());
    s.append(",");
    s.append(fmt_usize(t.rank).as_str());
    s.append("\n");
    proof {
        reveal(spec_result_row);
        reveal_strlit(",");
        reveal_strlit("\n");
        assert(","@ =~= seq![',']);
        assert("\n"@ =~= seq!['\n']);
        assert(s@ == spec_result_row(*m, *t));
    }
    s
}

/// Render the results document for a non-empty ranking whose every entry
/// has a matching aggregated measurement.
///
/// A ranking produced by `topsis_ranking` over the same measurements always
/// satisfies the cross-index precondition: `lemma_topsis_resolutions` gives
/// each ranked row a source measurement, and `lemma_find_measurement_exists`
/// turns that into a found index.
/// A period that occurs among the measurements is found.
pub proof fn lemma_find_measurement_exists(ms: Seq<TimerMeasurement>, key: u64)
    requires
        exists|i: int| 0 <= i < ms.len() && #[trigger] ms[i].resolution_units == key,
    ensures
        spec_find_measurement(ms, key) >= 0,
{
    lemma_find_measurement_props(ms, key);
    if spec_find_measurement(ms, key) == -1 {
        let i = choose|i: int| 0 <= i < ms.len() && #[trigger] ms[i].resolution_units == key;
        assert(false);
    }
}

pub fn render_results(rankings: &Vec<TopsisScore>, measurements: &Vec<TimerMeasurement>) -> (r:
    String)
    requires
        rankings@.len() >= 1,
        forall|k: int|
            0 <= k < rankings@.len() ==> spec_find_measurement(
                measurements@,
                #[trigger] rankings@[k].resolution_units,
            ) >= 0,
        forall|i: int|
            0 <= i < measurements@.len() ==> stats_wf(#[trigger] measurements@[i].statistics),
    ensures
        r@ == spec_results_doc(rankings@, measurements@),
{
    let mut rows_s = String::new();
    let mut k: usize = 0;
    proof {
        assert(rows_s@ =~= spec_result_rows(rankings@.take(0), measurements@));
    }
    while k < rankings.len()
        invariant
            0 <= k <= rankings@.len(),
            forall|t: int|
                0 <= t < rankings@.len() ==> spec_find_measurement(
                    measurements@,
                    #[trigger] rankings@[t].resolution_units,
                ) >= 0,
            forall|i: int|
                0 <= i < measurements@.len() ==> stats_wf(#[trigger] measurements@[i].statistics),
            rows_s@ == spec_result_rows(rankings@.take(k as int), measurements@),
        decreases rankings@.len() - k,
    {
        let score = rankings[k];
        let mi = match find_measurement(measurements, score.resolution_units) {
            Some(i) => i,
            None => {
                proof {
                    assert(rankings@[k as int].resolution_units == score.resolution_units);
                    assert(false);
                }
                0
            },
        };
        let m = &measurements[mi];
        let row = render_row(m, &score);
        rows_s.append(row.as_str());
        proof {
            assert(rankings@.take(k as int + 1).drop_last() =~= rankings@.take(k as int));
            assert(rankings@.take(k as int + 1).last() == rankings@[k as int]);
            assert(rows_s@ == spec_result_rows(rankings@.take(k as int + 1), measurements@));
        }
        k = k + 1;
    }
    proof {
        assert(rankings@.take(rankings@.len() as int) =~= rankings@);
    }
    let mut s = String::new();
    s.append(
        "Resolution_ms,P50_Delta,P95_Delta,P99_Delta,Mean_Delta,StdDev,MAD,Outliers_Removed,CI_Lower,CI_Upper,TOPSIS_Score,Rank\n",
    );
    s.append(rows_s.as_str());
    let best = rankings[0];
    let footer = render_footer(&best);
    s.append(footer.as_str());
    proof {
        assert(s@ == spec_results_doc(rankings@, measurements@));
    }
    s
}

/// Render the footer lines.
fn render_footer(best: &TopsisScore) -> (r: String)
    ensures
        r@ == spec_footer(*best),
{
    let mut s = String::new();
    s.append("\n");
    s.append("# Optimal Resolution: ");
    s.append(fmt_units_ms(best.resolution_units).as_str());
    s.append(" ms\n");
    s.append("# TOPSIS Score: ");
    s.append(fmt_units_ms(best.closeness_coefficient).as_str());
    s.append("\n");
    proof {
        assert(s@ == spec_footer(*best));
    }
    s
}

} // verus!
