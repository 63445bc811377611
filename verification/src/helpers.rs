//! Parsing of the sleep-measurer's output.
//!
//! The helper prints, in any order, a line `Avg: <decimal>` with the mean
//! observed delta, a line `STDEV: <decimal>` with the sample deviation, and
//! a reading of the form `Resolution: <decimal>ms, ...`. The scan stops as
//! soon as all three have been seen. A missing average or deviation is a
//! hard error; a missing resolution reading is reported as `None` and left
//! to the caller to warn about.

use vstd::prelude::*;
use vstd::slice::slice_subrange;
use crate::error::BenchError;
use crate::parsing::{
    contains_sub, find_sub, has_prefix, has_prefix_exec, spec_find, spec_trim, trim_range,
};
use crate::units::{parse_decimal_units, spec_parse_units};

verus! {

/// The bytes of `"Avg: "`.
pub open spec fn avg_pat() -> Seq<u8> {
    seq![65u8, 118u8, 103u8, 58u8, 32u8]
}

/// The bytes of `"STDEV: "`.
pub open spec fn stdev_pat() -> Seq<u8> {
    seq![83u8, 84u8, 68u8, 69u8, 86u8, 58u8, 32u8]
}

/// The bytes of `"Resolution: "`.
pub open spec fn resolution_pat() -> Seq<u8> {
    seq![82u8, 101u8, 115u8, 111u8, 108u8, 117u8, 116u8, 105u8, 111u8, 110u8, 58u8, 32u8]
}

/// The bytes of `"ms"`.
pub open spec fn ms_pat() -> Seq<u8> {
    seq![109u8, 115u8]
}

/// The mean-delta update from one trimmed line: the value after `Avg: `.
pub open spec fn upd_avg(t: Seq<u8>, avg: Option<u64>) -> Option<u64> {
    if avg is Some {
        avg
    } else if has_prefix(t, avg_pat()) {
        spec_parse_units(spec_trim(t.skip(5)))
    } else {
        None
    }
}

/// The deviation update from one trimmed line: the value after `STDEV: `.
pub open spec fn upd_stdev(t: Seq<u8>, stdev: Option<u64>) -> Option<u64> {
    if stdev is Some {
        stdev
    } else if has_prefix(t, stdev_pat()) {
        spec_parse_units(spec_trim(t.skip(7)))
    } else {
        None
    }
}

/// The resolution update from one trimmed line: the number between the
/// first `Resolution: ` (up to the next one, if any) and the first `ms`
/// after it.
pub open spec fn upd_res(t: Seq<u8>, res: Option<u64>) -> Option<u64> {
    if res is Some {
        res
    } else {
        let p = spec_find(t, resolution_pat(), 0);
        if p == -1 {
            None
        } else {
            let after = t.skip(p + 12);
            let q = spec_find(after, resolution_pat(), 0);
            let seg = if q == -1 {
                after
            } else {
                after.take(q)
            };
            let m = spec_find(seg, ms_pat(), 0);
            let num = if m == -1 {
                seg
            } else {
                seg.take(m)
            };
            spec_parse_units(spec_trim(num))
        }
    }
}

/// Scan the output line by line, keeping the first hit of each field and
/// stopping once all three are found.
pub open spec fn spec_scan(
    s: Seq<u8>,
    avg: Option<u64>,
    stdev: Option<u64>,
    res: Option<u64>,
) -> (Option<u64>, Option<u64>, Option<u64>)
    decreases s.len(),
{
    if avg is Some && stdev is Some && res is Some {
        (avg, stdev, res)
    } else if s.len() == 0 {
        (avg, stdev, res)
    } else {
        let nl = spec_find(s, seq![10u8], 0);
        if 0 <= nl < s.len() {
            let t = spec_trim(s.take(nl));
            spec_scan(s.skip(nl + 1), upd_avg(t, avg), upd_stdev(t, stdev), upd_res(t, res))
        } else {
            let t = spec_trim(s);
            (upd_avg(t, avg), upd_stdev(t, stdev), upd_res(t, res))
        }
    }
}

/// What the whole output yields: `(avg, stdev, resolution)`.
pub open spec fn spec_parse_output(s: Seq<u8>) -> (Option<u64>, Option<u64>, Option<u64>) {
    spec_scan(s, None, None, None)
}

/// Parse the sleep-measurer's output: mean delta, deviation and, when
/// present, the reported resolution, all in 100-ns units.
///
/// A missing or unparseable `Avg` or `STDEV` field fails with
/// `InvalidOutput`; a missing resolution reading is `None` in the result.
#[verifier::rlimit(100)]
pub fn parse_measurement_output_with_resolution(output: &[u8]) -> (r: Result<
    (u64, u64, Option<u64>),
    BenchError,
>)
    ensures
        match r {
            Ok(v) => spec_parse_output(output@) == (Some(v.0), Some(v.1), v.2),
            Err(e) => e is InvalidOutput && (spec_parse_output(output@).0 is None
                || spec_parse_output(output@).1 is None),
        },
{
    let len = output.len();
    let nl_pat: [u8; 1] = [10u8];
    let avg_bytes: [u8; 5] = [65u8, 118u8, 103u8, 58u8, 32u8];
    let stdev_bytes: [u8; 7] = [83u8, 84u8, 68u8, 69u8, 86u8, 58u8, 32u8];
    let res_bytes: [u8; 12] = [
        82u8,
        101u8,
        115u8,
        111u8,
        108u8,
        117u8,
        116u8,
        105u8,
        111u8,
        110u8,
        58u8,
        32u8,
    ];
    let ms_bytes: [u8; 2] = [109u8, 115u8];
    proof {
        assert(avg_bytes@ =~= avg_pat());
        assert(stdev_bytes@ =~= stdev_pat());
        assert(res_bytes@ =~= resolution_pat());
        assert(ms_bytes@ =~= ms_pat());
        assert(nl_pat@ =~= seq![10u8]);
    }

    let mut avg: Option<u64> = None;
    let mut stdev: Option<u64> = None;
    let mut res: Option<u64> = None;
    let mut pos: usize = 0;
    proof {
        assert(output@.skip(0) =~= output@);
    }
    while pos < len && !(avg.is_some() && stdev.is_some() && res.is_some())
        invariant
            0 <= pos <= len,
            len == output@.len(),
            avg_bytes@ == avg_pat(),
            stdev_bytes@ == stdev_pat(),
            res_bytes@ == resolution_pat(),
            ms_bytes@ == ms_pat(),
            nl_pat@ == seq![10u8],
            spec_scan(output@.skip(pos as int), avg, stdev, res) == spec_parse_output(output@),
        decreases len - pos,
    {
        let ghost s_rem = output@.skip(pos as int);
        let rem = slice_subrange(output, pos, len);
        proof {
            assert(rem@ =~= s_rem);
        }
        let nl = find_sub(rem, nl_pat.as_slice(), 0);
        let line_end: usize = match nl {
            Some(p) => pos + p,
            None => len,
        };
        let next_pos: usize = match nl {
            Some(p) => pos + p + 1,
            None => len,
        };
        let ghost line = if spec_find(s_rem, seq![10u8], 0) == -1 {
            s_rem
        } else {
            s_rem.take(spec_find(s_rem, seq![10u8], 0))
        };
        proof {
            match nl {
                Some(p) => {
                    assert(0 <= spec_find(s_rem, seq![10u8], 0) < s_rem.len());
                    assert(output@.subrange(pos as int, line_end as int) =~= line);
                },
                None => {
                    assert(output@.subrange(pos as int, line_end as int) =~= s_rem);
                },
            }
        }
        let (tlo, thi) = trim_range(output, pos, line_end);
        let tline = slice_subrange(output, tlo, thi);
        let ghost t = spec_trim(line);
        proof {
            assert(tline@ == t);
        }

        let ghost avg0 = avg;
        let ghost stdev0 = stdev;
        let ghost res0 = res;

        if res.is_none() {
            match find_sub(tline, res_bytes.as_slice(), 0) {
                Some(p) => {
                    let after = slice_subrange(tline, p + 12, tline.len());
                    proof {
                        assert(after@ =~= t.skip(p + 12));
                    }
                    let seg_end: usize = match find_sub(after, res_bytes.as_slice(), 0) {
                        Some(q) => q,
                        None => after.len(),
                    };
                    let seg = slice_subrange(after, 0, seg_end);
                    proof {
                        let q = spec_find(after@, resolution_pat(), 0);
                        if q == -1 {
                            assert(seg@ =~= after@);
                        } else {
                            assert(seg@ =~= after@.take(q));
                        }
                    }
                    let num_end: usize = match find_sub(seg, ms_bytes.as_slice(), 0) {
                        Some(m) => m,
                        None => seg.len(),
                    };
                    proof {
                        let m = spec_find(seg@, ms_pat(), 0);
                        if m == -1 {
                            assert(seg@.subrange(0, num_end as int) =~= seg@);
                        } else {
                            assert(seg@.subrange(0, num_end as int) =~= seg@.take(m));
                        }
                    }
                    let (rlo, rhi) = trim_range(seg, 0, num_end);
                    let numsl = slice_subrange(seg, rlo, rhi);
                    res = parse_decimal_units(numsl);
                    proof {
                        assert(res == upd_res(t, res0));
                    }
                },
                None => {
                    proof {
                        assert(res == upd_res(t, res0));
                    }
                },
            }
        }
        if avg.is_none() && has_prefix_exec(tline, avg_bytes.as_slice()) {
            let (alo, ahi) = trim_range(tline, 5, tline.len());
            let asl = slice_subrange(tline, alo, ahi);
            proof {
                assert(tline@.subrange(5, tline@.len() as int) =~= t.skip(5));
            }
            avg = parse_decimal_units(asl);
        }
        if stdev.is_none() && has_prefix_exec(tline, stdev_bytes.as_slice()) {
            let (slo, shi) = trim_range(tline, 7, tline.len());
            let ssl = slice_subrange(tline, slo, shi);
            proof {
                assert(tline@.subrange(7, tline@.len() as int) =~= t.skip(7));
            }
            stdev = parse_decimal_units(ssl);
        }
        proof {
            assert(avg == upd_avg(t, avg0));
            assert(stdev == upd_stdev(t, stdev0));
            let nlg = spec_find(s_rem, seq![10u8], 0);
            if nlg == -1 {
                assert(next_pos == len);
                assert(output@.skip(next_pos as int) =~= Seq::<u8>::empty());
                assert(spec_scan(s_rem, avg0, stdev0, res0) == (avg, stdev, res));
                assert(spec_scan(output@.skip(next_pos as int), avg, stdev, res) == (
                    avg,
                    stdev,
                    res,
                ));
            } else {
                assert(output@.skip(next_pos as int) =~= s_rem.skip(nlg + 1));
                assert(spec_scan(s_rem, avg0, stdev0, res0) == spec_scan(
                    s_rem.skip(nlg + 1),
                    avg,
                    stdev,
                    res,
                ));
            }
            assert(spec_scan(s_rem, avg0, stdev0, res0) == spec_scan(
                output@.skip(next_pos as int),
                avg,
                stdev,
                res,
            ));
        }
        pos = next_pos;
    }
    proof {
        if pos == len && !(avg is Some && stdev is Some && res is Some) {
            assert(output@.skip(len as int) =~= Seq::<u8>::empty());
        }
        assert(spec_parse_output(output@) == (avg, stdev, res));
    }
    match (avg, stdev) {
        (Some(a), Some(sd)) => Ok((a, sd, res)),
        _ => Err(BenchError::InvalidOutput),
    }
}

/// Parse only the mean delta and deviation of the sleep-measurer's output.
pub fn parse_measurement_output(output: &[u8]) -> (r: Result<(u64, u64), BenchError>)
    ensures
        match r {
            Ok(v) => spec_parse_output(output@).0 == Some(v.0) && spec_parse_output(output@).1
                == Some(v.1),
            Err(e) => e is InvalidOutput && (spec_parse_output(output@).0 is None
                || spec_parse_output(output@).1 is None),
        },
{
    match parse_measurement_output_with_resolution(output) {
        Ok(v) => Ok((v.0, v.1)),
        Err(e) => Err(e),
    }
}

} // verus!
