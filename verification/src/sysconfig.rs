//! Reading the platform-clock state out of the boot-configuration listing.
//!
//! Each line is split into whitespace-separated tokens; the first two are a
//! key and a value. The keys `useplatformclock` and `disabledynamictick`
//! are matched case-insensitively, later occurrences win, and the platform
//! clock counts as disabled exactly when the pair is
//! (`no`, `yes`), (absent, `yes`) or (absent, absent).

use vstd::prelude::*;
use vstd::slice::slice_subrange;
use crate::parsing::{is_ws, skip_ws, spec_find, find_sub};

verus! {

/// The first index at or after `i` holding a whitespace byte, or the
/// length.
pub open spec fn skip_non_ws(s: Seq<u8>, i: int) -> int
    recommends
        0 <= i <= s.len(),
    decreases s.len() - i,
{
    if i < 0 || i >= s.len() {
        s.len() as int
    } else if !is_ws(s[i]) {
        skip_non_ws(s, i + 1)
    } else {
        i
    }
}

proof fn lemma_skip_ws_at(s: Seq<u8>, i: int, j: int)
    requires
        0 <= i <= j <= s.len(),
        forall|k: int| i <= k < j ==> is_ws(s[k]),
        j == s.len() || !is_ws(s[j]),
    ensures
        skip_ws(s, i) == j,
    decreases j - i,
{
    if i < j {
        lemma_skip_ws_at(s, i + 1, j);
    }
}

proof fn lemma_skip_non_ws_at(s: Seq<u8>, i: int, j: int)
    requires
        0 <= i <= j <= s.len(),
        forall|k: int| i <= k < j ==> !is_ws(s[k]),
        j == s.len() || is_ws(s[j]),
    ensures
        skip_non_ws(s, i) == j,
    decreases j - i,
{
    if i < j {
        lemma_skip_non_ws_at(s, i + 1, j);
    }
}

/// ASCII lowercase of one byte.
pub open spec fn spec_lower(b: u8) -> u8 {
    if 65 <= b <= 90 {
        (b + 32) as u8
    } else {
        b
    }
}

/// ASCII lowercase of a byte sequence.
pub open spec fn lower_seq(s: Seq<u8>) -> Seq<u8> {
    s.map_values(|b: u8| spec_lower(b))
}

/// The first two whitespace-separated tokens of a line, if it has two.
pub open spec fn line_tokens(line: Seq<u8>) -> Option<(Seq<u8>, Seq<u8>)> {
    let a = skip_ws(line, 0);
    if a >= line.len() {
        None
    } else {
        let b = skip_non_ws(line, a);
        let c = skip_ws(line, b);
        if c >= line.len() {
            None
        } else {
            let d = skip_non_ws(line, c);
            Some((line.subrange(a, b), line.subrange(c, d)))
        }
    }
}

/// The bytes of `"useplatformclock"`.
pub open spec fn useplatformclock_pat() -> Seq<u8> {
    seq![
        117u8, 115u8, 101u8, 112u8, 108u8, 97u8, 116u8, 102u8, 111u8, 114u8, 109u8, 99u8, 108u8,
        111u8, 99u8, 107u8,
    ]
}

/// The bytes of `"disabledynamictick"`.
pub open spec fn disabledynamictick_pat() -> Seq<u8> {
    seq![
        100u8, 105u8, 115u8, 97u8, 98u8, 108u8, 101u8, 100u8, 121u8, 110u8, 97u8, 109u8, 105u8,
        99u8, 116u8, 105u8, 99u8, 107u8,
    ]
}

/// The bytes of `"yes"`.
pub open spec fn yes_pat() -> Seq<u8> {
    seq![121u8, 101u8, 115u8]
}

/// The bytes of `"no"`.
pub open spec fn no_pat() -> Seq<u8> {
    seq![110u8, 111u8]
}

/// Fold one line into the two settings; later occurrences win.
pub open spec fn upd_settings(
    line: Seq<u8>,
    upc: Option<Seq<u8>>,
    ddt: Option<Seq<u8>>,
) -> (Option<Seq<u8>>, Option<Seq<u8>>) {
    match line_tokens(line) {
        None => (upc, ddt),
        Some(t) => {
            let key = lower_seq(t.0);
            let val = lower_seq(t.1);
            if key == useplatformclock_pat() {
                (Some(val), ddt)
            } else if key == disabledynamictick_pat() {
                (upc, Some(val))
            } else {
                (upc, ddt)
            }
        },
    }
}

/// Fold the whole listing, line by line.
pub open spec fn spec_scan_boot(
    s: Seq<u8>,
    upc: Option<Seq<u8>>,
    ddt: Option<Seq<u8>>,
) -> (Option<Seq<u8>>, Option<Seq<u8>>)
    decreases s.len(),
{
    if s.len() == 0 {
        (upc, ddt)
    } else {
        let nl = spec_find(s, seq![10u8], 0);
        if 0 <= nl < s.len() {
            let folded = upd_settings(s.take(nl), upc, ddt);
            spec_scan_boot(s.skip(nl + 1), folded.0, folded.1)
        } else {
            upd_settings(s, upc, ddt)
        }
    }
}

/// The platform clock is disabled when `useplatformclock` is `no` or absent
/// and `disabledynamictick` is `yes`, or when both are absent.
pub open spec fn spec_hpet_disabled(upc: Option<Seq<u8>>, ddt: Option<Seq<u8>>) -> bool {
    match (upc, ddt) {
        (Some(x), Some(y)) => x == no_pat() && y == yes_pat(),
        (None, Some(y)) => y == yes_pat(),
        (None, None) => true,
        (Some(_), None) => false,
    }
}

/// The two extracted tokens of one line, lowercased, as vectors.
fn extract_tokens(s: &[u8], from: usize, to: usize) -> (r: Option<(Vec<u8>, Vec<u8>)>)
    requires
        from <= to <= s@.len(),
    ensures
        ({
            let line = s@.subrange(from as int, to as int);
            match r {
                Some(t) => line_tokens(line) is Some && t.0@ == lower_seq(
                    line_tokens(line).unwrap().0,
                ) && t.1@ == lower_seq(line_tokens(line).unwrap().1),
                None => line_tokens(line) is None,
            }
        }),
{
    let ghost line = s@.subrange(from as int, to as int);
    // First token start.
    let mut a: usize = from;
    while a < to && (s[a] == 32 || s[a] == 9 || s[a] == 10 || s[a] == 13)
        invariant
            from <= a <= to <= s@.len(),
            forall|k: int| from <= k < a ==> is_ws(s@[k]),
        decreases to - a,
    {
        a = a + 1;
    }
    proof {
        assert forall|k: int| 0 <= k < a - from implies is_ws(line[k]) by {
            assert(line[k] == s@[from + k]);
        }
        lemma_skip_ws_at(line, 0, a - from);
    }
    if a == to {
        return None;
    }
    // First token end.
    let mut b: usize = a;
    while b < to && !(s[b] == 32 || s[b] == 9 || s[b] == 10 || s[b] == 13)
        invariant
            a <= b <= to <= s@.len(),
            forall|k: int| a <= k < b ==> !is_ws(s@[k]),
        decreases to - b,
    {
        b = b + 1;
    }
    proof {
        assert forall|k: int| a - from <= k < b - from implies !is_ws(line[k]) by {
            assert(line[k] == s@[from + k]);
        }
        lemma_skip_non_ws_at(line, a - from, b - from);
    }
    // Second token start.
    let mut c: usize = b;
    while c < to && (s[c] == 32 || s[c] == 9 || s[c] == 10 || s[c] == 13)
        invariant
            b <= c <= to <= s@.len(),
            forall|k: int| b <= k < c ==> is_ws(s@[k]),
        decreases to - c,
    {
        c = c + 1;
    }
    proof {
        assert forall|k: int| b - from <= k < c - from implies is_ws(line[k]) by {
            assert(line[k] == s@[from + k]);
        }
        lemma_skip_ws_at(line, b - from, c - from);
    }
    if c == to {
        return None;
    }
    // Second token end.
    let mut d: usize = c;
    while d < to && !(s[d] == 32 || s[d] == 9 || s[d] == 10 || s[d] == 13)
        invariant
            c <= d <= to <= s@.len(),
            forall|k: int| c <= k < d ==> !is_ws(s@[k]),
        decreases to - d,
    {
        d = d + 1;
    }
    proof {
        assert forall|k: int| c - from <= k < d - from implies !is_ws(line[k]) by {
            assert(line[k] == s@[from + k]);
        }
        lemma_skip_non_ws_at(line, c - from, d - from);
    }
    let key = lower_copy(s, a, b);
    let val = lower_copy(s, c, d);
    proof {
        assert(line.subrange(a - from, b - from) =~= s@.subrange(a as int, b as int));
        assert(line.subrange(c - from, d - from) =~= s@.subrange(c as int, d as int));
    }
    Some((key, val))
}

/// A lowercased copy of `s[from..to]`.
fn lower_copy(s: &[u8], from: usize, to: usize) -> (r: Vec<u8>)
    requires
        from <= to <= s@.len(),
    ensures
        r@ == lower_seq(s@.subrange(from as int, to as int)),
{
    let ghost seg = s@.subrange(from as int, to as int);
    let mut r: Vec<u8> = Vec::new();
    let mut i: usize = from;
    proof {
        assert(r@ =~= lower_seq(seg.take(0)));
    }
    while i < to
        invariant
            from <= i <= to <= s@.len(),
            seg == s@.subrange(from as int, to as int),
            r@ == lower_seq(seg.take(i - from)),
        decreases to - i,
    {
        let byte = s[i];
        let low: u8 = if byte >= 65 && byte <= 90 {
            byte + 32
        } else {
            byte
        };
        r.push(low);
        proof {
            assert(seg[i - from] == s@[i as int]);
            assert(lower_seq(seg.take(i - from + 1)) =~= lower_seq(seg.take(i - from)).push(
                spec_lower(seg[i - from]),
            ));
        }
        i = i + 1;
    }
    proof {
        assert(seg.take(seg.len() as int) =~= seg);
    }
    r
}

/// Whether a lowered token equals a pattern.
fn token_is(token: &Vec<u8>, pat: &[u8]) -> (r: bool)
    ensures
        r == (token@ == pat@),
{
    if token.len() != pat.len() {
        proof {
            assert(token@.len() != pat@.len());
        }
        return false;
    }
    let mut k: usize = 0;
    while k < pat.len()
        invariant
            0 <= k <= pat@.len(),
            token@.len() == pat@.len(),
            forall|t: int| 0 <= t < k ==> token@[t] == pat@[t],
        decreases pat@.len() - k,
    {
        if token[k] != pat[k] {
            return false;
        }
        k = k + 1;
    }
    proof {
        assert(token@ =~= pat@);
    }
    true
}

/// Scan a boot-configuration listing and decide whether the platform clock
/// is disabled.
#[verifier::rlimit(100)]
pub fn hpet_disabled_from_listing(output: &[u8]) -> (r: bool)
    ensures
        ({
            let folded = spec_scan_boot(output@, None, None);
            r == spec_hpet_disabled(folded.0, folded.1)
        }),
{
    let len = output.len();
    let nl_pat: [u8; 1] = [10u8];
    let upc_bytes: [u8; 16] = [
        117u8, 115u8, 101u8, 112u8, 108u8, 97u8, 116u8, 102u8, 111u8, 114u8, 109u8, 99u8, 108u8,
        111u8, 99u8, 107u8,
    ];
    let ddt_bytes: [u8; 18] = [
        100u8, 105u8, 115u8, 97u8, 98u8, 108u8, 101u8, 100u8, 121u8, 110u8, 97u8, 109u8, 105u8,
        99u8, 116u8, 105u8, 99u8, 107u8,
    ];
    let yes_bytes: [u8; 3] = [121u8, 101u8, 115u8];
    let no_bytes: [u8; 2] = [110u8, 111u8];
    proof {
        assert(nl_pat@ =~= seq![10u8]);
        assert(upc_bytes@ =~= useplatformclock_pat());
        assert(ddt_bytes@ =~= disabledynamictick_pat());
        assert(yes_bytes@ =~= yes_pat());
        assert(no_bytes@ =~= no_pat());
    }
    let mut upc: Option<Vec<u8>> = None;
    let mut ddt: Option<Vec<u8>> = None;
    let ghost mut upc_g: Option<Seq<u8>> = None;
    let ghost mut ddt_g: Option<Seq<u8>> = None;
    let mut pos: usize = 0;
    proof {
        assert(output@.skip(0) =~= output@);
    }
    while pos < len
        invariant
            0 <= pos <= len,
            len == output@.len(),
            nl_pat@ == seq![10u8],
            upc_bytes@ == useplatformclock_pat(),
            ddt_bytes@ == disabledynamictick_pat(),
            yes_bytes@ == yes_pat(),
            no_bytes@ == no_pat(),
            match upc {
                Some(ref v) => upc_g == Some(v@),
                None => upc_g is None,
            },
            match ddt {
                Some(ref v) => ddt_g == Some(v@),
                None => ddt_g is None,
            },
            spec_scan_boot(output@.skip(pos as int), upc_g, ddt_g) == spec_scan_boot(
                output@,
                None,
                None,
            ),
        decreases len - pos,
    {
        let ghost s_rem = output@.skip(pos as int);
        let rem = slice_subrange(output, pos, len);
        proof {
            assert(rem@ =~= s_rem);
        }
        let nl = find_sub(rem, nl_pat.as_slice(), 0);
        let line_end: usize = match nl {
            Some(p) => pos + p,
            None => len,
        };
        let next_pos: usize = match nl {
            Some(p) => pos + p + 1,
            None => len,
        };
        let ghost line = if spec_find(s_rem, seq![10u8], 0) == -1 {
            s_rem
        } else {
            s_rem.take(spec_find(s_rem, seq![10u8], 0))
        };
        proof {
            match nl {
                Some(p) => {
                    assert(output@.subrange(pos as int, line_end as int) =~= line);
                },
                None => {
                    assert(output@.subrange(pos as int, line_end as int) =~= s_rem);
                },
            }
        }
        let ghost upc_g0 = upc_g;
        let ghost ddt_g0 = ddt_g;
        match extract_tokens(output, pos, line_end) {
            Some(t) => {
                let (key, val) = t;
                if token_is(&key, upc_bytes.as_slice()) {
                    upc = Some(val);
                    proof {
                        upc_g = Some(lower_seq(line_tokens(line).unwrap().1));
                    }
                } else if token_is(&key, ddt_bytes.as_slice()) {
                    ddt = Some(val);
                    proof {
                        ddt_g = Some(lower_seq(line_tokens(line).unwrap().1));
                    }
                }
            },
            None => {},
        }
        proof {
            assert((upc_g, ddt_g) == upd_settings(line, upc_g0, ddt_g0));
            let nlg = spec_find(s_rem, seq![10u8], 0);
            if nlg == -1 {
                assert(next_pos == len);
                assert(output@.skip(next_pos as int) =~= Seq::<u8>::empty());
                assert(spec_scan_boot(s_rem, upc_g0, ddt_g0) == (upc_g, ddt_g));
            } else {
                assert(output@.skip(next_pos as int) =~= s_rem.skip(nlg + 1));
            }
            assert(spec_scan_boot(s_rem, upc_g0, ddt_g0) == spec_scan_boot(
                output@.skip(next_pos as int),
                upc_g,
                ddt_g,
            ));
        }
        pos = next_pos;
    }
    proof {
        assert(output@.skip(len as int) =~= Seq::<u8>::empty());
        assert(spec_scan_boot(output@, None, None) == (upc_g, ddt_g));
    }
    match (&upc, &ddt) {
        (Some(x), Some(y)) => token_is(x, no_bytes.as_slice()) && token_is(
            y,
            yes_bytes.as_slice(),
        ),
        (None, Some(y)) => token_is(y, yes_bytes.as_slice()),
        (None, None) => true,
        (Some(_), None) => false,
    }
}

/// The status label shown for the platform clock.
pub fn hpet_status_label(disabled: bool) -> (r: &'static str)
    ensures
        disabled ==> r@ == "disabled"@,
        !disabled ==> r@ == "enabled"@,
{
    if disabled {
        "disabled"
    } else {
        "enabled"
    }
}

} // verus!
