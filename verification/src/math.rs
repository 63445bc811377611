//! Small integer helpers shared by the statistics and ranking code:
//! rounded division, absolute difference, and integer square roots.

use vstd::prelude::*;

verus! {

/// `a / b` rounded to the nearest integer, halves rounding up.
pub open spec fn spec_div_round(a: int, b: int) -> int
    recommends
        b > 0,
{
    (a + b / 2) / b
}

/// Rounded division on `u64`, pinned to `spec_div_round`.
pub fn div_round(a: u64, b: u64) -> (r: u64)
    requires
        b > 0,
        a + b / 2 <= u64::MAX,
    ensures
        r == spec_div_round(a as int, b as int),
{
    (a + b / 2) / b
}

/// Absolute difference of two unsigned values.
pub open spec fn spec_abs_diff(a: int, b: int) -> int {
    if a >= b {
        a - b
    } else {
        b - a
    }
}

/// `|a - b|` on `u64`, pinned to `spec_abs_diff`.
pub fn abs_diff(a: u64, b: u64) -> (r: u64)
    ensures
        r == spec_abs_diff(a as int, b as int),
{
    if a >= b {
        a - b
    } else {
        b - a
    }
}

/// The integer square root: the unique `r` with `r * r <= n < (r + 1) * (r + 1)`.
pub open spec fn spec_isqrt(n: int) -> int
    recommends
        n >= 0,
{
    choose|r: int| 0 <= r && #[trigger] (r * r) <= n && n < (r + 1) * (r + 1)
}

/// The integer square root is unique: any `r` in the defining range equals
/// `spec_isqrt(n)`.
pub proof fn lemma_isqrt_unique(n: int, r: int)
    requires
        0 <= r,
        r * r <= n,
        n < (r + 1) * (r + 1),
    ensures
        r == spec_isqrt(n),
{
    let s = spec_isqrt(n);
    assert(0 <= s && s * s <= n && n < (s + 1) * (s + 1)) by {
        assert(0 <= r && r * r <= n && n < (r + 1) * (r + 1));
    }
    if r < s {
        assert((r + 1) * (r + 1) <= s * s) by (nonlinear_arith)
            requires
                0 <= r,
                r < s,
        ;
    }
    if s < r {
        assert((s + 1) * (s + 1) <= r * r) by (nonlinear_arith)
            requires
                0 <= s,
                s < r,
        ;
    }
}

/// Floor integer square root over `u128`, used for sums of squares that do
/// not fit in 64 bits.
pub fn isqrt128(n: u128) -> (r: u128)
    requires
        n < 0x4000_0000_0000_0000_0000_0000_0000_0000u128,
    ensures
        r * r <= n,
        n < (r + 1) * (r + 1),
        r == spec_isqrt(n as int),
{
    let mut lo: u128 = 0;
    let mut hi: u128 = 0x8000_0000_0000_0000u128;
    assert(hi * hi == 0x4000_0000_0000_0000_0000_0000_0000_0000u128) by (nonlinear_arith)
        requires
            hi == 0x8000_0000_0000_0000u128,
    ;
    while lo + 1 < hi
        invariant
            lo < hi,
            hi <= 0x8000_0000_0000_0000u128,
            lo * lo <= n,
            n < hi * hi,
        decreases hi - lo,
    {
        let mid: u128 = lo + (hi - lo) / 2;
        assert(mid * mid < 0x4000_0000_0000_0000_0000_0000_0000_0001u128) by (nonlinear_arith)
            requires
                mid <= 0x8000_0000_0000_0000u128,
        ;
        if mid * mid <= n {
            lo = mid;
        } else {
            hi = mid;
        }
    }
    proof {
        lemma_isqrt_unique(n as int, lo as int);
    }
    lo
}

/// Floor integer square root over `u64`.
pub fn isqrt(n: u64) -> (r: u64)
    ensures
        r * r <= n,
        n < (r + 1) * (r + 1),
        r == spec_isqrt(n as int),
{
    let wide: u128 = isqrt128(n as u128);
    proof {
        assert(wide * wide <= n);
        assert(wide < 0x1_0000_0000_0000_0000u128) by (nonlinear_arith)
            requires
                wide * wide <= n,
                n < 0x1_0000_0000_0000_0000u128,
        ;
    }
    wide as u64
}

/// `spec_isqrt(n)` actually satisfies its defining property (it does whenever
/// some witness exists; this predicate records that a witness exists).
pub open spec fn spec_isqrt_valid(n: int) -> bool {
    let r = spec_isqrt(n);
    0 <= r && r * r <= n && n < (r + 1) * (r + 1)
}

/// If `a` is at most `n * c + (n - 1)`, then `a / n` is at most `c`.
pub proof fn lemma_div_le_bound(a: int, n: int, c: int)
    requires
        n >= 1,
        c >= 0,
        0 <= a <= n * c + (n - 1),
    ensures
        0 <= a / n <= c,
{
    assert(n * c + (n - 1) == c * n + (n - 1)) by (nonlinear_arith);
    vstd::arithmetic::div_mod::lemma_div_is_ordered(a, n * c + (n - 1), n);
    vstd::arithmetic::div_mod::lemma_fundamental_div_mod_converse(n * c + (n - 1), n, c, n - 1);
    vstd::arithmetic::div_mod::lemma_div_pos_is_pos(a, n);
}

/// A rounded quotient of a sum of at most `n` values bounded by `c` is itself
/// bounded by `c`.
pub proof fn lemma_div_round_le_bound(total: int, n: int, c: int)
    requires
        n >= 1,
        c >= 0,
        0 <= total <= n * c,
    ensures
        0 <= spec_div_round(total, n) <= c,
{
    lemma_div_le_bound(total + n / 2, n, c);
}

} // verus!
