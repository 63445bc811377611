//! Reading and writing fixed-point millisecond values.
//!
//! A duration is carried as an integer number of 100-ns units
//! (`UNITS_PER_MS` per millisecond). Text in milliseconds is parsed to the
//! nearest unit and written back with exactly four decimal places.

use vstd::prelude::*;

verus! {

/// An ASCII decimal digit.
pub open spec fn is_digit(b: u8) -> bool {
    48 <= b <= 57
}

/// All bytes of the sequence are ASCII digits.
pub open spec fn all_digits(s: Seq<u8>) -> bool {
    forall|i: int| 0 <= i < s.len() ==> is_digit(#[trigger] s[i])
}

/// The value of a big-endian digit string.
pub open spec fn digits_val(s: Seq<u8>) -> int
    decreases s.len(),
{
    if s.len() == 0 {
        0
    } else {
        digits_val(s.drop_last()) * 10 + (s.last() - 48)
    }
}

pub open spec fn spec_pow10(k: int) -> int
    decreases k,
{
    if k <= 0 {
        1
    } else {
        10 * spec_pow10(k - 1)
    }
}

/// The index of the first `.` in `s`, or `-1`.
pub open spec fn first_dot(s: Seq<u8>) -> int
    decreases s.len(),
{
    if s.len() == 0 {
        -1
    } else if s[0] == 46 {
        0
    } else if first_dot(s.drop_first()) == -1 {
        -1
    } else {
        first_dot(s.drop_first()) + 1
    }
}

/// The 100-ns units encoded by a fraction digit string: its first four
/// digits, zero-padded, rounded to nearest by the fifth digit (halves up).
pub open spec fn frac_units(f: Seq<u8>) -> int {
    let k: int = if f.len() < 4 {
        f.len() as int
    } else {
        4
    };
    let base = digits_val(f.take(k)) * spec_pow10(4 - k);
    if f.len() > 4 && f[4] >= 53 {
        base + 1
    } else {
        base
    }
}

/// Parse a plain non-negative decimal written in milliseconds into 100-ns
/// units, rounding at the fourth decimal place. Accepts `D+`, `D+.D*` and
/// `.D+` with at most ten integer digits; anything else is `None`.
pub open spec fn spec_parse_units(s: Seq<u8>) -> Option<u64> {
    let d = first_dot(s);
    if s.len() == 0 {
        None
    } else if d == -1 {
        if all_digits(s) && s.len() <= 10 {
            Some((digits_val(s) * 10_000) as u64)
        } else {
            None
        }
    } else {
        let ip = s.take(d);
        let fp = s.skip(d + 1);
        if all_digits(ip) && all_digits(fp) && ip.len() <= 10 && (ip.len() + fp.len() >= 1) {
            Some((digits_val(ip) * 10_000 + frac_units(fp)) as u64)
        } else {
            None
        }
    }
}

pub proof fn lemma_digits_val_bounds(s: Seq<u8>)
    requires
        all_digits(s),
        s.len() <= 10,
    ensures
        0 <= digits_val(s) < 10_000_000_000int,
{
    lemma_digits_val_small(s);
    lemma_pow10_le(s.len() as int, 10);
    lemma_pow10_values();
}

pub proof fn lemma_digits_val_nonneg(s: Seq<u8>)
    requires
        all_digits(s),
    ensures
        digits_val(s) >= 0,
    decreases s.len(),
{
    if s.len() > 0 {
        lemma_digits_val_nonneg(s.drop_last());
    }
}

/// A digit string of length `k` has value below `10^k`.
pub proof fn lemma_digits_val_small(s: Seq<u8>)
    requires
        all_digits(s),
    ensures
        digits_val(s) < spec_pow10(s.len() as int),
        digits_val(s) >= 0,
    decreases s.len(),
{
    if s.len() > 0 {
        lemma_digits_val_small(s.drop_last());
        assert(spec_pow10(s.len() as int) == 10 * spec_pow10(s.len() as int - 1));
    }
}

pub proof fn lemma_pow10_le(a: int, b: int)
    requires
        a <= b,
    ensures
        spec_pow10(a) <= spec_pow10(b),
        spec_pow10(a) >= 1,
    decreases b - a,
{
    if a < b {
        lemma_pow10_le(a, b - 1);
    } else {
        lemma_pow10_pos(a);
    }
}

pub proof fn lemma_pow10_pos(a: int)
    ensures
        spec_pow10(a) >= 1,
    decreases
            (if a > 0 {
                a
            } else {
                0
            }),
{
    if a > 0 {
        lemma_pow10_pos(a - 1);
    }
}

pub proof fn lemma_frac_units_bound(f: Seq<u8>)
    requires
        all_digits(f),
    ensures
        0 <= frac_units(f) <= 10_000,
{
    let k: int = if f.len() < 4 {
        f.len() as int
    } else {
        4
    };
    assert(all_digits(f.take(k)));
    assert(f.take(k).len() == k);
    lemma_digits_val_small(f.take(k));
    lemma_pow10_pos(4 - k);
    lemma_pow10_mul(k, 4 - k);
    lemma_pow10_values();
    let dv = digits_val(f.take(k));
    let q = spec_pow10(4 - k);
    let p = spec_pow10(k);
    assert(dv * q <= (p - 1) * q) by (nonlinear_arith)
        requires
            dv <= p - 1,
            0 <= dv,
            q >= 1,
    ;
    assert((p - 1) * q == p * q - q) by (nonlinear_arith);
    assert(dv * q >= 0) by (nonlinear_arith)
        requires
            dv >= 0,
            q >= 1,
    ;
    assert(p * q == spec_pow10(4));
    assert(dv * q <= 10_000 - q);
}

pub proof fn lemma_pow10_mul(a: int, b: int)
    requires
        a >= 0,
        b >= 0,
    ensures
        spec_pow10(a) * spec_pow10(b) == spec_pow10(a + b),
    decreases a,
{
    if a == 0 {
    } else {
        lemma_pow10_mul(a - 1, b);
        assert((10 * spec_pow10(a - 1)) * spec_pow10(b) == 10 * (spec_pow10(a - 1) * spec_pow10(
            b,
        ))) by (nonlinear_arith);
    }
}

/// The small powers of ten, unfolded.
pub proof fn lemma_pow10_values()
    ensures
        spec_pow10(0) == 1,
        spec_pow10(1) == 10,
        spec_pow10(2) == 100,
        spec_pow10(3) == 1_000,
        spec_pow10(4) == 10_000,
        spec_pow10(9) == 1_000_000_000,
        spec_pow10(10) == 10_000_000_000,
{
    assert(spec_pow10(0) == 1);
    assert(spec_pow10(1) == 10);
    assert(spec_pow10(2) == 100);
    assert(spec_pow10(3) == 1_000);
    assert(spec_pow10(4) == 10_000);
    assert(spec_pow10(5) == 100_000);
    assert(spec_pow10(6) == 1_000_000);
    assert(spec_pow10(7) == 10_000_000);
    assert(spec_pow10(8) == 100_000_000);
    assert(spec_pow10(9) == 1_000_000_000);
    assert(spec_pow10(10) == 10_000_000_000);
}

/// Parse a plain decimal number of milliseconds into 100-ns units.
pub fn parse_decimal_units(s: &[u8]) -> (r: Option<u64>)
    ensures
        r == spec_parse_units(s@),
{
    let n = s.len();
    if n == 0 {
        return None;
    }
    // Find the first dot.
    let mut dot: usize = 0;
    let mut found = false;
    let mut i: usize = 0;
    while i < n
        invariant
            0 <= i <= n,
            n == s@.len(),
            !found ==> forall|k: int| 0 <= k < i ==> s@[k] != 46,
            found ==> 0 <= dot < i && s@[dot as int] == 46 && forall|k: int|
                0 <= k < dot ==> s@[k] != 46,
        decreases n - i,
    {
        if s[i] == 46 && !found {
            dot = i;
            found = true;
        }
        i = i + 1;
    }
    proof {
        if found {
            lemma_first_dot_at(s@, dot as int);
        } else {
            lemma_first_dot_none(s@);
        }
    }
    proof {
        assert(s@.subrange(0, n as int) =~= s@);
    }
    if !found {
        if n > 10 {
            return None;
        }
        match digits_value(s, 0, n) {
            Some(v) => {
                proof {
                    assert(s@.subrange(0, n as int) =~= s@);
                    lemma_digits_val_bounds(s@);
                }
                Some(v * 10_000)
            },
            None => None,
        }
    } else {
        let ip_len = dot;
        let fp_len = n - dot - 1;
        if ip_len > 10 || ip_len + fp_len < 1 {
            // Too many integer digits, or a bare "." with no digits at all.
            proof {
                assert(s@.take(dot as int).len() == dot);
                assert(s@.skip(dot as int + 1).len() == fp_len);
            }
            return None;
        }
        let iv: Option<u64> = if dot == 0 {
            proof {
                assert(s@.take(0) =~= Seq::<u8>::empty());
            }
            Some(0)
        } else {
            digits_value(s, 0, dot)
        };
        let fv_ok = check_digits(s, dot + 1, n);
        proof {
            assert(s@.subrange(0, dot as int) =~= s@.take(dot as int));
            assert(s@.subrange(dot as int + 1, n as int) =~= s@.skip(dot as int + 1));
        }
        match iv {
            Some(ivv) => {
                if !fv_ok {
                    return None;
                }
                proof {
                    lemma_digits_val_bounds(s@.take(dot as int));
                }
                let fu = frac_value(s, dot + 1, n);
                Some(ivv * 10_000 + fu)
            },
            None => None,
        }
    }
}

/// The digits of `s[from..to]` as a value, or `None` when a byte is not a
/// digit or the range is empty.
fn digits_value(s: &[u8], from: usize, to: usize) -> (r: Option<u64>)
    requires
        from <= to <= s@.len(),
        to - from <= 10,
    ensures
        r is Some <==> (all_digits(s@.subrange(from as int, to as int)) && to - from >= 1),
        r is Some ==> r.unwrap() as int == digits_val(s@.subrange(from as int, to as int)),
{
    if from == to {
        proof {
            assert(s@.subrange(from as int, to as int).len() == 0);
        }
        return None;
    }
    let mut v: u64 = 0;
    let mut i: usize = from;
    while i < to
        invariant
            from <= i <= to <= s@.len(),
            to - from <= 10,
            all_digits(s@.subrange(from as int, i as int)),
            v as int == digits_val(s@.subrange(from as int, i as int)),
            v < 10_000_000_000u64,
        decreases to - i,
    {
        let b = s[i];
        if b < 48 || b > 57 {
            proof {
                assert(s@.subrange(from as int, to as int)[i - from] == s@[i as int]);
                assert(!is_digit(s@[i as int]));
            }
            return None;
        }
        proof {
            assert(s@.subrange(from as int, i as int + 1).drop_last() =~= s@.subrange(
                from as int,
                i as int,
            ));
            assert(s@.subrange(from as int, i as int + 1).last() == s@[i as int]);
            lemma_digits_val_small(s@.subrange(from as int, i as int));
            lemma_pow10_le(i - from, 9);
            lemma_pow10_values();
        }
        v = v * 10 + ((b - 48) as u64);
        i = i + 1;
    }
    proof {
        assert(s@.subrange(from as int, to as int) =~= s@.subrange(from as int, i as int));
    }
    Some(v)
}

/// Whether every byte of `s[from..to]` is a digit.
fn check_digits(s: &[u8], from: usize, to: usize) -> (r: bool)
    requires
        from <= to <= s@.len(),
    ensures
        r == all_digits(s@.subrange(from as int, to as int)),
{
    let mut i: usize = from;
    while i < to
        invariant
            from <= i <= to <= s@.len(),
            all_digits(s@.subrange(from as int, i as int)),
        decreases to - i,
    {
        let b = s[i];
        if b < 48 || b > 57 {
            proof {
                assert(s@.subrange(from as int, to as int)[i - from] == s@[i as int]);
            }
            return false;
        }
        proof {
            assert(s@.subrange(from as int, i as int + 1) =~= s@.subrange(
                from as int,
                i as int,
            ).push(s@[i as int]));
            assert forall|k: int|
                0 <= k < i + 1 - from implies is_digit(
                #[trigger] s@.subrange(from as int, i as int + 1)[k],
            ) by {
                if k < i - from {
                    assert(s@.subrange(from as int, i as int)[k] == s@.subrange(
                        from as int,
                        i as int + 1,
                    )[k]);
                }
            }
        }
        i = i + 1;
    }
    proof {
        assert(s@.subrange(from as int, to as int) =~= s@.subrange(from as int, i as int));
    }
    true
}

/// The 100-ns units of the all-digit fraction `s[from..to]`.
fn frac_value(s: &[u8], from: usize, to: usize) -> (r: u64)
    requires
        from <= to <= s@.len(),
        all_digits(s@.subrange(from as int, to as int)),
    ensures
        r as int == frac_units(s@.subrange(from as int, to as int)),
        r <= 10_000,
{
    let ghost f = s@.subrange(from as int, to as int);
    let len = to - from;
    let k: usize = if len < 4 {
        len
    } else {
        4
    };
    proof {
        assert(f.take(k as int) =~= s@.subrange(from as int, (from + k) as int));
    }
    let base10 = match digits_value(s, from, from + k) {
        Some(v) => v,
        None => 0,
    };
    proof {
        if k > 0 {
            assert(all_digits(f.take(k as int)));
        } else {
            assert(f.take(0) =~= Seq::<u8>::empty());
        }
        lemma_digits_val_small(f.take(k as int));
        lemma_pow10_le(k as int, 4);
    }
    let scale: u64 = if k == 0 {
        10_000
    } else if k == 1 {
        1_000
    } else if k == 2 {
        100
    } else if k == 3 {
        10
    } else {
        1
    };
    proof {
        lemma_pow10_values();
        assert((digits_val(f.take(k as int))) * (scale as int) <= (spec_pow10(k as int) - 1) * (
        scale as int)) by (nonlinear_arith)
            requires
                digits_val(f.take(k as int)) <= spec_pow10(k as int) - 1,
                0 <= digits_val(f.take(k as int)),
                scale >= 1,
        ;
        lemma_pow10_mul(k as int, 4 - k as int);
        assert((spec_pow10(k as int) - 1) * (scale as int) == spec_pow10(4) - scale)
            by (nonlinear_arith)
            requires
                scale as int == spec_pow10(4 - k as int),
                spec_pow10(k as int) * spec_pow10(4 - k as int) == spec_pow10(4),
        ;
    }
    let base = base10 * scale;
    if len > 4 {
        let fifth = s[from + 4];
        proof {
            assert(f[4] == s@[(from + 4) as int]);
        }
        if fifth >= 53 {
            base + 1
        } else {
            base
        }
    } else {
        base
    }
}

proof fn lemma_first_dot_at(s: Seq<u8>, d: int)
    requires
        0 <= d < s.len(),
        s[d] == 46,
        forall|k: int| 0 <= k < d ==> s[k] != 46,
    ensures
        first_dot(s) == d,
    decreases d,
{
    if d == 0 {
    } else {
        assert(s[0] != 46);
        assert(s.drop_first()[d - 1] == s[d]);
        assert(forall|k: int| 0 <= k < d - 1 ==> s.drop_first()[k] == s[k + 1] && s[k + 1] != 46);
        lemma_first_dot_at(s.drop_first(), d - 1);
    }
}

proof fn lemma_first_dot_none(s: Seq<u8>)
    requires
        forall|k: int| 0 <= k < s.len() ==> s[k] != 46,
    ensures
        first_dot(s) == -1,
    decreases s.len(),
{
    if s.len() > 0 {
        assert(forall|k: int|
            0 <= k < s.drop_first().len() ==> s.drop_first()[k] == s[k + 1] && s[k + 1] != 46);
        lemma_first_dot_none(s.drop_first());
    }
}

/// An ASCII decimal digit character.
pub open spec fn spec_digit_char(d: int) -> char {
    if d == 0 {
        '0'
    } else if d == 1 {
        '1'
    } else if d == 2 {
        '2'
    } else if d == 3 {
        '3'
    } else if d == 4 {
        '4'
    } else if d == 5 {
        '5'
    } else if d == 6 {
        '6'
    } else if d == 7 {
        '7'
    } else if d == 8 {
        '8'
    } else {
        '9'
    }
}

/// The decimal digit string of a non-negative integer.
pub open spec fn spec_dec_str(n: int) -> Seq<char>
    decreases n,
{
    if n < 10 {
        seq![spec_digit_char(n)]
    } else {
        spec_dec_str(n / 10) + seq![spec_digit_char(n % 10)]
    }
}

/// A units value written in milliseconds with four decimal places.
pub open spec fn spec_ms_str(units: int) -> Seq<char> {
    spec_dec_str(units / 10_000) + seq!['.'] + seq![
        spec_digit_char((units / 1_000) % 10),
        spec_digit_char((units / 100) % 10),
        spec_digit_char((units / 10) % 10),
        spec_digit_char(units % 10),
    ]
}

/// A signed units value in milliseconds: a minus sign before the digits when
/// negative.
pub open spec fn spec_signed_ms_str(v: int) -> Seq<char> {
    if v < 0 {
        seq!['-'] + spec_ms_str(-v)
    } else {
        spec_ms_str(v)
    }
}

/// One digit as a string slice.
fn digit_str(d: u64) -> (r: &'static str)
    requires
        d < 10,
    ensures
        r@ =~= seq![spec_digit_char(d as int)],
{
    proof {
        reveal_strlit("0");
        reveal_strlit("1");
        reveal_strlit("2");
        reveal_strlit("3");
        reveal_strlit("4");
        reveal_strlit("5");
        reveal_strlit("6");
        reveal_strlit("7");
        reveal_strlit("8");
        reveal_strlit("9");
    }
    if d == 0 {
        "0"
    } else if d == 1 {
        "1"
    } else if d == 2 {
        "2"
    } else if d == 3 {
        "3"
    } else if d == 4 {
        "4"
    } else if d == 5 {
        "5"
    } else if d == 6 {
        "6"
    } else if d == 7 {
        "7"
    } else if d == 8 {
        "8"
    } else {
        "9"
    }
}

/// The decimal digit string of `n`.
pub fn fmt_u64(n: u64) -> (r: String)
    ensures
        r@ == spec_dec_str(n as int),
    decreases n,
{
    if n < 10 {
        let mut s = String::new();
        s.append(digit_str(n));
        proof {
            assert(s@ =~= spec_dec_str(n as int));
        }
        s
    } else {
        let mut s = fmt_u64(n / 10);
        s.append(digit_str(n % 10));
        proof {
            assert(s@ =~= spec_dec_str(n as int));
        }
        s
    }
}

/// The decimal digit string of a `usize`.
pub fn fmt_usize(n: usize) -> (r: String)
    ensures
        r@ == spec_dec_str(n as int),
{
    fmt_u64(n as u64)
}

/// A units value written in milliseconds with exactly four decimal places,
/// e.g. `5_000` units as `0.5000`.
pub fn fmt_units_ms(units: u64) -> (r: String)
    ensures
        r@ == spec_ms_str(units as int),
{
    let mut s = fmt_u64(units / 10_000);
    proof {
        reveal_strlit(".");
    }
    s.append(".");
    s.append(digit_str((units / 1_000) % 10));
    s.append(digit_str((units / 100) % 10));
    s.append(digit_str((units / 10) % 10));
    s.append(digit_str(units % 10));
    proof {
        assert(s@ =~= spec_ms_str(units as int));
    }
    s
}

/// A signed units value in milliseconds with four decimal places.
pub fn fmt_signed_units_ms(v: i64) -> (r: String)
    requires
        v > i64::MIN,
    ensures
        r@ == spec_signed_ms_str(v as int),
{
    if v < 0 {
        let mut s = String::new();
        proof {
            reveal_strlit("-");
        }
        s.append("-");
        let t = fmt_units_ms((-v) as u64);
        s.append(t.as_str());
        proof {
            assert(s@ =~= spec_signed_ms_str(v as int));
        }
        s
    } else {
        fmt_units_ms(v as u64)
    }
}

/// The bytes of an ASCII character sequence.
pub open spec fn ascii_bytes(s: Seq<char>) -> Seq<u8> {
    s.map_values(|c: char| c as u8)
}

/// The digit string of `n` consists of digits and reads back as `n`.
pub proof fn lemma_dec_str_digits(n: int)
    requires
        0 <= n,
    ensures
        spec_dec_str(n).len() >= 1,
        all_digits(ascii_bytes(spec_dec_str(n))),
        digits_val(ascii_bytes(spec_dec_str(n))) == n,
    decreases n,
{
    if n < 10 {
        let s = ascii_bytes(spec_dec_str(n));
        assert(spec_digit_char(n) as u8 == 48 + n);
        assert(s =~= seq![(48 + n) as u8]);
        assert(s.drop_last() =~= Seq::<u8>::empty());
        assert(s.len() == 1);
        assert(s.last() == (48 + n) as u8);
        assert(digits_val(s.drop_last()) == 0);
        assert(digits_val(s) == digits_val(s.drop_last()) * 10 + (s.last() - 48));
    } else {
        lemma_dec_str_digits(n / 10);
        let prefix = ascii_bytes(spec_dec_str(n / 10));
        let s = ascii_bytes(spec_dec_str(n));
        assert(spec_digit_char(n % 10) as u8 == 48 + n % 10);
        assert(s =~= prefix.push((48 + n % 10) as u8));
        assert(s.drop_last() =~= prefix);
        assert(s.last() == (48 + n % 10) as u8);
        assert(digits_val(s) == digits_val(prefix) * 10 + n % 10);
        assert forall|i: int| 0 <= i < s.len() implies is_digit(#[trigger] s[i]) by {
            if i < prefix.len() {
                assert(s[i] == prefix[i]);
            }
        }
    }
}

/// The digit string of `n < 10^k` has at most `k` digits.
pub proof fn lemma_dec_str_len(n: int, k: int)
    requires
        0 <= n < spec_pow10(k),
        k >= 1,
    ensures
        spec_dec_str(n).len() <= k,
    decreases n,
{
    if n < 10 {
    } else {
        if k == 1 {
            assert(spec_pow10(1) == 10);
            assert(false);
        }
        assert(spec_pow10(k) == 10 * spec_pow10(k - 1));
        lemma_pow10_pos(k - 1);
        assert(n <= 10 * (spec_pow10(k - 1) - 1) + 9);
        crate::math::lemma_div_le_bound(n, 10, spec_pow10(k - 1) - 1);
        lemma_dec_str_len(n / 10, k - 1);
    }
}

/// Writing a units value with four decimal places and parsing it back
/// yields the value unchanged: the results document is exact to the 100-ns
/// unit.
pub proof fn lemma_ms_round_trip(u: u64)
    requires
        u < 100_000_000_000_000u64,
    ensures
        spec_parse_units(ascii_bytes(spec_ms_str(u as int))) == Some(u),
{
    let ui = u as int;
    let whole = ui / 10_000;
    vstd::arithmetic::div_mod::lemma_fundamental_div_mod(ui, 10_000);
    lemma_pow10_values();
    assert(whole < spec_pow10(10));
    lemma_dec_str_digits(whole);
    lemma_dec_str_len(whole, 10);
    let ip = ascii_bytes(spec_dec_str(whole));
    let d1 = (ui / 1_000) % 10;
    let d2 = (ui / 100) % 10;
    let d3 = (ui / 10) % 10;
    let d4 = ui % 10;
    assert(spec_digit_char(d1) as u8 == 48 + d1);
    assert(spec_digit_char(d2) as u8 == 48 + d2);
    assert(spec_digit_char(d3) as u8 == 48 + d3);
    assert(spec_digit_char(d4) as u8 == 48 + d4);
    let fp = seq![(48 + d1) as u8, (48 + d2) as u8, (48 + d3) as u8, (48 + d4) as u8];
    let b = ascii_bytes(spec_ms_str(ui));
    assert('.' as u8 == 46);
    assert(b =~= ip + seq![46u8] + fp);

    // The dot position.
    let dpos = ip.len() as int;
    assert(b[dpos] == 46);
    assert forall|k: int| 0 <= k < dpos implies b[k] != 46 by {
        assert(b[k] == ip[k]);
        assert(is_digit(ip[k]));
    }
    lemma_first_dot_at(b, dpos);
    assert(b.take(dpos) =~= ip);
    assert(b.skip(dpos + 1) =~= fp);

    // The fraction digits.
    assert(all_digits(fp)) by {
        assert(0 <= d1 < 10 && 0 <= d2 < 10 && 0 <= d3 < 10 && 0 <= d4 < 10);
        assert(fp[0] == (48 + d1) as u8 && fp[1] == (48 + d2) as u8 && fp[2] == (48 + d3) as u8
            && fp[3] == (48 + d4) as u8);
        assert(forall|k: int| 0 <= k < 4 ==> is_digit(#[trigger] fp[k]));
    }
    assert(fp.take(4) =~= fp);
    assert(digits_val(fp) == ((d1 * 10 + d2) * 10 + d3) * 10 + d4) by {
        let s3 = seq![(48 + d1) as u8, (48 + d2) as u8, (48 + d3) as u8];
        let s2 = seq![(48 + d1) as u8, (48 + d2) as u8];
        let s1 = seq![(48 + d1) as u8];
        assert(fp.drop_last() =~= s3);
        assert(s3.drop_last() =~= s2);
        assert(s2.drop_last() =~= s1);
        assert(s1.drop_last() =~= Seq::<u8>::empty());
        assert(digits_val(s1) == digits_val(s1.drop_last()) * 10 + (s1.last() - 48));
        assert(digits_val(s1) == d1);
        assert(digits_val(s2) == digits_val(s2.drop_last()) * 10 + (s2.last() - 48));
        assert(digits_val(s2) == d1 * 10 + d2);
        assert(digits_val(s3) == digits_val(s3.drop_last()) * 10 + (s3.last() - 48));
        assert(digits_val(s3) == (d1 * 10 + d2) * 10 + d3);
        assert(digits_val(fp) == digits_val(fp.drop_last()) * 10 + (fp.last() - 48));
    }
    assert(frac_units(fp) == digits_val(fp) * spec_pow10(0));

    // The four digits reassemble the fractional part of `u`.
    let c3 = ui / 10;
    let c2 = ui / 100;
    let c1 = ui / 1_000;
    vstd::arithmetic::div_mod::lemma_div_denominator(ui, 10, 10);
    vstd::arithmetic::div_mod::lemma_div_denominator(ui, 100, 10);
    vstd::arithmetic::div_mod::lemma_div_denominator(ui, 1_000, 10);
    assert(c3 / 10 == c2);
    assert(c2 / 10 == c1);
    assert(c1 / 10 == whole);
    vstd::arithmetic::div_mod::lemma_fundamental_div_mod(ui, 10);
    vstd::arithmetic::div_mod::lemma_fundamental_div_mod(c3, 10);
    vstd::arithmetic::div_mod::lemma_fundamental_div_mod(c2, 10);
    vstd::arithmetic::div_mod::lemma_fundamental_div_mod(c1, 10);
    assert(ui == 10 * c3 + d4);
    assert(c3 == 10 * c2 + d3);
    assert(c2 == 10 * c1 + d2);
    assert(c1 == 10 * whole + d1);
    assert(digits_val(fp) == ui - whole * 10_000);

    // Assemble the parsed value.
    assert(digits_val(ip) * 10_000 + frac_units(fp) == ui);
    assert(b.len() != 0);
    assert(ip.len() + fp.len() >= 1);
    assert(spec_parse_units(b) == Some((digits_val(ip) * 10_000 + frac_units(fp)) as u64));
}

/// The characterization of `first_dot`: it points at the first dot.
pub proof fn lemma_first_dot_props(s: Seq<u8>)
    ensures
        -1 <= first_dot(s) < s.len(),
        first_dot(s) == -1 ==> forall|k: int| 0 <= k < s.len() ==> s[k] != 46,
        first_dot(s) >= 0 ==> s[first_dot(s)] == 46 && forall|k: int|
            0 <= k < first_dot(s) ==> s[k] != 46,
    decreases s.len(),
{
    if s.len() == 0 {
    } else if s[0] == 46 {
    } else {
        lemma_first_dot_props(s.drop_first());
        if first_dot(s.drop_first()) == -1 {
            assert(first_dot(s) == -1);
            assert forall|k: int| 0 <= k < s.len() implies s[k] != 46 by {
                if k > 0 {
                    assert(s.drop_first()[k - 1] == s[k]);
                }
            }
        } else {
            let d0 = first_dot(s.drop_first());
            assert(0 <= d0 < s.drop_first().len());
            assert(first_dot(s) == d0 + 1);
            assert(s.drop_first()[d0] == s[d0 + 1]);
            assert forall|k: int| 0 <= k < first_dot(s) implies s[k] != 46 by {
                if k > 0 {
                    assert(s.drop_first()[k - 1] == s[k]);
                }
            }
        }
    }
}

} // verus!
